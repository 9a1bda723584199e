//! The shape of the external answering service's replies, the request
//! parameters the library assembles for it, and the checks on the questions
//! sent to it. The HTTP call itself happens outside the library.

use vstd::prelude::*;
use vstd::string::StringSliceAdditionalSpecFns;
use vstd::utf8::encode_utf8;
use crate::text::{is_space, is_whitespace_char, push_char, spec_opt_str, spec_trim, trim_str};

verus! {

/// Why a question was refused.
#[derive(Debug, Clone, Copy, PartialEq, Eq, Structural)]
pub enum QuestionError {
    TooLong,
    NotAQuestion,
}

/// How many chars of `s` are not whitespace.
pub open spec fn spec_non_space_count(s: Seq<char>) -> int
    decreases s.len(),
{
    if s.len() == 0 {
        0
    } else {
        spec_non_space_count(s.drop_last()) + if is_space(s.last()) {
            0int
        } else {
            1int
        }
    }
}

/// A question must be at most 120 bytes and hold at least five chars that
/// are not whitespace.
pub fn check_question(question: &str) -> (r: Result<(), QuestionError>)
    ensures
        match r {
            Ok(()) => question.spec_bytes().len() as usize <= 120 && spec_non_space_count(
                question@,
            ) >= 5,
            Err(QuestionError::TooLong) => question.spec_bytes().len() as usize > 120,
            Err(QuestionError::NotAQuestion) => question.spec_bytes().len() as usize <= 120
                && spec_non_space_count(question@) < 5,
        },
{
    if question.len() > 120 {
        return Err(QuestionError::TooLong);
    }
    let n = question.unicode_len();
    let mut count: usize = 0;
    let mut i: usize = 0;
    while i < n
        invariant
            n == question@.len(),
            i <= n,
            count <= i,
            count == spec_non_space_count(question@.take(i as int)),
        decreases n - i,
    {
        let c = question.get_char(i);
        proof {
            assert(question@.take(i + 1).drop_last() =~= question@.take(i as int));
            assert(question@.take(i + 1).last() == question@[i as int]);
        }
        if !is_whitespace_char(c) {
            count = count + 1;
        }
        i = i + 1;
    }
    proof {
        assert(question@.take(n as int) =~= question@);
    }
    if count < 5 {
        return Err(QuestionError::NotAQuestion);
    }
    Ok(())
}

/// A question's chars with the brackets made harmless.
pub open spec fn spec_bracket_clean(s: Seq<char>) -> Seq<char> {
    s.map_values(|c: char| if c == '[' || c == ']' { '/' } else { c })
}

/// A checked question wrapped for the prompt: `question: [<cleaned>]`.
pub fn sanitize_question(question: &str) -> (r: Result<String, QuestionError>)
    ensures
        match r {
            Ok(s) => {
                &&& question.spec_bytes().len() as usize <= 120
                &&& spec_non_space_count(question@) >= 5
                &&& s@ == "question: ["@ + spec_bracket_clean(question@) + "]"@
            },
            Err(e) => {
                &&& !(question.spec_bytes().len() as usize <= 120 && spec_non_space_count(
                    question@,
                ) >= 5)
                &&& Some(e) == spec_question_error(question)
            },
        },
{
    if let Err(e) = check_question(question) {
        return Err(e);
    }
    let n = question.unicode_len();
    let mut clean = String::new();
    let mut i: usize = 0;
    while i < n
        invariant
            n == question@.len(),
            i <= n,
            clean@ == spec_bracket_clean(question@.take(i as int)),
        decreases n - i,
    {
        let c = question.get_char(i);
        let mapped = if c == '[' || c == ']' {
            '/'
        } else {
            c
        };
        push_char(&mut clean, mapped);
        proof {
            assert(clean@ =~= spec_bracket_clean(question@.take(i + 1)));
        }
        i = i + 1;
    }
    proof {
        assert(question@.take(n as int) =~= question@);
    }
    let mut out = String::new();
    out.append("question: [");
    out.append(clean.as_str());
    out.append("]");
    Ok(out)
}

/// The error `check_question` settles on, as a spec value.
pub open spec fn spec_question_error(question: &str) -> Option<QuestionError> {
    if question.spec_bytes().len() as usize > 120 {
        Some(QuestionError::TooLong)
    } else if spec_non_space_count(question@) < 5 {
        Some(QuestionError::NotAQuestion)
    } else {
        None
    }
}

/// One piece of a reply message.
#[derive(Debug)]
pub enum ContentPart {
    OutputText { text: String },
    Other,
}

pub ghost enum ContentPartView {
    OutputText(Seq<char>),
    Other,
}

impl View for ContentPart {
    type V = ContentPartView;

    open spec fn view(&self) -> ContentPartView {
        match self {
            ContentPart::OutputText { text } => ContentPartView::OutputText(text@),
            ContentPart::Other => ContentPartView::Other,
        }
    }
}

/// One item of a reply's output list.
#[derive(Debug)]
pub enum OutputItem {
    Message { content: Vec<ContentPart> },
    Other,
}

pub ghost enum OutputItemView {
    Message(Seq<ContentPartView>),
    Other,
}

impl View for OutputItem {
    type V = OutputItemView;

    open spec fn view(&self) -> OutputItemView {
        match self {
            OutputItem::Message { content } => OutputItemView::Message(
                content@.map_values(|p: ContentPart| p@),
            ),
            OutputItem::Other => OutputItemView::Other,
        }
    }
}

/// The reply of the answering service, already shed of its wire form.
#[derive(Debug)]
pub struct Response {
    pub output: Vec<OutputItem>,
}

impl View for Response {
    type V = Seq<OutputItemView>;

    open spec fn view(&self) -> Seq<OutputItemView> {
        self.output@.map_values(|o: OutputItem| o@)
    }
}

/// The first text of a content list.
pub open spec fn spec_content_text(parts: Seq<ContentPartView>) -> Option<Seq<char>>
    decreases parts.len(),
{
    if parts.len() == 0 {
        None
    } else {
        match parts[0] {
            ContentPartView::OutputText(t) => Some(t),
            ContentPartView::Other => spec_content_text(parts.skip(1)),
        }
    }
}

/// The first output text of a whole reply.
pub open spec fn spec_first_output_text(items: Seq<OutputItemView>) -> Option<Seq<char>>
    decreases items.len(),
{
    if items.len() == 0 {
        None
    } else {
        match items[0] {
            OutputItemView::Message(content) => match spec_content_text(content) {
                Some(t) => Some(t),
                None => spec_first_output_text(items.skip(1)),
            },
            OutputItemView::Other => spec_first_output_text(items.skip(1)),
        }
    }
}

impl Response {
    /// The first output text of the reply, if it holds one.
    pub fn first_output_text_typed(&self) -> (r: Option<&str>)
        ensures
            match r {
                Some(t) => spec_first_output_text(self@) == Some(t@),
                None => spec_first_output_text(self@) is None,
            },
    {
        let n = self.output.len();
        let mut i: usize = 0;
        proof {
            assert(self@.skip(0) =~= self@);
        }
        while i < n
            invariant
                n == self.output@.len(),
                i <= n,
                spec_first_output_text(self@) == spec_first_output_text(self@.skip(i as int)),
            decreases n - i,
        {
            let ghost items = self@.skip(i as int);
            proof {
                assert(items[0] == self@[i as int]);
                assert(items.skip(1) =~= self@.skip(i + 1));
            }
            match &self.output[i] {
                OutputItem::Message { content } => {
                    let m = content.len();
                    let mut j: usize = 0;
                    let ghost parts = content@.map_values(|p: ContentPart| p@);
                    proof {
                        assert(parts.skip(0) =~= parts);
                        assert(self@[i as int] == self.output@[i as int]@);
                    }
                    while j < m
                        invariant
                            m == content@.len(),
                            j <= m,
                            i < n,
                            n == self.output@.len(),
                            parts == content@.map_values(|p: ContentPart| p@),
                            self@[i as int] == OutputItemView::Message(parts),
                            spec_first_output_text(self@) == spec_first_output_text(
                                self@.skip(i as int),
                            ),
                            spec_content_text(parts) == spec_content_text(
                                parts.skip(j as int),
                            ),
                        decreases m - j,
                    {
                        proof {
                            assert(parts.skip(j as int)[0] == parts[j as int]);
                            assert(parts.skip(j as int).skip(1) =~= parts.skip(j + 1));
                        }
                        match &content[j] {
                            ContentPart::OutputText { text } => {
                                proof {
                                    assert(parts[j as int] == ContentPartView::OutputText(
                                        text@,
                                    ));
                                    assert(spec_content_text(parts.skip(j as int)) == Some(
                                        text@,
                                    ));
                                    assert(self@.skip(i as int)[0] == self@[i as int]);
                                    assert(spec_first_output_text(self@.skip(i as int)) == Some(
                                        text@,
                                    ));
                                }
                                return Some(text.as_str());
                            },
                            ContentPart::Other => {},
                        }
                        j = j + 1;
                    }
                    proof {
                        assert(parts.skip(m as int) =~= Seq::<ContentPartView>::empty());
                    }
                },
                OutputItem::Other => {},
            }
            i = i + 1;
        }
        proof {
            assert(self@.skip(n as int) =~= Seq::<OutputItemView>::empty());
        }
        None
    }
}

/// A reply, held for reading its text.
#[derive(Debug)]
pub struct Answer {
    response: Response,
}

impl Answer {
    pub closed spec fn spec_response(self) -> Seq<OutputItemView> {
        self.response@
    }

    /// Wraps an already decoded reply. Decoding the wire bytes is the
    /// embedding program's task.
    pub fn from_response(response: Response) -> (r: Answer)
        ensures
            r.spec_response() == response@,
    {
        Answer { response }
    }

    /// The first output text, copied out.
    pub fn to_string(&self) -> (r: Option<String>)
        ensures
            match r {
                Some(t) => spec_first_output_text(self.spec_response()) == Some(t@),
                None => spec_first_output_text(self.spec_response()) is None,
            },
    {
        match self.response.first_output_text_typed() {
            Some(t) => Some(t.to_owned()),
            None => None,
        }
    }
}

/// The model a question is sent to.
#[derive(Debug, Clone, Copy, PartialEq, Eq, Structural)]
pub enum Model {
    Gpt5,
    Gpt5Mini,
    Gpt5Nano,
}

impl Model {
    pub fn as_str(&self) -> (r: &'static str)
        ensures
            self is Gpt5 ==> r@ == "gpt-5"@,
            self is Gpt5Mini ==> r@ == "gpt-5-mini"@,
            self is Gpt5Nano ==> r@ == "gpt-5-nano"@,
    {
        match self {
            Model::Gpt5 => "gpt-5",
            Model::Gpt5Mini => "gpt-5-mini",
            Model::Gpt5Nano => "gpt-5-nano",
        }
    }
}

#[derive(Debug, Clone, Copy, PartialEq, Eq, Structural)]
pub enum Verbosity {
    Low,
    Medium,
    High,
}

impl Verbosity {
    pub fn as_str(&self) -> (r: &'static str)
        ensures
            self is Low ==> r@ == "low"@,
            self is Medium ==> r@ == "medium"@,
            self is High ==> r@ == "high"@,
    {
        match self {
            Verbosity::Low => "low",
            Verbosity::Medium => "medium",
            Verbosity::High => "high",
        }
    }
}

/// The parameters of one question to the answering service. The sampling
/// temperature of the service's wire format is a float and is attached
/// only where the request is serialized, outside the library.
#[derive(Debug)]
pub struct QuestionParams {
    pub verbosity: Verbosity,
    pub model: Model,
    pub instructions: Option<String>,
    pub max_output_tokens: Option<i32>,
}

impl Default for QuestionParams {
    fn default() -> (r: Self)
        ensures
            r.verbosity == Verbosity::Medium,
            r.model == Model::Gpt5Nano,
            r.instructions is None,
            r.max_output_tokens is None,
    {
        QuestionParams {
            verbosity: Verbosity::Medium,
            model: Model::Gpt5Nano,
            instructions: None,
            max_output_tokens: None,
        }
    }
}

impl QuestionParams {
    /// Keeps the trimmed instructions when they hold more than one byte;
    /// shorter ones leave the field as it was.
    pub fn set_instructions(&mut self, instructions: &str)
        ensures
            final(self).verbosity == old(self).verbosity,
            final(self).model == old(self).model,
            final(self).max_output_tokens == old(self).max_output_tokens,
            spec_opt_str(final(self).instructions) == if encode_utf8(
                spec_trim(instructions@),
            ).len() as usize > 1 {
                Some(spec_trim(instructions@))
            } else {
                spec_opt_str(old(self).instructions)
            },
    {
        let s = trim_str(instructions);
        if s.len() > 1 {
            self.instructions = Some(s.to_owned());
        }
    }
}

} // verus!
