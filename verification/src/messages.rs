//! The shared data model of a game: questions, answers, records, the game
//! state, and the response envelope of the server.

use vstd::prelude::*;
use crate::clock::now_unix;
use crate::error::Er;
use crate::locale::Language;
use crate::text::{
    first_match, has_match, spec_trim, str_eq, trim_str, find_sub,
};

verus! {

/// The classified outcome of one question round.
#[derive(Debug, Clone, Copy, PartialEq, Eq, Structural)]
pub enum Verdict {
    Yes,
    No,
    Behave,
    Unable,
    Final,
    NotSet,
    Pending,
}

#[derive(Debug)]
pub struct Question {
    pub text: String,
}

impl View for Question {
    type V = Seq<char>;

    open spec fn view(&self) -> Seq<char> {
        self.text@
    }
}

impl Clone for Question {
    fn clone(&self) -> (r: Self)
        ensures
            r@ == self@,
    {
        Question { text: self.text.clone() }
    }
}

pub ghost struct AnswerView {
    pub verdict: Option<Verdict>,
    pub comment: Option<Seq<char>>,
    pub timestamp: i64,
}

#[derive(Debug)]
pub struct Answer {
    pub verdict: Option<Verdict>,
    pub comment: Option<String>,
    pub timestamp: i64,
}

impl View for Answer {
    type V = AnswerView;

    open spec fn view(&self) -> AnswerView {
        AnswerView {
            verdict: self.verdict,
            comment: match self.comment {
                Some(ref c) => Some(c@),
                None => None,
            },
            timestamp: self.timestamp,
        }
    }
}

impl Clone for Answer {
    fn clone(&self) -> (r: Self)
        ensures
            r@ == self@,
    {
        Answer {
            verdict: self.verdict,
            comment: match &self.comment {
                Some(c) => Some(c.clone()),
                None => None,
            },
            timestamp: self.timestamp,
        }
    }
}

pub ghost struct RecordView {
    pub question: Seq<char>,
    pub answer: Option<AnswerView>,
}

/// One completed (or still open) question/answer round.
#[derive(Debug)]
pub struct Record {
    pub questions: Question,
    pub answers: Option<Answer>,
}

impl View for Record {
    type V = RecordView;

    open spec fn view(&self) -> RecordView {
        RecordView {
            question: self.questions@,
            answer: match self.answers {
                Some(ref a) => Some(a@),
                None => None,
            },
        }
    }
}

impl Clone for Record {
    fn clone(&self) -> (r: Self)
        ensures
            r@ == self@,
    {
        Record {
            questions: self.questions.clone(),
            answers: match &self.answers {
                Some(a) => Some(a.clone()),
                None => None,
            },
        }
    }
}

pub ghost struct GameStateView {
    pub subject: Option<Seq<char>>,
    pub records: Seq<RecordView>,
    pub pending_question: Option<Seq<char>>,
    pub error: Option<Seq<char>>,
    pub target: Option<Seq<char>>,
    pub game_ended: bool,
    pub lang: Language,
}

/// One game's full state: the hidden target, the played rounds, at most one
/// pending question, and the terminal flag.
#[derive(Debug)]
pub struct GameState {
    pub subject: Option<String>,
    pub records: Vec<Record>,
    pub pending_question: Option<Question>,
    pub error: Option<GameError>,
    pub target: Option<String>,
    pub game_ended: bool,
    pub lang: Language,
}

impl View for GameState {
    type V = GameStateView;

    open spec fn view(&self) -> GameStateView {
        GameStateView {
            subject: match self.subject {
                Some(ref s) => Some(s@),
                None => None,
            },
            records: self.records@.map_values(|r: Record| r@),
            pending_question: match self.pending_question {
                Some(ref q) => Some(q@),
                None => None,
            },
            error: match self.error {
                Some(ref e) => Some(e@),
                None => None,
            },
            target: match self.target {
                Some(ref t) => Some(t@),
                None => None,
            },
            game_ended: self.game_ended,
            lang: self.lang,
        }
    }
}

impl Clone for GameState {
    fn clone(&self) -> (r: Self)
        ensures
            r@ == self@,
    {
        let mut records: Vec<Record> = Vec::new();
        let mut i: usize = 0;
        while i < self.records.len()
            invariant
                i <= self.records@.len(),
                records@.len() == i,
                forall|j: int| 0 <= j < i ==> records@[j]@ == self.records@[j]@,
            decreases self.records@.len() - i,
        {
            records.push(self.records[i].clone());
            i = i + 1;
        }
        let r = GameState {
            subject: match &self.subject {
                Some(s) => Some(s.clone()),
                None => None,
            },
            records,
            pending_question: match &self.pending_question {
                Some(q) => Some(q.clone()),
                None => None,
            },
            error: match &self.error {
                Some(e) => Some(e.clone()),
                None => None,
            },
            target: match &self.target {
                Some(t) => Some(t.clone()),
                None => None,
            },
            game_ended: self.game_ended,
            lang: self.lang,
        };
        proof {
            assert(r@.records =~= self@.records);
        }
        r
    }
}

impl Default for GameState {
    fn default() -> (r: Self)
        ensures
            r@.subject is None,
            r@.records =~= Seq::<RecordView>::empty(),
            r@.pending_question is None,
            r@.error is None,
            r@.target is None,
            r@.game_ended == false,
            r@.lang == Language::English,
    {
        GameState {
            subject: None,
            records: Vec::new(),
            pending_question: None,
            error: None,
            target: None,
            game_ended: false,
            lang: Language::English,
        }
    }
}

/// A record stripped of its free-text commentary.
pub open spec fn spec_strip_comment(r: RecordView) -> RecordView {
    RecordView {
        question: r.question,
        answer: match r.answer {
            Some(a) => Some(AnswerView { verdict: a.verdict, comment: None, timestamp: a.timestamp }),
            None => None,
        },
    }
}

impl GameState {
    /// Drops the commentary of every answered round, keeping the verdicts.
    pub fn clear_comments(&mut self)
        ensures
            final(self)@ == (GameStateView {
                records: old(self)@.records.map_values(|r: RecordView| spec_strip_comment(r)),
                ..old(self)@
            }),
    {
        let n = self.records.len();
        let mut out: Vec<Record> = Vec::new();
        let mut i: usize = 0;
        while i < n
            invariant
                n == self.records@.len(),
                i <= n,
                out@.len() == i,
                forall|j: int| 0 <= j < i ==> out@[j]@ == spec_strip_comment(
                    #[trigger] self.records@[j]@,
                ),
            decreases n - i,
        {
            let r = &self.records[i];
            let stripped = Record {
                questions: r.questions.clone(),
                answers: match &r.answers {
                    Some(a) => Some(
                        Answer { verdict: a.verdict, comment: None, timestamp: a.timestamp },
                    ),
                    None => None,
                },
            };
            out.push(stripped);
            i = i + 1;
        }
        self.records = out;
        proof {
            assert(final(self)@.records =~= old(self)@.records.map_values(
                |r: RecordView| spec_strip_comment(r),
            ));
        }
    }

    /// Appends one completed round.
    pub fn add_record(&mut self, record: Record)
        ensures
            final(self)@ == (GameStateView {
                records: old(self)@.records.push(record@),
                ..old(self)@
            }),
    {
        self.records.push(record);
        proof {
            assert(final(self)@.records =~= old(self)@.records.push(record@));
        }
    }
}

#[derive(Debug, Clone, Copy, PartialEq, Eq, Structural)]
pub enum Status {
    Pending,
    Okay,
    Error,
}

impl Status {
    /// The word this status serializes to.
    pub open spec fn spec_code(self) -> Seq<char> {
        match self {
            Status::Pending => "pending"@,
            Status::Okay => "ok"@,
            Status::Error => "error"@,
        }
    }

    pub fn as_code(&self) -> (r: &'static str)
        ensures
            r@ == self.spec_code(),
    {
        match self {
            Status::Pending => "pending",
            Status::Okay => "ok",
            Status::Error => "error",
        }
    }
}

#[derive(Debug)]
pub enum GameError {
    GPTError(String),
}

impl View for GameError {
    type V = Seq<char>;

    open spec fn view(&self) -> Seq<char> {
        match self {
            GameError::GPTError(s) => s@,
        }
    }
}

impl Clone for GameError {
    fn clone(&self) -> (r: Self)
        ensures
            r@ == self@,
    {
        match self {
            GameError::GPTError(s) => GameError::GPTError(s.clone()),
        }
    }
}

/// The response envelope: a status, an optional payload, and a flag telling
/// the client its token is no longer good.
#[derive(Debug)]
pub struct ServerResponse<Content> {
    pub status: Status,
    pub content: Option<Content>,
    pub invalid_token: Option<bool>,
}

impl<Content> ServerResponse<Content> {
    pub fn from_content(status: Status, content: Content) -> (r: Self)
        ensures
            r.status == status,
            r.content == Some(content),
            r.invalid_token is None,
    {
        ServerResponse { status, content: Some(content), invalid_token: None }
    }

    pub fn from_status(status: Status) -> (r: Self)
        ensures
            r.status == status,
            r.content is None,
            r.invalid_token is None,
    {
        ServerResponse { status, content: None, invalid_token: None }
    }

    /// An absent flag is read as "get a new token".
    pub fn need_new_token(&self) -> (r: bool)
        ensures
            r == match self.invalid_token {
                Some(b) => b,
                None => true,
            },
    {
        match &self.invalid_token {
            Some(b) => *b,
            None => true,
        }
    }
}

/// The one-line JSON body `{"status":"<code>"}`.
pub fn status_response(status: Status) -> (r: String)
    ensures
        r@ == "{\"status\":\""@ + status.spec_code() + "\"}"@,
{
    Er::status(status.as_code())
}

/// Splits a reply of the shape `TOKEN; commentary` at the first semicolon
/// and trims both halves.
pub fn parse_reply(s: &str) -> (r: Option<(&str, &str)>)
    ensures
        match r {
            Some((tok, cmt)) => {
                &&& has_match(s@, ";"@)
                &&& tok@ == spec_trim(s@.subrange(0, first_match(s@, ";"@)))
                &&& cmt@ == spec_trim(
                    s@.subrange(first_match(s@, ";"@) + 1, s@.len() as int),
                )
            },
            None => !has_match(s@, ";"@),
        },
{
    let slen = s.unicode_len();
    match find_sub(s, ";") {
        Some(i) => {
            proof {
                reveal_strlit(";");
            }
            let left = s.substring_char(0, i);
            let right = s.substring_char(i + 1, slen);
            Some((trim_str(left), trim_str(right)))
        },
        None => None,
    }
}

/// The verdict named by a reply token.
pub open spec fn spec_verdict_of_token(t: Seq<char>) -> Verdict {
    if t == "YES"@ {
        Verdict::Yes
    } else if t == "NO"@ {
        Verdict::No
    } else if t == "UNABLE"@ {
        Verdict::Unable
    } else if t == "FINAL"@ {
        Verdict::Final
    } else if t == "BEHAVE"@ {
        Verdict::Behave
    } else {
        Verdict::NotSet
    }
}

impl Answer {
    /// An empty answer stamped with the current time.
    pub fn new() -> (r: Self)
        ensures
            r@.verdict is None,
            r@.comment is None,
    {
        Answer { verdict: None, comment: None, timestamp: now_unix() }
    }

    /// The placeholder answer of a round that is still being resolved.
    pub fn new_pending() -> (r: Self)
        ensures
            r@.verdict == Some(Verdict::Pending),
            r@.comment is None,
            r@.timestamp == 0,
    {
        Answer { verdict: Some(Verdict::Pending), comment: None, timestamp: 0 }
    }

    /// The terminal answer that reveals the identity.
    pub fn get_final_answer(result: &str) -> (r: Self)
        ensures
            r@.verdict == Some(Verdict::Final),
            r@.comment == Some(result@),
    {
        Answer {
            verdict: Some(Verdict::Final),
            comment: Some(result.to_owned()),
            timestamp: now_unix(),
        }
    }

    /// Reads a `TOKEN; commentary` reply; a reply without a semicolon maps
    /// to `NotSet` with a fixed comment.
    pub fn parse_from_string(input: &str) -> (r: Self)
        ensures
            if has_match(input@, ";"@) {
                r@.verdict == Some(
                    spec_verdict_of_token(
                        spec_trim(input@.subrange(0, first_match(input@, ";"@))),
                    ),
                ) && r@.comment == Some(
                    spec_trim(input@.subrange(first_match(input@, ";"@) + 1, input@.len() as int)),
                )
            } else {
                r@.verdict == Some(Verdict::NotSet) && r@.comment == Some(
                    "Weird question, skip..."@,
                )
            },
    {
        if let Some((token, comment)) = parse_reply(input) {
            let verdict = if str_eq(token, "YES") {
                Verdict::Yes
            } else if str_eq(token, "NO") {
                Verdict::No
            } else if str_eq(token, "UNABLE") {
                Verdict::Unable
            } else if str_eq(token, "FINAL") {
                Verdict::Final
            } else if str_eq(token, "BEHAVE") {
                Verdict::Behave
            } else {
                Verdict::NotSet
            };
            Answer {
                verdict: Some(verdict),
                comment: Some(comment.to_owned()),
                timestamp: now_unix(),
            }
        } else {
            Answer {
                verdict: Some(Verdict::NotSet),
                comment: Some(String::from_str("Weird question, skip...")),
                timestamp: now_unix(),
            }
        }
    }
}

impl Record {
    /// A fresh round holding just the question.
    pub fn new(question: String) -> (r: Self)
        ensures
            r@.question == question@,
            r@.answer is None,
    {
        Record { questions: Question { text: question }, answers: None }
    }

    pub fn set_answer(&mut self, answer: &Answer)
        ensures
            final(self)@.question == old(self)@.question,
            final(self)@.answer == Some(answer@),
    {
        self.answers = Some(answer.clone());
    }
}

} // verus!
