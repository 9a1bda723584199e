//! Builds the prompt of one game step: the sanitized question, the hidden
//! target, and the instructions with the placeholders filled in.

use vstd::prelude::*;
use vstd::utf8::encode_utf8;
use crate::config::Config;
use crate::error::AppError;
use crate::gpt::{QuestionParams, sanitize_question, spec_bracket_clean, spec_non_space_count};
use crate::locale::Language;
use crate::text::{spec_opt_str, spec_replace_all, spec_trim, replace_all};
use vstd::string::StringSliceAdditionalSpecFns;

verus! {

#[derive(Debug)]
pub struct GameStepBuilder {
    original_question: Option<String>,
    question: Option<String>,
    target: Option<String>,
    language: Option<Language>,
}

impl GameStepBuilder {
    pub closed spec fn spec_original_question(self) -> Option<Seq<char>> {
        spec_opt_str(self.original_question)
    }

    pub closed spec fn spec_question(self) -> Option<Seq<char>> {
        spec_opt_str(self.question)
    }

    pub closed spec fn spec_target(self) -> Option<Seq<char>> {
        spec_opt_str(self.target)
    }

    pub closed spec fn spec_language(self) -> Option<Language> {
        self.language
    }

    pub fn new(_config: &Config) -> (r: Self)
        ensures
            r.spec_original_question() is None,
            r.spec_question() is None,
            r.spec_target() is None,
            r.spec_language() is None,
    {
        GameStepBuilder { original_question: None, question: None, target: None, language: None }
    }

    pub fn get_target(&self) -> (r: String)
        requires
            self.spec_target() is Some,
        ensures
            Some(r@) == self.spec_target(),
    {
        match &self.target {
            Some(t) => t.clone(),
            None => unreached(),
        }
    }

    pub fn set_target(self, target: &str) -> (r: Self)
        ensures
            r.spec_target() == Some(target@),
            r.spec_original_question() == self.spec_original_question(),
            r.spec_question() == self.spec_question(),
            r.spec_language() == self.spec_language(),
    {
        GameStepBuilder { target: Some(target.to_owned()), ..self }
    }

    /// Keeps a question that passes the checks, wrapped for the prompt; a
    /// refused question leaves the builder as it was.
    pub fn set_question(self, question: &str) -> (r: Self)
        ensures
            r.spec_target() == self.spec_target(),
            r.spec_language() == self.spec_language(),
            if question.spec_bytes().len() as usize <= 120 && spec_non_space_count(question@)
                >= 5 {
                r.spec_question() == Some("question: ["@ + spec_bracket_clean(question@) + "]"@)
                    && r.spec_original_question() == Some(question@)
            } else {
                r.spec_question() == self.spec_question() && r.spec_original_question()
                    == self.spec_original_question()
            },
    {
        match sanitize_question(question) {
            Ok(q) => GameStepBuilder {
                question: Some(q),
                original_question: Some(question.to_owned()),
                ..self
            },
            Err(_) => self,
        }
    }

    pub fn set_language(self, language: &Language) -> (r: Self)
        ensures
            r.spec_language() == Some(*language),
            r.spec_target() == self.spec_target(),
            r.spec_question() == self.spec_question(),
            r.spec_original_question() == self.spec_original_question(),
    {
        GameStepBuilder { language: Some(*language), ..self }
    }

    /// A builder is complete when target, question and language are set.
    pub fn create(self) -> (r: Result<Self, AppError>)
        ensures
            match r {
                Ok(b) => {
                    &&& self.spec_target() is Some
                    &&& self.spec_question() is Some
                    &&& self.spec_language() is Some
                    &&& b.spec_target() == self.spec_target()
                    &&& b.spec_question() == self.spec_question()
                    &&& b.spec_language() == self.spec_language()
                    &&& b.spec_original_question() == self.spec_original_question()
                },
                Err(e) => e == AppError::InvalidInput && !(self.spec_target() is Some
                    && self.spec_question() is Some && self.spec_language() is Some),
            },
    {
        if self.target.is_none() || self.question.is_none() || self.language.is_none() {
            return Err(AppError::InvalidInput);
        }
        Ok(self)
    }

    pub fn get_original_question(&self) -> (r: String)
        requires
            self.spec_original_question() is Some,
        ensures
            Some(r@) == self.spec_original_question(),
    {
        match &self.original_question {
            Some(q) => q.clone(),
            None => unreached(),
        }
    }

    pub fn build_question(&self) -> (r: String)
        requires
            self.spec_question() is Some,
        ensures
            Some(r@) == self.spec_question(),
    {
        match &self.question {
            Some(q) => q.clone(),
            None => unreached(),
        }
    }

    /// The instructions a step runs under: the configured template with
    /// `{target}` and `{language}` filled in.
    pub open spec fn spec_instructions(self, template: Seq<char>) -> Seq<char> {
        spec_replace_all(
            spec_replace_all(template, "{target}"@, self.spec_target()->0),
            "{language}"@,
            if self.spec_language()->0 is English {
                "English"@
            } else {
                "Czech"@
            },
        )
    }

    pub fn build_params(&self, config: &Config) -> (r: QuestionParams)
        requires
            self.spec_target() is Some,
            self.spec_language() is Some,
        ensures
            r.verbosity == crate::gpt::Verbosity::Medium,
            r.model == crate::gpt::Model::Gpt5Nano,
            r.max_output_tokens is None,
            spec_opt_str(r.instructions) == {
                let filled = self.spec_instructions(config.gpt.gpt_instructions@);
                if encode_utf8(spec_trim(filled)).len() as usize > 1 {
                    Some(spec_trim(filled))
                } else {
                    None
                }
            },
    {
        let mut params = QuestionParams::default();
        let target = self.get_target();
        let language = match &self.language {
            Some(l) => *l,
            None => unreached(),
        };
        proof {
            reveal_strlit("{target}");
            reveal_strlit("{language}");
        }
        let step = replace_all(
            config.gpt.gpt_instructions.as_str(),
            "{target}",
            target.as_str(),
        );
        let instructions = replace_all(step.as_str(), "{language}", language.to_instruction());
        params.set_instructions(instructions.as_str());
        params
    }
}

} // verus!
