//! The client board's pure state logic: how one action changes what the
//! board shows, and the helpers the rendering layer derives rows from.

use vstd::prelude::*;
use crate::messages::{
    Answer, GameState, GameStateView, Question, Record, RecordView, Verdict,
};

verus! {

/// What the board shows: the game, if one is known.
#[derive(Default)]
pub struct BoardState {
    pub game: Option<GameState>,
}

pub enum ServerErrorDetail {
    General,
}

/// One action arriving at the board.
pub enum Act {
    ServerError(ServerErrorDetail),
    Update(GameState),
    InvalidGame,
}

impl BoardState {
    pub open spec fn spec_game(self) -> Option<GameStateView> {
        match self.game {
            Some(ref g) => Some(g@),
            None => None,
        }
    }

    /// A server error leaves the board; an update replaces the game; an
    /// invalid game clears it.
    pub fn reduce(self, act: Act) -> (r: BoardState)
        ensures
            match act {
                Act::ServerError(_) => r.spec_game() == self.spec_game(),
                Act::Update(ref next) => r.spec_game() == Some(next@),
                Act::InvalidGame => r.spec_game() is None,
            },
    {
        match act {
            Act::ServerError(_d) => self,
            Act::Update(next) => BoardState { game: Some(next) },
            Act::InvalidGame => BoardState { game: None },
        }
    }
}

/// The verdict a finished or unanswered row shows.
pub open spec fn spec_verdict_of_record(r: RecordView) -> Verdict {
    match r.answer {
        Some(a) => match a.verdict {
            Some(v) => v,
            None => Verdict::NotSet,
        },
        None => Verdict::NotSet,
    }
}

pub fn get_verdict_from_record(record: &Record) -> (r: Verdict)
    ensures
        r == spec_verdict_of_record(record@),
{
    if let Some(answer) = &record.answers {
        match &answer.verdict {
            Some(v) => *v,
            None => Verdict::NotSet,
        }
    } else {
        Verdict::NotSet
    }
}

/// The placeholder row shown while a question is still being answered.
pub fn create_pending_question_record(question: &Question) -> (r: Record)
    ensures
        r@.question == question@,
        r@.answer matches Some(a) && a.verdict == Some(Verdict::Pending) && a.comment is None,
{
    Record { questions: question.clone(), answers: Some(Answer::new_pending()) }
}

} // verus!
