//! The session store: the authoritative map from token to game state, its
//! paired notifier, and the single-flight rule on pending questions.
//!
//! Every entry holds the game state and its notifier together, so no caller
//! can observe a session without a notifier. Methods that mutate one entry
//! take `&mut self` and are linearized by the caller's exclusive access;
//! waking waiters happens through the notifier after the mutation is done.

use vstd::prelude::*;
use std::sync::Arc;
use tokio::sync::Notify;
use crate::error::AppError;
use crate::locale::Language;
use crate::messages::{
    Answer, GameError, GameState, GameStateView, Record, RecordView, Verdict,
    spec_strip_comment,
};
use crate::notify::{clone_notifier, new_notify, notify_waiters};
use crate::token::{Token, TokenType};
use vstd::string::StringSliceAdditionalSpecFns;

verus! {

/// Questions longer than 120 bytes are rejected; the rest pass unchanged.
pub fn sanitize_question(question: &str) -> (r: Option<String>)
    ensures
        match r {
            Some(s) => question.spec_bytes().len() as usize <= 120 && s@ == question@,
            None => question.spec_bytes().len() as usize > 120,
        },
{
    if question.len() > 120 {
        return None;
    }
    Some(question.to_owned())
}

/// One session: its token, its state, and its notifier, kept together.
struct GameEntry {
    token: Token,
    state: GameState,
    notifier: Arc<Notify>,
}

/// The ghost image of one session entry.
pub ghost struct EntryView {
    pub token: Seq<u8>,
    pub state: GameStateView,
    pub notifier: Arc<Notify>,
}

/// The state a game starts in.
pub open spec fn spec_new_game(identity: Seq<char>, lang: Language) -> GameStateView {
    GameStateView {
        subject: None,
        records: Seq::empty(),
        pending_question: None,
        error: None,
        target: Some(identity),
        game_ended: false,
        lang: lang,
    }
}

/// The keyed session store.
pub struct GameManager {
    games: Vec<GameEntry>,
}

impl View for GameManager {
    type V = Seq<EntryView>;

    closed spec fn view(&self) -> Seq<EntryView> {
        self.games@.map_values(
            |e: GameEntry| EntryView { token: e.token.token@, state: e.state@, notifier: e.notifier },
        )
    }
}

impl GameManager {
    /// Tokens are unique: each session has exactly one entry.
    pub open spec fn wf(self) -> bool {
        forall|a: int, b: int|
            0 <= a < self@.len() && 0 <= b < self@.len() && a != b ==> self@[a].token
                != self@[b].token
    }

    pub open spec fn spec_has(self, t: Seq<u8>) -> bool {
        exists|i: int| 0 <= i < self@.len() && self@[i].token == t
    }

    /// The index of the entry for `t`; meaningful when `spec_has`.
    pub open spec fn spec_idx(self, t: Seq<u8>) -> int {
        choose|i: int| 0 <= i < self@.len() && self@[i].token == t
    }

    pub open spec fn spec_game(self, t: Seq<u8>) -> GameStateView {
        self@[self.spec_idx(t)].state
    }

    pub open spec fn spec_notifier(self, t: Seq<u8>) -> Arc<Notify> {
        self@[self.spec_idx(t)].notifier
    }

    /// A session can accept a question: it exists and none is pending.
    pub open spec fn spec_can_ask(self, t: Seq<u8>) -> bool {
        self.spec_has(t) && self.spec_game(t).pending_question is None
    }

    proof fn lemma_found(self, i: int, t: Seq<u8>)
        requires
            self.wf(),
            0 <= i < self@.len(),
            self@[i].token == t,
        ensures
            self.spec_has(t),
            self.spec_idx(t) == i,
    {
        assert(self.spec_has(t));
        let j = self.spec_idx(t);
        if j != i {
            assert(self@[j].token == self@[i].token);
        }
    }

    pub fn new() -> (r: GameManager)
        ensures
            r@ =~= Seq::<EntryView>::empty(),
            r.wf(),
    {
        GameManager { games: Vec::new() }
    }

    /// The index of the entry holding `token`, if any.
    fn find(&self, token: &Token) -> (r: Option<usize>)
        requires
            self.wf(),
        ensures
            match r {
                Some(i) => {
                    &&& i < self@.len()
                    &&& self@[i as int].token == token.token@
                    &&& self.spec_has(token.token@)
                    &&& self.spec_idx(token.token@) == i
                },
                None => !self.spec_has(token.token@),
            },
    {
        let n = self.games.len();
        let mut i: usize = 0;
        while i < n
            invariant
                self.wf(),
                n == self@.len(),
                i <= n,
                forall|j: int| 0 <= j < i ==> self@[j].token != token.token@,
            decreases n - i,
        {
            if self.games[i].token == *token {
                proof {
                    self.lemma_found(i as int, token.token@);
                }
                return Some(i);
            }
            i = i + 1;
        }
        None
    }

    /// Creates a session and its notifier together, under a fresh token.
    /// If the random token collides with a live one, the old session is
    /// replaced, as an insert into a map would do.
    pub fn new_game(&mut self, identity: &str, lang: Language) -> (t: Token)
        requires
            old(self).wf(),
        ensures
            final(self).wf(),
            t.wf(),
            TokenType::spec_of_byte(t.token@[0]) == Some(TokenType::Game),
            final(self).spec_has(t.token@),
            final(self).spec_game(t.token@) == spec_new_game(identity@, lang),
            if old(self).spec_has(t.token@) {
                final(self)@ =~= old(self)@.update(
                    old(self).spec_idx(t.token@),
                    final(self)@[old(self).spec_idx(t.token@)],
                )
            } else {
                final(self)@ =~= old(self)@.push(final(self)@[old(self)@.len() as int])
            },
    {
        let token = Token::new(TokenType::Game);
        let mut game = GameState::default();
        game.lang = lang;
        game.target = Some(identity.to_owned());
        let notifier = new_notify();
        let entry = GameEntry { token, state: game, notifier };
        match self.find(&token) {
            Some(i) => {
                let ghost oldv = self@;
                self.games.remove(i);
                self.games.insert(i, entry);
                proof {
                    assert(self@ =~= oldv.update(
                        i as int,
                        EntryView {
                            token: token.token@,
                            state: spec_new_game(identity@, lang),
                            notifier: self@[i as int].notifier,
                        },
                    ));
                    self.lemma_found(i as int, token.token@);
                }
            },
            None => {
                let ghost oldv = self@;
                self.games.push(entry);
                proof {
                    assert(self@ =~= oldv.push(self@[oldv.len() as int]));
                    assert(self@[oldv.len() as int].token == token.token@);
                    self.lemma_found(oldv.len() as int, token.token@);
                    assert forall|a: int, b: int|
                        0 <= a < self@.len() && 0 <= b < self@.len() && a != b implies self@[a].token
                        != self@[b].token by {
                        if a < oldv.len() && b < oldv.len() {
                        } else if a == oldv.len() {
                            assert(!old(self).spec_has(token.token@));
                            assert(self@[b].token == oldv[b].token);
                        } else {
                            assert(self@[a].token == oldv[a].token);
                        }
                    }
                }
            },
        }
        token
    }

    /// The single-flight gate: of any series of asks on one token while a
    /// question is pending, only the first can succeed.
    pub fn set_pending_question(&mut self, token: &Token, question: &str) -> (r: Result<
        (),
        AppError,
    >)
        requires
            old(self).wf(),
        ensures
            final(self).wf(),
            match r {
                Ok(()) => {
                    &&& old(self).spec_can_ask(token.token@)
                    &&& final(self)@ =~= old(self)@.update(
                        old(self).spec_idx(token.token@),
                        EntryView {
                            state: GameStateView {
                                pending_question: Some(question@),
                                ..old(self).spec_game(token.token@)
                            },
                            ..old(self)@[old(self).spec_idx(token.token@)]
                        },
                    )
                },
                Err(AppError::Pending) => {
                    &&& old(self).spec_has(token.token@)
                    &&& old(self).spec_game(token.token@).pending_question is Some
                    &&& final(self)@ == old(self)@
                },
                Err(AppError::GameNotFound) => {
                    &&& !old(self).spec_has(token.token@)
                    &&& final(self)@ == old(self)@
                },
                Err(_) => false,
            },
    {
        let i = match self.find(token) {
            Some(i) => i,
            None => {
                return Err(AppError::GameNotFound);
            },
        };
        if self.games[i].state.pending_question.is_some() {
            return Err(AppError::Pending);
        }
        let ghost oldv = self@;
        let mut entry = self.games.remove(i);
        entry.state.pending_question = Some(
            crate::messages::Question { text: question.to_owned() },
        );
        self.games.insert(i, entry);
        proof {
            assert(self@ =~= oldv.update(
                i as int,
                EntryView {
                    state: GameStateView {
                        pending_question: Some(question@),
                        ..old(self).spec_game(token.token@)
                    },
                    ..oldv[i as int]
                },
            ));
            assert(self.wf()) by {
                assert(forall|a: int| 0 <= a < self@.len() ==> self@[a].token == oldv[a].token);
            }
        }
        Ok(())
    }

    /// Commits the answer of the pending question: appends the round,
    /// clears the slot, marks the game ended on a Final verdict, and wakes
    /// everyone waiting on the session — waking all of them, not one, so
    /// that no poller watching the same token starves. A session with
    /// nothing pending is left as it is.
    pub fn answer_pending_question(&mut self, token: &Token, answer: &Answer) -> (r: Result<
        (),
        AppError,
    >)
        requires
            old(self).wf(),
        ensures
            final(self).wf(),
            match r {
                Ok(()) => old(self).spec_has(token.token@) && {
                    if old(self).spec_game(token.token@).pending_question is Some {
                        final(self)@ =~= old(self)@.update(
                            old(self).spec_idx(token.token@),
                            EntryView {
                                state: GameStateView {
                                    pending_question: None,
                                    records: old(self).spec_game(token.token@).records.push(
                                        RecordView {
                                            question: old(
                                                self,
                                            ).spec_game(token.token@).pending_question->0,
                                            answer: Some(answer@),
                                        },
                                    ),
                                    game_ended: old(self).spec_game(token.token@).game_ended || (
                                    answer@.verdict == Some(Verdict::Final)),
                                    ..old(self).spec_game(token.token@)
                                },
                                ..old(self)@[old(self).spec_idx(token.token@)]
                            },
                        )
                    } else {
                        final(self)@ == old(self)@
                    }
                },
                Err(AppError::GameNotFound) => {
                    &&& !old(self).spec_has(token.token@)
                    &&& final(self)@ == old(self)@
                },
                Err(_) => false,
            },
    {
        let i = match self.find(token) {
            Some(i) => i,
            None => {
                return Err(AppError::GameNotFound);
            },
        };
        if self.games[i].state.pending_question.is_none() {
            return Ok(());
        }
        let ghost oldv = self@;
        let mut entry = self.games.remove(i);
        let pending = entry.state.pending_question.take().unwrap();
        if match &answer.verdict {
            Some(v) => matches!(v, Verdict::Final),
            None => false,
        } {
            entry.state.game_ended = true;
        }
        let mut record = Record::new(pending.text);
        record.set_answer(answer);
        entry.state.add_record(record);
        let notifier = clone_notifier(&entry.notifier);
        self.games.insert(i, entry);
        proof {
            assert(self@ =~= oldv.update(
                i as int,
                EntryView {
                    state: GameStateView {
                        pending_question: None,
                        records: old(self).spec_game(token.token@).records.push(
                            RecordView {
                                question: old(self).spec_game(token.token@).pending_question->0,
                                answer: Some(answer@),
                            },
                        ),
                        game_ended: old(self).spec_game(token.token@).game_ended || (answer@.verdict
                            == Some(Verdict::Final)),
                        ..old(self).spec_game(token.token@)
                    },
                    ..oldv[i as int]
                },
            ));
            assert(self.wf()) by {
                assert(forall|a: int| 0 <= a < self@.len() ==> self@[a].token == oldv[a].token);
            }
        }
        // The entry is back in place before anyone is woken: a waiter that
        // re-reads the store on wake sees the committed answer.
        notify_waiters(&notifier);
        Ok(())
    }

    /// Records an external-service failure: the error is kept, the pending
    /// slot is cleared, and the session stays playable.
    pub fn handle_error_response(&mut self, token: &Token, error: GameError) -> (r: Result<
        (),
        AppError,
    >)
        requires
            old(self).wf(),
        ensures
            final(self).wf(),
            match r {
                Ok(()) => {
                    &&& old(self).spec_has(token.token@)
                    &&& final(self)@ =~= old(self)@.update(
                        old(self).spec_idx(token.token@),
                        EntryView {
                            state: GameStateView {
                                pending_question: None,
                                error: Some(error@),
                                ..old(self).spec_game(token.token@)
                            },
                            ..old(self)@[old(self).spec_idx(token.token@)]
                        },
                    )
                },
                Err(AppError::GameNotFound) => {
                    &&& !old(self).spec_has(token.token@)
                    &&& final(self)@ == old(self)@
                },
                Err(_) => false,
            },
    {
        let i = match self.find(token) {
            Some(i) => i,
            None => {
                return Err(AppError::GameNotFound);
            },
        };
        let ghost oldv = self@;
        let mut entry = self.games.remove(i);
        entry.state.error = Some(error);
        entry.state.pending_question = None;
        self.games.insert(i, entry);
        proof {
            assert(self@ =~= oldv.update(
                i as int,
                EntryView {
                    state: GameStateView {
                        pending_question: None,
                        error: Some(error@),
                        ..old(self).spec_game(token.token@)
                    },
                    ..oldv[i as int]
                },
            ));
            assert(self.wf()) by {
                assert(forall|a: int| 0 <= a < self@.len() ==> self@[a].token == oldv[a].token);
            }
        }
        Ok(())
    }

    pub fn is_pending(&self, token: &Token) -> (r: Result<bool, AppError>)
        requires
            self.wf(),
        ensures
            match r {
                Ok(b) => self.spec_has(token.token@) && b == (self.spec_game(
                    token.token@,
                ).pending_question is Some),
                Err(AppError::GameNotFound) => !self.spec_has(token.token@),
                Err(_) => false,
            },
    {
        match self.find(token) {
            Some(i) => Ok(self.games[i].state.pending_question.is_some()),
            None => Err(AppError::GameNotFound),
        }
    }

    /// The redacted snapshot: while the game runs, commentary is stripped
    /// from every round; once it has ended, the full detail is returned.
    pub fn get_game_state(&self, token: &Token) -> (r: Result<GameState, AppError>)
        requires
            self.wf(),
        ensures
            match r {
                Ok(g) => self.spec_has(token.token@) && g@ == (
                if self.spec_game(token.token@).game_ended {
                    self.spec_game(token.token@)
                } else {
                    GameStateView {
                        records: self.spec_game(token.token@).records.map_values(
                            |rec: RecordView| spec_strip_comment(rec),
                        ),
                        ..self.spec_game(token.token@)
                    }
                }),
                Err(AppError::GameNotFound) => !self.spec_has(token.token@),
                Err(_) => false,
            },
    {
        match self.find(token) {
            Some(i) => {
                let mut game = self.games[i].state.clone();
                if !game.game_ended {
                    game.clear_comments();
                }
                Ok(game)
            },
            None => Err(AppError::GameNotFound),
        }
    }

    pub fn get_target(&self, token: &Token) -> (r: Result<String, AppError>)
        requires
            self.wf(),
        ensures
            match r {
                Ok(s) => self.spec_has(token.token@) && self.spec_game(token.token@).target
                    == Some(s@),
                Err(AppError::GameNotFound) => !self.spec_has(token.token@),
                Err(AppError::InternalServerError) => self.spec_has(token.token@)
                    && self.spec_game(token.token@).target is None,
                Err(_) => false,
            },
    {
        match self.find(token) {
            Some(i) => match &self.games[i].state.target {
                Some(t) => Ok(t.clone()),
                None => Err(AppError::InternalServerError),
            },
            None => Err(AppError::GameNotFound),
        }
    }

    pub fn get_language(&self, token: &Token) -> (r: Result<Language, AppError>)
        requires
            self.wf(),
        ensures
            match r {
                Ok(l) => self.spec_has(token.token@) && l == self.spec_game(token.token@).lang,
                Err(AppError::GameNotFound) => !self.spec_has(token.token@),
                Err(_) => false,
            },
    {
        match self.find(token) {
            Some(i) => Ok(self.games[i].state.lang),
            None => Err(AppError::GameNotFound),
        }
    }

    pub fn finish_game(&mut self, token: &Token) -> (r: Result<(), AppError>)
        requires
            old(self).wf(),
        ensures
            final(self).wf(),
            match r {
                Ok(()) => {
                    &&& old(self).spec_has(token.token@)
                    &&& final(self)@ =~= old(self)@.update(
                        old(self).spec_idx(token.token@),
                        EntryView {
                            state: GameStateView {
                                game_ended: true,
                                ..old(self).spec_game(token.token@)
                            },
                            ..old(self)@[old(self).spec_idx(token.token@)]
                        },
                    )
                },
                Err(AppError::GameNotFound) => {
                    &&& !old(self).spec_has(token.token@)
                    &&& final(self)@ == old(self)@
                },
                Err(_) => false,
            },
    {
        let i = match self.find(token) {
            Some(i) => i,
            None => {
                return Err(AppError::GameNotFound);
            },
        };
        let ghost oldv = self@;
        let mut entry = self.games.remove(i);
        entry.state.game_ended = true;
        self.games.insert(i, entry);
        proof {
            assert(self@ =~= oldv.update(
                i as int,
                EntryView {
                    state: GameStateView {
                        game_ended: true,
                        ..old(self).spec_game(token.token@)
                    },
                    ..oldv[i as int]
                },
            ));
            assert(self.wf()) by {
                assert(forall|a: int| 0 <= a < self@.len() ==> self@[a].token == oldv[a].token);
            }
        }
        Ok(())
    }

    pub fn is_game_active(&self, token: &Token) -> (r: Result<bool, AppError>)
        requires
            self.wf(),
        ensures
            match r {
                Ok(b) => self.spec_has(token.token@) && b == !self.spec_game(
                    token.token@,
                ).game_ended,
                Err(AppError::GameNotFound) => !self.spec_has(token.token@),
                Err(_) => false,
            },
    {
        match self.find(token) {
            Some(i) => Ok(!self.games[i].state.game_ended),
            None => Err(AppError::GameNotFound),
        }
    }

    /// A missing session counts as ended.
    pub fn game_ended(&self, token: &Token) -> (r: bool)
        requires
            self.wf(),
        ensures
            r == if self.spec_has(token.token@) {
                self.spec_game(token.token@).game_ended
            } else {
                true
            },
    {
        match self.find(token) {
            Some(i) => self.games[i].state.game_ended,
            None => true,
        }
    }

    /// The notifier paired with a session; waiters suspend on it, commits
    /// and deletion fire it.
    pub fn get_notifier(&self, token: &Token) -> (r: Result<Arc<Notify>, AppError>)
        requires
            self.wf(),
        ensures
            match r {
                Ok(n) => self.spec_has(token.token@) && n == self.spec_notifier(token.token@),
                Err(AppError::GameNotFound) => !self.spec_has(token.token@),
                Err(_) => false,
            },
    {
        match self.find(token) {
            Some(i) => Ok(clone_notifier(&self.games[i].notifier)),
            None => Err(AppError::GameNotFound),
        }
    }

    /// Wakes everyone waiting on the session.
    pub fn notice_answer(&self, token: &Token, _answer: &Answer) -> (r: Result<(), AppError>)
        requires
            self.wf(),
        ensures
            match r {
                Ok(()) => self.spec_has(token.token@),
                Err(AppError::GameNotFound) => !self.spec_has(token.token@),
                Err(_) => false,
            },
    {
        let notifier = match self.get_notifier(token) {
            Ok(n) => n,
            Err(e) => {
                return Err(e);
            },
        };
        notify_waiters(&notifier);
        Ok(())
    }

    /// Removes the session and its notifier together, then wakes every
    /// waiter so none blocks past the deletion.
    pub fn delete_game(&mut self, token: &Token) -> (r: Result<(), AppError>)
        requires
            old(self).wf(),
        ensures
            final(self).wf(),
            match r {
                Ok(()) => {
                    &&& old(self).spec_has(token.token@)
                    &&& final(self)@ =~= old(self)@.remove(old(self).spec_idx(token.token@))
                    &&& !final(self).spec_has(token.token@)
                },
                Err(AppError::GameNotFound) => {
                    &&& !old(self).spec_has(token.token@)
                    &&& final(self)@ == old(self)@
                },
                Err(_) => false,
            },
    {
        let i = match self.find(token) {
            Some(i) => i,
            None => {
                return Err(AppError::GameNotFound);
            },
        };
        let ghost oldv = self@;
        let entry = self.games.remove(i);
        proof {
            assert(self@ =~= oldv.remove(i as int));
            assert(self.wf()) by {
                assert(forall|a: int|
                    0 <= a < self@.len() ==> self@[a].token == if a < i {
                        oldv[a].token
                    } else {
                        oldv[a + 1].token
                    });
            }
            assert(!self.spec_has(token.token@)) by {
                if self.spec_has(token.token@) {
                    let j = choose|j: int|
                        0 <= j < self@.len() && self@[j].token == token.token@;
                    if j < i {
                        assert(oldv[j].token == oldv[i as int].token);
                    } else {
                        assert(oldv[j + 1].token == oldv[i as int].token);
                    }
                }
            }
        }
        notify_waiters(&entry.notifier);
        Ok(())
    }
}

/// The deletion law: removing a session makes every later lookup of its
/// token answer "not found" — which is what a waiter woken by the deletion
/// observes on its re-check — and touches no other session.
pub proof fn lemma_delete_frame(m0: GameManager, m1: GameManager, t: Seq<u8>)
    requires
        m0.wf(),
        m0.spec_has(t),
        m1@ == m0@.remove(m0.spec_idx(t)),
    ensures
        !m1.spec_has(t),
        forall|u: Seq<u8>| u != t ==> m1.spec_has(u) == m0.spec_has(u),
        forall|u: Seq<u8>|
            u != t && m0.spec_has(u) ==> m1.spec_game(u) == m0.spec_game(u)
                && m1.spec_notifier(u) == m0.spec_notifier(u),
{
    let i = m0.spec_idx(t);
    assert(0 <= i < m0@.len() && m0@[i].token == t);
    assert(m1.wf()) by {
        assert(forall|a: int|
            0 <= a < m1@.len() ==> m1@[a] == if a < i {
                m0@[a]
            } else {
                m0@[a + 1]
            });
    }
    assert(!m1.spec_has(t)) by {
        if m1.spec_has(t) {
            let j = choose|j: int| 0 <= j < m1@.len() && m1@[j].token == t;
            if j < i {
                assert(m0@[j].token == m0@[i].token);
            } else {
                assert(m0@[j + 1].token == m0@[i].token);
            }
        }
    }
    assert forall|u: Seq<u8>| u != t implies m1.spec_has(u) == m0.spec_has(u) by {
        if m0.spec_has(u) {
            let j = m0.spec_idx(u);
            assert(m0@[j].token == u);
            assert(j != i);
            if j < i {
                assert(m1@[j].token == u);
            } else {
                assert(m1@[j - 1].token == u);
            }
        } else {
            if m1.spec_has(u) {
                let j = choose|j: int| 0 <= j < m1@.len() && m1@[j].token == u;
                if j < i {
                    assert(m0@[j].token == u);
                } else {
                    assert(m0@[j + 1].token == u);
                }
            }
        }
    }
    assert forall|u: Seq<u8>| u != t && m0.spec_has(u) implies m1.spec_game(u) == m0.spec_game(
        u,
    ) && m1.spec_notifier(u) == m0.spec_notifier(u) by {
        let j = m0.spec_idx(u);
        assert(m0@[j].token == u);
        assert(j != i);
        if j < i {
            assert(m1@[j] == m0@[j]);
            m1.lemma_found(j, u);
        } else {
            assert(m1@[j - 1] == m0@[j]);
            m1.lemma_found(j - 1, u);
        }
    }
}

/// The redaction law: a snapshot taken while the game still runs carries
/// no round commentary — every answered round's comment is stripped —
/// while questions, verdicts and timestamps stay; an ended game's snapshot
/// is the stored state itself.
pub proof fn lemma_redaction(m: GameManager, t: Seq<u8>, g: GameStateView)
    requires
        m.wf(),
        m.spec_has(t),
        g == if m.spec_game(t).game_ended {
            m.spec_game(t)
        } else {
            GameStateView {
                records: m.spec_game(t).records.map_values(
                    |rec: RecordView| spec_strip_comment(rec),
                ),
                ..m.spec_game(t)
            }
        },
    ensures
        !m.spec_game(t).game_ended ==> forall|i: int|
            0 <= i < g.records.len() ==> ((#[trigger] g.records[i]).answer matches Some(a)
                ==> a.comment is None),
        !m.spec_game(t).game_ended ==> forall|i: int|
            0 <= i < g.records.len() ==> (#[trigger] g.records[i]).question == m.spec_game(
                t,
            ).records[i].question && g.records[i].answer is Some == (m.spec_game(
                t,
            ).records[i].answer is Some),
        m.spec_game(t).game_ended ==> g == m.spec_game(t),
{
}

/// The single-flight law: once an ask has won the pending slot of a
/// session, no further ask on that token can win it until the answer is
/// committed, and asks on every other session are unaffected.
pub proof fn lemma_single_flight(m0: GameManager, m1: GameManager, t: Seq<u8>, q: Seq<char>)
    requires
        m0.wf(),
        m0.spec_can_ask(t),
        // the store a successful set_pending_question(t, q) leaves behind
        m1@ == m0@.update(
            m0.spec_idx(t),
            EntryView {
                state: GameStateView { pending_question: Some(q), ..m0.spec_game(t) },
                ..m0@[m0.spec_idx(t)]
            },
        ),
    ensures
        !m1.spec_can_ask(t),
        forall|u: Seq<u8>| u != t ==> m1.spec_can_ask(u) == m0.spec_can_ask(u),
{
    let i = m0.spec_idx(t);
    assert(0 <= i < m0@.len() && m0@[i].token == t);
    assert(forall|a: int| 0 <= a < m1@.len() ==> m1@[a].token == m0@[a].token);
    assert(m1.wf());
    m1.lemma_found(i, t);
    assert(m1.spec_game(t).pending_question is Some);
    assert forall|u: Seq<u8>| u != t implies m1.spec_can_ask(u) == m0.spec_can_ask(u) by {
        if m0.spec_has(u) {
            let j = m0.spec_idx(u);
            assert(m0@[j].token == u);
            assert(j != i);
            assert(m1@[j] == m0@[j]);
            m1.lemma_found(j, u);
        } else {
            if m1.spec_has(u) {
                let j = choose|j: int| 0 <= j < m1@.len() && m1@[j].token == u;
                assert(m0@[j].token == u);
            }
        }
    }
}

} // verus!
