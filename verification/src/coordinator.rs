//! The composition root's decision logic: what one request does to the
//! store, and what the embedding program must do out of band (awaiting a
//! notifier, calling the external service). Each handler is split into the
//! decisions, which live here, and the async edges, which do not.

use vstd::prelude::*;
use vstd::string::StringSliceAdditionalSpecFns;
use vstd::utf8::encode_utf8;
use crate::config::Config;
use crate::error::AppError;
use crate::game_manager::{EntryView, GameManager, sanitize_question};
use crate::game_prompt::GameStepBuilder;
use crate::gpt::{QuestionParams, spec_bracket_clean, spec_non_space_count};
use crate::locale::Language;
use crate::messages::{GameState, GameStateView, ServerResponse, Status};
use crate::server_locale::{LocaleManager, spec_phrase};
use crate::text::{
    ascii_upper, is_ascii_alnum, is_ascii_alnum_char, push_char, spec_ascii_upper, spec_opt_str,
    spec_replace_all, spec_trim, str_eq, replace_all,
};
use crate::token::{Token, TOKEN_LENGTH};

verus! {

/// The chars the cheat detector keeps: ASCII letters, digits, spaces.
pub open spec fn spec_cheat_keep(c: char) -> bool {
    is_ascii_alnum(c) || c == ' '
}

/// A phrase reduced to kept chars, uppercased.
pub open spec fn spec_squash(s: Seq<char>) -> Seq<char>
    decreases s.len(),
{
    if s.len() == 0 {
        Seq::empty()
    } else {
        spec_squash(s.drop_last()) + if spec_cheat_keep(s.last()) {
            seq![spec_ascii_upper(s.last())]
        } else {
            Seq::empty()
        }
    }
}

/// Words re-joined by single spaces: runs of spaces collapse, outer spaces
/// vanish. `pending` says a separator is due before the next word char.
pub open spec fn spec_collapse(s: Seq<char>, emitted: bool, pending: bool) -> Seq<char>
    decreases s.len(),
{
    if s.len() == 0 {
        Seq::empty()
    } else if s[0] == ' ' {
        spec_collapse(s.skip(1), emitted, emitted)
    } else {
        (if pending {
            seq![' ']
        } else {
            Seq::empty()
        }) + seq![s[0]] + spec_collapse(s.skip(1), true, false)
    }
}

/// The normal form a cheat phrase is compared in.
pub open spec fn spec_normalize(s: Seq<char>) -> Seq<char> {
    spec_collapse(spec_squash(s), false, false)
}

/// Keeps letters, digits and spaces, uppercases them, and joins the words
/// by single spaces.
pub fn normalize_cheat(s: &str) -> (r: String)
    ensures
        r@ == spec_normalize(s@),
{
    let n = s.unicode_len();
    let mut f = String::new();
    let mut i: usize = 0;
    while i < n
        invariant
            n == s@.len(),
            i <= n,
            f@ == spec_squash(s@.take(i as int)),
        decreases n - i,
    {
        let c = s.get_char(i);
        proof {
            assert(s@.take(i + 1).drop_last() =~= s@.take(i as int));
            assert(s@.take(i + 1).last() == s@[i as int]);
        }
        if is_ascii_alnum_char(c) || c == ' ' {
            push_char(&mut f, ascii_upper(c));
            proof {
                assert(f@ =~= spec_squash(s@.take(i + 1)));
            }
        }
        i = i + 1;
    }
    proof {
        assert(s@.take(n as int) =~= s@);
    }
    let fs = f;
    let m = fs.as_str().unicode_len();
    let mut out = String::new();
    let mut emitted = false;
    let mut pending = false;
    let mut j: usize = 0;
    proof {
        assert(fs@.skip(0) =~= fs@);
    }
    while j < m
        invariant
            m == fs@.len(),
            j <= m,
            spec_collapse(fs@, false, false) == out@ + spec_collapse(
                fs@.skip(j as int),
                emitted,
                pending,
            ),
        decreases m - j,
    {
        let ghost tail = fs@.skip(j as int);
        proof {
            assert(tail[0] == fs@[j as int]);
            assert(tail.skip(1) =~= fs@.skip(j + 1));
        }
        let c = fs.as_str().get_char(j);
        if c == ' ' {
            pending = emitted;
            proof {
                assert(spec_collapse(tail, emitted, pending) == spec_collapse(
                    fs@.skip(j + 1),
                    emitted,
                    emitted,
                ));
            }
        } else {
            let ghost preout = out@;
            if pending {
                push_char(&mut out, ' ');
            }
            push_char(&mut out, c);
            proof {
                assert(spec_collapse(tail, emitted, pending) == (if pending {
                    seq![' ']
                } else {
                    Seq::<char>::empty()
                }) + seq![fs@[j as int]] + spec_collapse(fs@.skip(j + 1), true, false));
                assert(out@ =~= preout + ((if pending {
                    seq![' ']
                } else {
                    Seq::<char>::empty()
                }) + seq![fs@[j as int]]));
                assert(out@ + spec_collapse(fs@.skip(j + 1), true, false) =~= preout
                    + spec_collapse(tail, emitted, pending));
            }
            emitted = true;
            pending = false;
        }
        j = j + 1;
    }
    proof {
        assert(fs@.skip(m as int) =~= Seq::<char>::empty());
    }
    out
}

/// The phrases that concede the game, already in normal form.
pub open spec fn spec_is_give_up(s: Seq<char>) -> bool {
    let n = spec_normalize(s);
    n == "IM LOSER"@ || n == "I AM LOSER"@ || n == "IM A LOSER"@ || n == "KONEC"@ || n
        == "konec"@
}

pub fn is_give_up(s: &str) -> (r: bool)
    ensures
        r == spec_is_give_up(s@),
{
    let n = normalize_cheat(s);
    let ns = n.as_str();
    str_eq(ns, "IM LOSER") || str_eq(ns, "I AM LOSER") || str_eq(ns, "IM A LOSER") || str_eq(
        ns,
        "KONEC",
    ) || str_eq(ns, "konec")
}

/// How a query flag reads: affirmative words are 1, negative words 0, an
/// absent flag 0, anything else -1.
pub open spec fn spec_flag(v: Option<Seq<char>>) -> i32 {
    match v {
        None => 0,
        Some(s) => if s == "1"@ || s == "true"@ || s == "on"@ || s == "yes"@ {
            1i32
        } else if s == "0"@ || s == "false"@ || s == "off"@ || s == "no"@ {
            0i32
        } else {
            -1i32
        },
    }
}

pub fn parse_flag(v: Option<&str>) -> (r: i32)
    ensures
        r == spec_flag(
            match v {
                Some(s) => Some(s@),
                None => None,
            },
        ),
{
    match v {
        Some(s) => {
            if str_eq(s, "1") || str_eq(s, "true") || str_eq(s, "on") || str_eq(s, "yes") {
                1
            } else if str_eq(s, "0") || str_eq(s, "false") || str_eq(s, "off") || str_eq(
                s,
                "no",
            ) {
                0
            } else {
                -1
            }
        },
        None => 0,
    }
}

/// The two flags of a state request, already decoded by `parse_flag`.
pub struct WaitParam {
    pub wait: i32,
    pub quiet: i32,
}

impl WaitParam {
    /// A flag that decoded to -1 was not a boolean word.
    pub fn check(&self) -> (r: Result<(), AppError>)
        ensures
            match r {
                Ok(()) => self.wait != -1 && self.quiet != -1,
                Err(e) => e == AppError::InvalidInput && (self.wait == -1 || self.quiet == -1),
            },
    {
        if self.wait == -1 || self.quiet == -1 {
            return Err(AppError::InvalidInput);
        }
        Ok(())
    }
}

/// The query of a new-game request.
pub struct NewGameParam {
    pub lang: Option<String>,
}

impl NewGameParam {
    /// The requested language; anything unknown falls back to English.
    pub fn get_language(&self) -> (r: Language)
        ensures
            r == match spec_opt_str(self.lang) {
                Some(s) => match Language::spec_from_code(crate::text::lower_of(s)) {
                    Some(l) => l,
                    None => Language::English,
                },
                None => Language::English,
            },
    {
        match &self.lang {
            Some(lang) => match Language::from_str(lang.as_str()) {
                Some(l) => l,
                None => Language::English,
            },
            None => Language::English,
        }
    }
}

/// What the embedding program must do after an accepted ask: either commit
/// the concession immediately, or call the external service with the built
/// prompt and commit whatever comes back.
#[derive(Debug)]
pub enum AskPlan {
    GiveUp { final_message: String },
    Resolve { question: String, params: QuestionParams },
}

/// Which error an ask settles on, in the order the checks run.
pub open spec fn spec_ask_error(
    m: GameManager,
    t: Seq<u8>,
    body: &str,
) -> Option<AppError> {
    if !m.spec_has(t) {
        Some(AppError::GameNotFound)
    } else if m.spec_game(t).game_ended {
        Some(AppError::InactiveGame)
    } else if body.spec_bytes().len() as usize > 120 {
        Some(AppError::InvalidToken)
    } else if m.spec_game(t).target is None {
        Some(AppError::InternalServerError)
    } else if spec_non_space_count(body@) < 5 {
        Some(AppError::InvalidInput)
    } else if m.spec_game(t).pending_question is Some {
        Some(AppError::Pending)
    } else {
        None
    }
}

/// The instructions an accepted ask runs under.
pub open spec fn spec_ask_instructions(
    config: Config,
    target: Seq<char>,
    lang: Language,
) -> Option<Seq<char>> {
    let filled = spec_replace_all(
        spec_replace_all(config.gpt.gpt_instructions@, "{target}"@, target),
        "{language}"@,
        if lang is English {
            "English"@
        } else {
            "Czech"@
        },
    );
    if encode_utf8(spec_trim(filled)).len() as usize > 1 {
        Some(spec_trim(filled))
    } else {
        None
    }
}

/// Validates an ask and reserves the single-flight slot. On success the
/// question is pending and the returned plan says how to resolve it; on
/// failure the store is untouched.
pub fn prepare_ask(
    manager: &mut GameManager,
    config: &Config,
    locale: &LocaleManager,
    token: &Token,
    body: &str,
) -> (r: Result<AskPlan, AppError>)
    requires
        old(manager).wf(),
    ensures
        final(manager).wf(),
        match r {
            Err(e) => Some(e) == spec_ask_error(*old(manager), token.token@, body)
                && final(manager)@ == old(manager)@,
            Ok(plan) => {
                let g = old(manager).spec_game(token.token@);
                &&& spec_ask_error(*old(manager), token.token@, body) is None
                &&& final(manager)@ =~= old(manager)@.update(
                    old(manager).spec_idx(token.token@),
                    EntryView {
                        state: GameStateView { pending_question: Some(body@), ..g },
                        ..old(manager)@[old(manager).spec_idx(token.token@)]
                    },
                )
                &&& match plan {
                    AskPlan::GiveUp { final_message } => spec_is_give_up(body@)
                        && final_message@ == spec_replace_all(
                        spec_phrase(locale.spec_translations(), g.lang, "game.final_answer"@),
                        "{}"@,
                        g.target->0,
                    ),
                    AskPlan::Resolve { question, params } => !spec_is_give_up(body@) && question@
                        == "question: ["@ + spec_bracket_clean(body@) + "]"@ && spec_opt_str(
                        params.instructions,
                    ) == spec_ask_instructions(*config, g.target->0, g.lang),
                }
            },
        },
{
    let active = match manager.is_game_active(token) {
        Ok(b) => b,
        Err(e) => {
            return Err(e);
        },
    };
    if !active {
        return Err(AppError::InactiveGame);
    }
    let question = match sanitize_question(body) {
        Some(q) => q,
        None => {
            return Err(AppError::InvalidToken);
        },
    };
    let language = match manager.get_language(token) {
        Ok(l) => l,
        Err(_) => unreached(),
    };
    let target = match manager.get_target(token) {
        Ok(t) => t,
        Err(e) => {
            return Err(AppError::InternalServerError);
        },
    };
    let builder = GameStepBuilder::new(config).set_target(target.as_str()).set_language(
        &language,
    ).set_question(question.as_str());
    let builder = match builder.create() {
        Ok(b) => b,
        Err(_) => {
            return Err(AppError::InvalidInput);
        },
    };
    let original = builder.get_original_question();
    match manager.set_pending_question(token, original.as_str()) {
        Ok(()) => {},
        Err(e) => {
            return Err(e);
        },
    }
    if is_give_up(question.as_str()) {
        let template = locale.get(&language, "game.final_answer");
        proof {
            reveal_strlit("{}");
        }
        let final_message = replace_all(template.as_str(), "{}", target.as_str());
        Ok(AskPlan::GiveUp { final_message })
    } else {
        let params = builder.build_params(config);
        Ok(AskPlan::Resolve { question: builder.build_question(), params })
    }
}

/// Checks a state request and says whether the caller should first wait on
/// the session's notifier: only when a question is pending and waiting was
/// asked for. The returned pair is (pending, wait first).
pub fn game_poll(manager: &GameManager, token: &Token, query: &WaitParam) -> (r: Result<
    (bool, bool),
    AppError,
>)
    requires
        manager.wf(),
    ensures
        match r {
            Ok((pending, wait)) => {
                &&& query.wait != -1 && query.quiet != -1
                &&& manager.spec_has(token.token@)
                &&& pending == (manager.spec_game(token.token@).pending_question is Some)
                &&& wait == (pending && query.wait == 1)
            },
            Err(AppError::InvalidInput) => query.wait == -1 || query.quiet == -1,
            Err(AppError::GameNotFound) => query.wait != -1 && query.quiet != -1
                && !manager.spec_has(token.token@),
            Err(_) => false,
        },
{
    match query.check() {
        Ok(()) => {},
        Err(e) => {
            return Err(e);
        },
    }
    let pending = match manager.is_pending(token) {
        Ok(p) => p,
        Err(e) => {
            return Err(e);
        },
    };
    Ok((pending, pending && query.wait == 1))
}

/// Builds the response of a state request: the status seen before any
/// wait, and — unless a quiet poll is still pending — the redacted
/// snapshot. A woken waiter calls this again and so re-checks the store.
pub fn game_reply(manager: &GameManager, token: &Token, pending: bool, quiet: i32) -> (r:
    Result<ServerResponse<GameState>, AppError>)
    requires
        manager.wf(),
    ensures
        match r {
            Ok(resp) => {
                &&& manager.spec_has(token.token@) || (quiet == 1 && pending)
                &&& resp.status == if pending {
                    Status::Pending
                } else {
                    Status::Okay
                }
                &&& resp.invalid_token is None
                &&& if quiet == 1 && pending {
                    resp.content is None
                } else {
                    {
                        let g = manager.spec_game(token.token@);
                        match resp.content {
                            Some(got) => got@ == if g.game_ended {
                                g
                            } else {
                                GameStateView {
                                    records: g.records.map_values(
                                        |rec: crate::messages::RecordView|
                                            crate::messages::spec_strip_comment(rec),
                                    ),
                                    ..g
                                }
                            },
                            None => false,
                        }
                    }
                }
            },
            Err(AppError::GameNotFound) => !manager.spec_has(token.token@) && !(quiet == 1
                && pending),
            Err(_) => false,
        },
{
    let status = if pending {
        Status::Pending
    } else {
        Status::Okay
    };
    if quiet == 1 && pending {
        return Ok(ServerResponse::from_status(status));
    }
    let game = match manager.get_game_state(token) {
        Ok(g) => g,
        Err(e) => {
            return Err(e);
        },
    };
    Ok(ServerResponse::from_content(status, game))
}

/// Creates a session under a fresh token for a random identity of the
/// language, and returns the token's wire form.
pub fn create_game(manager: &mut GameManager, locale: &LocaleManager, lang: Language) -> (r:
    Result<String, AppError>)
    requires
        old(manager).wf(),
    ensures
        final(manager).wf(),
        match r {
            Ok(s) => {
                let m1 = *final(manager);
                let ids = locale.spec_identities_of(lang);
                &&& s@.len() == TOKEN_LENGTH
                &&& exists|tok: Token|
                    {
                        &&& (#[trigger] tok.spec_str()) == s@
                        &&& m1.spec_has(tok.token@)
                        &&& m1.spec_game(tok.token@).lang == lang
                        &&& m1.spec_game(tok.token@).pending_question is None
                        &&& m1.spec_game(tok.token@).game_ended == false
                        &&& exists|i: int|
                            0 <= i < (ids->0).len() && m1.spec_game(tok.token@).target == Some(
                                #[trigger] (ids->0)[i],
                            )
                    }
            },
            Err(AppError::InternalServerError) => {
                let ids = locale.spec_identities_of(lang);
                &&& (ids is None || (ids->0).len() == 0)
                &&& final(manager)@ == old(manager)@
            },
            Err(_) => false,
        },
{
    let identity = match locale.get_random_identity(&lang) {
        Some(id) => id,
        None => {
            return Err(AppError::InternalServerError);
        },
    };
    let token = manager.new_game(identity.as_str(), lang);
    let s = token.to_string();
    proof {
        assert(token.spec_str() == s@);
        assert(s@.len() == TOKEN_LENGTH);
    }
    Ok(s)
}

} // verus!
