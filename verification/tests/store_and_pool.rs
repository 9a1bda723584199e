use std::cell::Cell;

use guess_who::board::{create_pending_question_record, get_verdict_from_record, Act, BoardState, ServerErrorDetail};
use guess_who::client_pool::{ClientsPool, PollableClientFactory};
use guess_who::game_response::Status;
use guess_who::config::Gpt;
use guess_who::error::AppError;
use guess_who::game_manager::{sanitize_question, GameManager};
use guess_who::locale::Language;
use guess_who::messages::{Answer, GameError, GameState, Question, Record, Verdict};
use guess_who::token::{Token, TokenType};

fn yes_answer(comment: &str) -> Answer {
    let mut a = Answer::new();
    a.verdict = Some(Verdict::Yes);
    a.comment = Some(comment.to_string());
    a
}

#[test]
fn sanitize_question_limits_length() {
    assert_eq!(
        sanitize_question("Is it blue?").as_deref(),
        Some("Is it blue?")
    );
    assert!(sanitize_question(&"x".repeat(121)).is_none());
}

#[test]
fn unknown_token_is_not_found() {
    let mut m = GameManager::new();
    let stranger = Token::new(TokenType::Game);
    assert_eq!(m.is_pending(&stranger), Err(AppError::GameNotFound));
    assert_eq!(m.get_game_state(&stranger).unwrap_err(), AppError::GameNotFound);
    assert_eq!(
        m.set_pending_question(&stranger, "Is it blue?"),
        Err(AppError::GameNotFound)
    );
    assert_eq!(m.delete_game(&stranger), Err(AppError::GameNotFound));
    assert!(m.game_ended(&stranger));
}

#[test]
fn single_flight_gate() {
    let mut m = GameManager::new();
    let t = m.new_game("Whale", Language::English);
    assert_eq!(m.is_pending(&t), Ok(false));
    assert_eq!(m.set_pending_question(&t, "Is it blue?"), Ok(()));
    // Every further ask on the same token loses the race until the commit.
    assert_eq!(
        m.set_pending_question(&t, "Is it big?"),
        Err(AppError::Pending)
    );
    assert_eq!(
        m.set_pending_question(&t, "Is it blue?"),
        Err(AppError::Pending)
    );
    assert_eq!(m.is_pending(&t), Ok(true));
    assert_eq!(m.answer_pending_question(&t, &yes_answer("it is")), Ok(()));
    assert_eq!(m.is_pending(&t), Ok(false));
    assert_eq!(m.set_pending_question(&t, "Is it big?"), Ok(()));
}

#[test]
fn commit_appends_record_and_final_ends_game() {
    let mut m = GameManager::new();
    let t = m.new_game("Whale", Language::English);
    m.set_pending_question(&t, "Is it blue?").unwrap();
    m.answer_pending_question(&t, &yes_answer("quite")).unwrap();
    assert_eq!(m.is_game_active(&t), Ok(true));

    m.set_pending_question(&t, "Give up").unwrap();
    let final_answer = Answer::get_final_answer("I'm a whale");
    m.answer_pending_question(&t, &final_answer).unwrap();
    assert_eq!(m.is_game_active(&t), Ok(false));

    let g = m.get_game_state(&t).unwrap();
    assert!(g.game_ended);
    assert_eq!(g.records.len(), 2);
    assert_eq!(g.records[0].questions.text, "Is it blue?");
    assert_eq!(g.records[1].answers.as_ref().unwrap().verdict, Some(Verdict::Final));
    // An ended game shows full commentary.
    assert_eq!(g.records[0].answers.as_ref().unwrap().comment.as_deref(), Some("quite"));
}

#[test]
fn commit_with_nothing_pending_is_a_no_op() {
    let mut m = GameManager::new();
    let t = m.new_game("Whale", Language::English);
    assert_eq!(m.answer_pending_question(&t, &yes_answer("x")), Ok(()));
    assert_eq!(m.get_game_state(&t).unwrap().records.len(), 0);
}

#[test]
fn snapshot_redacts_running_games() {
    let mut m = GameManager::new();
    let t = m.new_game("Whale", Language::Czech);
    m.set_pending_question(&t, "Is it blue?").unwrap();
    m.answer_pending_question(&t, &yes_answer("a strong hint")).unwrap();
    let g = m.get_game_state(&t).unwrap();
    assert!(!g.game_ended);
    for r in &g.records {
        assert!(r.answers.as_ref().unwrap().comment.is_none());
    }
    assert_eq!(g.records[0].answers.as_ref().unwrap().verdict, Some(Verdict::Yes));
    assert_eq!(g.lang, Language::Czech);
}

#[test]
fn error_response_clears_pending_and_keeps_game() {
    let mut m = GameManager::new();
    let t = m.new_game("Whale", Language::English);
    m.set_pending_question(&t, "Is it blue?").unwrap();
    m.handle_error_response(&t, GameError::GPTError("boom".to_string()))
        .unwrap();
    assert_eq!(m.is_pending(&t), Ok(false));
    assert_eq!(m.is_game_active(&t), Ok(true));
    // A later question is accepted again.
    assert_eq!(m.set_pending_question(&t, "Is it big?"), Ok(()));
}

#[test]
fn games_do_not_interfere() {
    let mut m = GameManager::new();
    let t1 = m.new_game("Whale", Language::English);
    let t2 = m.new_game("Mozart", Language::Czech);
    m.set_pending_question(&t1, "Is it blue?").unwrap();
    assert_eq!(m.is_pending(&t2), Ok(false));
    assert_eq!(m.set_pending_question(&t2, "Is it big?"), Ok(()));
    assert_eq!(m.get_target(&t1).unwrap(), "Whale");
    assert_eq!(m.get_target(&t2).unwrap(), "Mozart");
    assert_eq!(m.get_language(&t2), Ok(Language::Czech));
    m.delete_game(&t1).unwrap();
    assert_eq!(m.is_pending(&t1), Err(AppError::GameNotFound));
    assert_eq!(m.is_pending(&t2), Ok(true));
}

struct CountingFactory {
    config: Gpt,
    built: Cell<u32>,
}

impl CountingFactory {
    fn new(cap: u32) -> CountingFactory {
        CountingFactory {
            config: Gpt {
                key_file: String::new(),
                max_clients_count: cap,
                gpt_instructions: String::new(),
                gpt_key: String::new(),
            },
            built: Cell::new(0),
        }
    }
}

impl PollableClientFactory<u32> for CountingFactory {
    fn build_client(&self) -> u32 {
        let n = self.built.get();
        self.built.set(n + 1);
        n
    }

    fn get_config(&self) -> &Gpt {
        &self.config
    }
}

#[test]
fn pool_respects_its_cap() {
    let mut pool = ClientsPool::new(CountingFactory::new(3));
    let a = pool.pop().unwrap();
    let b = pool.pop().unwrap();
    let c = pool.pop().unwrap();
    assert_eq!((a, b, c), (0, 1, 2));
    // The cap is consumed: no fourth client exists.
    assert!(pool.pop().is_none());
    assert!(pool.raw_client().is_none());
    pool.return_client(b);
    // A freed client is reused, not constructed anew.
    assert_eq!(pool.pop(), Some(1));
    assert!(pool.pop().is_none());
}

#[test]
fn abandoned_clients_keep_the_pool_full() {
    // Acquire the whole cap, hand everything back as a guard drop would,
    // and acquire the whole cap again: no new construction happens.
    let mut pool = ClientsPool::new(CountingFactory::new(4));
    let mut held = Vec::new();
    for _ in 0..4 {
        held.push(pool.pop().unwrap());
    }
    assert!(pool.pop().is_none());
    for c in held.drain(..) {
        pool.return_client(c);
    }
    for _ in 0..4 {
        let c = pool.pop().unwrap();
        assert!(c < 4, "client {c} was constructed past the cap");
    }
    assert!(pool.pop().is_none());
}

#[test]
fn pool_of_zero_capacity_hands_out_nothing() {
    let mut pool: ClientsPool<u32, CountingFactory> = ClientsPool::new(CountingFactory::new(0));
    assert!(pool.pop().is_none());
}

#[test]
fn board_reduces_actions() {
    let b = BoardState::default();
    assert!(b.game.is_none());
    let b = b.reduce(Act::Update(GameState::default()));
    assert!(b.game.is_some());
    let b = b.reduce(Act::ServerError(ServerErrorDetail::General));
    assert!(b.game.is_some());
    let b = b.reduce(Act::InvalidGame);
    assert!(b.game.is_none());
}

#[test]
fn verdict_helpers_for_rows() {
    let r = Record::new("Is it blue?".to_string());
    assert_eq!(get_verdict_from_record(&r), Verdict::NotSet);
    let pending = create_pending_question_record(&Question { text: "Is it big?".to_string() });
    assert_eq!(get_verdict_from_record(&pending), Verdict::Pending);
    assert_eq!(pending.questions.text, "Is it big?");
}

#[test]
fn poll_status_repeats() {
    assert!(Status { status: "pending".to_string() }.should_repeat());
    assert!(Status { status: "timeout".to_string() }.should_repeat());
    assert!(!Status { status: "ok".to_string() }.should_repeat());
}
