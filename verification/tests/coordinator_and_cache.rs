use guess_who::answer_cache::{AnswerCache, AnswerCacheEntry};
use guess_who::config::{Config, Dirs, Gpt, Www};
use guess_who::coordinator::{
    create_game, game_poll, game_reply, is_give_up, normalize_cheat, parse_flag, prepare_ask,
    AskPlan, NewGameParam, WaitParam,
};
use guess_who::error::AppError;
use guess_who::game_manager::GameManager;
use guess_who::game_prompt::GameStepBuilder;
use guess_who::gpt::{Answer as GptAnswer, ContentPart, OutputItem, QuestionParams, Response};
use guess_who::locale::Language;
use guess_who::messages::{Status, Verdict};
use guess_who::server_locale::{Identities, LocaleManager};
use guess_who::token::{Token, TokenType};

fn test_config() -> Config {
    Config {
        debug: false,
        www: Www { port: 8080 },
        gpt: Gpt {
            key_file: "key.txt".to_string(),
            max_clients_count: 2,
            gpt_instructions: "You are {target}. Answer in {language}.".to_string(),
            gpt_key: "test-key".to_string(),
        },
        logfile: None,
        dirs: Dirs { pkg: None, pkg_www: None, pkg_dist: None, pkg_assets: None },
    }
}

fn test_locale(config: &Config) -> LocaleManager {
    let mut lm = LocaleManager::new(config);
    lm.set_identities(Language::English, Identities::parse("Whale").unwrap());
    lm
}

#[test]
fn cheat_normalization() {
    assert_eq!(normalize_cheat("  I'm   a LOSER!! "), "IM A LOSER");
    assert_eq!(normalize_cheat("i am loser"), "I AM LOSER");
    assert_eq!(normalize_cheat(""), "");
    assert!(is_give_up("I'm loser"));
    assert!(is_give_up("  konec  "));
    assert!(!is_give_up("Is it blue?"));
}

#[test]
fn flags_decode() {
    assert_eq!(parse_flag(Some("1")), 1);
    assert_eq!(parse_flag(Some("true")), 1);
    assert_eq!(parse_flag(Some("on")), 1);
    assert_eq!(parse_flag(Some("yes")), 1);
    assert_eq!(parse_flag(Some("0")), 0);
    assert_eq!(parse_flag(Some("off")), 0);
    assert_eq!(parse_flag(Some("maybe")), -1);
    assert_eq!(parse_flag(None), 0);
    assert!(WaitParam { wait: 1, quiet: 0 }.check().is_ok());
    assert_eq!(
        WaitParam { wait: -1, quiet: 0 }.check(),
        Err(AppError::InvalidInput)
    );
}

#[test]
fn new_game_param_language() {
    assert_eq!(NewGameParam { lang: None }.get_language(), Language::English);
    assert_eq!(
        NewGameParam { lang: Some("cs".to_string()) }.get_language(),
        Language::Czech
    );
    assert_eq!(
        NewGameParam { lang: Some("klingon".to_string()) }.get_language(),
        Language::English
    );
}

#[test]
fn create_game_draws_an_identity() {
    let config = test_config();
    let locale = test_locale(&config);
    let mut manager = GameManager::new();
    let s = create_game(&mut manager, &locale, Language::English).unwrap();
    assert_eq!(s.len(), 20);
    let token = Token::from_string(&s).unwrap();
    assert_eq!(token.get_token_type(), TokenType::Game);
    assert_eq!(manager.get_target(&token).unwrap(), "Whale");
    // No Czech identities were supplied.
    assert_eq!(
        create_game(&mut manager, &locale, Language::Czech),
        Err(AppError::InternalServerError)
    );
}

#[test]
fn prepare_ask_resolves_and_reserves() {
    let config = test_config();
    let locale = test_locale(&config);
    let mut manager = GameManager::new();
    let token = manager.new_game("Whale", Language::English);

    let plan = prepare_ask(&mut manager, &config, &locale, &token, "Is it blue?").unwrap();
    match plan {
        AskPlan::Resolve { question, params } => {
            assert_eq!(question, "question: [Is it blue?]");
            assert_eq!(
                params.instructions.as_deref(),
                Some("You are Whale. Answer in English.")
            );
        },
        AskPlan::GiveUp { .. } => panic!("an ordinary question is no concession"),
    }
    // The slot is taken until the background resolution commits.
    assert_eq!(manager.is_pending(&token), Ok(true));
    assert_eq!(
        prepare_ask(&mut manager, &config, &locale, &token, "Is it big?").unwrap_err(),
        AppError::Pending
    );
}

#[test]
fn prepare_ask_detects_concession() {
    let config = test_config();
    let locale = test_locale(&config);
    let mut manager = GameManager::new();
    let token = manager.new_game("Whale", Language::English);
    let plan = prepare_ask(&mut manager, &config, &locale, &token, "I'm a loser").unwrap();
    match plan {
        AskPlan::GiveUp { final_message } => assert_eq!(final_message, "I'm Whale"),
        AskPlan::Resolve { .. } => panic!("the concession phrase went unnoticed"),
    }
}

#[test]
fn prepare_ask_rejects_bad_requests() {
    let config = test_config();
    let locale = test_locale(&config);
    let mut manager = GameManager::new();
    let stranger = Token::new(TokenType::Game);
    assert_eq!(
        prepare_ask(&mut manager, &config, &locale, &stranger, "Is it blue?").unwrap_err(),
        AppError::GameNotFound
    );
    let token = manager.new_game("Whale", Language::English);
    assert_eq!(
        prepare_ask(&mut manager, &config, &locale, &token, &"x".repeat(121)).unwrap_err(),
        AppError::InvalidToken
    );
    assert_eq!(
        prepare_ask(&mut manager, &config, &locale, &token, "hi").unwrap_err(),
        AppError::InvalidInput
    );
    manager.finish_game(&token).unwrap();
    assert_eq!(
        prepare_ask(&mut manager, &config, &locale, &token, "Is it blue?").unwrap_err(),
        AppError::InactiveGame
    );
}

#[test]
fn poll_and_reply() {
    let mut manager = GameManager::new();
    let token = manager.new_game("Whale", Language::English);
    let q = WaitParam { wait: 1, quiet: 1 };
    assert_eq!(game_poll(&manager, &token, &q), Ok((false, false)));
    manager.set_pending_question(&token, "Is it blue?").unwrap();
    assert_eq!(game_poll(&manager, &token, &q), Ok((true, true)));
    assert_eq!(
        game_poll(&manager, &token, &WaitParam { wait: 0, quiet: 0 }),
        Ok((true, false))
    );
    assert_eq!(
        game_poll(&manager, &token, &WaitParam { wait: -1, quiet: 0 }),
        Err(AppError::InvalidInput)
    );

    // A quiet poll of a pending game carries no half-done content.
    let resp = game_reply(&manager, &token, true, 1).unwrap();
    assert_eq!(resp.status, Status::Pending);
    assert!(resp.content.is_none());

    let resp = game_reply(&manager, &token, true, 0).unwrap();
    assert_eq!(resp.status, Status::Pending);
    let g = resp.content.unwrap();
    assert_eq!(g.pending_question.as_ref().unwrap().text, "Is it blue?");

    let resp = game_reply(&manager, &token, false, 0).unwrap();
    assert_eq!(resp.status, Status::Okay);

    let stranger = Token::new(TokenType::Game);
    assert_eq!(
        game_reply(&manager, &stranger, false, 0).unwrap_err(),
        AppError::GameNotFound
    );
}

#[test]
fn answer_cache_slots() {
    let mut cache = AnswerCache::new();
    let token = cache.reserve_token();
    assert_eq!(token.len(), 20);
    assert_eq!(cache.get(&token), AnswerCacheEntry::Pending);
    assert!(cache.insert(&token, "the answer"));
    assert_eq!(
        cache.get(&token),
        AnswerCacheEntry::Text("the answer".to_string())
    );
    assert_eq!(cache.get("unknown-token"), AnswerCacheEntry::Missing);
    assert!(!cache.insert("unknown-token", "x"));
    assert!(cache.snapshot(&token).is_some());
    assert!(cache.snapshot("unknown-token").is_none());
    assert_eq!(AnswerCache::generate_token().len(), 20);
}

#[test]
fn answer_cache_evicts_the_oldest() {
    let mut cache = AnswerCache::new();
    let first = cache.reserve_token();
    let mut last = String::new();
    for _ in 0..2048 {
        last = cache.reserve_token();
    }
    // 2049 reservations against a limit of 2048: the first one is gone.
    assert_eq!(cache.get(&first), AnswerCacheEntry::Missing);
    assert_eq!(cache.get(&last), AnswerCacheEntry::Pending);
}

#[test]
fn gpt_reply_reading() {
    let response = Response {
        output: vec![
            OutputItem::Other,
            OutputItem::Message { content: vec![ContentPart::Other] },
            OutputItem::Message {
                content: vec![
                    ContentPart::Other,
                    ContentPart::OutputText { text: "YES; it is".to_string() },
                    ContentPart::OutputText { text: "ignored".to_string() },
                ],
            },
        ],
    };
    assert_eq!(response.first_output_text_typed(), Some("YES; it is"));
    let answer = GptAnswer::from_response(response);
    assert_eq!(answer.to_string().as_deref(), Some("YES; it is"));
    let empty = Response { output: vec![] };
    assert_eq!(empty.first_output_text_typed(), None);
}

#[test]
fn prompt_builder_steps() {
    let config = test_config();
    let builder = GameStepBuilder::new(&config)
        .set_target("Whale")
        .set_language(&Language::English)
        .set_question("Is it [big]?");
    let builder = builder.create().unwrap();
    assert_eq!(builder.get_target(), "Whale");
    assert_eq!(builder.get_original_question(), "Is it [big]?");
    assert_eq!(builder.build_question(), "question: [Is it /big/?]");
    let params = builder.build_params(&config);
    assert_eq!(
        params.instructions.as_deref(),
        Some("You are Whale. Answer in English.")
    );

    // An unanswerable question never lands in the builder.
    let incomplete = GameStepBuilder::new(&config)
        .set_target("Whale")
        .set_language(&Language::English)
        .set_question("hi");
    assert_eq!(incomplete.create().unwrap_err(), AppError::InvalidInput);
}

#[test]
fn question_params_trim_rule() {
    let mut p = QuestionParams::default();
    assert!(p.instructions.is_none());
    p.set_instructions("  do this  ");
    assert_eq!(p.instructions.as_deref(), Some("do this"));
    let mut p = QuestionParams::default();
    p.set_instructions(" x ");
    assert!(p.instructions.is_none());
}

#[test]
fn verdict_of_give_up_message() {
    // The concession path commits a Final answer built from the message.
    let a = guess_who::messages::Answer::get_final_answer("I'm Whale");
    assert_eq!(a.verdict, Some(Verdict::Final));
    assert_eq!(a.comment.as_deref(), Some("I'm Whale"));
}
