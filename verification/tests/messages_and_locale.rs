use guess_who::client_locale::{should_show_language_dialog, switch_language};
use guess_who::error::{AppError, Er, ErStatus};
use guess_who::gpt::{check_question, sanitize_question, QuestionError};
use guess_who::locale::{Language, Translations, TranslationInserter};
use guess_who::messages::{
    parse_reply, status_response, Answer, GameState, Record, ServerResponse, Status, Verdict,
};
use guess_who::server_locale::{Identities, LocaleManager};

#[test]
fn parse_reply_splits_and_trims() {
    assert_eq!(parse_reply("YES; it is blue"), Some(("YES", "it is blue")));
    assert_eq!(parse_reply("  NO ;x"), Some(("NO", "x")));
    assert_eq!(parse_reply("no semicolon"), None);
}

#[test]
fn parse_from_string_maps_verdicts() {
    for (input, verdict) in [
        ("YES; sure", Verdict::Yes),
        ("NO; nope", Verdict::No),
        ("UNABLE; cannot", Verdict::Unable),
        ("FINAL; I'm a whale", Verdict::Final),
        ("BEHAVE; stop it", Verdict::Behave),
        ("HUH; what", Verdict::NotSet),
    ] {
        let a = Answer::parse_from_string(input);
        assert_eq!(a.verdict, Some(verdict));
    }
    let a = Answer::parse_from_string("YES; it is blue");
    assert_eq!(a.comment.as_deref(), Some("it is blue"));
    let a = Answer::parse_from_string("garbled");
    assert_eq!(a.verdict, Some(Verdict::NotSet));
    assert_eq!(a.comment.as_deref(), Some("Weird question, skip..."));
}

#[test]
fn records_and_comment_clearing() {
    let mut g = GameState::default();
    let mut r = Record::new("Is it blue?".to_string());
    let mut a = Answer::new_pending();
    a.verdict = Some(Verdict::Yes);
    a.comment = Some("very blue".to_string());
    r.set_answer(&a);
    g.add_record(r);
    assert_eq!(g.records.len(), 1);
    g.clear_comments();
    assert_eq!(g.records[0].questions.text, "Is it blue?");
    assert_eq!(g.records[0].answers.as_ref().unwrap().verdict, Some(Verdict::Yes));
    assert_eq!(g.records[0].answers.as_ref().unwrap().comment, None);
}

#[test]
fn response_envelope() {
    let r: ServerResponse<u32> = ServerResponse::from_status(Status::Pending);
    assert!(r.content.is_none());
    assert!(r.need_new_token());
    let r = ServerResponse::from_content(Status::Okay, 7u32);
    assert_eq!(r.content, Some(7));
    let mut r: ServerResponse<u32> = ServerResponse::from_status(Status::Error);
    r.invalid_token = Some(false);
    assert!(!r.need_new_token());
}

#[test]
fn status_bodies() {
    assert_eq!(status_response(Status::Okay), "{\"status\":\"ok\"}");
    assert_eq!(status_response(Status::Pending), "{\"status\":\"pending\"}");
    assert_eq!(ErStatus::InvalidToken.json(), "{\"status\":\"invalid_token\"}");
    assert_eq!(ErStatus::GameDoesNotExist.json(), "{\"status\":\"game_does_not_exist\"}");
    assert_eq!(
        Er::error("boom"),
        "{\"message\":\"boom\",\"status\":\"error\"}"
    );
}

#[test]
fn error_mapping_matches_responses() {
    assert_eq!(AppError::Pending.response_status(), Status::Pending);
    assert_eq!(AppError::Timeout.response_status(), Status::Pending);
    assert_eq!(AppError::GameNotFound.response_status(), Status::Error);
    assert!(AppError::InvalidToken.response_invalid_token());
    assert!(AppError::GameNotFound.response_invalid_token());
    assert!(!AppError::Timeout.response_invalid_token());
    assert_eq!(AppError::Timeout.message(), "timeout");
}

#[test]
fn question_checks() {
    assert!(check_question("Is it a living thing?").is_ok());
    assert_eq!(check_question("hi"), Err(QuestionError::NotAQuestion));
    let long = "x".repeat(121);
    assert_eq!(check_question(&long), Err(QuestionError::TooLong));
    assert_eq!(
        sanitize_question("Is it [alive]?").unwrap(),
        "question: [Is it /alive/?]"
    );
}

#[test]
fn language_codes() {
    assert_eq!(Language::from_str("EN"), Some(Language::English));
    assert_eq!(Language::from_str("english"), Some(Language::English));
    assert_eq!(Language::from_str("CS"), Some(Language::Czech));
    assert_eq!(Language::from_str("\u{10C}esky"), Some(Language::Czech));
    assert_eq!(Language::from_str("fr"), None);
    assert_eq!(Language::English.to_code(), "en");
    assert_eq!(Language::Czech.to_instruction(), "Czech");
    assert_eq!(Language::Czech.to_display_name(), "\u{10C}esky");
    assert_eq!(Language::default(), Language::English);
}

#[test]
fn translations_last_entry_wins() {
    let t = Translations::new();
    let mut ins = TranslationInserter::new(Language::English, t);
    ins.add("k", "one");
    ins.add("k", "two");
    let t = ins.done();
    assert_eq!(t.get(&Language::English, "k"), "two");
    assert_eq!(t.get(&Language::Czech, "k"), "MISSING_LOCALE_KEY[k]");
    assert_eq!(t.lookup(&Language::Czech, "k"), None);
    assert_eq!(t.lookup(&Language::English, "k").as_deref(), Some("two"));
}

#[test]
fn identities_parse_cleans_lines() {
    let ids = Identities::parse("Whale\n  Napoleon  \n\n# a comment\nMozart").unwrap();
    assert_eq!(ids.list, vec!["Whale", "Napoleon", "Mozart"]);
    assert!(Identities::parse("").is_none());
    assert!(Identities::parse("# only\n   \n").is_none());
}

#[test]
fn server_locale_strings_and_identities() {
    let config = test_config();
    let mut lm = LocaleManager::new(&config);
    assert_eq!(lm.get(&Language::English, "error.timeout"), "timeout");
    assert_eq!(lm.get(&Language::Czech, "game.final_answer"), "Jsem {}");
    assert_eq!(
        lm.get_formatted(&Language::English, "game.final_answer", &["a whale"]),
        "I'm a whale"
    );
    assert_eq!(lm.get_cheat_phrases(&Language::English)[0], "IM LOSER");
    assert_eq!(
        lm.available_languages(),
        vec![Language::English, Language::Czech]
    );
    assert!(lm.get_identities(&Language::English).is_none());
    assert!(lm.get_random_identity(&Language::English).is_none());
    let ids = Identities::parse("Whale\nMozart").unwrap();
    lm.set_identities(Language::English, ids);
    let got = lm.get_random_identity(&Language::English).unwrap();
    assert!(got == "Whale" || got == "Mozart");
}

fn test_config() -> guess_who::config::Config {
    guess_who::config::Config {
        debug: false,
        www: guess_who::config::Www { port: 8080 },
        gpt: guess_who::config::Gpt {
            key_file: "key.txt".to_string(),
            max_clients_count: 2,
            gpt_instructions: "You are {target}. Answer in {language}.".to_string(),
            gpt_key: "test-key".to_string(),
        },
        logfile: None,
        dirs: guess_who::config::Dirs {
            pkg: Some("/srv/app".to_string()),
            pkg_www: Some("www".to_string()),
            pkg_dist: Some("dist".to_string()),
            pkg_assets: Some("assets".to_string()),
        },
    }
}

#[test]
fn config_paths() {
    let config = test_config();
    assert_eq!(
        config.get_identities_file(&Language::English),
        "/srv/app/assets/identities_en.txt"
    );
    assert_eq!(
        config.get_identities_file(&Language::Czech),
        "/srv/app/assets/identities_cs.txt"
    );
    assert_eq!(
        config.dirs.get_path(guess_who::config::DirType::Root),
        "/srv/app"
    );
    assert_eq!(config.get_path("a", "/b"), "/b");
    assert_eq!(config.get_path("a", "b"), "a/b");
}

#[test]
fn client_locale_falls_back_to_english() {
    let mut lm = guess_who::client_locale::LocaleManager::new();
    assert_eq!(lm.get_current_language(), &Language::English);
    assert_eq!(lm.get("ui.send"), "Send");
    lm.set_language(Language::Czech);
    assert_eq!(lm.get("ui.send"), "Odeslat");
    assert_eq!(lm.get("nope.missing"), "MISSING_LOCALE_KEY[nope.missing]");
    assert_eq!(lm.get_formatted("ui.game_id", &["g123"]), "ID hry: g123");
    assert_eq!(
        lm.get_for_language(&Language::English, "verdict.unable"),
        "Unable"
    );
}

#[test]
fn language_dialog_logic() {
    assert!(!should_show_language_dialog(&Language::English, Language::English, true));
    assert!(should_show_language_dialog(&Language::English, Language::Czech, true));
    assert!(!should_show_language_dialog(&Language::English, Language::Czech, false));
    let mut lm = guess_who::client_locale::LocaleManager::new();
    switch_language(&mut lm, Language::Czech);
    assert_eq!(lm.get_current_language(), &Language::Czech);
}
