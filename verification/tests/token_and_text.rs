use guess_who::error::AppError;
use guess_who::token::{generate_token, Token, TokenGen, TokenType, TOKEN_LENGTH};

#[test]
fn token_type_bytes() {
    assert_eq!(TokenType::Answer.leading_byte(), b'a');
    assert_eq!(TokenType::Game.leading_byte(), b'g');
}

#[test]
fn fresh_tokens_carry_their_tag() {
    let t = Token::new(TokenType::Game);
    assert_eq!(t.get_token_type(), TokenType::Game);
    assert_eq!(t.to_string().chars().next(), Some('g'));
    let t = Token::new(TokenType::Answer);
    assert_eq!(t.get_token_type(), TokenType::Answer);
    assert_eq!(t.to_str().len(), TOKEN_LENGTH);
}

#[test]
fn token_round_trip() {
    let t = Token::new(TokenType::Game);
    let s = t.to_string();
    let back = Token::from_string(&s).unwrap();
    assert_eq!(back, t);
    assert_eq!(back.to_string(), s);
}

#[test]
fn trait_generator_matches_inherent() {
    let t: Token = TokenGen::new(TokenType::Answer);
    assert_eq!(t.get_token_type(), TokenType::Answer);
}

#[test]
fn from_string_rejects_bad_tokens() {
    assert_eq!(Token::from_string("short"), Err(AppError::InvalidToken));
    assert_eq!(
        Token::from_string("x2345678901234567890"),
        Err(AppError::InvalidToken)
    );
    assert_eq!(
        Token::from_string("g234567890123456789\u{E9}"),
        Err(AppError::InvalidToken)
    );
    assert!(Token::from_string("g2345678901234567890").is_ok());
    assert!(Token::from_string("a2345678901234567890").is_ok());
}

#[test]
fn generated_tokens_have_twenty_chars() {
    let s = generate_token();
    assert_eq!(s.chars().count(), TOKEN_LENGTH);
    for c in s.chars() {
        assert!(c.is_ascii_lowercase() || ('1'..='9').contains(&c));
    }
}

#[test]
fn str_eq_is_string_equality() {
    assert!(guess_who::text::str_eq("abc", "abc"));
    assert!(!guess_who::text::str_eq("abc", "abd"));
    assert!(!guess_who::text::str_eq("abc", "abcd"));
    assert!(guess_who::text::str_eq("", ""));
}

#[test]
fn find_and_replace() {
    assert_eq!(guess_who::text::find_sub("hello world", "world"), Some(6));
    assert_eq!(guess_who::text::find_sub("hello", "xyz"), None);
    assert_eq!(guess_who::text::find_sub("aaa", "aa"), Some(0));
    assert_eq!(
        guess_who::text::replace_all("You are {target} in {target}", "{target}", "a whale"),
        "You are a whale in a whale"
    );
    assert_eq!(
        guess_who::text::replace_first("Id: {} of {}", "{}", "7"),
        "Id: 7 of {}"
    );
    assert_eq!(
        guess_who::text::apply_args("Id: {} of {}", &["7", "9"]),
        "Id: 7 of 9"
    );
}

#[test]
fn trim_matches_std() {
    for s in ["  hello  ", "hi", "", "   ", "\t a b \n", "\u{A0}x\u{A0}"] {
        assert_eq!(guess_who::text::trim_str(s), s.trim());
    }
}

#[test]
fn lowercase_goes_through_std() {
    assert_eq!(guess_who::text::lowercase("HeLLo \u{10C}ESKY"), "hello \u{10D}esky");
}
