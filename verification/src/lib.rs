//! Core of a "guess the hidden identity" question game server.
//!
//! The crate holds the verified logic: the token type, the session store with
//! its single-flight rule on pending questions, the bounded client pool, the
//! message and locale data model, and the decision logic of the request
//! handlers. I/O, the HTTP layer and the async plumbing live outside.

pub mod clock;
pub mod answer_cache;
pub mod board;
pub mod client_locale;
pub mod client_pool;
pub mod config;
pub mod coordinator;
pub mod error;
pub mod messages;
pub mod game_manager;
pub mod game_response;
pub mod game_prompt;
pub mod gpt;
pub mod locale;
pub mod notify;
pub mod rng;
pub mod server_locale;
pub mod text;
pub mod token;
