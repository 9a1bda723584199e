//! Typed errors crossing the store / pool boundary, and the small JSON
//! status bodies the server answers with.

use vstd::prelude::*;

verus! {

/// Errors of the game core. `Pending` and `Timeout` are retryable signals;
/// `GameNotFound` and `InvalidToken` are fatal for the request that saw them.
#[derive(Debug, Clone, Copy, PartialEq, Eq, Structural)]
pub enum AppError {
    InvalidToken,
    Pending,
    GameNotFound,
    InvalidInput,
    InternalServerError,
    Timeout,
    InactiveGame,
}

impl AppError {
    /// The wire status an error answers with: retryable signals say
    /// `pending`, everything else is an error.
    pub fn response_status(&self) -> (r: crate::messages::Status)
        ensures
            r == match self {
                AppError::Pending => crate::messages::Status::Pending,
                AppError::Timeout => crate::messages::Status::Pending,
                _ => crate::messages::Status::Error,
            },
    {
        match self {
            AppError::Pending => crate::messages::Status::Pending,
            AppError::Timeout => crate::messages::Status::Pending,
            _ => crate::messages::Status::Error,
        }
    }

    /// Whether the client should throw its token away.
    pub fn response_invalid_token(&self) -> (r: bool)
        ensures
            r == match self {
                AppError::InvalidToken => true,
                AppError::GameNotFound => true,
                _ => false,
            },
    {
        match self {
            AppError::InvalidToken => true,
            AppError::GameNotFound => true,
            _ => false,
        }
    }

    /// The message of each error, as the server's responses word it.
    pub fn message(&self) -> (r: &'static str)
        ensures
            match self {
                AppError::InvalidToken => r@ == "invalid token"@,
                AppError::Pending => r@ == "pending"@,
                AppError::GameNotFound => r@ == "game not found"@,
                AppError::InvalidInput => r@ == "invalid input"@,
                AppError::InternalServerError => r@ == "internal server error"@,
                AppError::Timeout => r@ == "timeout"@,
                AppError::InactiveGame => r@ == "inactive game"@,
            },
    {
        match self {
            AppError::InvalidToken => "invalid token",
            AppError::Pending => "pending",
            AppError::GameNotFound => "game not found",
            AppError::InvalidInput => "invalid input",
            AppError::InternalServerError => "internal server error",
            AppError::Timeout => "timeout",
            AppError::InactiveGame => "inactive game",
        }
    }
}

pub struct Er {}

impl Er {
    /// The JSON body `{"message":"...","status":"error"}` (keys in sorted order).
    pub fn error(message: &str) -> (r: String)
        ensures
            r@ == "{\"message\":\""@ + message@ + "\",\"status\":\"error\"}"@,
    {
        let mut s = String::new();
        s.append("{\"message\":\"");
        s.append(message);
        s.append("\",\"status\":\"error\"}");
        s
    }

    /// The JSON body `{"status":"..."}`.
    pub fn status(status: &str) -> (r: String)
        ensures
            r@ == "{\"status\":\""@ + status@ + "\"}"@,
    {
        let mut s = String::new();
        s.append("{\"status\":\"");
        s.append(status);
        s.append("\"}");
        s
    }
}

#[derive(Debug, Clone, Copy, PartialEq, Eq, Structural)]
pub enum ErStatus {
    Pending,
    InvalidToken,
    Overloaded,
    GameDoesNotExist,
    InvalidRequest,
}

impl ErStatus {
    /// The status word of this error, as it appears on the wire.
    pub open spec fn spec_code(self) -> Seq<char> {
        match self {
            ErStatus::Pending => "pending"@,
            ErStatus::InvalidToken => "invalid_token"@,
            ErStatus::Overloaded => "overloaded"@,
            ErStatus::GameDoesNotExist => "game_does_not_exist"@,
            ErStatus::InvalidRequest => "invalid_request"@,
        }
    }

    pub fn json(&self) -> (r: String)
        ensures
            r@ == "{\"status\":\""@ + self.spec_code() + "\"}"@,
    {
        match self {
            ErStatus::Pending => Er::status("pending"),
            ErStatus::InvalidToken => Er::status("invalid_token"),
            ErStatus::Overloaded => Er::status("overloaded"),
            ErStatus::GameDoesNotExist => Er::status("game_does_not_exist"),
            ErStatus::InvalidRequest => Er::status("invalid_request"),
        }
    }
}

} // verus!
