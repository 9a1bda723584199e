//! Opaque fixed-length request tokens. The first byte carries the token's
//! type; the rest is random. All bytes are ASCII.

use vstd::prelude::*;
use vstd::string::StringSliceAdditionalSpecFns;
use crate::error::AppError;
use crate::rng::random_below;
use crate::text::push_char;

verus! {

pub const TOKEN_LENGTH: usize = 20;

#[derive(Debug, Clone, Copy, PartialEq, Eq, Hash, PartialOrd, Ord, Structural)]
pub enum TokenType {
    Answer,
    Game,
}

impl TokenType {
    pub open spec fn spec_leading_byte(self) -> u8 {
        match self {
            TokenType::Answer => 97,
            TokenType::Game => 103,
        }
    }

    /// The byte that opens every token of this type: 'a' or 'g'.
    pub fn leading_byte(&self) -> (r: u8)
        ensures
            r == self.spec_leading_byte(),
    {
        match self {
            TokenType::Answer => 97,
            TokenType::Game => 103,
        }
    }

    pub open spec fn spec_of_byte(b: u8) -> Option<TokenType> {
        if b == 97 {
            Some(TokenType::Answer)
        } else if b == 103 {
            Some(TokenType::Game)
        } else {
            None
        }
    }

    /// The type encoded in a token's first byte, if that byte is a tag.
    pub fn get_token_type(token: &Token) -> (r: Option<TokenType>)
        ensures
            r == Self::spec_of_byte(token.token@[0]),
    {
        let b = token.token[0];
        if b == 97 {
            Some(TokenType::Answer)
        } else if b == 103 {
            Some(TokenType::Game)
        } else {
            None
        }
    }
}

#[derive(Debug, Clone, Copy, Eq, Hash)]
pub struct Token {
    pub token: [u8; TOKEN_LENGTH],
}

impl PartialEq for Token {
    fn eq(&self, other: &Token) -> (r: bool) {
        let mut i: usize = 0;
        while i < TOKEN_LENGTH
            invariant
                i <= TOKEN_LENGTH,
                self.token@.len() == TOKEN_LENGTH,
                other.token@.len() == TOKEN_LENGTH,
                forall|j: int| 0 <= j < i ==> self.token@[j] == other.token@[j],
            decreases TOKEN_LENGTH - i,
        {
            if self.token[i] != other.token[i] {
                return false;
            }
            i = i + 1;
        }
        proof {
            assert(self.token@ =~= other.token@);
        }
        true
    }
}

impl vstd::std_specs::cmp::PartialEqSpecImpl for Token {
    open spec fn obeys_eq_spec() -> bool {
        true
    }

    open spec fn eq_spec(&self, other: &Token) -> bool {
        self.token@ == other.token@
    }
}

/// A generator of fresh tokens of a given type.
pub trait TokenGen: Sized {
    fn new(token_type: TokenType) -> Self;
}

impl TokenGen for Token {
    fn new(token_type: TokenType) -> Self {
        Token::new(token_type)
    }
}

/// The byte of the token alphabet (lower-case letters, then digits) at `i`.
pub open spec fn spec_charset_byte(i: int) -> u8 {
    if i < 26 {
        (97 + i) as u8
    } else {
        (48 + (i - 26)) as u8
    }
}

fn charset_byte(i: usize) -> (r: u8)
    requires
        i < 36,
    ensures
        r == spec_charset_byte(i as int),
        97 <= r <= 122 || 48 <= r <= 57,
{
    if i < 26 {
        97 + (i as u8)
    } else {
        48 + ((i - 26) as u8)
    }
}

impl Token {
    /// All bytes are ASCII, so the token prints as the chars of its bytes.
    pub open spec fn wf(self) -> bool {
        forall|i: int| 0 <= i < TOKEN_LENGTH ==> self.token@[i] < 128
    }

    /// A fresh token: the type's tag byte, then random alphabet bytes.
    pub fn new(token_type: TokenType) -> (t: Token)
        ensures
            t.wf(),
            t.token@[0] == token_type.spec_leading_byte(),
            TokenType::spec_of_byte(t.token@[0]) == Some(token_type),
    {
        let mut buf = [0u8; TOKEN_LENGTH];
        buf[0] = token_type.leading_byte();
        let mut k: usize = 1;
        while k < TOKEN_LENGTH
            invariant
                1 <= k <= TOKEN_LENGTH,
                buf@.len() == TOKEN_LENGTH,
                buf@[0] == token_type.spec_leading_byte(),
                forall|i: int| 0 <= i < k ==> buf@[i] < 128,
            decreases TOKEN_LENGTH - k,
        {
            buf[k] = charset_byte(random_below(36));
            k = k + 1;
        }
        Token { token: buf }
    }

    /// Parses a token out of its wire form: exactly `TOKEN_LENGTH` ASCII
    /// bytes whose first byte is a known type tag.
    pub fn from_string(token_str: &str) -> (r: Result<Token, AppError>)
        ensures
            match r {
                Ok(t) => {
                    &&& t.wf()
                    &&& t.token@ == token_str.spec_bytes()
                    &&& token_str.spec_bytes().len() == TOKEN_LENGTH
                    &&& TokenType::spec_of_byte(token_str.spec_bytes()[0]) is Some
                },
                Err(e) => {
                    &&& e == AppError::InvalidToken
                    &&& !(token_str.spec_bytes().len() == TOKEN_LENGTH
                        && (forall|i: int|
                            0 <= i < TOKEN_LENGTH ==> token_str.spec_bytes()[i] < 128)
                        && TokenType::spec_of_byte(token_str.spec_bytes()[0]) is Some)
                },
            },
    {
        let bytes = token_str.as_bytes();
        if bytes.len() != TOKEN_LENGTH {
            return Err(AppError::InvalidToken);
        }
        let mut token = [0u8; TOKEN_LENGTH];
        let mut i: usize = 0;
        while i < TOKEN_LENGTH
            invariant
                i <= TOKEN_LENGTH,
                bytes@.len() == TOKEN_LENGTH,
                bytes@ == token_str.spec_bytes(),
                token@.len() == TOKEN_LENGTH,
                forall|j: int| 0 <= j < i ==> token@[j] == bytes@[j] && token@[j] < 128,
            decreases TOKEN_LENGTH - i,
        {
            let b = bytes[i];
            if b >= 128 {
                return Err(AppError::InvalidToken);
            }
            token[i] = b;
            i = i + 1;
        }
        let candidate = Token { token };
        proof {
            assert(candidate.token@ =~= token_str.spec_bytes());
        }
        if TokenType::get_token_type(&candidate).is_none() {
            return Err(AppError::InvalidToken);
        }
        Ok(candidate)
    }

    /// The type in the tag byte. Tokens of this library always carry one.
    pub fn get_token_type(&self) -> (r: TokenType)
        requires
            TokenType::spec_of_byte(self.token@[0]) is Some,
        ensures
            Some(r) == TokenType::spec_of_byte(self.token@[0]),
    {
        let b = self.token[0];
        if b == 97 {
            TokenType::Answer
        } else {
            TokenType::Game
        }
    }

    /// The token's bytes read as chars.
    pub open spec fn spec_str(self) -> Seq<char> {
        self.token@.map_values(|b: u8| b as char)
    }

    pub fn to_string(&self) -> (r: String)
        requires
            self.wf(),
        ensures
            r@ == self.spec_str(),
    {
        let s = self.to_str();
        s.to_owned()
    }

    pub fn to_str(&self) -> (r: &str)
        requires
            self.wf(),
        ensures
            r@ == self.spec_str(),
    {
        ascii_str(&self.token)
    }
}

/// Relies on str::from_utf8: ASCII bytes decode to the chars with the same
/// code points.
#[verifier::external_body]
fn ascii_str(bytes: &[u8; TOKEN_LENGTH]) -> (r: &str)
    requires
        forall|i: int| 0 <= i < bytes@.len() ==> bytes@[i] < 128,
    ensures
        r@ == bytes@.map_values(|b: u8| b as char),
{
    core::str::from_utf8(bytes).unwrap_or("")
}

/// A fresh random 20-char string over lower-case letters and the digits
/// 1 to 9.
pub fn generate_token() -> (r: String)
    ensures
        r@.len() == TOKEN_LENGTH,
{
    let mut s = String::new();
    let mut k: usize = 0;
    while k < TOKEN_LENGTH
        invariant
            k <= TOKEN_LENGTH,
            s@.len() == k,
        decreases TOKEN_LENGTH - k,
    {
        let i = random_below(35);
        let j = if i < 26 {
            i
        } else {
            i + 1
        };
        let b = charset_byte(j);
        push_char(&mut s, b as char);
        k = k + 1;
    }
    s
}

} // verus!
