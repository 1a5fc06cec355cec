//! Conversions between a token and the kind of token that it holds.

use vstd::prelude::*;
use vstd::std_specs::convert::{FromSpecImpl, TryFromSpecImpl};
use crate::token::{Group, Ident, LitBool, LitChar, LitFloat, LitInt, LitStr, Punct, Token};

verus! {

impl From<Group> for Token {
    fn from(value: Group) -> (r: Token) {
        Token::Group(value)
    }
}

impl FromSpecImpl<Group> for Token {
    open spec fn obeys_from_spec() -> bool {
        true
    }

    open spec fn from_spec(value: Group) -> Token {
        Token::Group(value)
    }
}

impl TryFrom<Token> for Group {
    type Error = Token;

    /// The `Group` that the token holds; the token itself where it holds
    /// another kind.
    fn try_from(token: Token) -> (r: Result<Group, Token>) {
        match token {
            Token::Group(value) => Ok(value),
            other => Err(other),
        }
    }
}

impl TryFromSpecImpl<Token> for Group {
    open spec fn obeys_try_from_spec() -> bool {
        true
    }

    open spec fn try_from_spec(token: Token) -> Result<Group, Token> {
        match token {
            Token::Group(value) => Ok(value),
            other => Err(other),
        }
    }
}

impl From<Ident> for Token {
    fn from(value: Ident) -> (r: Token) {
        Token::Ident(value)
    }
}

impl FromSpecImpl<Ident> for Token {
    open spec fn obeys_from_spec() -> bool {
        true
    }

    open spec fn from_spec(value: Ident) -> Token {
        Token::Ident(value)
    }
}

impl TryFrom<Token> for Ident {
    type Error = Token;

    /// The `Ident` that the token holds; the token itself where it holds
    /// another kind.
    fn try_from(token: Token) -> (r: Result<Ident, Token>) {
        match token {
            Token::Ident(value) => Ok(value),
            other => Err(other),
        }
    }
}

impl TryFromSpecImpl<Token> for Ident {
    open spec fn obeys_try_from_spec() -> bool {
        true
    }

    open spec fn try_from_spec(token: Token) -> Result<Ident, Token> {
        match token {
            Token::Ident(value) => Ok(value),
            other => Err(other),
        }
    }
}

impl From<Punct> for Token {
    fn from(value: Punct) -> (r: Token) {
        Token::Punct(value)
    }
}

impl FromSpecImpl<Punct> for Token {
    open spec fn obeys_from_spec() -> bool {
        true
    }

    open spec fn from_spec(value: Punct) -> Token {
        Token::Punct(value)
    }
}

impl TryFrom<Token> for Punct {
    type Error = Token;

    /// The `Punct` that the token holds; the token itself where it holds
    /// another kind.
    fn try_from(token: Token) -> (r: Result<Punct, Token>) {
        match token {
            Token::Punct(value) => Ok(value),
            other => Err(other),
        }
    }
}

impl TryFromSpecImpl<Token> for Punct {
    open spec fn obeys_try_from_spec() -> bool {
        true
    }

    open spec fn try_from_spec(token: Token) -> Result<Punct, Token> {
        match token {
            Token::Punct(value) => Ok(value),
            other => Err(other),
        }
    }
}

impl From<LitStr> for Token {
    fn from(value: LitStr) -> (r: Token) {
        Token::LitStr(value)
    }
}

impl FromSpecImpl<LitStr> for Token {
    open spec fn obeys_from_spec() -> bool {
        true
    }

    open spec fn from_spec(value: LitStr) -> Token {
        Token::LitStr(value)
    }
}

impl TryFrom<Token> for LitStr {
    type Error = Token;

    /// The `LitStr` that the token holds; the token itself where it holds
    /// another kind.
    fn try_from(token: Token) -> (r: Result<LitStr, Token>) {
        match token {
            Token::LitStr(value) => Ok(value),
            other => Err(other),
        }
    }
}

impl TryFromSpecImpl<Token> for LitStr {
    open spec fn obeys_try_from_spec() -> bool {
        true
    }

    open spec fn try_from_spec(token: Token) -> Result<LitStr, Token> {
        match token {
            Token::LitStr(value) => Ok(value),
            other => Err(other),
        }
    }
}

impl From<LitChar> for Token {
    fn from(value: LitChar) -> (r: Token) {
        Token::LitChar(value)
    }
}

impl FromSpecImpl<LitChar> for Token {
    open spec fn obeys_from_spec() -> bool {
        true
    }

    open spec fn from_spec(value: LitChar) -> Token {
        Token::LitChar(value)
    }
}

impl TryFrom<Token> for LitChar {
    type Error = Token;

    /// The `LitChar` that the token holds; the token itself where it holds
    /// another kind.
    fn try_from(token: Token) -> (r: Result<LitChar, Token>) {
        match token {
            Token::LitChar(value) => Ok(value),
            other => Err(other),
        }
    }
}

impl TryFromSpecImpl<Token> for LitChar {
    open spec fn obeys_try_from_spec() -> bool {
        true
    }

    open spec fn try_from_spec(token: Token) -> Result<LitChar, Token> {
        match token {
            Token::LitChar(value) => Ok(value),
            other => Err(other),
        }
    }
}

impl From<LitInt> for Token {
    fn from(value: LitInt) -> (r: Token) {
        Token::LitInt(value)
    }
}

impl FromSpecImpl<LitInt> for Token {
    open spec fn obeys_from_spec() -> bool {
        true
    }

    open spec fn from_spec(value: LitInt) -> Token {
        Token::LitInt(value)
    }
}

impl TryFrom<Token> for LitInt {
    type Error = Token;

    /// The `LitInt` that the token holds; the token itself where it holds
    /// another kind.
    fn try_from(token: Token) -> (r: Result<LitInt, Token>) {
        match token {
            Token::LitInt(value) => Ok(value),
            other => Err(other),
        }
    }
}

impl TryFromSpecImpl<Token> for LitInt {
    open spec fn obeys_try_from_spec() -> bool {
        true
    }

    open spec fn try_from_spec(token: Token) -> Result<LitInt, Token> {
        match token {
            Token::LitInt(value) => Ok(value),
            other => Err(other),
        }
    }
}

impl From<LitFloat> for Token {
    fn from(value: LitFloat) -> (r: Token) {
        Token::LitFloat(value)
    }
}

impl FromSpecImpl<LitFloat> for Token {
    open spec fn obeys_from_spec() -> bool {
        true
    }

    open spec fn from_spec(value: LitFloat) -> Token {
        Token::LitFloat(value)
    }
}

impl TryFrom<Token> for LitFloat {
    type Error = Token;

    /// The `LitFloat` that the token holds; the token itself where it holds
    /// another kind.
    fn try_from(token: Token) -> (r: Result<LitFloat, Token>) {
        match token {
            Token::LitFloat(value) => Ok(value),
            other => Err(other),
        }
    }
}

impl TryFromSpecImpl<Token> for LitFloat {
    open spec fn obeys_try_from_spec() -> bool {
        true
    }

    open spec fn try_from_spec(token: Token) -> Result<LitFloat, Token> {
        match token {
            Token::LitFloat(value) => Ok(value),
            other => Err(other),
        }
    }
}

impl From<LitBool> for Token {
    fn from(value: LitBool) -> (r: Token) {
        Token::LitBool(value)
    }
}

impl FromSpecImpl<LitBool> for Token {
    open spec fn obeys_from_spec() -> bool {
        true
    }

    open spec fn from_spec(value: LitBool) -> Token {
        Token::LitBool(value)
    }
}

impl TryFrom<Token> for LitBool {
    type Error = Token;

    /// The `LitBool` that the token holds; the token itself where it holds
    /// another kind.
    fn try_from(token: Token) -> (r: Result<LitBool, Token>) {
        match token {
            Token::LitBool(value) => Ok(value),
            other => Err(other),
        }
    }
}

impl TryFromSpecImpl<Token> for LitBool {
    open spec fn obeys_try_from_spec() -> bool {
        true
    }

    open spec fn try_from_spec(token: Token) -> Result<LitBool, Token> {
        match token {
            Token::LitBool(value) => Ok(value),
            other => Err(other),
        }
    }
}

impl From<Group> for Vec<Token> {
    /// The tokens inside the group.
    fn from(group: Group) -> (r: Vec<Token>) {
        group.tokens
    }
}

impl FromSpecImpl<Group> for Vec<Token> {
    open spec fn obeys_from_spec() -> bool {
        true
    }

    open spec fn from_spec(group: Group) -> Vec<Token> {
        group.tokens
    }
}

impl From<LitBool> for bool {
    fn from(lit_bool: LitBool) -> (r: bool) {
        lit_bool.value
    }
}

impl FromSpecImpl<LitBool> for bool {
    open spec fn obeys_from_spec() -> bool {
        true
    }

    open spec fn from_spec(lit_bool: LitBool) -> bool {
        lit_bool.value
    }
}

} // verus!
