//! Tokens: literals, identifiers, keywords and structural markers, each
//! carrying the source position it was scanned at.

use vstd::prelude::*;

use vstd::string::StringSliceAdditionalSpecFns;

use crate::lexer::Pos;
use crate::text::bytes_eq;

verus! {

#[derive(Debug)]
pub enum TokenType {
    // Literals
    Id(Vec<u8>),
    Str(Vec<u8>),
    Number(u128),
    // Keywords
    Write,
    Read,
    Be,
    Run,
    If,
    To,
    Dot,
    Plus,
    Minus,
    Times,
    Over,
    ToThe,
    Mod,
    Is,
    Isnt,
    Below,
    Above,
    AtMost,
    AtLeast,
    And,
    Or,
    Not,
    Num,
    Text,
    Choice,
    Yes,
    No,
    Open,
    Close,
    Lf,
    Eof,
    Note,
    Neg,
    End,
}

#[derive(Debug)]
pub struct Token {
    pub token_type: TokenType,
    pub location: Pos,
}

/// The mathematical shape of a token's kind: literal payloads as sequences,
/// keywords as themselves.
pub enum TokV {
    Id(Seq<u8>),
    Str(Seq<u8>),
    Num(u128),
    K(TokenType),
}

/// The mathematical shape of a token: kind and position.
pub struct TokenV {
    pub t: TokV,
    pub line: int,
    pub col: int,
}

impl View for TokenType {
    type V = TokV;

    open spec fn view(&self) -> TokV {
        match self {
            TokenType::Id(v) => TokV::Id(v@),
            TokenType::Str(v) => TokV::Str(v@),
            TokenType::Number(n) => TokV::Num(*n),
            _ => TokV::K(*self),
        }
    }
}

impl View for Token {
    type V = TokenV;

    open spec fn view(&self) -> TokenV {
        TokenV { t: self.token_type@, line: self.location.0 as int, col: self.location.1 as int }
    }
}

/// The fixed keyword table: the token kind a word of source text names, if
/// any.
#[verifier::opaque]
pub open spec fn keyword_of(bs: Seq<u8>) -> Option<TokenType> {
    if bs == ("write").spec_bytes() {
        Some(TokenType::Write)
    } else if bs == ("read").spec_bytes() {
        Some(TokenType::Read)
    } else if bs == ("be").spec_bytes() {
        Some(TokenType::Be)
    } else if bs == ("run").spec_bytes() {
        Some(TokenType::Run)
    } else if bs == ("if").spec_bytes() {
        Some(TokenType::If)
    } else if bs == ("to").spec_bytes() {
        Some(TokenType::To)
    } else if bs == ("dot").spec_bytes() {
        Some(TokenType::Dot)
    } else if bs == ("plus").spec_bytes() {
        Some(TokenType::Plus)
    } else if bs == ("minus").spec_bytes() {
        Some(TokenType::Minus)
    } else if bs == ("times").spec_bytes() {
        Some(TokenType::Times)
    } else if bs == ("over").spec_bytes() {
        Some(TokenType::Over)
    } else if bs == ("mod").spec_bytes() {
        Some(TokenType::Mod)
    } else if bs == ("pow").spec_bytes() {
        Some(TokenType::ToThe)
    } else if bs == ("tothe").spec_bytes() {
        Some(TokenType::ToThe)
    } else if bs == ("is").spec_bytes() {
        Some(TokenType::Is)
    } else if bs == ("isnt").spec_bytes() {
        Some(TokenType::Isnt)
    } else if bs == ("below").spec_bytes() {
        Some(TokenType::Below)
    } else if bs == ("above").spec_bytes() {
        Some(TokenType::Above)
    } else if bs == ("atmost").spec_bytes() {
        Some(TokenType::AtMost)
    } else if bs == ("atleast").spec_bytes() {
        Some(TokenType::AtLeast)
    } else if bs == ("and").spec_bytes() {
        Some(TokenType::And)
    } else if bs == ("or").spec_bytes() {
        Some(TokenType::Or)
    } else if bs == ("not").spec_bytes() {
        Some(TokenType::Not)
    } else if bs == ("num").spec_bytes() {
        Some(TokenType::Num)
    } else if bs == ("text").spec_bytes() {
        Some(TokenType::Text)
    } else if bs == ("choice").spec_bytes() {
        Some(TokenType::Choice)
    } else if bs == ("yes").spec_bytes() {
        Some(TokenType::Yes)
    } else if bs == ("no").spec_bytes() {
        Some(TokenType::No)
    } else if bs == ("neg").spec_bytes() {
        Some(TokenType::Neg)
    } else if bs == ("close").spec_bytes() {
        Some(TokenType::Close)
    } else if bs == ("open").spec_bytes() {
        Some(TokenType::Open)
    } else if bs == ("note").spec_bytes() {
        Some(TokenType::Note)
    } else if bs == ("end").spec_bytes() {
        Some(TokenType::End)
    } else {
        None
    }
}

/// Looks a word of source bytes up in the keyword table.
pub fn keyword_lookup(s: &[u8]) -> (r: Option<TokenType>)
    ensures
        r == keyword_of(s@),
        r is Some ==> !(r->0 is Id) && !(r->0 is Str) && !(r->0 is Number),
{
    proof {
        reveal(keyword_of);
    }
    if bytes_eq(s, ("write").as_bytes()) {
        Some(TokenType::Write)
    } else if bytes_eq(s, ("read").as_bytes()) {
        Some(TokenType::Read)
    } else if bytes_eq(s, ("be").as_bytes()) {
        Some(TokenType::Be)
    } else if bytes_eq(s, ("run").as_bytes()) {
        Some(TokenType::Run)
    } else if bytes_eq(s, ("if").as_bytes()) {
        Some(TokenType::If)
    } else if bytes_eq(s, ("to").as_bytes()) {
        Some(TokenType::To)
    } else if bytes_eq(s, ("dot").as_bytes()) {
        Some(TokenType::Dot)
    } else if bytes_eq(s, ("plus").as_bytes()) {
        Some(TokenType::Plus)
    } else if bytes_eq(s, ("minus").as_bytes()) {
        Some(TokenType::Minus)
    } else if bytes_eq(s, ("times").as_bytes()) {
        Some(TokenType::Times)
    } else if bytes_eq(s, ("over").as_bytes()) {
        Some(TokenType::Over)
    } else if bytes_eq(s, ("mod").as_bytes()) {
        Some(TokenType::Mod)
    } else if bytes_eq(s, ("pow").as_bytes()) {
        Some(TokenType::ToThe)
    } else if bytes_eq(s, ("tothe").as_bytes()) {
        Some(TokenType::ToThe)
    } else if bytes_eq(s, ("is").as_bytes()) {
        Some(TokenType::Is)
    } else if bytes_eq(s, ("isnt").as_bytes()) {
        Some(TokenType::Isnt)
    } else if bytes_eq(s, ("below").as_bytes()) {
        Some(TokenType::Below)
    } else if bytes_eq(s, ("above").as_bytes()) {
        Some(TokenType::Above)
    } else if bytes_eq(s, ("atmost").as_bytes()) {
        Some(TokenType::AtMost)
    } else if bytes_eq(s, ("atleast").as_bytes()) {
        Some(TokenType::AtLeast)
    } else if bytes_eq(s, ("and").as_bytes()) {
        Some(TokenType::And)
    } else if bytes_eq(s, ("or").as_bytes()) {
        Some(TokenType::Or)
    } else if bytes_eq(s, ("not").as_bytes()) {
        Some(TokenType::Not)
    } else if bytes_eq(s, ("num").as_bytes()) {
        Some(TokenType::Num)
    } else if bytes_eq(s, ("text").as_bytes()) {
        Some(TokenType::Text)
    } else if bytes_eq(s, ("choice").as_bytes()) {
        Some(TokenType::Choice)
    } else if bytes_eq(s, ("yes").as_bytes()) {
        Some(TokenType::Yes)
    } else if bytes_eq(s, ("no").as_bytes()) {
        Some(TokenType::No)
    } else if bytes_eq(s, ("neg").as_bytes()) {
        Some(TokenType::Neg)
    } else if bytes_eq(s, ("close").as_bytes()) {
        Some(TokenType::Close)
    } else if bytes_eq(s, ("open").as_bytes()) {
        Some(TokenType::Open)
    } else if bytes_eq(s, ("note").as_bytes()) {
        Some(TokenType::Note)
    } else if bytes_eq(s, ("end").as_bytes()) {
        Some(TokenType::End)
    } else {
        None
    }
}

impl TokenType {
    /// The keyword a piece of text names, if any.
    pub fn from_str(s: &str) -> (r: Option<Self>)
        ensures
            r == keyword_of(s.spec_bytes()),
    {
        keyword_lookup(s.as_bytes())
    }
}

impl Token {
    pub fn new(token_type: TokenType, location: Pos) -> (r: Self)
        ensures
            r.token_type == token_type,
            r.location == location,
    {
        Self { token_type, location }
    }

    /// A keyword token for `lexeme` at `location`, if the word is one.
    pub fn from_str(lexeme: &str, location: Pos) -> (r: Option<Self>)
        ensures
            match keyword_of(lexeme.spec_bytes()) {
                Some(t) => r is Some && r->0.token_type == t && r->0.location == location,
                None => r is None,
            },
    {
        match TokenType::from_str(lexeme) {
            Some(token_type) => Some(Self { token_type, location }),
            None => None,
        }
    }
}

} // verus!
