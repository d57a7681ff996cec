//! The tokens that the scanner produces.

use vstd::prelude::*;
use vstd::string::StringExecFns;

verus! {

/// A token. A numeric literal keeps its text as written: digits, optionally
/// a point and more digits.
#[derive(Debug, PartialEq)]
pub enum Token {
    Kw { value: String },
    Num { value: String },
    Op { value: String },
    Punc { value: String },
    Str { value: String },
    Var { value: String },
    Error,
}

/// The variant of a token.
pub enum TokenKind {
    Kw,
    Num,
    Op,
    Punc,
    Str,
    Var,
    Error,
}

/// A token as a mathematical value: its variant and its text.
pub struct TokenV {
    pub kind: TokenKind,
    pub text: Seq<char>,
}

/// The text that stands for the error token.
pub open spec fn error_text() -> Seq<char> {
    "ERROR"@
}

impl View for Token {
    type V = TokenV;

    open spec fn view(&self) -> TokenV {
        match self {
            Token::Kw { value } => TokenV { kind: TokenKind::Kw, text: value@ },
            Token::Num { value } => TokenV { kind: TokenKind::Num, text: value@ },
            Token::Op { value } => TokenV { kind: TokenKind::Op, text: value@ },
            Token::Punc { value } => TokenV { kind: TokenKind::Punc, text: value@ },
            Token::Str { value } => TokenV { kind: TokenKind::Str, text: value@ },
            Token::Var { value } => TokenV { kind: TokenKind::Var, text: value@ },
            Token::Error => TokenV { kind: TokenKind::Error, text: error_text() },
        }
    }
}

impl Clone for Token {
    fn clone(&self) -> (r: Token)
        ensures
            r == *self,
    {
        match self {
            Token::Kw { value } => Token::Kw { value: value.clone() },
            Token::Num { value } => Token::Num { value: value.clone() },
            Token::Op { value } => Token::Op { value: value.clone() },
            Token::Punc { value } => Token::Punc { value: value.clone() },
            Token::Str { value } => Token::Str { value: value.clone() },
            Token::Var { value } => Token::Var { value: value.clone() },
            Token::Error => Token::Error,
        }
    }
}

impl Token {
    /// The token as it is shown in a diagnostic: its text, or `ERROR`.
    pub fn to_text(&self) -> (r: String)
        ensures
            r@ == self@.text,
    {
        match self {
            Token::Kw { value } => value.clone(),
            Token::Num { value } => value.clone(),
            Token::Op { value } => value.clone(),
            Token::Punc { value } => value.clone(),
            Token::Str { value } => value.clone(),
            Token::Var { value } => value.clone(),
            Token::Error => String::from_str("ERROR"),
        }
    }
}

} // verus!
