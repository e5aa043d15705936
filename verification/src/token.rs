//! Lexical tokens of the SNL language.

use vstd::prelude::*;
use crate::text::str_eq;

verus! {

/// One lexical unit together with its source position and its textual image.
#[derive(Debug, Clone)]
pub struct Token {
    pub token_type: TokenType,
    pub image: String,
    pub line: u32,
    pub column: u32,
}

/// The kind of a lexical unit: identifiers, integer literals, keywords,
/// operators, punctuation, and the end-of-input sentinel.
#[derive(Debug, Copy, Clone, PartialEq, Eq, Structural)]
pub enum TokenType {
    Identifer,
    Int,

    Program,
    Type,
    Array,
    Integer,
    Char,
    Record,
    Of,
    Var,
    Procedure,
    Begin,
    End,
    If,
    Then,
    Else,
    Fi,
    While,
    Do,
    EndWhile,
    Read,
    Write,
    Return,

    Add,
    Minus,
    Multiply,
    Divide,
    Equal,
    Assign,
    Comma,
    Semicolon,
    LessThan,
    BracketOpen,
    BracketClose,
    SquareBracketOpen,
    SquareBracketClose,
    Dot,
    DotDot,

    EOF,
}

/// The token type denoted by a fixed image, if any: keywords and
/// punctuation, but never `Identifer`, `Int` or `EOF`, whose images are not
/// fixed.
pub open spec fn fixed_image_type(s: Seq<char>) -> Option<TokenType> {
    if s == "program"@ {
        Some(TokenType::Program)
    } else if s == "type"@ {
        Some(TokenType::Type)
    } else if s == "array"@ {
        Some(TokenType::Array)
    } else if s == "integer"@ {
        Some(TokenType::Integer)
    } else if s == "char"@ {
        Some(TokenType::Char)
    } else if s == "record"@ {
        Some(TokenType::Record)
    } else if s == "of"@ {
        Some(TokenType::Of)
    } else if s == "var"@ {
        Some(TokenType::Var)
    } else if s == "procedure"@ {
        Some(TokenType::Procedure)
    } else if s == "begin"@ {
        Some(TokenType::Begin)
    } else if s == "end"@ {
        Some(TokenType::End)
    } else if s == "if"@ {
        Some(TokenType::If)
    } else if s == "then"@ {
        Some(TokenType::Then)
    } else if s == "else"@ {
        Some(TokenType::Else)
    } else if s == "fi"@ {
        Some(TokenType::Fi)
    } else if s == "while"@ {
        Some(TokenType::While)
    } else if s == "do"@ {
        Some(TokenType::Do)
    } else if s == "endwh"@ {
        Some(TokenType::EndWhile)
    } else if s == "read"@ {
        Some(TokenType::Read)
    } else if s == "write"@ {
        Some(TokenType::Write)
    } else if s == "return"@ {
        Some(TokenType::Return)
    } else if s == "+"@ {
        Some(TokenType::Add)
    } else if s == "-"@ {
        Some(TokenType::Minus)
    } else if s == "*"@ {
        Some(TokenType::Multiply)
    } else if s == "/"@ {
        Some(TokenType::Divide)
    } else if s == "="@ {
        Some(TokenType::Equal)
    } else if s == ":="@ {
        Some(TokenType::Assign)
    } else if s == ","@ {
        Some(TokenType::Comma)
    } else if s == ";"@ {
        Some(TokenType::Semicolon)
    } else if s == "<"@ {
        Some(TokenType::LessThan)
    } else if s == "["@ {
        Some(TokenType::SquareBracketOpen)
    } else if s == "]"@ {
        Some(TokenType::SquareBracketClose)
    } else if s == "("@ {
        Some(TokenType::BracketOpen)
    } else if s == ")"@ {
        Some(TokenType::BracketClose)
    } else if s == "."@ {
        Some(TokenType::Dot)
    } else if s == ".."@ {
        Some(TokenType::DotDot)
    } else {
        None
    }
}

impl TokenType {
    /// Classify a fixed image; `None` for any string that is not a keyword,
    /// operator or punctuation mark of the language.
    pub fn from_str(s: &str) -> (r: Option<TokenType>)
        ensures
            r == fixed_image_type(s@),
    {
        if str_eq(s, "program") {
            Some(TokenType::Program)
        } else if str_eq(s, "type") {
            Some(TokenType::Type)
        } else if str_eq(s, "array") {
            Some(TokenType::Array)
        } else if str_eq(s, "integer") {
            Some(TokenType::Integer)
        } else if str_eq(s, "char") {
            Some(TokenType::Char)
        } else if str_eq(s, "record") {
            Some(TokenType::Record)
        } else if str_eq(s, "of") {
            Some(TokenType::Of)
        } else if str_eq(s, "var") {
            Some(TokenType::Var)
        } else if str_eq(s, "procedure") {
            Some(TokenType::Procedure)
        } else if str_eq(s, "begin") {
            Some(TokenType::Begin)
        } else if str_eq(s, "end") {
            Some(TokenType::End)
        } else if str_eq(s, "if") {
            Some(TokenType::If)
        } else if str_eq(s, "then") {
            Some(TokenType::Then)
        } else if str_eq(s, "else") {
            Some(TokenType::Else)
        } else if str_eq(s, "fi") {
            Some(TokenType::Fi)
        } else if str_eq(s, "while") {
            Some(TokenType::While)
        } else if str_eq(s, "do") {
            Some(TokenType::Do)
        } else if str_eq(s, "endwh") {
            Some(TokenType::EndWhile)
        } else if str_eq(s, "read") {
            Some(TokenType::Read)
        } else if str_eq(s, "write") {
            Some(TokenType::Write)
        } else if str_eq(s, "return") {
            Some(TokenType::Return)
        } else if str_eq(s, "+") {
            Some(TokenType::Add)
        } else if str_eq(s, "-") {
            Some(TokenType::Minus)
        } else if str_eq(s, "*") {
            Some(TokenType::Multiply)
        } else if str_eq(s, "/") {
            Some(TokenType::Divide)
        } else if str_eq(s, "=") {
            Some(TokenType::Equal)
        } else if str_eq(s, ":=") {
            Some(TokenType::Assign)
        } else if str_eq(s, ",") {
            Some(TokenType::Comma)
        } else if str_eq(s, ";") {
            Some(TokenType::Semicolon)
        } else if str_eq(s, "<") {
            Some(TokenType::LessThan)
        } else if str_eq(s, "[") {
            Some(TokenType::SquareBracketOpen)
        } else if str_eq(s, "]") {
            Some(TokenType::SquareBracketClose)
        } else if str_eq(s, "(") {
            Some(TokenType::BracketOpen)
        } else if str_eq(s, ")") {
            Some(TokenType::BracketClose)
        } else if str_eq(s, ".") {
            Some(TokenType::Dot)
        } else if str_eq(s, "..") {
            Some(TokenType::DotDot)
        } else {
            None
        }
    }
}

} // verus!
