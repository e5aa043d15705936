//! The lexer: a small state machine that turns source text into a token
//! stream ending in the end-of-input sentinel.
//!
//! `{ ... }` encloses a comment; identifiers and keywords are letter-led
//! alphanumeric runs, integers are digit runs, `:` must begin `:=`, and `.`
//! may begin `..`. Positions are one-based and saturate rather than wrap.

use vstd::prelude::*;
use vstd::string::*;
use crate::token::{Token, TokenType};

verus! {

/// A lexical error, with the position where it was found.
#[derive(Debug, Clone, PartialEq)]
pub enum LexError {
    /// A character sequence that is no token of the language.
    InvalidToken { line: u32, column: u32, image: String },
    /// A `:` not followed by `=`.
    InvalidAssign { line: u32, column: u32, got: char },
}

/// The states of the lexer automaton.
enum LexerState {
    Start,
    Comment,
    InputIdentifier,
    InputInteger,
    InputAssign,
    InputDot,
}

/// How far from `Start` a state is; a step that consumes no character must
/// strictly lower this.
spec fn state_rank(s: LexerState) -> int {
    match s {
        LexerState::Start => 0,
        LexerState::Comment => 0,
        LexerState::InputIdentifier => 1,
        LexerState::InputInteger => 1,
        LexerState::InputAssign => 1,
        LexerState::InputDot => 1,
    }
}

/// An ASCII whitespace character.
fn is_space_char(c: char) -> (r: bool)
    ensures
        r == (c == ' ' || c == '\t' || c == '\r' || c == '\n'),
{
    c == ' ' || c == '\t' || c == '\r' || c == '\n'
}

/// An ASCII letter.
fn is_letter_char(c: char) -> (r: bool)
    ensures
        r == (65 <= c as u32 <= 90 || 97 <= c as u32 <= 122),
{
    let u = c as u32;
    (65 <= u && u <= 90) || (97 <= u && u <= 122)
}

/// An ASCII digit.
fn is_digit_char(c: char) -> (r: bool)
    ensures
        r == (48 <= c as u32 <= 57),
{
    let u = c as u32;
    48 <= u && u <= 57
}

/// How many bytes the character occupies in UTF-8; columns advance by
/// byte width.
fn char_width(c: char) -> u32 {
    let u = c as u32;
    if u < 0x80 {
        1
    } else if u < 0x800 {
        2
    } else if u < 0x10000 {
        3
    } else {
        4
    }
}

/// Turn source text into tokens. A successful run yields a non-empty
/// stream whose last token, and only that token, is the end-of-input
/// sentinel, so the stream is well-formed input for the parser.
pub fn read_tokens(input: &str) -> (r: Result<Vec<Token>, LexError>)
    ensures
        r matches Ok(tokens) ==> {
            &&& tokens@.len() > 0
            &&& tokens@.last().token_type == TokenType::EOF
            &&& forall|i: int|
                0 <= i < tokens@.len() - 1 ==> (#[trigger] tokens@[i]).token_type
                    != TokenType::EOF
        },
{
    let mut tokens: Vec<Token> = Vec::new();

    let n = input.unicode_len();
    let mut chars: Vec<char> = Vec::new();
    let mut ci: usize = 0;
    while ci < n
        invariant
            n == input@.len(),
            ci <= n,
            chars@.len() == ci,
            forall|k: int| 0 <= k < ci ==> #[trigger] chars@[k] == input@[k],
        decreases n - ci,
    {
        chars.push(input.get_char(ci));
        ci += 1;
    }
    chars.push(' ');

    let mut state = LexerState::Start;

    let mut line: u32 = 1;
    let mut column: u32 = 1;

    let mut start_line: u32 = 0;
    let mut start_column: u32 = 0;

    // start of the token image being read, as a character index into `input`
    let mut tok_start: usize = 0;

    let mut i: usize = 0;
    while i < chars.len()
        invariant
            n == input@.len(),
            chars@.len() == n + 1,
            chars@[n as int] == ' ',
            forall|k: int| 0 <= k < n ==> #[trigger] chars@[k] == input@[k],
            i <= n + 1,
            tok_start <= i,
            tok_start <= n,
            forall|k: int|
                0 <= k < tokens@.len() ==> (#[trigger] tokens@[k]).token_type != TokenType::EOF,
        decreases chars@.len() - i, state_rank(state),
    {
        let ch = chars[i];
        let is_start = matches!(state, LexerState::Start);
        if ch == '\n' && is_start {
            line = line.saturating_add(1);
            column = 1;
        } else {
            column = column.saturating_add(char_width(ch));
        }

        match state {
            LexerState::Start => {
                i += 1;
                if is_space_char(ch) {
                    continue;
                }
                tok_start = i - 1;
                start_line = line;
                start_column = column;
                if is_letter_char(ch) {
                    state = LexerState::InputIdentifier;
                } else if is_digit_char(ch) {
                    state = LexerState::InputInteger;
                } else if ch == ':' {
                    state = LexerState::InputAssign;
                } else if ch == '.' {
                    state = LexerState::InputDot;
                } else if ch == '{' {
                    state = LexerState::Comment;
                } else {
                    let image = input.substring_char(tok_start, i).to_owned();
                    match TokenType::from_str(image.as_str()) {
                        Some(tt) => {
                            proof {
                                assert(tt != TokenType::EOF);
                            }
                            tokens.push(
                                Token {
                                    token_type: tt,
                                    image,
                                    line: start_line,
                                    column: start_column,
                                },
                            );
                        },
                        None => {
                            return Err(
                                LexError::InvalidToken {
                                    line: start_line,
                                    column: start_column,
                                    image,
                                },
                            );
                        },
                    }
                    continue;
                }
            },
            LexerState::Comment => {
                i += 1;
                if ch != '}' {
                    continue;
                }
                state = LexerState::Start;
            },
            LexerState::InputIdentifier => {
                if is_letter_char(ch) || is_digit_char(ch) {
                    i += 1;
                } else {
                    let image = input.substring_char(tok_start, i).to_owned();
                    let tt = match TokenType::from_str(image.as_str()) {
                        Some(t) => t,
                        None => TokenType::Identifer,
                    };
                    proof {
                        assert(tt != TokenType::EOF);
                    }
                    tokens.push(
                        Token { token_type: tt, image, line: start_line, column: start_column },
                    );
                    state = LexerState::Start;
                }
            },
            LexerState::InputInteger => {
                if is_digit_char(ch) {
                    i += 1;
                } else {
                    let image = input.substring_char(tok_start, i).to_owned();
                    tokens.push(
                        Token {
                            token_type: TokenType::Int,
                            image,
                            line: start_line,
                            column: start_column,
                        },
                    );
                    state = LexerState::Start;
                }
            },
            LexerState::InputAssign => {
                state = LexerState::Start;
                if ch == '=' {
                    i += 1;
                    let image = input.substring_char(tok_start, i).to_owned();
                    tokens.push(
                        Token {
                            token_type: TokenType::Assign,
                            image,
                            line: start_line,
                            column: start_column,
                        },
                    );
                } else {
                    return Err(
                        LexError::InvalidAssign { line: start_line, column: start_column, got: ch },
                    );
                }
            },
            LexerState::InputDot => {
                if ch == '.' {
                    i += 1;
                }
                let image = input.substring_char(tok_start, if i <= n {
                    i
                } else {
                    n
                }).to_owned();
                match TokenType::from_str(image.as_str()) {
                    Some(tt) => {
                        proof {
                            assert(tt != TokenType::EOF);
                        }
                        tokens.push(
                            Token { token_type: tt, image, line: start_line, column: start_column },
                        );
                    },
                    None => {
                        return Err(
                            LexError::InvalidToken {
                                line: start_line,
                                column: start_column,
                                image,
                            },
                        );
                    },
                }
                state = LexerState::Start;
            },
        }
    }

    let ghost before = tokens@;
    tokens.push(Token { token_type: TokenType::EOF, image: "".to_owned(), line, column });
    proof {
        assert(tokens@.last().token_type == TokenType::EOF);
        assert forall|k: int| 0 <= k < tokens@.len() - 1 implies (#[trigger] tokens@[k]).token_type
            != TokenType::EOF by {
            assert(tokens@[k] == before[k]);
        }
    }
    Ok(tokens)
}

} // verus!
