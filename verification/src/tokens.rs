//! A cursor over the token stream that the lexer produced, shared by the
//! parser.
//!
//! A well-formed stream is non-empty, carries the end-of-input sentinel as
//! its last token and nowhere else, and the cursor never passes the
//! sentinel; every parsing step preserves this.

use vstd::prelude::*;
use crate::token::{Token, TokenType};

verus! {

/// A syntax error: what the parser met and, where one specific token was
/// required, what it required instead.
#[derive(Debug, Clone, PartialEq)]
pub enum ParseError {
    /// A specific token was required but another one stood there.
    Expected { line: u32, column: u32, expected: TokenType, got: TokenType },
    /// No alternative of the grammar rule matched the token.
    UnexpectedToken { line: u32, column: u32, got: TokenType },
    /// A statement list held no statement.
    EmptyStatementList { line: u32, column: u32 },
    /// An integer literal beyond what the target type holds.
    NumberTooLarge { line: u32, column: u32 },
}

/// The token stream and the current read position.
#[derive(Debug)]
pub struct Tokens {
    pub inner: Vec<Token>,
    pub pos: usize,
}

impl Tokens {
    /// The stream is non-empty, ends with the end-of-input sentinel and
    /// holds it nowhere else, and the cursor stands on some token.
    pub open spec fn wf(self) -> bool {
        &&& self.inner@.len() > 0
        &&& self.pos < self.inner@.len()
        &&& self.inner@.last().token_type == TokenType::EOF
        &&& forall|i: int|
            0 <= i < self.inner@.len() - 1 ==> self.inner@[i].token_type != TokenType::EOF
    }

    /// The token under the cursor.
    pub open spec fn cur(self) -> Token {
        self.inner@[self.pos as int]
    }

    /// How many tokens are left from the cursor on; the parser's termination
    /// measure.
    pub open spec fn remaining(self) -> int {
        self.inner@.len() - self.pos
    }

    pub fn new(tokens: Vec<Token>) -> (r: Self)
        requires
            tokens@.len() > 0,
            tokens@.last().token_type == TokenType::EOF,
            forall|i: int| 0 <= i < tokens@.len() - 1 ==> tokens@[i].token_type != TokenType::EOF,
        ensures
            r.wf(),
            r.inner@ == tokens@,
            r.pos == 0,
    {
        Self { inner: tokens, pos: 0 }
    }

    pub fn current_token(&self) -> (r: &Token)
        requires
            self.wf(),
        ensures
            *r == self.cur(),
    {
        &self.inner[self.pos]
    }

    pub fn current(&self) -> (r: TokenType)
        requires
            self.wf(),
        ensures
            r == self.cur().token_type,
    {
        self.current_token().token_type
    }

    pub fn now_token(&self) -> (r: Option<&Token>)
        ensures
            self.pos < self.inner@.len() ==> r == Some(&self.inner@[self.pos as int]),
            self.pos >= self.inner@.len() ==> r is None,
    {
        if self.pos < self.inner.len() {
            Some(&self.inner[self.pos])
        } else {
            None
        }
    }

    pub fn now(&self) -> (r: Option<TokenType>)
        ensures
            self.pos < self.inner@.len() ==> r == Some(self.inner@[self.pos as int].token_type),
            self.pos >= self.inner@.len() ==> r is None,
    {
        match self.now_token() {
            Some(t) => Some(t.token_type),
            None => None,
        }
    }

    pub fn look_after_token(&self) -> (r: Option<&Token>)
        ensures
            self.pos + 1 < self.inner@.len() ==> r == Some(&self.inner@[self.pos + 1]),
            self.pos + 1 >= self.inner@.len() ==> r is None,
    {
        let n = self.inner.len();
        if self.pos < n {
            if self.pos + 1 < n {
                Some(&self.inner[self.pos + 1])
            } else {
                None
            }
        } else {
            None
        }
    }

    pub fn look_after(&self) -> (r: Option<TokenType>)
        ensures
            self.pos + 1 < self.inner@.len() ==> r == Some(
                self.inner@[self.pos + 1].token_type,
            ),
            self.pos + 1 >= self.inner@.len() ==> r is None,
    {
        match self.look_after_token() {
            Some(t) => Some(t.token_type),
            None => None,
        }
    }

    /// Consume the current token if it has type `t`; report a syntax error
    /// and stand still otherwise.
    pub fn take(&mut self, t: TokenType) -> (r: Result<Token, ParseError>)
        requires
            old(self).wf(),
            t != TokenType::EOF,
        ensures
            final(self).wf(),
            final(self).inner@ == old(self).inner@,
            old(self).cur().token_type == t ==> {
                &&& final(self).pos == old(self).pos + 1
                &&& r matches Ok(tok) && tok.token_type == old(self).cur().token_type
                    && tok.image@ == old(self).cur().image@ && tok.line == old(self).cur().line
                    && tok.column == old(self).cur().column
            },
            old(self).cur().token_type != t ==> {
                &&& final(self).pos == old(self).pos
                &&& r == Err::<Token, ParseError>(ParseError::Expected {
                    line: old(self).cur().line,
                    column: old(self).cur().column,
                    expected: t,
                    got: old(self).cur().token_type,
                })
            },
    {
        let got = self.current();
        if t == got {
            let token = self.current_token();
            let out = Token {
                token_type: token.token_type,
                image: token.image.clone(),
                line: token.line,
                column: token.column,
            };
            let n = self.inner.len();
            proof {
                assert(self.pos < n);
            }
            self.pos = self.pos + 1;
            Ok(out)
        } else {
            let now = self.current_token();
            Err(ParseError::Expected { line: now.line, column: now.column, expected: t, got })
        }
    }

    /// Step over the current token, which must not be the sentinel.
    pub fn move_next(&mut self)
        requires
            old(self).wf(),
            old(self).cur().token_type != TokenType::EOF,
        ensures
            final(self).wf(),
            final(self).inner@ == old(self).inner@,
            final(self).pos == old(self).pos + 1,
    {
        let n = self.inner.len();
        proof {
            assert(self.pos < n);
        }
        self.pos = self.pos + 1;
    }
}

} // verus!
