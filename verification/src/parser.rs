//! The recursive-descent parser: from a well-formed token stream to the
//! syntax tree, reporting the first syntax error met.
//!
//! Every parsing step is proved to keep the cursor inside the stream and
//! never to move it backwards, and every grammar rule that succeeds on at
//! least one token moves it strictly forward; that measure makes the whole
//! recursive descent terminate.

use vstd::prelude::*;
use vstd::string::*;
use crate::ast::{
    AssignStatement, CallStatement, ConditionalStatement, Expression, ExpressionFactor,
    ExpressionTemplate, ExpressionTerm, LoopStatement, Param, Positional, PositionalVec,
    ProcedureDeclare, Program, ProgramDeclare, RelationExpression, SNLBaseType, SNLType,
    SNLTypeArray, SNLTypeRecord,
    Statement, StatementList, TypeDeclare, TypedIdentifiers, VariableRepresent, VariableVisit,
};
use crate::token::{Token, TokenType};
use crate::tokens::{ParseError, Tokens};

verus! {

/// Read an unsigned decimal number from a digit-run image.
fn parse_usize(s: &str) -> (r: Option<usize>) {
    let n = s.unicode_len();
    let mut acc: usize = 0;
    let mut i: usize = 0;
    while i < n
        invariant
            n == s@.len(),
            i <= n,
        decreases n - i,
    {
        let c = s.get_char(i);
        let u = c as u32;
        if u < 48 || u > 57 {
            return None;
        }
        let d = (u - 48) as usize;
        acc = match acc.checked_mul(10) {
            Some(m) => match m.checked_add(d) {
                Some(a) => a,
                None => {
                    return None;
                },
            },
            None => {
                return None;
            },
        };
        i += 1;
    }
    Some(acc)
}

/// Read an unsigned 32-bit decimal number from a digit-run image.
fn parse_u32(s: &str) -> (r: Option<u32>) {
    let n = s.unicode_len();
    let mut acc: u32 = 0;
    let mut i: usize = 0;
    while i < n
        invariant
            n == s@.len(),
            i <= n,
        decreases n - i,
    {
        let c = s.get_char(i);
        let u = c as u32;
        if u < 48 || u > 57 {
            return None;
        }
        let d = u - 48;
        acc = match acc.checked_mul(10) {
            Some(m) => match m.checked_add(d) {
                Some(a) => a,
                None => {
                    return None;
                },
            },
            None => {
                return None;
            },
        };
        i += 1;
    }
    Some(acc)
}

/// The parser: a cursor over the token stream.
pub struct Parser {
    pub inner: Tokens,
}

impl Parser {
    /// The stream stays well formed throughout parsing.
    pub open spec fn wf(self) -> bool {
        self.inner.wf()
    }

    /// The termination measure: tokens not yet consumed.
    pub open spec fn rem(self) -> int {
        self.inner.remaining()
    }

    pub fn new(tokens: Vec<Token>) -> (r: Self)
        requires
            tokens@.len() > 0,
            tokens@.last().token_type == TokenType::EOF,
            forall|i: int| 0 <= i < tokens@.len() - 1 ==> tokens@[i].token_type != TokenType::EOF,
        ensures
            r.wf(),
    {
        Self { inner: Tokens::new(tokens) }
    }

    /// Parse one whole program.
    pub fn parse(&mut self) -> (r: Result<Program, ParseError>)
        requires
            old(self).wf(),
        ensures
            final(self).wf(),
            final(self).rem() <= old(self).rem(),
        decreases self.rem(), 31int,
    {
        self.parse_program()
    }

    fn parse_program(&mut self) -> (r: Result<Program, ParseError>)
        requires
            old(self).wf(),
        ensures
            final(self).wf(),
            final(self).rem() <= old(self).rem(),
        decreases self.rem(), 30int,
    {
        let name = match self.parse_program_head() {
            Ok(n) => n,
            Err(e) => {
                return Err(e);
            },
        };
        let declare = match self.parse_declare_part() {
            Ok(d) => d,
            Err(e) => {
                return Err(e);
            },
        };
        let body = match self.parse_program_body() {
            Ok(b) => b,
            Err(e) => {
                return Err(e);
            },
        };
        Ok(Program { name, declare, body })
    }

    fn parse_program_head(&mut self) -> (r: Result<String, ParseError>)
        requires
            old(self).wf(),
        ensures
            final(self).wf(),
            final(self).rem() <= old(self).rem(),
            r is Ok ==> final(self).rem() < old(self).rem(),
        decreases self.rem(), 10int,
    {
        match self.inner.take(TokenType::Program) {
            Ok(_) => {},
            Err(e) => {
                return Err(e);
            },
        }
        let tok = match self.inner.take(TokenType::Identifer) {
            Ok(t) => t,
            Err(e) => {
                return Err(e);
            },
        };
        Ok(tok.image)
    }

    fn parse_declare_part(&mut self) -> (r: Result<ProgramDeclare, ParseError>)
        requires
            old(self).wf(),
        ensures
            final(self).wf(),
            final(self).rem() <= old(self).rem(),
        decreases self.rem(), 28int,
    {
        let type_declare: PositionalVec<TypeDeclare> = if self.inner.current()
            == TokenType::Type {
            match self.parse_declare_type() {
                Ok(t) => t,
                Err(e) => {
                    return Err(e);
                },
            }
        } else {
            Vec::new()
        };
        let variable_declare: PositionalVec<TypedIdentifiers> = if self.inner.current()
            == TokenType::Var {
            match self.parse_declare_var() {
                Ok(v) => v,
                Err(e) => {
                    return Err(e);
                },
            }
        } else {
            Vec::new()
        };
        let procedure_declare: PositionalVec<ProcedureDeclare> = if self.inner.current()
            == TokenType::Procedure {
            match self.parse_declare_procedure() {
                Ok(p) => p,
                Err(e) => {
                    return Err(e);
                },
            }
        } else {
            Vec::new()
        };
        Ok(ProgramDeclare { type_declare, variable_declare, procedure_declare })
    }

    fn parse_declare_type(&mut self) -> (r: Result<PositionalVec<TypeDeclare>, ParseError>)
        requires
            old(self).wf(),
        ensures
            final(self).wf(),
            final(self).rem() <= old(self).rem(),
            r is Ok ==> final(self).rem() < old(self).rem(),
        decreases self.rem(), 27int,
    {
        let mut declare: PositionalVec<TypeDeclare> = Vec::new();
        match self.inner.take(TokenType::Type) {
            Ok(_) => {},
            Err(e) => {
                return Err(e);
            },
        }
        let mut again = true;
        while again
            invariant
                self.wf(),
                self.rem() < old(self).rem(),
            decreases self.rem(), if again {
                1int
            } else {
                0int
            },
        {
            let name_tok = match self.inner.take(TokenType::Identifer) {
                Ok(t) => t,
                Err(e) => {
                    return Err(e);
                },
            };
            match self.inner.take(TokenType::Equal) {
                Ok(_) => {},
                Err(e) => {
                    return Err(e);
                },
            }
            let base_tok_line = self.inner.current_token().line;
            let base_tok_column = self.inner.current_token().column;
            let inner_type = match self.parse_type_name(true) {
                Ok(t) => t,
                Err(e) => {
                    return Err(e);
                },
            };
            match self.inner.take(TokenType::Semicolon) {
                Ok(_) => {},
                Err(e) => {
                    return Err(e);
                },
            }
            declare.push(
                Positional::new(
                    name_tok.line,
                    name_tok.column,
                    TypeDeclare {
                        base: Positional::new(base_tok_line, base_tok_column, inner_type),
                        name: name_tok.image,
                    },
                ),
            );
            if self.inner.current() != TokenType::Identifer {
                again = false;
            }
        }
        Ok(declare)
    }

    fn parse_declare_var(&mut self) -> (r: Result<PositionalVec<TypedIdentifiers>, ParseError>)
        requires
            old(self).wf(),
        ensures
            final(self).wf(),
            final(self).rem() <= old(self).rem(),
            r is Ok ==> final(self).rem() < old(self).rem(),
        decreases self.rem(), 27int,
    {
        let mut result: PositionalVec<TypedIdentifiers> = Vec::new();
        match self.inner.take(TokenType::Var) {
            Ok(_) => {},
            Err(e) => {
                return Err(e);
            },
        }
        let mut again = true;
        while again
            invariant
                self.wf(),
                self.rem() < old(self).rem(),
            decreases self.rem(), if again {
                1int
            } else {
                0int
            },
        {
            let start_line = self.inner.current_token().line;
            let start_column = self.inner.current_token().column;
            let typename = match self.parse_type_name(true) {
                Ok(t) => t,
                Err(e) => {
                    return Err(e);
                },
            };
            let ids = match self.parse_identifier_list() {
                Ok(v) => v,
                Err(e) => {
                    return Err(e);
                },
            };
            match self.inner.take(TokenType::Semicolon) {
                Ok(_) => {},
                Err(e) => {
                    return Err(e);
                },
            }
            result.push(
                Positional::new(
                    start_line,
                    start_column,
                    TypedIdentifiers { typename, identifiers: ids },
                ),
            );
            let cur = self.inner.current();
            if cur == TokenType::Procedure || cur == TokenType::Begin {
                again = false;
            }
        }
        Ok(result)
    }

    fn parse_declare_procedure(&mut self) -> (r: Result<
        PositionalVec<ProcedureDeclare>,
        ParseError,
    >)
        requires
            old(self).wf(),
        ensures
            final(self).wf(),
            final(self).rem() <= old(self).rem(),
            r is Ok ==> final(self).rem() < old(self).rem(),
        decreases self.rem(), 27int,
    {
        let mut result: PositionalVec<ProcedureDeclare> = Vec::new();
        let mut again = true;
        let mut first = true;
        while again
            invariant
                self.wf(),
                self.rem() <= old(self).rem(),
                first ==> self.rem() == old(self).rem(),
                !first ==> self.rem() < old(self).rem(),
                again || !first,
            decreases self.rem(), if again {
                1int
            } else {
                0int
            }, if first {
                1int
            } else {
                0int
            },
    {
            let head = match self.inner.take(TokenType::Procedure) {
                Ok(t) => t,
                Err(e) => {
                    return Err(e);
                },
            };
            first = false;
            let name_tok = match self.inner.take(TokenType::Identifer) {
                Ok(t) => t,
                Err(e) => {
                    return Err(e);
                },
            };
            match self.inner.take(TokenType::BracketOpen) {
                Ok(_) => {},
                Err(e) => {
                    return Err(e);
                },
            }
            let params = match self.parse_param_list() {
                Ok(p) => p,
                Err(e) => {
                    return Err(e);
                },
            };
            match self.inner.take(TokenType::BracketClose) {
                Ok(_) => {},
                Err(e) => {
                    return Err(e);
                },
            }
            match self.inner.take(TokenType::Semicolon) {
                Ok(_) => {},
                Err(e) => {
                    return Err(e);
                },
            }
            let declare = match self.parse_declare_part() {
                Ok(d) => d,
                Err(e) => {
                    return Err(e);
                },
            };
            let body = match self.parse_program_body() {
                Ok(b) => b,
                Err(e) => {
                    return Err(e);
                },
            };
            result.push(
                Positional::new(
                    head.line,
                    head.column,
                    ProcedureDeclare {
                        name: name_tok.image,
                        params,
                        declare: Box::new(declare),
                        body,
                    },
                ),
            );
            if self.inner.current() != TokenType::Procedure {
                again = false;
            }
        }
        Ok(result)
    }

    fn parse_type_name(&mut self, full: bool) -> (r: Result<SNLType, ParseError>)
        requires
            old(self).wf(),
        ensures
            final(self).wf(),
            final(self).rem() <= old(self).rem(),
            r is Ok ==> final(self).rem() < old(self).rem(),
        decreases self.rem(), 20int,
    {
        let next = self.inner.current();
        match next {
            TokenType::Integer => {
                self.inner.move_next();
                return Ok(SNLType::Integer);
            },
            TokenType::Char => {
                self.inner.move_next();
                return Ok(SNLType::Char);
            },
            TokenType::Array => {
                let arr = match self.parse_array_type() {
                    Ok(a) => a,
                    Err(e) => {
                        return Err(e);
                    },
                };
                return Ok(SNLType::Array(arr));
            },
            _ => {},
        }
        if full {
            match next {
                TokenType::Record => {
                    let rec = match self.parse_record_type() {
                        Ok(x) => x,
                        Err(e) => {
                            return Err(e);
                        },
                    };
                    return Ok(SNLType::Record(rec));
                },
                TokenType::Identifer => {
                    let name = match self.inner.take(TokenType::Identifer) {
                        Ok(t) => t,
                        Err(e) => {
                            return Err(e);
                        },
                    };
                    return Ok(SNLType::Others(name.image));
                },
                _ => {},
            }
        }
        let tok_line = self.inner.current_token().line;
        let tok_column = self.inner.current_token().column;
        Err(ParseError::UnexpectedToken { line: tok_line, column: tok_column, got: next })
    }

    fn parse_array_type(&mut self) -> (r: Result<SNLTypeArray, ParseError>)
        requires
            old(self).wf(),
        ensures
            final(self).wf(),
            final(self).rem() <= old(self).rem(),
            r is Ok ==> final(self).rem() < old(self).rem(),
        decreases self.rem(), 19int,
    {
        match self.inner.take(TokenType::Array) {
            Ok(_) => {},
            Err(e) => {
                return Err(e);
            },
        }
        match self.inner.take(TokenType::SquareBracketOpen) {
            Ok(_) => {},
            Err(e) => {
                return Err(e);
            },
        }
        let low = match self.inner.take(TokenType::Int) {
            Ok(t) => t,
            Err(e) => {
                return Err(e);
            },
        };
        match self.inner.take(TokenType::DotDot) {
            Ok(_) => {},
            Err(e) => {
                return Err(e);
            },
        }
        let top = match self.inner.take(TokenType::Int) {
            Ok(t) => t,
            Err(e) => {
                return Err(e);
            },
        };
        match self.inner.take(TokenType::SquareBracketClose) {
            Ok(_) => {},
            Err(e) => {
                return Err(e);
            },
        }
        match self.inner.take(TokenType::Of) {
            Ok(_) => {},
            Err(e) => {
                return Err(e);
            },
        }
        let base_tt = self.inner.current();
        let base = match base_tt {
            TokenType::Integer => SNLBaseType::Integer,
            TokenType::Char => SNLBaseType::Char,
            _ => {
                let tok_line = self.inner.current_token().line;
                let tok_column = self.inner.current_token().column;
                return Err(
                    ParseError::UnexpectedToken { line: tok_line, column: tok_column, got: base_tt },
                );
            },
        };
        self.inner.move_next();
        let lower_bound = match parse_usize(low.image.as_str()) {
            Some(v) => v,
            None => {
                return Err(ParseError::NumberTooLarge { line: low.line, column: low.column });
            },
        };
        let upper_bound = match parse_usize(top.image.as_str()) {
            Some(v) => v,
            None => {
                return Err(ParseError::NumberTooLarge { line: top.line, column: top.column });
            },
        };
        Ok(SNLTypeArray { base, lower_bound, upper_bound })
    }

    fn parse_record_type(&mut self) -> (r: Result<SNLTypeRecord, ParseError>)
        requires
            old(self).wf(),
        ensures
            final(self).wf(),
            final(self).rem() <= old(self).rem(),
            r is Ok ==> final(self).rem() < old(self).rem(),
        decreases self.rem(), 19int,
    {
        let mut records: SNLTypeRecord = Vec::new();
        match self.inner.take(TokenType::Record) {
            Ok(_) => {},
            Err(e) => {
                return Err(e);
            },
        }
        let mut again = true;
        while again
            invariant
                self.wf(),
                self.rem() < old(self).rem(),
            decreases self.rem(), if again {
                1int
            } else {
                0int
            },
        {
            let typename = match self.parse_type_name(false) {
                Ok(t) => t,
                Err(e) => {
                    return Err(e);
                },
            };
            let identifiers = match self.parse_identifier_list() {
                Ok(v) => v,
                Err(e) => {
                    return Err(e);
                },
            };
            match self.inner.take(TokenType::Semicolon) {
                Ok(_) => {},
                Err(e) => {
                    return Err(e);
                },
            }
            records.push(TypedIdentifiers { typename, identifiers });
            match self.inner.current() {
                TokenType::Integer => {},
                TokenType::Char => {},
                TokenType::Array => {},
                _ => {
                    again = false;
                },
            }
        }
        match self.inner.take(TokenType::End) {
            Ok(_) => {},
            Err(e) => {
                return Err(e);
            },
        }
        Ok(records)
    }

    fn parse_identifier_list(&mut self) -> (r: Result<PositionalVec<String>, ParseError>)
        requires
            old(self).wf(),
        ensures
            final(self).wf(),
            final(self).rem() <= old(self).rem(),
        decreases self.rem(), 15int,
    {
        let mut ids: PositionalVec<String> = Vec::new();
        let mut need_comma = false;
        let mut done = false;
        while !done
            invariant
                self.wf(),
                self.rem() <= old(self).rem(),
            decreases self.rem(), if done {
                0int
            } else {
                1int
            },
        {
            match self.inner.current() {
                TokenType::Identifer => {
                    if need_comma {
                        done = true;
                    } else {
                        let tok = match self.inner.take(TokenType::Identifer) {
                            Ok(t) => t,
                            Err(e) => {
                                return Err(e);
                            },
                        };
                        ids.push(Positional::new(tok.line, tok.column, tok.image));
                        need_comma = true;
                    }
                },
                TokenType::Comma => {
                    if !need_comma {
                        let tok_line = self.inner.current_token().line;
                        let tok_column = self.inner.current_token().column;
                        return Err(
                            ParseError::UnexpectedToken {
                                line: tok_line,
                                column: tok_column,
                                got: TokenType::Comma,
                            },
                        );
                    } else {
                        need_comma = false;
                        self.inner.move_next();
                    }
                },
                _ => {
                    done = true;
                },
            }
        }
        Ok(ids)
    }

    fn parse_program_body(&mut self) -> (r: Result<StatementList, ParseError>)
        requires
            old(self).wf(),
        ensures
            final(self).wf(),
            final(self).rem() <= old(self).rem(),
            r is Ok ==> final(self).rem() < old(self).rem(),
        decreases self.rem(), 25int,
    {
        match self.inner.take(TokenType::Begin) {
            Ok(_) => {},
            Err(e) => {
                return Err(e);
            },
        }
        let body = match self.parse_statement_list() {
            Ok(b) => b,
            Err(e) => {
                return Err(e);
            },
        };
        match self.inner.take(TokenType::End) {
            Ok(_) => {},
            Err(e) => {
                return Err(e);
            },
        }
        Ok(body)
    }

    fn parse_statement_list(&mut self) -> (r: Result<StatementList, ParseError>)
        requires
            old(self).wf(),
        ensures
            final(self).wf(),
            final(self).rem() <= old(self).rem(),
        decreases self.rem(), 24int,
    {
        let mut statements: StatementList = Vec::new();
        let first_line = self.inner.current_token().line;
        let first_column = self.inner.current_token().column;
        let first = match self.parse_statement() {
            Ok(Some(s)) => s,
            Ok(None) => {
                return Err(
                    ParseError::EmptyStatementList { line: first_line, column: first_column },
                );
            },
            Err(e) => {
                return Err(e);
            },
        };
        statements.push(first);
        while self.inner.current() == TokenType::Semicolon
            invariant
                self.wf(),
                self.rem() <= old(self).rem(),
            decreases self.rem(),
        {
            let semi = match self.inner.take(TokenType::Semicolon) {
                Ok(t) => t,
                Err(e) => {
                    return Err(e);
                },
            };
            let next = match self.parse_statement() {
                Ok(Some(s)) => s,
                Ok(None) => {
                    return Err(
                        ParseError::EmptyStatementList { line: semi.line, column: semi.column },
                    );
                },
                Err(e) => {
                    return Err(e);
                },
            };
            statements.push(next);
        }
        Ok(statements)
    }

    fn parse_statement(&mut self) -> (r: Result<Option<Statement>, ParseError>)
        requires
            old(self).wf(),
        ensures
            final(self).wf(),
            final(self).rem() <= old(self).rem(),
            r matches Ok(s) && s is Some ==> final(self).rem() < old(self).rem(),
        decreases self.rem(), 23int,
    {
        match self.inner.current() {
            TokenType::If => match self.parse_conditional_statement() {
                Ok(s) => Ok(Some(s)),
                Err(e) => Err(e),
            },
            TokenType::While => match self.parse_loop_statement() {
                Ok(s) => Ok(Some(s)),
                Err(e) => Err(e),
            },
            TokenType::Read => match self.parse_input_statement() {
                Ok(s) => Ok(Some(s)),
                Err(e) => Err(e),
            },
            TokenType::Write => match self.parse_output_statement() {
                Ok(s) => Ok(Some(s)),
                Err(e) => Err(e),
            },
            TokenType::Return => match self.parse_return_statement() {
                Ok(s) => Ok(Some(s)),
                Err(e) => Err(e),
            },
            TokenType::Identifer => match self.inner.look_after() {
                Some(TokenType::BracketOpen) => match self.parse_call_statement() {
                    Ok(s) => Ok(Some(s)),
                    Err(e) => Err(e),
                },
                _ => match self.parse_assign_statement() {
                    Ok(s) => Ok(Some(s)),
                    Err(e) => Err(e),
                },
            },
            _ => Ok(None),
        }
    }

    fn parse_conditional_statement(&mut self) -> (r: Result<Statement, ParseError>)
        requires
            old(self).wf(),
        ensures
            final(self).wf(),
            final(self).rem() <= old(self).rem(),
            r is Ok ==> final(self).rem() < old(self).rem(),
        decreases self.rem(), 22int,
    {
        match self.inner.take(TokenType::If) {
            Ok(_) => {},
            Err(e) => {
                return Err(e);
            },
        }
        let condition = match self.parse_relation_expression() {
            Ok(c) => c,
            Err(e) => {
                return Err(e);
            },
        };
        match self.inner.take(TokenType::Then) {
            Ok(_) => {},
            Err(e) => {
                return Err(e);
            },
        }
        let body = match self.parse_statement_list() {
            Ok(b) => b,
            Err(e) => {
                return Err(e);
            },
        };
        match self.inner.take(TokenType::Else) {
            Ok(_) => {},
            Err(e) => {
                return Err(e);
            },
        }
        let else_body = match self.parse_statement_list() {
            Ok(b) => b,
            Err(e) => {
                return Err(e);
            },
        };
        match self.inner.take(TokenType::Fi) {
            Ok(_) => {},
            Err(e) => {
                return Err(e);
            },
        }
        Ok(Statement::Conditional(ConditionalStatement { condition, body, else_body }))
    }

    fn parse_loop_statement(&mut self) -> (r: Result<Statement, ParseError>)
        requires
            old(self).wf(),
        ensures
            final(self).wf(),
            final(self).rem() <= old(self).rem(),
            r is Ok ==> final(self).rem() < old(self).rem(),
        decreases self.rem(), 22int,
    {
        match self.inner.take(TokenType::While) {
            Ok(_) => {},
            Err(e) => {
                return Err(e);
            },
        }
        let condition = match self.parse_relation_expression() {
            Ok(c) => c,
            Err(e) => {
                return Err(e);
            },
        };
        match self.inner.take(TokenType::Do) {
            Ok(_) => {},
            Err(e) => {
                return Err(e);
            },
        }
        let body = match self.parse_statement_list() {
            Ok(b) => b,
            Err(e) => {
                return Err(e);
            },
        };
        match self.inner.take(TokenType::EndWhile) {
            Ok(_) => {},
            Err(e) => {
                return Err(e);
            },
        }
        Ok(Statement::Loop(LoopStatement { condition, body }))
    }

    fn parse_input_statement(&mut self) -> (r: Result<Statement, ParseError>)
        requires
            old(self).wf(),
        ensures
            final(self).wf(),
            final(self).rem() <= old(self).rem(),
            r is Ok ==> final(self).rem() < old(self).rem(),
        decreases self.rem(), 22int,
    {
        match self.inner.take(TokenType::Read) {
            Ok(_) => {},
            Err(e) => {
                return Err(e);
            },
        }
        match self.inner.take(TokenType::BracketOpen) {
            Ok(_) => {},
            Err(e) => {
                return Err(e);
            },
        }
        let name = match self.inner.take(TokenType::Identifer) {
            Ok(t) => t,
            Err(e) => {
                return Err(e);
            },
        };
        match self.inner.take(TokenType::BracketClose) {
            Ok(_) => {},
            Err(e) => {
                return Err(e);
            },
        }
        Ok(Statement::Input(Positional::new(name.line, name.column, name.image)))
    }

    fn parse_output_statement(&mut self) -> (r: Result<Statement, ParseError>)
        requires
            old(self).wf(),
        ensures
            final(self).wf(),
            final(self).rem() <= old(self).rem(),
            r is Ok ==> final(self).rem() < old(self).rem(),
        decreases self.rem(), 22int,
    {
        match self.inner.take(TokenType::Write) {
            Ok(_) => {},
            Err(e) => {
                return Err(e);
            },
        }
        match self.inner.take(TokenType::BracketOpen) {
            Ok(_) => {},
            Err(e) => {
                return Err(e);
            },
        }
        let exp = match self.parse_expression() {
            Ok(x) => x,
            Err(e) => {
                return Err(e);
            },
        };
        match self.inner.take(TokenType::BracketClose) {
            Ok(_) => {},
            Err(e) => {
                return Err(e);
            },
        }
        Ok(Statement::Output(exp))
    }

    fn parse_return_statement(&mut self) -> (r: Result<Statement, ParseError>)
        requires
            old(self).wf(),
        ensures
            final(self).wf(),
            final(self).rem() <= old(self).rem(),
            r is Ok ==> final(self).rem() < old(self).rem(),
        decreases self.rem(), 22int,
    {
        match self.inner.take(TokenType::Return) {
            Ok(_) => {},
            Err(e) => {
                return Err(e);
            },
        }
        match self.inner.take(TokenType::BracketOpen) {
            Ok(_) => {},
            Err(e) => {
                return Err(e);
            },
        }
        let exp = match self.parse_expression() {
            Ok(x) => x,
            Err(e) => {
                return Err(e);
            },
        };
        match self.inner.take(TokenType::BracketClose) {
            Ok(_) => {},
            Err(e) => {
                return Err(e);
            },
        }
        Ok(Statement::Return(exp))
    }

    fn parse_call_statement(&mut self) -> (r: Result<Statement, ParseError>)
        requires
            old(self).wf(),
        ensures
            final(self).wf(),
            final(self).rem() <= old(self).rem(),
            r is Ok ==> final(self).rem() < old(self).rem(),
        decreases self.rem(), 22int,
    {
        let mut params: Vec<Expression> = Vec::new();
        let name = match self.inner.take(TokenType::Identifer) {
            Ok(t) => t,
            Err(e) => {
                return Err(e);
            },
        };
        match self.inner.take(TokenType::BracketOpen) {
            Ok(_) => {},
            Err(e) => {
                return Err(e);
            },
        }
        while self.inner.current() != TokenType::BracketClose
            invariant
                self.wf(),
                self.rem() < old(self).rem(),
            decreases self.rem(),
        {
            if params.len() != 0 {
                match self.inner.take(TokenType::Comma) {
                    Ok(_) => {},
                    Err(e) => {
                        return Err(e);
                    },
                }
            }
            let param = match self.parse_expression() {
                Ok(x) => x,
                Err(e) => {
                    return Err(e);
                },
            };
            params.push(param);
        }
        match self.inner.take(TokenType::BracketClose) {
            Ok(_) => {},
            Err(e) => {
                return Err(e);
            },
        }
        Ok(
            Statement::Call(
                Positional::new(
                    name.line,
                    name.column,
                    CallStatement { name: name.image, params },
                ),
            ),
        )
    }

    fn parse_assign_statement(&mut self) -> (r: Result<Statement, ParseError>)
        requires
            old(self).wf(),
        ensures
            final(self).wf(),
            final(self).rem() <= old(self).rem(),
            r is Ok ==> final(self).rem() < old(self).rem(),
        decreases self.rem(), 22int,
    {
        let base = match self.inner.take(TokenType::Identifer) {
            Ok(t) => t,
            Err(e) => {
                return Err(e);
            },
        };
        let visit = match self.parse_variable_visit() {
            Ok(v) => v,
            Err(e) => {
                return Err(e);
            },
        };
        match self.inner.take(TokenType::Assign) {
            Ok(_) => {},
            Err(e) => {
                return Err(e);
            },
        }
        let value = match self.parse_expression() {
            Ok(x) => x,
            Err(e) => {
                return Err(e);
            },
        };
        Ok(
            Statement::Assign(
                AssignStatement {
                    variable: VariableRepresent {
                        base: Positional::new(base.line, base.column, base.image),
                        visit,
                    },
                    value,
                },
            ),
        )
    }

    fn parse_relation_expression(&mut self) -> (r: Result<RelationExpression, ParseError>)
        requires
            old(self).wf(),
        ensures
            final(self).wf(),
            final(self).rem() <= old(self).rem(),
            r is Ok ==> final(self).rem() < old(self).rem(),
        decreases self.rem(), 18int,
    {
        let left = match self.parse_expression() {
            Ok(x) => x,
            Err(e) => {
                return Err(e);
            },
        };
        let cur = self.inner.current();
        let op_tok = match cur {
            TokenType::LessThan => match self.inner.take(TokenType::LessThan) {
                Ok(t) => t,
                Err(e) => {
                    return Err(e);
                },
            },
            TokenType::Equal => match self.inner.take(TokenType::Equal) {
                Ok(t) => t,
                Err(e) => {
                    return Err(e);
                },
            },
            _ => {
                let tok_line = self.inner.current_token().line;
                let tok_column = self.inner.current_token().column;
                return Err(
                    ParseError::UnexpectedToken { line: tok_line, column: tok_column, got: cur },
                );
            },
        };
        let right = match self.parse_expression() {
            Ok(x) => x,
            Err(e) => {
                return Err(e);
            },
        };
        Ok(RelationExpression { left, op: op_tok.image, right })
    }

    fn parse_expression(&mut self) -> (r: Result<Expression, ParseError>)
        requires
            old(self).wf(),
        ensures
            final(self).wf(),
            final(self).rem() <= old(self).rem(),
            r is Ok ==> final(self).rem() < old(self).rem(),
        decreases self.rem(), 17int,
    {
        let left_line = self.inner.current_token().line;
        let left_column = self.inner.current_token().column;
        let left = match self.parse_term() {
            Ok(t) => t,
            Err(e) => {
                return Err(e);
            },
        };
        let cur = self.inner.current();
        let mut op: Option<String> = None;
        let mut right: Option<Positional<Box<Expression>>> = None;
        if cur == TokenType::Add || cur == TokenType::Minus {
            let op_tok = self.inner.current_token();
            let op_image = op_tok.image.clone();
            let op_line = op_tok.line;
            let op_column = op_tok.column;
            self.inner.move_next();
            let r2 = match self.parse_expression() {
                Ok(x) => x,
                Err(e) => {
                    return Err(e);
                },
            };
            op = Some(op_image);
            right = Some(Positional::new(op_line, op_column, Box::new(r2)));
        }
        Ok(ExpressionTemplate { left: Positional::new(left_line, left_column, left), op, right })
    }

    fn parse_term(&mut self) -> (r: Result<ExpressionTerm, ParseError>)
        requires
            old(self).wf(),
        ensures
            final(self).wf(),
            final(self).rem() <= old(self).rem(),
            r is Ok ==> final(self).rem() < old(self).rem(),
        decreases self.rem(), 16int,
    {
        let left_line = self.inner.current_token().line;
        let left_column = self.inner.current_token().column;
        let left = match self.parse_factor() {
            Ok(f) => f,
            Err(e) => {
                return Err(e);
            },
        };
        let cur = self.inner.current();
        let mut op: Option<String> = None;
        let mut right: Option<Positional<Box<ExpressionTerm>>> = None;
        if cur == TokenType::Multiply || cur == TokenType::Divide {
            let op_tok = self.inner.current_token();
            let op_image = op_tok.image.clone();
            let op_line = op_tok.line;
            let op_column = op_tok.column;
            self.inner.move_next();
            let r2 = match self.parse_term() {
                Ok(x) => x,
                Err(e) => {
                    return Err(e);
                },
            };
            op = Some(op_image);
            right = Some(Positional::new(op_line, op_column, Box::new(r2)));
        }
        Ok(ExpressionTemplate { left: Positional::new(left_line, left_column, left), op, right })
    }

    fn parse_factor(&mut self) -> (r: Result<ExpressionFactor, ParseError>)
        requires
            old(self).wf(),
        ensures
            final(self).wf(),
            final(self).rem() <= old(self).rem(),
            r is Ok ==> final(self).rem() < old(self).rem(),
        decreases self.rem(), 15int,
    {
        let cur = self.inner.current();
        match cur {
            TokenType::BracketOpen => {
                match self.inner.take(TokenType::BracketOpen) {
                    Ok(_) => {},
                    Err(e) => {
                        return Err(e);
                    },
                }
                let exp = match self.parse_expression() {
                    Ok(x) => x,
                    Err(e) => {
                        return Err(e);
                    },
                };
                match self.inner.take(TokenType::BracketClose) {
                    Ok(_) => {},
                    Err(e) => {
                        return Err(e);
                    },
                }
                Ok(ExpressionFactor::Bracket(Box::new(exp)))
            },
            TokenType::Int => {
                let num = match self.inner.take(TokenType::Int) {
                    Ok(t) => t,
                    Err(e) => {
                        return Err(e);
                    },
                };
                let value = match parse_u32(num.image.as_str()) {
                    Some(v) => v,
                    None => {
                        return Err(
                            ParseError::NumberTooLarge { line: num.line, column: num.column },
                        );
                    },
                };
                Ok(ExpressionFactor::Constant(value))
            },
            TokenType::Identifer => {
                let base = match self.inner.take(TokenType::Identifer) {
                    Ok(t) => t,
                    Err(e) => {
                        return Err(e);
                    },
                };
                let visit = match self.parse_variable_visit() {
                    Ok(v) => v,
                    Err(e) => {
                        return Err(e);
                    },
                };
                Ok(
                    ExpressionFactor::Variable(
                        VariableRepresent {
                            base: Positional::new(base.line, base.column, base.image),
                            visit,
                        },
                    ),
                )
            },
            _ => {
                let tok_line = self.inner.current_token().line;
                let tok_column = self.inner.current_token().column;
                Err(ParseError::UnexpectedToken { line: tok_line, column: tok_column, got: cur })
            },
        }
    }

    fn parse_param_list(&mut self) -> (r: Result<PositionalVec<Param>, ParseError>)
        requires
            old(self).wf(),
        ensures
            final(self).wf(),
            final(self).rem() <= old(self).rem(),
        decreases self.rem(), 22int,
    {
        let mut result: PositionalVec<Param> = Vec::new();
        while self.inner.current() != TokenType::BracketClose
            invariant
                self.wf(),
                self.rem() <= old(self).rem(),
            decreases self.rem(),
        {
            if result.len() != 0 {
                match self.inner.take(TokenType::Comma) {
                    Ok(_) => {},
                    Err(e) => {
                        return Err(e);
                    },
                }
            }
            let start_line = self.inner.current_token().line;
            let start_column = self.inner.current_token().column;
            let param = match self.parse_param() {
                Ok(p) => p,
                Err(e) => {
                    return Err(e);
                },
            };
            result.push(Positional::new(start_line, start_column, param));
        }
        Ok(result)
    }

    fn parse_param(&mut self) -> (r: Result<Param, ParseError>)
        requires
            old(self).wf(),
        ensures
            final(self).wf(),
            final(self).rem() <= old(self).rem(),
            r is Ok ==> final(self).rem() < old(self).rem(),
        decreases self.rem(), 21int,
    {
        let is_var = self.inner.current() == TokenType::Var;
        if is_var {
            self.inner.move_next();
        }
        let typename = match self.parse_type_name(true) {
            Ok(t) => t,
            Err(e) => {
                return Err(e);
            },
        };
        let identifiers = match self.parse_identifier_list() {
            Ok(v) => v,
            Err(e) => {
                return Err(e);
            },
        };
        Ok(Param { is_var, definition: TypedIdentifiers { typename, identifiers } })
    }

    fn parse_variable_visit(&mut self) -> (r: Result<Option<VariableVisit>, ParseError>)
        requires
            old(self).wf(),
        ensures
            final(self).wf(),
            final(self).rem() <= old(self).rem(),
        decreases self.rem(), 14int,
    {
        let dot: Option<Positional<String>> = if self.inner.current() == TokenType::Dot {
            match self.inner.take(TokenType::Dot) {
                Ok(_) => {},
                Err(e) => {
                    return Err(e);
                },
            }
            let field = match self.inner.take(TokenType::Identifer) {
                Ok(t) => t,
                Err(e) => {
                    return Err(e);
                },
            };
            Some(Positional::new(field.line, field.column, field.image))
        } else {
            None
        };
        let sqbr: Option<Box<Expression>> = if self.inner.current()
            == TokenType::SquareBracketOpen {
            match self.inner.take(TokenType::SquareBracketOpen) {
                Ok(_) => {},
                Err(e) => {
                    return Err(e);
                },
            }
            let exp = match self.parse_expression() {
                Ok(x) => x,
                Err(e) => {
                    return Err(e);
                },
            };
            match self.inner.take(TokenType::SquareBracketClose) {
                Ok(_) => {},
                Err(e) => {
                    return Err(e);
                },
            }
            Some(Box::new(exp))
        } else {
            None
        };
        let empty = matches!(dot, None) && matches!(sqbr, None);
        if empty {
            Ok(None)
        } else {
            Ok(Some(VariableVisit { dot, sqbr }))
        }
    }
}

} // verus!
