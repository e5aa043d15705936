//! The syntax tree of an SNL compilation unit, as the parser produces it and
//! as the semantic analysis consumes it.
//!
//! Every node is wrapped in a [`Positional`] envelope carrying the source
//! line and column; diagnostics are emitted in the same envelope.

use vstd::prelude::*;
use crate::token::Token;

verus! {

/// An envelope pairing a source position with a value.
#[derive(Debug, Clone, PartialEq)]
pub struct Positional<T> {
    pub line: u32,
    pub column: u32,
    pub inner: T,
}

impl<T> Positional<T> {
    pub fn new(line: u32, column: u32, inner: T) -> (r: Self)
        ensures
            r == (Positional { line, column, inner }),
    {
        Self { line, column, inner }
    }

    pub fn from_position(pos: (u32, u32), inner: T) -> (r: Self)
        ensures
            r == (Positional { line: pos.0, column: pos.1, inner }),
    {
        Positional::new(pos.0, pos.1, inner)
    }

    pub fn from_token(token: &Token, inner: T) -> (r: Self)
        ensures
            r == (Positional { line: token.line, column: token.column, inner }),
    {
        Positional::new(token.line, token.column, inner)
    }

    /// A value wrapped with the dummy position `(0, 0)`.
    pub fn dump(inner: T) -> (r: Self)
        ensures
            r == (Positional { line: 0u32, column: 0u32, inner }),
    {
        Self::new(0, 0, inner)
    }

    pub fn inner(&self) -> (r: &T)
        ensures
            r == &self.inner,
    {
        &self.inner
    }

    pub fn into_inner(self) -> (r: T)
        ensures
            r == self.inner,
    {
        self.inner
    }

    pub fn position(&self) -> (r: (u32, u32))
        ensures
            r == (self.line, self.column),
    {
        (self.line, self.column)
    }
}

impl Positional<String> {
    pub fn from_token_image(token: &Token) -> (r: Self)
        ensures
            r.line == token.line,
            r.column == token.column,
            r.inner@ == token.image@,
    {
        Positional::new(token.line, token.column, token.image.clone())
    }

    pub fn from_token_image_raw(token: Token) -> (r: Self)
        ensures
            r == (Positional { line: token.line, column: token.column, inner: token.image }),
    {
        Positional::new(token.line, token.column, token.image)
    }
}

impl<T: DeepView> DeepView for Positional<T> {
    type V = Positional<T::V>;

    open spec fn deep_view(&self) -> Positional<T::V> {
        Positional { line: self.line, column: self.column, inner: self.inner.deep_view() }
    }
}

pub type PositionalVec<T> = Vec<Positional<T>>;

/// The root of a compilation unit: one program, its declarations and its body.
#[derive(Debug, PartialEq)]
pub struct Program {
    pub name: String,
    pub declare: ProgramDeclare,
    pub body: StatementList,
}

/// The three ordered declaration sections of a program or a procedure.
#[derive(Debug, PartialEq)]
pub struct ProgramDeclare {
    pub type_declare: PositionalVec<TypeDeclare>,
    pub variable_declare: PositionalVec<TypedIdentifiers>,
    pub procedure_declare: PositionalVec<ProcedureDeclare>,
}

/// A named alias for a structural type.
#[derive(Debug, PartialEq)]
pub struct TypeDeclare {
    pub base: Positional<SNLType>,
    pub name: String,
}

impl TypeDeclare {
    pub fn name(&self) -> (r: &str)
        ensures
            r@ == self.name@,
    {
        self.name.as_str()
    }

    pub fn base(&self) -> (r: Positional<&SNLType>)
        ensures
            r.line == self.base.line,
            r.column == self.base.column,
            r.inner == &self.base.inner,
    {
        Positional::from_position(self.base.position(), &self.base.inner)
    }
}

/// A procedure declaration: parameters and an owned nested scope.
#[derive(Debug, PartialEq)]
pub struct ProcedureDeclare {
    pub name: String,
    pub params: PositionalVec<Param>,
    pub declare: Box<ProgramDeclare>,
    pub body: StatementList,
}

impl ProcedureDeclare {
    pub fn name(&self) -> (r: &str)
        ensures
            r@ == self.name@,
    {
        self.name.as_str()
    }
}

/// The two base types an array may range over.
#[derive(Debug, Copy, Clone, PartialEq, Eq, Structural)]
pub enum SNLBaseType {
    Integer,
    Char,
}

impl SNLBaseType {
    pub fn to_string(&self) -> (r: String)
        ensures
            self is Integer ==> r@ == "integer"@,
            self is Char ==> r@ == "char"@,
    {
        match self {
            SNLBaseType::Integer => "integer".to_owned(),
            SNLBaseType::Char => "char".to_owned(),
        }
    }

    /// The base type named by `s`: `integer`, `char`, or nothing.
    pub fn from_str(s: &str) -> (r: Option<SNLBaseType>)
        ensures
            s@ == "integer"@ ==> r == Some(SNLBaseType::Integer),
            s@ != "integer"@ && s@ == "char"@ ==> r == Some(SNLBaseType::Char),
            s@ != "integer"@ && s@ != "char"@ ==> r is None,
    {
        if crate::text::str_eq(s, "integer") {
            Some(SNLBaseType::Integer)
        } else if crate::text::str_eq(s, "char") {
            Some(SNLBaseType::Char)
        } else {
            None
        }
    }
}

/// A syntactic type expression: a base type, an array, a record, or a
/// reference to a declared type alias (`Others`).
#[derive(Debug, PartialEq)]
pub enum SNLType {
    Integer,
    Char,
    Array(SNLTypeArray),
    Record(SNLTypeRecord),
    Others(String),
}

impl SNLType {
    pub fn from_base(base: SNLBaseType) -> (r: SNLType)
        ensures
            base is Integer ==> r is Integer,
            base is Char ==> r is Char,
    {
        match base {
            SNLBaseType::Integer => SNLType::Integer,
            SNLBaseType::Char => SNLType::Char,
        }
    }
}

/// An array type: a base type and an inclusive bound pair.
#[derive(Debug, PartialEq)]
pub struct SNLTypeArray {
    pub base: SNLBaseType,
    pub lower_bound: usize,
    pub upper_bound: usize,
}

pub type SNLTypeRecord = Vec<TypedIdentifiers>;

/// One or more identifiers sharing one declared type.
#[derive(Debug, PartialEq)]
pub struct TypedIdentifiers {
    pub typename: SNLType,
    pub identifiers: PositionalVec<String>,
}

pub type StatementList = Vec<Statement>;

/// An executable statement.
#[derive(Debug, PartialEq)]
pub enum Statement {
    Conditional(ConditionalStatement),
    Loop(LoopStatement),
    Input(Positional<String>),
    Output(Expression),
    Return(Expression),
    Assign(AssignStatement),
    Call(Positional<CallStatement>),
}

#[derive(Debug, PartialEq)]
pub struct ConditionalStatement {
    pub condition: RelationExpression,
    pub body: StatementList,
    pub else_body: StatementList,
}

#[derive(Debug, PartialEq)]
pub struct LoopStatement {
    pub condition: RelationExpression,
    pub body: StatementList,
}

#[derive(Debug, PartialEq)]
pub struct AssignStatement {
    pub variable: VariableRepresent,
    pub value: Expression,
}

#[derive(Debug, PartialEq)]
pub struct CallStatement {
    pub name: String,
    pub params: Vec<Expression>,
}

impl CallStatement {
    pub fn name(&self) -> (r: &str)
        ensures
            r@ == self.name@,
    {
        self.name.as_str()
    }
}

/// A left-leaning binary chain at one precedence level: a left operand and an
/// optional operator with a right chain.
#[derive(Debug, PartialEq)]
pub struct ExpressionTemplate<Next> {
    pub left: Positional<Next>,
    pub op: Option<String>,
    pub right: Option<Positional<Box<ExpressionTemplate<Next>>>>,
}

pub type Expression = ExpressionTemplate<ExpressionTerm>;

pub type ExpressionTerm = ExpressionTemplate<ExpressionFactor>;

/// The leaves of the expression grammar.
#[derive(Debug, PartialEq)]
pub enum ExpressionFactor {
    Bracket(Box<Expression>),
    Constant(u32),
    Variable(VariableRepresent),
}

/// A comparison of two expressions with `<` or `=`.
#[derive(Debug, PartialEq)]
pub struct RelationExpression {
    pub left: Expression,
    pub op: String,
    pub right: Expression,
}

/// One procedure parameter group; `is_var` marks pass-by-reference.
#[derive(Debug, PartialEq)]
pub struct Param {
    pub is_var: bool,
    pub definition: TypedIdentifiers,
}

/// An optional record-field access followed by an optional array-index
/// access, in that order.
#[derive(Debug, PartialEq)]
pub struct VariableVisit {
    pub dot: Option<Positional<String>>,
    pub sqbr: Option<Box<Expression>>,
}

/// A use of a variable: a base identifier plus an optional visit chain.
#[derive(Debug, PartialEq)]
pub struct VariableRepresent {
    pub base: Positional<String>,
    pub visit: Option<VariableVisit>,
}

} // verus!
