//! The semantic rules, stated mathematically.
//!
//! These specification functions define, for every syntax tree and symbol
//! table, exactly which diagnostics the analysis emits, in which order, and
//! how the table evolves. The executable analyzer is proved to return
//! precisely what these functions describe.

use vstd::prelude::*;
use crate::ast::{
    AssignStatement, CallStatement, Expression, ExpressionFactor, ExpressionTerm, Param,
    Positional, ProcedureDeclare, Program, ProgramDeclare, RelationExpression, SNLBaseType,
    SNLType, Statement, TypeDeclare, TypedIdentifiers, VariableRepresent,
};
use crate::canonical::CanonicalTypeView;
use crate::error::ErrorView;
use crate::symbol::{scope_find, scope_has, scope_update, table_find, SymbolView};

verus! {

/// One diagnostic at a source position.
pub open spec fn diag(line: u32, column: u32, e: ErrorView) -> Positional<ErrorView> {
    Positional { line, column, inner: e }
}

/// Whether a sequence of names contains `n`.
pub open spec fn names_contain(seen: Seq<Seq<char>>, n: Seq<char>) -> bool {
    exists|k: int| 0 <= k < seen.len() && #[trigger] seen[k] == n
}

/// A type that `read` and `write` accept, and a valid relation operand:
/// integer, char, or the unknown sentinel, which is never re-flagged.
pub open spec fn is_scalar(t: CanonicalTypeView) -> bool {
    t is Integer || t is Char || t is Unknown
}

/// The canonical type a symbol contributes to a type-shaped diagnostic
/// payload: a variable's or alias's type; `Unknown` for a procedure.
pub open spec fn symbol_payload(s: SymbolView) -> CanonicalTypeView {
    match s {
        SymbolView::Variable(t) => t,
        SymbolView::Type(t) => t,
        SymbolView::Procedure(_) => CanonicalTypeView::Unknown,
    }
}

/// The view of an array element type.
pub open spec fn base_view(b: SNLBaseType) -> CanonicalTypeView {
    match b {
        SNLBaseType::Integer => CanonicalTypeView::Integer,
        SNLBaseType::Char => CanonicalTypeView::Char,
    }
}

/// The canonical form of a syntactic type under a symbol table: aliases are
/// resolved through the table (an unresolvable one becomes `Unknown`),
/// arrays keep their bounds, records flatten to named fields.
pub open spec fn canon_of(t: SNLType, tbl: Seq<Seq<(Seq<char>, SymbolView)>>) -> CanonicalTypeView
    decreases t, 0int, 0int,
{
    match t {
        SNLType::Integer => CanonicalTypeView::Integer,
        SNLType::Char => CanonicalTypeView::Char,
        SNLType::Array(a) => CanonicalTypeView::Array {
            base: a.base,
            lower_bound: a.lower_bound,
            upper_bound: a.upper_bound,
        },
        SNLType::Record(groups) => CanonicalTypeView::Record(
            dedup_fields(flat_fields(groups@, 0, tbl), 0, Seq::empty()),
        ),
        SNLType::Others(name) => match table_find(tbl, name@) {
            Some(SymbolView::Type(ct)) => ct,
            _ => CanonicalTypeView::Unknown,
        },
    }
}

/// The flattened (name, canonical type) pairs of the record groups from
/// `gi` on, one pair per identifier, in declaration order.
pub open spec fn flat_fields(
    groups: Seq<TypedIdentifiers>,
    gi: int,
    tbl: Seq<Seq<(Seq<char>, SymbolView)>>,
) -> Seq<(Seq<char>, CanonicalTypeView)>
    decreases groups, groups.len() - gi, 1int,
{
    if gi < 0 || gi >= groups.len() {
        Seq::empty()
    } else {
        group_fields(groups[gi].identifiers@, 0, canon_of(groups[gi].typename, tbl)) + flat_fields(
            groups,
            gi + 1,
            tbl,
        )
    }
}

/// The (name, type) pairs one group contributes from identifier `k` on.
pub open spec fn group_fields(
    ids: Seq<Positional<String>>,
    k: int,
    t: CanonicalTypeView,
) -> Seq<(Seq<char>, CanonicalTypeView)>
    decreases ids.len() - k,
{
    if k < 0 || k >= ids.len() {
        Seq::empty()
    } else {
        seq![(ids[k].inner@, t)] + group_fields(ids, k + 1, t)
    }
}

/// The fields from `i` on whose names are not in `seen` and have not
/// appeared earlier in the scan: a repeated field name keeps its first
/// occurrence.
pub open spec fn dedup_fields(
    fs: Seq<(Seq<char>, CanonicalTypeView)>,
    i: int,
    seen: Seq<Seq<char>>,
) -> Seq<(Seq<char>, CanonicalTypeView)>
    decreases fs.len() - i,
{
    if i < 0 || i >= fs.len() {
        Seq::empty()
    } else if names_contain(seen, fs[i].0) {
        dedup_fields(fs, i + 1, seen)
    } else {
        seq![fs[i]] + dedup_fields(fs, i + 1, seen.push(fs[i].0))
    }
}

/// The diagnostics of validating one type expression at a position:
/// reversed array bounds, record field duplicates and field types, and
/// unresolvable type names.
pub open spec fn validate_type(
    t: SNLType,
    line: u32,
    column: u32,
    tbl: Seq<Seq<(Seq<char>, SymbolView)>>,
) -> Seq<Positional<ErrorView>>
    decreases t, 0int, 0int,
{
    match t {
        SNLType::Integer => Seq::empty(),
        SNLType::Char => Seq::empty(),
        SNLType::Array(a) => if a.lower_bound > a.upper_bound {
            seq![diag(line, column, ErrorView::InvalidArrayDefinition)]
        } else {
            Seq::empty()
        },
        SNLType::Record(groups) => validate_groups(groups@, 0, line, column, tbl, Seq::empty()).0,
        SNLType::Others(name) => match table_find(tbl, name@) {
            Some(SymbolView::Type(_)) => Seq::empty(),
            _ => seq![diag(line, column, ErrorView::UndefinedType(name@))],
        },
    }
}

/// The diagnostics of the record groups from `gi` on, with `seen` the field
/// names declared earlier in the record; also the names seen afterwards.
pub open spec fn validate_groups(
    groups: Seq<TypedIdentifiers>,
    gi: int,
    line: u32,
    column: u32,
    tbl: Seq<Seq<(Seq<char>, SymbolView)>>,
    seen: Seq<Seq<char>>,
) -> (Seq<Positional<ErrorView>>, Seq<Seq<char>>)
    decreases groups, groups.len() - gi, 1int,
{
    if gi < 0 || gi >= groups.len() {
        (Seq::empty(), seen)
    } else {
        let te = validate_type(groups[gi].typename, line, column, tbl);
        let (ide, seen2) = record_id_dups(groups[gi].identifiers@, 0, seen);
        let (rest, seen3) = validate_groups(groups, gi + 1, line, column, tbl, seen2);
        (te + ide + rest, seen3)
    }
}

/// The duplicate-name diagnostics among a group's identifiers from `k` on,
/// given the names seen earlier in the record; also the names afterwards.
pub open spec fn record_id_dups(
    ids: Seq<Positional<String>>,
    k: int,
    seen: Seq<Seq<char>>,
) -> (Seq<Positional<ErrorView>>, Seq<Seq<char>>)
    decreases ids.len() - k,
{
    if k < 0 || k >= ids.len() {
        (Seq::empty(), seen)
    } else if names_contain(seen, ids[k].inner@) {
        let (rest, seen2) = record_id_dups(ids, k + 1, seen);
        (
            seq![
                diag(ids[k].line, ids[k].column, ErrorView::DuplicatedIdentifier(ids[k].inner@)),
            ] + rest,
            seen2,
        )
    } else {
        record_id_dups(ids, k + 1, seen.push(ids[k].inner@))
    }
}

// ---------------------------------------------------------------------------
// Expressions
// ---------------------------------------------------------------------------

/// Diagnostics and inferred type of an expression chain: the left operand's
/// type is the chain's type, and a right-hand side of another type is a
/// structural mismatch.
pub open spec fn check_expr(e: Expression, tbl: Seq<Seq<(Seq<char>, SymbolView)>>) -> (
    Seq<Positional<ErrorView>>,
    CanonicalTypeView,
)
    decreases e,
{
    let (le, lt) = check_term(e.left.inner, tbl);
    match e.right {
        None => (le, lt),
        Some(rp) => {
            let (re, rt) = check_expr(*rp.inner, tbl);
            if !crate::canonical::type_equal_view(lt, rt) {
                (
                    le + re + seq![
                        diag(
                            e.left.line,
                            e.left.column,
                            ErrorView::UncompatableType { expected: lt, got: rt },
                        ),
                    ],
                    lt,
                )
            } else {
                (le + re, lt)
            }
        },
    }
}

/// Diagnostics and inferred type of a term chain, as for expressions.
pub open spec fn check_term(t: ExpressionTerm, tbl: Seq<Seq<(Seq<char>, SymbolView)>>) -> (
    Seq<Positional<ErrorView>>,
    CanonicalTypeView,
)
    decreases t,
{
    let (le, lt) = check_factor(t.left.inner, tbl);
    match t.right {
        None => (le, lt),
        Some(rp) => {
            let (re, rt) = check_term(*rp.inner, tbl);
            if !crate::canonical::type_equal_view(lt, rt) {
                (
                    le + re + seq![
                        diag(
                            t.left.line,
                            t.left.column,
                            ErrorView::UncompatableType { expected: lt, got: rt },
                        ),
                    ],
                    lt,
                )
            } else {
                (le + re, lt)
            }
        },
    }
}

/// Diagnostics and inferred type of a factor: a constant is an integer, a
/// bracket is its inner expression, a variable is resolved below.
pub open spec fn check_factor(f: ExpressionFactor, tbl: Seq<Seq<(Seq<char>, SymbolView)>>) -> (
    Seq<Positional<ErrorView>>,
    CanonicalTypeView,
)
    decreases f,
{
    match f {
        ExpressionFactor::Bracket(e) => check_expr(*e, tbl),
        ExpressionFactor::Constant(_) => (Seq::empty(), CanonicalTypeView::Integer),
        ExpressionFactor::Variable(v) => check_varrep(v, tbl),
    }
}

/// Diagnostics and resulting type of a variable use: the base must resolve
/// to a variable; a field visit needs a record exposing the field; an index
/// visit needs an array and an integer index. Each failure yields `Unknown`
/// and suppresses the checks that depend on it.
pub open spec fn check_varrep(v: VariableRepresent, tbl: Seq<Seq<(Seq<char>, SymbolView)>>) -> (
    Seq<Positional<ErrorView>>,
    CanonicalTypeView,
)
    decreases v,
{
    match table_find(tbl, v.base.inner@) {
        None => (
            seq![
                diag(v.base.line, v.base.column, ErrorView::UndefinedIdentifier(v.base.inner@)),
            ],
            CanonicalTypeView::Unknown,
        ),
        Some(sym) => if !(sym is Variable) {
            (
                seq![diag(v.base.line, v.base.column, ErrorView::InvalidVariableRepresent(sym))],
                CanonicalTypeView::Unknown,
            )
        } else {
            let t0 = sym->Variable_0;
            match v.visit {
                None => (Seq::empty(), t0),
                Some(visit) => {
                    let dot = check_dot(visit.dot, t0);
                    check_sqbr(visit.sqbr, dot.0, dot.1, tbl)
                },
            }
        },
    }
}

/// The field-visit step: narrow a record type to the named field's type.
pub open spec fn check_dot(dot: Option<Positional<String>>, t0: CanonicalTypeView) -> (
    Seq<Positional<ErrorView>>,
    CanonicalTypeView,
) {
    match dot {
        None => (Seq::empty(), t0),
        Some(field) => if t0 is Unknown {
            (Seq::empty(), CanonicalTypeView::Unknown)
        } else if !(t0 is Record) {
            (
                seq![diag(field.line, field.column, ErrorView::InvalidFieldIndexType(t0))],
                CanonicalTypeView::Unknown,
            )
        } else {
            match scope_find(t0->Record_0, field.inner@) {
                None => (
                    seq![
                        diag(
                            field.line,
                            field.column,
                            ErrorView::UndefinedRecordField(field.inner@),
                        ),
                    ],
                    CanonicalTypeView::Unknown,
                ),
                Some(ft) => (Seq::empty(), ft),
            }
        },
    }
}

/// The index-visit step: narrow an array type to its base, requiring an
/// integer index.
pub open spec fn check_sqbr(
    sqbr: Option<Box<Expression>>,
    acc: Seq<Positional<ErrorView>>,
    t1: CanonicalTypeView,
    tbl: Seq<Seq<(Seq<char>, SymbolView)>>,
) -> (Seq<Positional<ErrorView>>, CanonicalTypeView)
    decreases sqbr,
{
    match sqbr {
        None => (acc, t1),
        Some(ie) => if t1 is Unknown {
            (acc, CanonicalTypeView::Unknown)
        } else if !(t1 is Array) {
            (
                acc + seq![
                    diag((*ie).left.line, (*ie).left.column, ErrorView::UnexpectedArrayIndex),
                ],
                CanonicalTypeView::Unknown,
            )
        } else {
            let (ie_errs, it) = check_expr(*ie, tbl);
            if it is Integer || it is Unknown {
                (acc + ie_errs, base_view(t1->Array_base))
            } else {
                (
                    acc + ie_errs + seq![
                        diag(
                            (*ie).left.line,
                            (*ie).left.column,
                            ErrorView::UncompatableType {
                                expected: CanonicalTypeView::Integer,
                                got: it,
                            },
                        ),
                    ],
                    CanonicalTypeView::Unknown,
                )
            }
        },
    }
}

// ---------------------------------------------------------------------------
// Statements
// ---------------------------------------------------------------------------

/// Diagnostics of the statements from `i` on, under an unchanging table.
pub open spec fn check_stmts(
    l: Seq<Statement>,
    i: int,
    tbl: Seq<Seq<(Seq<char>, SymbolView)>>,
) -> Seq<Positional<ErrorView>>
    decreases l, l.len() - i, 0int,
{
    if i < 0 || i >= l.len() {
        Seq::empty()
    } else {
        check_stmt(l[i], tbl) + check_stmts(l, i + 1, tbl)
    }
}

/// Diagnostics of one statement. A `return` checks its expression like a
/// `write` but carries no diagnostic of its own for a non-scalar value.
pub open spec fn check_stmt(
    s: Statement,
    tbl: Seq<Seq<(Seq<char>, SymbolView)>>,
) -> Seq<Positional<ErrorView>>
    decreases s, 0int, 1int,
{
    match s {
        Statement::Conditional(c) => check_relation(c.condition, tbl) + check_stmts(c.body@, 0, tbl)
            + check_stmts(c.else_body@, 0, tbl),
        Statement::Loop(lp) => check_relation(lp.condition, tbl) + check_stmts(lp.body@, 0, tbl),
        Statement::Input(name) => check_input(name, tbl),
        Statement::Output(e) => {
            let (errs, t) = check_expr(e, tbl);
            if is_scalar(t) {
                errs
            } else {
                errs + seq![diag(e.left.line, e.left.column, ErrorView::InvalidWriteType(t))]
            }
        },
        Statement::Return(e) => check_expr(e, tbl).0,
        Statement::Assign(a) => check_assign(a, tbl),
        Statement::Call(c) => check_call(c, tbl),
    }
}

/// Diagnostics of a `read`: the name must denote an integer or char
/// variable.
pub open spec fn check_input(
    name: Positional<String>,
    tbl: Seq<Seq<(Seq<char>, SymbolView)>>,
) -> Seq<Positional<ErrorView>> {
    match table_find(tbl, name.inner@) {
        None => seq![
            diag(name.line, name.column, ErrorView::UndefinedIdentifier(name.inner@)),
        ],
        Some(sym) => if !(sym is Variable) {
            seq![diag(name.line, name.column, ErrorView::InvalidReadType(symbol_payload(sym)))]
        } else if sym->Variable_0 is Integer || sym->Variable_0 is Char {
            Seq::empty()
        } else {
            seq![diag(name.line, name.column, ErrorView::InvalidReadType(sym->Variable_0))]
        },
    }
}

/// Diagnostics of an assignment: an assignee of unknown type cannot take a
/// value; otherwise both sides must be structurally equal, the assignee's
/// type expected and the value's type got.
pub open spec fn check_assign(
    a: AssignStatement,
    tbl: Seq<Seq<(Seq<char>, SymbolView)>>,
) -> Seq<Positional<ErrorView>>
    decreases a,
{
    let (lerrs, lt) = check_varrep(a.variable, tbl);
    let (rerrs, rt) = check_expr(a.value, tbl);
    if lt is Unknown {
        lerrs + rerrs + seq![
            diag(a.variable.base.line, a.variable.base.column, ErrorView::InvalidAssignee),
        ]
    } else if !crate::canonical::type_equal_view(lt, rt) {
        lerrs + rerrs + seq![
            diag(
                a.value.left.line,
                a.value.left.column,
                ErrorView::AssignTypeMismatch { expected: lt, got: rt },
            ),
        ]
    } else {
        lerrs + rerrs
    }
}

/// Diagnostics of a call: the name must denote a procedure; the arguments
/// are then checked, their count must match the signature, and on matching
/// counts each argument's type must match its parameter.
pub open spec fn check_call(
    c: Positional<CallStatement>,
    tbl: Seq<Seq<(Seq<char>, SymbolView)>>,
) -> Seq<Positional<ErrorView>>
    decreases c,
{
    match table_find(tbl, c.inner.name@) {
        None => seq![diag(c.line, c.column, ErrorView::UndefinedIdentifier(c.inner.name@))],
        Some(sym) => if !(sym is Procedure) {
            seq![
                diag(
                    c.line,
                    c.column,
                    ErrorView::UncompatableType {
                        expected: CanonicalTypeView::Unknown,
                        got: symbol_payload(sym),
                    },
                ),
            ]
        } else {
            let sig = sym->Procedure_0;
            let (aerrs, ats) = check_args(c.inner.params@, 0, tbl);
            if sig.len() != c.inner.params@.len() {
                aerrs + seq![
                    diag(
                        c.line,
                        c.column,
                        ErrorView::CallParameterCountMismatch {
                            expected: sig.len() as usize,
                            got: c.inner.params@.len() as usize,
                        },
                    ),
                ]
            } else {
                aerrs + arg_mismatches(c.inner.params@, ats, sig, 0)
            }
        },
    }
}

/// Diagnostics and inferred types of the call arguments from `k` on.
pub open spec fn check_args(
    args: Seq<Expression>,
    k: int,
    tbl: Seq<Seq<(Seq<char>, SymbolView)>>,
) -> (Seq<Positional<ErrorView>>, Seq<CanonicalTypeView>)
    decreases args, args.len() - k,
{
    if k < 0 || k >= args.len() {
        (Seq::empty(), Seq::empty())
    } else {
        let (e0, t0) = check_expr(args[k], tbl);
        let (rest, ts) = check_args(args, k + 1, tbl);
        (e0 + rest, seq![t0] + ts)
    }
}

/// The per-argument type mismatches from `k` on, each at its argument's
/// position.
pub open spec fn arg_mismatches(
    args: Seq<Expression>,
    ats: Seq<CanonicalTypeView>,
    sig: Seq<CanonicalTypeView>,
    k: int,
) -> Seq<Positional<ErrorView>>
    decreases args.len() - k,
{
    if k < 0 || k >= args.len() || k >= ats.len() || k >= sig.len() {
        Seq::empty()
    } else {
        let here = if !crate::canonical::type_equal_view(sig[k], ats[k]) {
            seq![
                diag(
                    args[k].left.line,
                    args[k].left.column,
                    ErrorView::CallParameterTypeMismatch { expected: sig[k], got: ats[k] },
                ),
            ]
        } else {
            Seq::empty()
        };
        here + arg_mismatches(args, ats, sig, k + 1)
    }
}

/// Diagnostics of a relation expression: each operand is checked and must
/// be integer or char.
pub open spec fn check_relation(
    r: RelationExpression,
    tbl: Seq<Seq<(Seq<char>, SymbolView)>>,
) -> Seq<Positional<ErrorView>>
    decreases r,
{
    let (le, lt) = check_expr(r.left, tbl);
    let (re, rt) = check_expr(r.right, tbl);
    let lflag = if is_scalar(lt) {
        Seq::empty()
    } else {
        seq![diag(r.left.left.line, r.left.left.column, ErrorView::InvalidBoolExpression)]
    };
    let rflag = if is_scalar(rt) {
        Seq::empty()
    } else {
        seq![diag(r.right.left.line, r.right.left.column, ErrorView::InvalidBoolExpression)]
    };
    le + lflag + re + rflag
}

// ---------------------------------------------------------------------------
// Declarations
// ---------------------------------------------------------------------------

/// The table after binding `name` in the innermost scope.
pub open spec fn tbl_insert(
    tbl: Seq<Seq<(Seq<char>, SymbolView)>>,
    name: Seq<char>,
    sym: SymbolView,
) -> Seq<Seq<(Seq<char>, SymbolView)>> {
    tbl.update(tbl.len() - 1, scope_update(tbl.last(), name, sym))
}

/// Diagnostics and table of processing the type declarations from `i` on:
/// a locally duplicated alias name is flagged and not rebound; otherwise
/// the aliased type is validated and the name bound to its canonical form.
pub open spec fn decl_types(
    tds: Seq<Positional<TypeDeclare>>,
    i: int,
    tbl: Seq<Seq<(Seq<char>, SymbolView)>>,
) -> (Seq<Positional<ErrorView>>, Seq<Seq<(Seq<char>, SymbolView)>>)
    decreases tds.len() - i,
{
    if i < 0 || i >= tds.len() || tbl.len() == 0 {
        (Seq::empty(), tbl)
    } else {
        let td = tds[i];
        if scope_has(tbl.last(), td.inner.name@) {
            let (rest, t2) = decl_types(tds, i + 1, tbl);
            (
                seq![
                    diag(td.line, td.column, ErrorView::DuplicatedIdentifier(td.inner.name@)),
                ] + rest,
                t2,
            )
        } else {
            let ve = validate_type(
                td.inner.base.inner,
                td.inner.base.line,
                td.inner.base.column,
                tbl,
            );
            let tbl2 = tbl_insert(
                tbl,
                td.inner.name@,
                SymbolView::Type(canon_of(td.inner.base.inner, tbl)),
            );
            let (rest, t3) = decl_types(tds, i + 1, tbl2);
            (ve + rest, t3)
        }
    }
}

/// Diagnostics and table of declaring one group's identifiers from `k` on
/// as variables of the group's type: a locally duplicated name is flagged
/// and not rebound; each binding canonicalizes the type under the table as
/// it then stands.
pub open spec fn decl_var_ids(
    ids: Seq<Positional<String>>,
    k: int,
    tname: SNLType,
    tbl: Seq<Seq<(Seq<char>, SymbolView)>>,
) -> (Seq<Positional<ErrorView>>, Seq<Seq<(Seq<char>, SymbolView)>>)
    decreases ids.len() - k,
{
    if k < 0 || k >= ids.len() || tbl.len() == 0 {
        (Seq::empty(), tbl)
    } else {
        let id = ids[k];
        if scope_has(tbl.last(), id.inner@) {
            let (rest, t2) = decl_var_ids(ids, k + 1, tname, tbl);
            (
                seq![
                    diag(id.line, id.column, ErrorView::DuplicatedIdentifier(id.inner@)),
                ] + rest,
                t2,
            )
        } else {
            let tbl2 = tbl_insert(tbl, id.inner@, SymbolView::Variable(canon_of(tname, tbl)));
            decl_var_ids(ids, k + 1, tname, tbl2)
        }
    }
}

/// Diagnostics and table of the variable declaration groups from `i` on:
/// each group's type is validated at the group's position, then its
/// identifiers are declared.
pub open spec fn decl_vars(
    vds: Seq<Positional<TypedIdentifiers>>,
    i: int,
    tbl: Seq<Seq<(Seq<char>, SymbolView)>>,
) -> (Seq<Positional<ErrorView>>, Seq<Seq<(Seq<char>, SymbolView)>>)
    decreases vds.len() - i,
{
    if i < 0 || i >= vds.len() {
        (Seq::empty(), tbl)
    } else {
        let vd = vds[i];
        let ve = validate_type(vd.inner.typename, vd.line, vd.column, tbl);
        let (ide, tbl2) = decl_var_ids(vd.inner.identifiers@, 0, vd.inner.typename, tbl);
        let (rest, tbl3) = decl_vars(vds, i + 1, tbl2);
        (ve + ide + rest, tbl3)
    }
}

/// The canonical parameter signature from parameter group `pi` on: one
/// entry per identifier, in declaration order, under the enclosing table.
pub open spec fn sig_of_params(
    params: Seq<Positional<Param>>,
    pi: int,
    tbl: Seq<Seq<(Seq<char>, SymbolView)>>,
) -> Seq<CanonicalTypeView>
    decreases params.len() - pi,
{
    if pi < 0 || pi >= params.len() {
        Seq::empty()
    } else {
        let p = params[pi].inner;
        Seq::new(
            p.definition.identifiers@.len(),
            |k: int| canon_of(p.definition.typename, tbl),
        ) + sig_of_params(params, pi + 1, tbl)
    }
}

/// Diagnostics and table of declaring the parameter groups from `pi` on
/// inside the procedure's scope, exactly as variable groups are declared.
pub open spec fn decl_params(
    params: Seq<Positional<Param>>,
    pi: int,
    tbl: Seq<Seq<(Seq<char>, SymbolView)>>,
) -> (Seq<Positional<ErrorView>>, Seq<Seq<(Seq<char>, SymbolView)>>)
    decreases params.len() - pi,
{
    if pi < 0 || pi >= params.len() {
        (Seq::empty(), tbl)
    } else {
        let p = params[pi];
        let ve = validate_type(p.inner.definition.typename, p.line, p.column, tbl);
        let (ide, tbl2) = decl_var_ids(
            p.inner.definition.identifiers@,
            0,
            p.inner.definition.typename,
            tbl,
        );
        let (rest, tbl3) = decl_params(params, pi + 1, tbl2);
        (ve + ide + rest, tbl3)
    }
}

/// Diagnostics and table of the procedure declarations from `pi` on. Each
/// procedure's signature is computed under the enclosing table and bound in
/// the enclosing scope (unless the name is a local duplicate), then a
/// nested scope is opened holding the procedure itself (for recursion) and
/// its parameters, the nested declarations are processed, the body is
/// checked, and the scope is discarded.
pub open spec fn decl_procs(
    procs: Seq<Positional<ProcedureDeclare>>,
    pi: int,
    tbl: Seq<Seq<(Seq<char>, SymbolView)>>,
) -> (Seq<Positional<ErrorView>>, Seq<Seq<(Seq<char>, SymbolView)>>)
    decreases procs, procs.len() - pi, 0int,
{
    if pi < 0 || pi >= procs.len() || tbl.len() == 0 {
        (Seq::empty(), tbl)
    } else {
        let p = procs[pi];
        let sig = SymbolView::Procedure(sig_of_params(p.inner.params@, 0, tbl));
        let head = if scope_has(tbl.last(), p.inner.name@) {
            (
                seq![
                    diag(p.line, p.column, ErrorView::DuplicatedIdentifier(p.inner.name@)),
                ],
                tbl,
            )
        } else {
            (Seq::empty(), tbl_insert(tbl, p.inner.name@, sig))
        };
        let tbl2 = head.1.push(Seq::empty());
        let tbl3 = tbl_insert(tbl2, p.inner.name@, sig);
        let par = decl_params(p.inner.params@, 0, tbl3);
        let inner = decl_declare(*p.inner.declare, par.1);
        let body_errs = check_stmts(p.inner.body@, 0, inner.1);
        let tbl_out = inner.1.drop_last();
        let (rest, tbl4) = decl_procs(procs, pi + 1, tbl_out);
        (head.0 + par.0 + inner.0 + body_errs + rest, tbl4)
    }
}

/// Diagnostics and table of one declaration part: types, then variables,
/// then procedures, in order.
pub open spec fn decl_declare(
    d: ProgramDeclare,
    tbl: Seq<Seq<(Seq<char>, SymbolView)>>,
) -> (Seq<Positional<ErrorView>>, Seq<Seq<(Seq<char>, SymbolView)>>)
    decreases d, 0int, 1int,
{
    let (te, tbl1) = decl_types(d.type_declare@, 0, tbl);
    let (ve, tbl2) = decl_vars(d.variable_declare@, 0, tbl1);
    let (pe, tbl3) = decl_procs(d.procedure_declare@, 0, tbl2);
    (te + ve + pe, tbl3)
}

/// The complete analysis of a program: its declarations populate a fresh
/// table holding one global scope, then its body is checked under the
/// resulting table; the diagnostics come in discovery order.
pub open spec fn analysis(p: Program) -> Seq<Positional<ErrorView>> {
    let init = seq![Seq::<(Seq<char>, SymbolView)>::empty()];
    let (de, tbl) = decl_declare(p.declare, init);
    de + check_stmts(p.body@, 0, tbl)
}


// ---------------------------------------------------------------------------
// Shape lemmas
// ---------------------------------------------------------------------------

/// Processing type declarations never opens or closes a scope.
pub proof fn lemma_decl_types_len(
    tds: Seq<Positional<TypeDeclare>>,
    i: int,
    tbl: Seq<Seq<(Seq<char>, SymbolView)>>,
)
    ensures
        decl_types(tds, i, tbl).1.len() == tbl.len(),
    decreases tds.len() - i,
{
    if 0 <= i && i < tds.len() && tbl.len() > 0 {
        let td = tds[i];
        if scope_has(tbl.last(), td.inner.name@) {
            lemma_decl_types_len(tds, i + 1, tbl);
        } else {
            let tbl2 = tbl_insert(tbl, td.inner.name@, SymbolView::Type(canon_of(td.inner.base.inner, tbl)));
            lemma_decl_types_len(tds, i + 1, tbl2);
        }
    }
}

/// Declaring one group's identifiers never opens or closes a scope.
pub proof fn lemma_decl_var_ids_len(
    ids: Seq<Positional<String>>,
    k: int,
    tname: SNLType,
    tbl: Seq<Seq<(Seq<char>, SymbolView)>>,
)
    ensures
        decl_var_ids(ids, k, tname, tbl).1.len() == tbl.len(),
    decreases ids.len() - k,
{
    if 0 <= k && k < ids.len() && tbl.len() > 0 {
        let id = ids[k];
        if scope_has(tbl.last(), id.inner@) {
            lemma_decl_var_ids_len(ids, k + 1, tname, tbl);
        } else {
            let tbl2 = tbl_insert(tbl, id.inner@, SymbolView::Variable(canon_of(tname, tbl)));
            lemma_decl_var_ids_len(ids, k + 1, tname, tbl2);
        }
    }
}

/// Processing variable declarations never opens or closes a scope.
pub proof fn lemma_decl_vars_len(
    vds: Seq<Positional<TypedIdentifiers>>,
    i: int,
    tbl: Seq<Seq<(Seq<char>, SymbolView)>>,
)
    ensures
        decl_vars(vds, i, tbl).1.len() == tbl.len(),
    decreases vds.len() - i,
{
    if 0 <= i && i < vds.len() {
        let vd = vds[i];
        lemma_decl_var_ids_len(vd.inner.identifiers@, 0, vd.inner.typename, tbl);
        let tbl2 = decl_var_ids(vd.inner.identifiers@, 0, vd.inner.typename, tbl).1;
        lemma_decl_vars_len(vds, i + 1, tbl2);
    }
}

/// Declaring parameter groups never opens or closes a scope.
pub proof fn lemma_decl_params_len(
    params: Seq<Positional<Param>>,
    pi: int,
    tbl: Seq<Seq<(Seq<char>, SymbolView)>>,
)
    ensures
        decl_params(params, pi, tbl).1.len() == tbl.len(),
    decreases params.len() - pi,
{
    if 0 <= pi && pi < params.len() {
        let p = params[pi];
        lemma_decl_var_ids_len(p.inner.definition.identifiers@, 0, p.inner.definition.typename, tbl);
        let tbl2 = decl_var_ids(p.inner.definition.identifiers@, 0, p.inner.definition.typename, tbl).1;
        lemma_decl_params_len(params, pi + 1, tbl2);
    }
}

/// Processing procedure declarations opens and closes scopes in pairs: the
/// table leaves with as many scopes as it entered with.
pub proof fn lemma_decl_procs_len(
    procs: Seq<Positional<ProcedureDeclare>>,
    pi: int,
    tbl: Seq<Seq<(Seq<char>, SymbolView)>>,
)
    ensures
        decl_procs(procs, pi, tbl).1.len() == tbl.len(),
    decreases procs, procs.len() - pi, 0int,
{
    if 0 <= pi && pi < procs.len() && tbl.len() > 0 {
        let p = procs[pi];
        let sig = SymbolView::Procedure(sig_of_params(p.inner.params@, 0, tbl));
        let head1 = if scope_has(tbl.last(), p.inner.name@) {
            tbl
        } else {
            tbl_insert(tbl, p.inner.name@, sig)
        };
        let tbl2 = head1.push(Seq::empty());
        let tbl3 = tbl_insert(tbl2, p.inner.name@, sig);
        lemma_decl_params_len(p.inner.params@, 0, tbl3);
        let par1 = decl_params(p.inner.params@, 0, tbl3).1;
        lemma_decl_declare_len(*p.inner.declare, par1);
        let inner1 = decl_declare(*p.inner.declare, par1).1;
        let tbl_out = inner1.drop_last();
        lemma_decl_procs_len(procs, pi + 1, tbl_out);
    }
}

/// Processing one declaration part never opens or closes a scope.
pub proof fn lemma_decl_declare_len(d: ProgramDeclare, tbl: Seq<Seq<(Seq<char>, SymbolView)>>)
    ensures
        decl_declare(d, tbl).1.len() == tbl.len(),
    decreases d, 0int, 1int,
{
    lemma_decl_types_len(d.type_declare@, 0, tbl);
    let tbl1 = decl_types(d.type_declare@, 0, tbl).1;
    lemma_decl_vars_len(d.variable_declare@, 0, tbl1);
    let tbl2 = decl_vars(d.variable_declare@, 0, tbl1).1;
    lemma_decl_procs_len(d.procedure_declare@, 0, tbl2);
}

} // verus!
