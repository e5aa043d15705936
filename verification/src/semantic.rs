//! The executable semantic analysis: one depth-first pass over the syntax
//! tree that populates the symbol table and collects diagnostics, proved to
//! emit exactly what the rules in [`crate::rules`] describe.

use vstd::prelude::*;
use crate::ast::{
    AssignStatement, CallStatement, Expression, ExpressionFactor, ExpressionTerm,
    Positional, Program, ProgramDeclare, RelationExpression, SNLType, Statement, StatementList,
    TypedIdentifiers, VariableRepresent,
};
use crate::canonical::{
    canon_view, clone_canonical, fields_view_from, lemma_fields_view_len, CanonicalType,
    RecordField,
};
use crate::error::Error;
use crate::rules::{
    canon_of, check_args, check_assign, check_call, check_dot, check_expr, check_factor,
    check_input, check_relation, check_sqbr, check_stmt, check_stmts, check_term, check_varrep,
    decl_declare, decl_params, decl_procs, decl_types, decl_var_ids, decl_vars, dedup_fields,
    lemma_decl_declare_len, lemma_decl_params_len,
    diag, flat_fields, group_fields, names_contain, sig_of_params, symbol_payload, validate_groups,
    validate_type, analysis, arg_mismatches, record_id_dups,
};
use crate::symbol::{clone_symbol, lemma_sig_view_len, scope_find, scope_index_of, sig_view_from, table_find, Symbol, SymbolTable, SymbolView};
use crate::text::str_eq;

verus! {

/// The names of a sequence of strings, as character sequences.
pub open spec fn names_deep(s: Seq<String>) -> Seq<Seq<char>> {
    Seq::new(s.len(), |i: int| s[i]@)
}

/// Appending a field appends its view.
proof fn lemma_fields_view_push(s: Seq<RecordField>, x: RecordField)
    ensures
        fields_view_from(s.push(x), 0) == fields_view_from(s, 0) + seq![
            (x.name@, canon_view(x.field_type)),
        ],
{
    lemma_fields_view_len(s.push(x), 0);
    lemma_fields_view_len(s, 0);
    assert(fields_view_from(s.push(x), 0) =~= fields_view_from(s, 0) + seq![
        (x.name@, canon_view(x.field_type)),
    ]);
}

/// Whether a name list contains `n`, decided by scanning.
fn names_contains_exec(seen: &Vec<String>, n: &str) -> (r: bool)
    ensures
        r == names_contain(names_deep(seen@), n@),
{
    let ghost sv = names_deep(seen@);
    let mut i: usize = 0;
    while i < seen.len()
        invariant
            sv == names_deep(seen@),
            sv.len() == seen@.len(),
            i <= seen@.len(),
            forall|k: int| 0 <= k < i ==> #[trigger] sv[k] != n@,
        decreases seen@.len() - i,
    {
        proof {
            assert(sv[i as int] == seen@[i as int]@);
        }
        if str_eq(seen[i].as_str(), n) {
            proof {
                assert(sv[i as int] == n@);
                assert(names_contain(sv, n@));
            }
            return true;
        }
        i += 1;
    }
    proof {
        assert(!names_contain(sv, n@));
    }
    false
}

/// Find the first field of `fields` carrying `name`.
fn find_field<'a>(fields: &'a Vec<RecordField>, name: &str) -> (r: Option<&'a CanonicalType>)
    ensures
        match r {
            Some(t) => scope_find(fields_view_from(fields@, 0), name@) == Some(t.deep_view()),
            None => scope_find(fields_view_from(fields@, 0), name@) is None,
        },
{
    let ghost fv = fields_view_from(fields@, 0);
    proof {
        lemma_fields_view_len(fields@, 0);
    }
    let mut i: usize = 0;
    while i < fields.len()
        invariant
            fv == fields_view_from(fields@, 0),
            fv.len() == fields@.len(),
            forall|k: int| 0 <= k < fv.len() ==> #[trigger] fv[k] == (
                fields@[k].name@,
                canon_view(fields@[k].field_type),
            ),
            i <= fields@.len(),
            scope_index_of(fv, name@, 0) == scope_index_of(fv, name@, i as int),
        decreases fields@.len() - i,
    {
        proof {
            assert(fv[i as int] == (fields@[i as int].name@, canon_view(fields@[i as int].field_type)));
        }
        if str_eq(fields[i].name.as_str(), name) {
            proof {
                assert(fv[i as int].0 == name@);
                assert(scope_index_of(fv, name@, i as int) == i as int);
            }
            return Some(&fields[i].field_type);
        }
        proof {
            assert(fv[i as int].0 != name@);
            assert(scope_index_of(fv, name@, i as int) == scope_index_of(fv, name@, i + 1));
        }
        i += 1;
    }
    proof {
        assert(scope_index_of(fv, name@, i as int) == -1);
    }
    None
}

/// Compute the canonical form of a syntactic type under the current table:
/// aliases are resolved, arrays keep their bounds, records flatten to
/// deduplicated named fields.
pub fn canonicalize(t: &SNLType, symbols: &SymbolTable<Symbol>) -> (r: CanonicalType)
    ensures
        r.deep_view() == canon_of(*t, symbols.deep()),
    decreases *t, 0int, 0int,
{
    match t {
        SNLType::Integer => CanonicalType::Integer,
        SNLType::Char => CanonicalType::Char,
        SNLType::Array(a) => CanonicalType::Array {
            base: a.base,
            lower_bound: a.lower_bound,
            upper_bound: a.upper_bound,
        },
        SNLType::Others(name) => {
            match symbols.query(name.as_str()) {
                Some(sym) => match sym {
                    Symbol::Type(ct) => clone_canonical(ct),
                    _ => CanonicalType::Unknown,
                },
                None => CanonicalType::Unknown,
            }
        },
        SNLType::Record(groups) => {
            let ghost tblv = symbols.deep();
            let mut flat: Vec<RecordField> = Vec::new();
            let mut gi: usize = 0;
            while gi < groups.len()
                invariant
                    *t == SNLType::Record(*groups),
                    tblv == symbols.deep(),
                    gi <= groups@.len(),
                    flat_fields(groups@, 0, tblv) == fields_view_from(flat@, 0) + flat_fields(
                        groups@,
                        gi as int,
                        tblv,
                    ),
                decreases groups@.len() - gi,
            {
                proof {
                    assert(groups@[gi as int] == (*t)->Record_0@[gi as int]);
                    assert(decreases_to!(*t => t->Record_0));
                    assert(decreases_to!(t->Record_0 => t->Record_0@));
                    assert(decreases_to!(t->Record_0@ => t->Record_0@[gi as int]));
                    assert(decreases_to!(t->Record_0@[gi as int] =>
                        t->Record_0@[gi as int].typename));
                }
                let gt = canonicalize(&groups[gi].typename, symbols);
                let ids = &groups[gi].identifiers;
                let ghost gtv = canon_of(groups@[gi as int].typename, tblv);
                let mut k: usize = 0;
                while k < ids.len()
                    invariant
                        tblv == symbols.deep(),
                        gi < groups@.len(),
                        ids == &groups@[gi as int].identifiers,
                        k <= ids@.len(),
                        gt.deep_view() == gtv,
                        gtv == canon_of(groups@[gi as int].typename, tblv),
                        flat_fields(groups@, 0, tblv) == fields_view_from(flat@, 0) + group_fields(
                            ids@,
                            k as int,
                            gtv,
                        ) + flat_fields(groups@, gi + 1, tblv),
                    decreases ids@.len() - k,
                {
                    let field = RecordField {
                        name: ids[k].inner.clone(),
                        field_type: clone_canonical(&gt),
                    };
                    let ghost prevflat = flat@;
                    flat.push(field);
                    proof {
                        lemma_fields_view_push(prevflat, field);
                        assert(group_fields(ids@, k as int, gtv) == seq![
                            (ids@[k as int].inner@, gtv),
                        ] + group_fields(ids@, k + 1, gtv));
                        assert((field.name@, canon_view(field.field_type)) == (
                            ids@[k as int].inner@,
                            gtv,
                        ));
                        assert(fields_view_from(flat@, 0) + group_fields(ids@, k + 1, gtv)
                            + flat_fields(groups@, gi + 1, tblv) =~= fields_view_from(prevflat, 0)
                            + group_fields(ids@, k as int, gtv) + flat_fields(
                            groups@,
                            gi + 1,
                            tblv,
                        ));
                    }
                    k += 1;
                }
                proof {
                    assert(flat_fields(groups@, gi as int, tblv) == group_fields(
                        groups@[gi as int].identifiers@,
                        0,
                        canon_of(groups@[gi as int].typename, tblv),
                    ) + flat_fields(groups@, gi + 1, tblv));
                }
                gi += 1;
            }
            proof {
                assert(flat_fields(groups@, gi as int, tblv) =~= Seq::empty());
                assert(fields_view_from(flat@, 0) + Seq::empty() =~= fields_view_from(flat@, 0));
                assert(flat_fields(groups@, 0, tblv) == fields_view_from(flat@, 0));
            }
            let ghost fv = fields_view_from(flat@, 0);
            proof {
                lemma_fields_view_len(flat@, 0);
            }
            // deduplicate by field name, keeping first occurrences
            let mut out: Vec<RecordField> = Vec::new();
            let mut seen: Vec<String> = Vec::new();
            let mut i: usize = 0;
            proof {
                assert(names_deep(seen@) =~= Seq::<Seq<char>>::empty());
            }
            while i < flat.len()
                invariant
                    fv == fields_view_from(flat@, 0),
                    fv.len() == flat@.len(),
                    forall|j: int| 0 <= j < fv.len() ==> #[trigger] fv[j] == (
                        flat@[j].name@,
                        canon_view(flat@[j].field_type),
                    ),
                    i <= flat@.len(),
                    dedup_fields(fv, 0, Seq::empty()) == fields_view_from(out@, 0) + dedup_fields(
                        fv,
                        i as int,
                        names_deep(seen@),
                    ),
                decreases flat@.len() - i,
            {
                proof {
                    assert(fv[i as int] == (flat@[i as int].name@, canon_view(flat@[i as int].field_type)));
                }
                if names_contains_exec(&seen, flat[i].name.as_str()) {
                    proof {
                        assert(names_contain(names_deep(seen@), fv[i as int].0));
                        assert(dedup_fields(fv, i as int, names_deep(seen@)) == dedup_fields(
                            fv,
                            i + 1,
                            names_deep(seen@),
                        ));
                    }
                } else {
                    let field = RecordField {
                        name: flat[i].name.clone(),
                        field_type: clone_canonical(&flat[i].field_type),
                    };
                    let ghost prevout = out@;
                    let ghost prevseen = seen@;
                    out.push(field);
                    seen.push(flat[i].name.clone());
                    proof {
                        assert(!names_contain(names_deep(prevseen), fv[i as int].0));
                        assert(names_deep(seen@) =~= names_deep(prevseen).push(
                            flat@[i as int].name@,
                        ));
                        lemma_fields_view_push(prevout, field);
                        assert(dedup_fields(fv, i as int, names_deep(prevseen)) == seq![
                            fv[i as int],
                        ] + dedup_fields(fv, i + 1, names_deep(prevseen).push(fv[i as int].0)));
                        assert((field.name@, canon_view(field.field_type)) == fv[i as int]);
                        assert(fields_view_from(out@, 0) + dedup_fields(fv, i + 1, names_deep(seen@))
                            =~= fields_view_from(prevout, 0) + dedup_fields(
                            fv,
                            i as int,
                            names_deep(prevseen),
                        ));
                    }
                }
                i += 1;
            }
            proof {
                assert(dedup_fields(fv, i as int, names_deep(seen@)) =~= Seq::empty());
                assert(fields_view_from(out@, 0) + Seq::empty() =~= fields_view_from(out@, 0));
                assert(dedup_fields(fv, 0, Seq::empty()) == fields_view_from(out@, 0));
            }
            CanonicalType::Record(out)
        },
    }
}


/// The analysis context: the symbol table and the diagnostics collected so
/// far, threaded through one recursive pass.
pub struct Analyzer {
    pub symbols: SymbolTable<Symbol>,
    pub errors: Vec<Positional<Error>>,
}

impl Analyzer {
    /// The mathematical symbol table.
    pub open spec fn tblv(self) -> Seq<Seq<(Seq<char>, SymbolView)>> {
        self.symbols.deep()
    }

    /// The mathematical diagnostic list.
    pub open spec fn errv(self) -> Seq<Positional<crate::error::ErrorView>> {
        self.errors.deep_view()
    }

    /// Append one diagnostic.
    fn emit(&mut self, line: u32, column: u32, e: Error)
        ensures
            final(self).symbols == old(self).symbols,
            final(self).errv() == old(self).errv() + seq![diag(line, column, e.deep_view())],
    {
        let ghost before = self.errors.deep_view();
        let ghost ev = e.deep_view();
        self.errors.push(Positional::new(line, column, e));
        proof {
            assert(self.errors.deep_view() =~= before + seq![diag(line, column, ev)]);
        }
    }

    /// Infer an expression chain's type, collecting its diagnostics.
    pub fn analyze_expression(&mut self, e: &Expression) -> (t: CanonicalType)
        ensures
            final(self).symbols == old(self).symbols,
            final(self).errv() == old(self).errv() + check_expr(*e, old(self).tblv()).0,
            t.deep_view() == check_expr(*e, old(self).tblv()).1,
        decreases *e, 3int,
    {
        let ghost tbl = self.tblv();
        let ghost e0 = self.errv();
        proof {
            assert(decreases_to!(*e => e.left));
            assert(decreases_to!(e.left => e.left.inner));
        }
        let lt = self.analyze_expression_term(&e.left.inner);
        match &e.right {
            None => {
                proof {
                    assert(check_expr(*e, tbl) == (check_term(e.left.inner, tbl).0, check_term(e.left.inner, tbl).1));
                }
                lt
            },
            Some(rp) => {
                proof {
                    assert((*e).right == Some(*rp));
                    assert(decreases_to!(*e => e.right));
                    assert(decreases_to!(e.right => e.right->Some_0));
                    assert(decreases_to!(e.right->Some_0 => e.right->Some_0.inner));
                }
                let rt = self.analyze_expression(&*rp.inner);
                if !crate::canonical::type_equal(&lt, &rt) {
                    let exp = clone_canonical(&lt);
                    self.emit(
                        e.left.line,
                        e.left.column,
                        Error::UncompatableType { expected: exp, got: rt },
                    );
                    proof {
                        assert(self.errv() =~= e0 + check_expr(*e, tbl).0);
                    }
                    lt
                } else {
                    proof {
                        assert(self.errv() =~= e0 + check_expr(*e, tbl).0);
                    }
                    lt
                }
            },
        }
    }

    /// Infer a term chain's type, collecting its diagnostics.
    pub fn analyze_expression_term(&mut self, t: &ExpressionTerm) -> (r: CanonicalType)
        ensures
            final(self).symbols == old(self).symbols,
            final(self).errv() == old(self).errv() + check_term(*t, old(self).tblv()).0,
            r.deep_view() == check_term(*t, old(self).tblv()).1,
        decreases *t, 2int,
    {
        let ghost tbl = self.tblv();
        let ghost e0 = self.errv();
        proof {
            assert(decreases_to!(*t => t.left));
            assert(decreases_to!(t.left => t.left.inner));
        }
        let lt = self.analyze_expression_factor(&t.left.inner);
        match &t.right {
            None => lt,
            Some(rp) => {
                proof {
                    assert((*t).right == Some(*rp));
                    assert(decreases_to!(*t => t.right));
                    assert(decreases_to!(t.right => t.right->Some_0));
                    assert(decreases_to!(t.right->Some_0 => t.right->Some_0.inner));
                }
                let rt = self.analyze_expression_term(&*rp.inner);
                if !crate::canonical::type_equal(&lt, &rt) {
                    let exp = clone_canonical(&lt);
                    self.emit(
                        t.left.line,
                        t.left.column,
                        Error::UncompatableType { expected: exp, got: rt },
                    );
                    proof {
                        assert(self.errv() =~= e0 + check_term(*t, tbl).0);
                    }
                    lt
                } else {
                    proof {
                        assert(self.errv() =~= e0 + check_term(*t, tbl).0);
                    }
                    lt
                }
            },
        }
    }

    /// Infer a factor's type, collecting its diagnostics.
    pub fn analyze_expression_factor(&mut self, f: &ExpressionFactor) -> (r: CanonicalType)
        ensures
            final(self).symbols == old(self).symbols,
            final(self).errv() == old(self).errv() + check_factor(*f, old(self).tblv()).0,
            r.deep_view() == check_factor(*f, old(self).tblv()).1,
        decreases *f, 1int,
    {
        match f {
            ExpressionFactor::Constant(_) => CanonicalType::Integer,
            ExpressionFactor::Bracket(e) => {
                proof {
                    assert(*f == ExpressionFactor::Bracket(*e));
                    assert(decreases_to!(*f => f->Bracket_0));
                }
                self.analyze_expression(&*e)
            },
            ExpressionFactor::Variable(v) => {
                proof {
                    assert(*f == ExpressionFactor::Variable(*v));
                    assert(decreases_to!(*f => f->Variable_0));
                }
                self.analyze_variable_represent(v)
            },
        }
    }

    /// Resolve a variable use and the type its visit chain narrows to,
    /// collecting its diagnostics.
    pub fn analyze_variable_represent(&mut self, v: &VariableRepresent) -> (r: CanonicalType)
        ensures
            final(self).symbols == old(self).symbols,
            final(self).errv() == old(self).errv() + check_varrep(*v, old(self).tblv()).0,
            r.deep_view() == check_varrep(*v, old(self).tblv()).1,
        decreases *v, 0int,
    {
        let ghost tbl = self.tblv();
        let ghost e0 = self.errv();
        let symopt: Option<Symbol> = match self.symbols.query(v.base.inner.as_str()) {
            Some(s) => Some(clone_symbol(s)),
            None => None,
        };
        match symopt {
            None => {
                self.emit(
                    v.base.line,
                    v.base.column,
                    Error::UndefinedIdentifier(v.base.inner.clone()),
                );
                CanonicalType::Unknown
            },
            Some(sym) => {
                match sym {
                    Symbol::Variable(t0) => {
                        proof {
                            assert(table_find(tbl, v.base.inner@) == Some(
                                SymbolView::Variable(canon_view(t0)),
                            ));
                        }
                        match &v.visit {
                            None => t0,
                            Some(visit) => {
                                let ghost dotres = check_dot(visit.dot, canon_view(t0));
                                let mut cur = t0;
                                match &visit.dot {
                                    None => {
                                        proof {
                                            assert(dotres == (
                                                Seq::<Positional<crate::error::ErrorView>>::empty(),
                                                canon_view(cur),
                                            ));
                                        }
                                    },
                                    Some(field) => {
                                        let is_unknown = matches!(cur, CanonicalType::Unknown);
                                        if is_unknown {
                                        } else {
                                            let mut ftopt: Option<CanonicalType> = None;
                                            let mut is_record = false;
                                            match &cur {
                                                CanonicalType::Record(fields) => {
                                                    is_record = true;
                                                    match find_field(fields, field.inner.as_str()) {
                                                        Some(ft) => {
                                                            ftopt = Some(clone_canonical(ft));
                                                        },
                                                        None => {},
                                                    }
                                                },
                                                _ => {},
                                            }
                                            if !is_record {
                                                self.emit(
                                                    field.line,
                                                    field.column,
                                                    Error::InvalidFieldIndexType(cur),
                                                );
                                                cur = CanonicalType::Unknown;
                                            } else {
                                                match ftopt {
                                                    Some(ft) => {
                                                        cur = ft;
                                                    },
                                                    None => {
                                                        self.emit(
                                                            field.line,
                                                            field.column,
                                                            Error::UndefinedRecordField(
                                                                field.inner.clone(),
                                                            ),
                                                        );
                                                        cur = CanonicalType::Unknown;
                                                    },
                                                }
                                            }
                                        }
                                    },
                                }
                                proof {
                                    assert(self.errv() == e0 + dotres.0);
                                    assert(canon_view(cur) == dotres.1);
                                }
                                // index visit
                                match &visit.sqbr {
                                    None => {
                                        proof {
                                            assert(check_sqbr(visit.sqbr, dotres.0, dotres.1, tbl)
                                                == (dotres.0, dotres.1));
                                        }
                                        cur
                                    },
                                    Some(ie) => {
                                        let still_unknown = matches!(cur, CanonicalType::Unknown);
                                        if still_unknown {
                                            cur
                                        } else {
                                            let is_array = matches!(
                                                cur,
                                                CanonicalType::Array { .. },
                                            );
                                            if !is_array {
                                                self.emit(
                                                    ie.left.line,
                                                    ie.left.column,
                                                    Error::UnexpectedArrayIndex,
                                                );
                                                proof {
                                                    assert(self.errv() =~= e0 + check_varrep(
                                                        *v,
                                                        tbl,
                                                    ).0);
                                                }
                                                CanonicalType::Unknown
                                            } else {
                                                proof {
                                                    assert((*v).visit == Some(*visit));
                                                    assert((*visit).sqbr == Some(*ie));
                                                    assert(decreases_to!(*v => v.visit));
                                                    assert(decreases_to!(v.visit => v.visit->Some_0));
                                                    assert(decreases_to!(v.visit->Some_0 =>
                                                        v.visit->Some_0.sqbr));
                                                    assert(decreases_to!(v.visit->Some_0.sqbr =>
                                                        v.visit->Some_0.sqbr->Some_0));
                                                }
                                                let it = self.analyze_expression(&*ie);
                                                let it_ok = matches!(it, CanonicalType::Integer)
                                                    || matches!(it, CanonicalType::Unknown);
                                                if it_ok {
                                                    let narrowed = match &cur {
                                                        CanonicalType::Array { base, .. } => (
                                                        match base {
                                                            crate::ast::SNLBaseType::Integer => (
                                                            CanonicalType::Integer),
                                                            crate::ast::SNLBaseType::Char => (
                                                            CanonicalType::Char),
                                                        }),
                                                        _ => CanonicalType::Unknown,
                                                    };
                                                    proof {
                                                        assert(self.errv() =~= e0 + check_varrep(
                                                            *v,
                                                            tbl,
                                                        ).0);
                                                    }
                                                    narrowed
                                                } else {
                                                    let got = clone_canonical(&it);
                                                    self.emit(
                                                        ie.left.line,
                                                        ie.left.column,
                                                        Error::UncompatableType {
                                                            expected: CanonicalType::Integer,
                                                            got,
                                                        },
                                                    );
                                                    proof {
                                                        assert(self.errv() =~= e0 + check_varrep(
                                                            *v,
                                                            tbl,
                                                        ).0);
                                                    }
                                                    CanonicalType::Unknown
                                                }
                                            }
                                        }
                                    },
                                }
                            },
                        }
                    },
                    other => {
                        proof {
                            assert(table_find(tbl, v.base.inner@) == Some(other.deep_view()));
                            assert(!(other.deep_view() is Variable));
                        }
                        self.emit(
                            v.base.line,
                            v.base.column,
                            Error::InvalidVariableRepresent(other),
                        );
                        CanonicalType::Unknown
                    },
                }
            },
        }
    }
}


/// Appending a canonical type appends its view to the signature view.
proof fn lemma_sig_view_push(s: Seq<CanonicalType>, x: CanonicalType)
    ensures
        sig_view_from(s.push(x), 0) == sig_view_from(s, 0) + seq![canon_view(x)],
{
    lemma_sig_view_len(s.push(x), 0);
    lemma_sig_view_len(s, 0);
    assert(sig_view_from(s.push(x), 0) =~= sig_view_from(s, 0) + seq![canon_view(x)]);
}

/// Whether a canonical type is integer, char, or unknown.
fn is_scalar_exec(t: &CanonicalType) -> (r: bool)
    ensures
        r == crate::rules::is_scalar(t.deep_view()),
{
    match t {
        CanonicalType::Integer => true,
        CanonicalType::Char => true,
        CanonicalType::Unknown => true,
        _ => false,
    }
}

/// The canonical type a symbol contributes to a diagnostic payload.
fn payload_of(s: Symbol) -> (r: CanonicalType)
    ensures
        r.deep_view() == symbol_payload(s.deep_view()),
{
    match s {
        Symbol::Variable(t) => t,
        Symbol::Type(t) => t,
        Symbol::Procedure(_) => CanonicalType::Unknown,
    }
}

impl Analyzer {
    /// Validate one type expression at a position: array bounds, record
    /// field duplicates and field types, and resolvable type names.
    pub fn analyze_type(&mut self, t: &SNLType, line: u32, column: u32)
        ensures
            final(self).symbols == old(self).symbols,
            final(self).errv() == old(self).errv() + validate_type(
                *t,
                line,
                column,
                old(self).tblv(),
            ),
        decreases *t, 0int, 0int,
    {
        let ghost tbl = self.tblv();
        let ghost e0 = self.errv();
        match t {
            SNLType::Integer => {},
            SNLType::Char => {},
            SNLType::Array(a) => {
                if a.lower_bound > a.upper_bound {
                    self.emit(line, column, Error::InvalidArrayDefinition);
                }
            },
            SNLType::Others(name) => {
                let resolved: bool = match self.symbols.query(name.as_str()) {
                    Some(sym) => match sym {
                        Symbol::Type(_) => true,
                        _ => false,
                    },
                    None => false,
                };
                if !resolved {
                    self.emit(line, column, Error::UndefinedType(name.clone()));
                }
            },
            SNLType::Record(groups) => {
                let ghost gspec = validate_groups(groups@, 0, line, column, tbl, Seq::empty());
                let mut seen: Vec<String> = Vec::new();
                let mut gi: usize = 0;
                proof {
                    assert(names_deep(seen@) =~= Seq::<Seq<char>>::empty());
                }
                while gi < groups.len()
                    invariant
                        *t == SNLType::Record(*groups),
                        tbl == self.tblv(),
                        self.symbols == old(self).symbols,
                        gi <= groups@.len(),
                        e0 + validate_groups(groups@, 0, line, column, tbl, Seq::empty()).0
                            == self.errv() + validate_groups(
                            groups@,
                            gi as int,
                            line,
                            column,
                            tbl,
                            names_deep(seen@),
                        ).0,
                        validate_groups(groups@, 0, line, column, tbl, Seq::empty()).1
                            == validate_groups(
                            groups@,
                            gi as int,
                            line,
                            column,
                            tbl,
                            names_deep(seen@),
                        ).1,
                    decreases groups@.len() - gi,
                {
                    proof {
                        assert(groups@[gi as int] == (*t)->Record_0@[gi as int]);
                        assert(decreases_to!(*t => t->Record_0));
                        assert(decreases_to!(t->Record_0 => t->Record_0@));
                        assert(decreases_to!(t->Record_0@ => t->Record_0@[gi as int]));
                        assert(decreases_to!(t->Record_0@[gi as int] =>
                            t->Record_0@[gi as int].typename));
                    }
                    self.analyze_type(&groups[gi].typename, line, column);
                    let ids = &groups[gi].identifiers;
                    let ghost seen0 = names_deep(seen@);
                    let ghost eg = self.errv();
                    let mut k: usize = 0;
                    while k < ids.len()
                        invariant
                            tbl == self.tblv(),
                            self.symbols == old(self).symbols,
                            gi < groups@.len(),
                            ids == &groups@[gi as int].identifiers,
                            k <= ids@.len(),
                            eg + record_id_dups(ids@, 0, seen0).0 == self.errv()
                                + record_id_dups(ids@, k as int, names_deep(seen@)).0,
                            record_id_dups(ids@, 0, seen0).1 == record_id_dups(
                                ids@,
                                k as int,
                                names_deep(seen@),
                            ).1,
                        decreases ids@.len() - k,
                    {
                        if names_contains_exec(&seen, ids[k].inner.as_str()) {
                            self.emit(
                                ids[k].line,
                                ids[k].column,
                                Error::DuplicatedIdentifier(ids[k].inner.clone()),
                            );
                            proof {
                                assert(names_contain(names_deep(seen@), ids@[k as int].inner@));
                            }
                        } else {
                            let ghost prevseen = seen@;
                            seen.push(ids[k].inner.clone());
                            proof {
                                assert(!names_contain(names_deep(prevseen), ids@[k as int].inner@));
                                assert(names_deep(seen@) =~= names_deep(prevseen).push(
                                    ids@[k as int].inner@,
                                ));
                            }
                        }
                        k += 1;
                    }
                    gi += 1;
                }
                proof {
                    assert(validate_groups(
                        groups@,
                        gi as int,
                        line,
                        column,
                        tbl,
                        names_deep(seen@),
                    ).0 =~= Seq::<Positional<crate::error::ErrorView>>::empty());
                    assert(self.errv() + Seq::<Positional<crate::error::ErrorView>>::empty()
                        =~= self.errv());
                    assert(validate_type(*t, line, column, tbl) == gspec.0);
                }
            },
        }
    }

    /// Check a relation expression: each operand must be integer or char.
    pub fn analyze_relation(&mut self, r: &RelationExpression)
        ensures
            final(self).symbols == old(self).symbols,
            final(self).errv() == old(self).errv() + check_relation(*r, old(self).tblv()),
    {
        let ghost tbl = self.tblv();
        let ghost e0 = self.errv();
        let lt = self.analyze_expression(&r.left);
        if !is_scalar_exec(&lt) {
            self.emit(r.left.left.line, r.left.left.column, Error::InvalidBoolExpression);
        }
        let rt = self.analyze_expression(&r.right);
        if !is_scalar_exec(&rt) {
            self.emit(r.right.left.line, r.right.left.column, Error::InvalidBoolExpression);
        }
        proof {
            assert(self.errv() =~= e0 + check_relation(*r, tbl));
        }
    }

    /// Check the statements of one list in order; the table is read, never
    /// changed.
    pub fn analyze_statement_list(&mut self, l: &StatementList)
        ensures
            final(self).symbols == old(self).symbols,
            final(self).errv() == old(self).errv() + check_stmts(l@, 0, old(self).tblv()),
        decreases l@, 1int,
    {
        let ghost tbl = self.tblv();
        let ghost e0 = self.errv();
        let mut i: usize = 0;
        while i < l.len()
            invariant
                tbl == self.tblv(),
                self.symbols == old(self).symbols,
                i <= l@.len(),
                e0 + check_stmts(l@, 0, tbl) == self.errv() + check_stmts(l@, i as int, tbl),
            decreases l@.len() - i,
        {
            let ghost es = self.errv();
            let s = &l[i];
            proof {
                assert(check_stmts(l@, i as int, tbl) == check_stmt(l@[i as int], tbl)
                    + check_stmts(l@, i + 1, tbl));
                assert(decreases_to!(l@ => l@[i as int]));
            }
            match s {
                Statement::Conditional(c) => {
                    proof {
                        assert(l@[i as int] == Statement::Conditional(*c));
                        assert(decreases_to!(l@[i as int] => l@[i as int]->Conditional_0));
                        assert(decreases_to!(l@[i as int]->Conditional_0 =>
                            l@[i as int]->Conditional_0.body));
                        assert(decreases_to!(l@[i as int]->Conditional_0.body =>
                            l@[i as int]->Conditional_0.body@));
                        assert(decreases_to!(l@[i as int]->Conditional_0 =>
                            l@[i as int]->Conditional_0.else_body));
                        assert(decreases_to!(l@[i as int]->Conditional_0.else_body =>
                            l@[i as int]->Conditional_0.else_body@));
                    }
                    self.analyze_relation(&c.condition);
                    self.analyze_statement_list(&c.body);
                    self.analyze_statement_list(&c.else_body);
                    proof {
                        assert(self.errv() =~= es + check_stmt(l@[i as int], tbl));
                    }
                },
                Statement::Loop(lp) => {
                    proof {
                        assert(l@[i as int] == Statement::Loop(*lp));
                        assert(decreases_to!(l@[i as int] => l@[i as int]->Loop_0));
                        assert(decreases_to!(l@[i as int]->Loop_0 =>
                            l@[i as int]->Loop_0.body));
                        assert(decreases_to!(l@[i as int]->Loop_0.body =>
                            l@[i as int]->Loop_0.body@));
                    }
                    self.analyze_relation(&lp.condition);
                    self.analyze_statement_list(&lp.body);
                    proof {
                        assert(self.errv() =~= es + check_stmt(l@[i as int], tbl));
                    }
                },
                Statement::Input(name) => {
                    let symopt: Option<Symbol> = match self.symbols.query(name.inner.as_str()) {
                        Some(s2) => Some(clone_symbol(s2)),
                        None => None,
                    };
                    match symopt {
                        None => {
                            self.emit(
                                name.line,
                                name.column,
                                Error::UndefinedIdentifier(name.inner.clone()),
                            );
                        },
                        Some(sym) => match sym {
                            Symbol::Variable(t0) => {
                                let ok = match &t0 {
                                    CanonicalType::Integer => true,
                                    CanonicalType::Char => true,
                                    _ => false,
                                };
                                if !ok {
                                    self.emit(name.line, name.column, Error::InvalidReadType(t0));
                                }
                            },
                            other => {
                                proof {
                                    assert(!(other.deep_view() is Variable));
                                }
                                let pay = payload_of(other);
                                self.emit(name.line, name.column, Error::InvalidReadType(pay));
                            },
                        },
                    }
                    proof {
                        assert(self.errv() =~= es + check_stmt(l@[i as int], tbl));
                    }
                },
                Statement::Output(e) => {
                    let ty = self.analyze_expression(e);
                    if !is_scalar_exec(&ty) {
                        self.emit(e.left.line, e.left.column, Error::InvalidWriteType(ty));
                    }
                    proof {
                        assert(self.errv() =~= es + check_stmt(l@[i as int], tbl));
                    }
                },
                Statement::Return(e) => {
                    let _ = self.analyze_expression(e);
                    proof {
                        assert(self.errv() =~= es + check_stmt(l@[i as int], tbl));
                    }
                },
                Statement::Assign(a) => {
                    let lt = self.analyze_variable_represent(&a.variable);
                    let rt = self.analyze_expression(&a.value);
                    let l_unknown = matches!(lt, CanonicalType::Unknown);
                    if l_unknown {
                        self.emit(
                            a.variable.base.line,
                            a.variable.base.column,
                            Error::InvalidAssignee,
                        );
                    } else if !crate::canonical::type_equal(&lt, &rt) {
                        self.emit(
                            a.value.left.line,
                            a.value.left.column,
                            Error::AssignTypeMismatch { expected: lt, got: rt },
                        );
                    }
                    proof {
                        assert(self.errv() =~= es + check_stmt(l@[i as int], tbl));
                    }
                },
                Statement::Call(c) => {
                    self.analyze_call(c);
                    proof {
                        assert(self.errv() =~= es + check_stmt(l@[i as int], tbl));
                    }
                },
            }
            proof {
                assert(e0 + check_stmts(l@, 0, tbl) =~= self.errv() + check_stmts(
                    l@,
                    i + 1,
                    tbl,
                ));
            }
            i += 1;
        }
        proof {
            assert(check_stmts(l@, i as int, tbl) =~= Seq::<
                Positional<crate::error::ErrorView>,
            >::empty());
            assert(self.errv() + Seq::<Positional<crate::error::ErrorView>>::empty()
                =~= self.errv());
        }
    }

    /// Check one procedure call: resolution, arity, and argument types.
    pub fn analyze_call(&mut self, c: &Positional<CallStatement>)
        ensures
            final(self).symbols == old(self).symbols,
            final(self).errv() == old(self).errv() + check_call(*c, old(self).tblv()),
    {
        let ghost tbl = self.tblv();
        let ghost e0 = self.errv();
        let symopt: Option<Symbol> = match self.symbols.query(c.inner.name.as_str()) {
            Some(s) => Some(clone_symbol(s)),
            None => None,
        };
        match symopt {
            None => {
                self.emit(c.line, c.column, Error::UndefinedIdentifier(c.inner.name.clone()));
            },
            Some(sym) => match sym {
                Symbol::Procedure(sig) => {
                    proof {
                        assert(table_find(tbl, c.inner.name@) == Some(
                            SymbolView::Procedure(sig_view_from(sig@, 0)),
                        ));
                    }
                    let args = &c.inner.params;
                    let mut ats: Vec<CanonicalType> = Vec::new();
                    let mut k: usize = 0;
                    proof {
                        assert(sig_view_from(ats@, 0) =~= Seq::<
                            crate::canonical::CanonicalTypeView,
                        >::empty());
                    }
                    while k < args.len()
                        invariant
                            tbl == self.tblv(),
                            self.symbols == old(self).symbols,
                            args == &c.inner.params,
                            k <= args@.len(),
                            ats@.len() == k,
                            e0 + check_args(args@, 0, tbl).0 == self.errv() + check_args(
                                args@,
                                k as int,
                                tbl,
                            ).0,
                            check_args(args@, 0, tbl).1 =~= sig_view_from(ats@, 0) + check_args(
                                args@,
                                k as int,
                                tbl,
                            ).1,
                        decreases args@.len() - k,
                    {
                        let t = self.analyze_expression(&args[k]);
                        let ghost prevats = ats@;
                        ats.push(t);
                        proof {
                            lemma_sig_view_push(prevats, t);
                            assert(sig_view_from(ats@, 0) + check_args(args@, k + 1, tbl).1
                                =~= sig_view_from(prevats, 0) + check_args(args@, k as int, tbl).1);
                        }
                        k += 1;
                    }
                    proof {
                        assert(check_args(args@, k as int, tbl).0 =~= Seq::<
                            Positional<crate::error::ErrorView>,
                        >::empty());
                        assert(check_args(args@, k as int, tbl).1 =~= Seq::<
                            crate::canonical::CanonicalTypeView,
                        >::empty());
                        assert(self.errv() =~= e0 + check_args(args@, 0, tbl).0);
                        assert(sig_view_from(ats@, 0) =~= check_args(args@, 0, tbl).1);
                        lemma_sig_view_len(ats@, 0);
                        lemma_sig_view_len(sig@, 0);
                    }
                    if sig.len() != args.len() {
                        self.emit(
                            c.line,
                            c.column,
                            Error::CallParameterCountMismatch {
                                expected: sig.len(),
                                got: args.len(),
                            },
                        );
                        proof {
                            assert(self.errv() =~= e0 + check_call(*c, tbl));
                        }
                    } else {
                        let ghost mspec = arg_mismatches(
                            args@,
                            sig_view_from(ats@, 0),
                            sig_view_from(sig@, 0),
                            0,
                        );
                        let ghost em = self.errv();
                        let mut m: usize = 0;
                        while m < args.len()
                            invariant
                                tbl == self.tblv(),
                                self.symbols == old(self).symbols,
                                args == &c.inner.params,
                                m <= args@.len(),
                                ats@.len() == args@.len(),
                                sig@.len() == args@.len(),
                                sig_view_from(ats@, 0).len() == ats@.len(),
                                sig_view_from(sig@, 0).len() == sig@.len(),
                                forall|j: int|
                                    0 <= j < ats@.len() ==> #[trigger] sig_view_from(ats@, 0)[j]
                                        == canon_view(ats@[j]),
                                forall|j: int|
                                    0 <= j < sig@.len() ==> #[trigger] sig_view_from(sig@, 0)[j]
                                        == canon_view(sig@[j]),
                                em + arg_mismatches(
                                    args@,
                                    sig_view_from(ats@, 0),
                                    sig_view_from(sig@, 0),
                                    0,
                                ) == self.errv() + arg_mismatches(
                                    args@,
                                    sig_view_from(ats@, 0),
                                    sig_view_from(sig@, 0),
                                    m as int,
                                ),
                            decreases args@.len() - m,
                        {
                            if !crate::canonical::type_equal(&sig[m], &ats[m]) {
                                let exp = clone_canonical(&sig[m]);
                                let got = clone_canonical(&ats[m]);
                                self.emit(
                                    args[m].left.line,
                                    args[m].left.column,
                                    Error::CallParameterTypeMismatch { expected: exp, got },
                                );
                            }
                            m += 1;
                        }
                        proof {
                            assert(arg_mismatches(
                                args@,
                                sig_view_from(ats@, 0),
                                sig_view_from(sig@, 0),
                                m as int,
                            ) =~= Seq::<Positional<crate::error::ErrorView>>::empty());
                            assert(self.errv() =~= em + mspec);
                            assert(self.errv() =~= e0 + check_call(*c, tbl));
                        }
                    }
                },
                other => {
                    proof {
                        assert(table_find(tbl, c.inner.name@) == Some(other.deep_view()));
                        assert(!(other.deep_view() is Procedure));
                    }
                    let pay = payload_of(other);
                    self.emit(
                        c.line,
                        c.column,
                        Error::UncompatableType { expected: CanonicalType::Unknown, got: pay },
                    );
                },
            },
        }
    }
}


/// The canonical parameter signature of a procedure under the current
/// table: one entry per identifier, in declaration order.
fn signature_of(params: &crate::ast::PositionalVec<crate::ast::Param>, symbols: &SymbolTable<Symbol>) -> (r: Vec<CanonicalType>)
    ensures
        sig_view_from(r@, 0) == sig_of_params(params@, 0, symbols.deep()),
{
    let ghost tbl = symbols.deep();
    let mut out: Vec<CanonicalType> = Vec::new();
    let mut pi: usize = 0;
    proof {
        assert(sig_view_from(out@, 0) =~= Seq::<crate::canonical::CanonicalTypeView>::empty());
        assert(Seq::<crate::canonical::CanonicalTypeView>::empty() + sig_of_params(
            params@,
            0,
            tbl,
        ) =~= sig_of_params(params@, 0, tbl));
    }
    while pi < params.len()
        invariant
            tbl == symbols.deep(),
            pi <= params@.len(),
            sig_of_params(params@, 0, tbl) == sig_view_from(out@, 0) + sig_of_params(
                params@,
                pi as int,
                tbl,
            ),
        decreases params@.len() - pi,
    {
        let ct = canonicalize(&params[pi].inner.definition.typename, symbols);
        let ghost ctv = canon_of(params@[pi as int].inner.definition.typename, tbl);
        let ids_n = params[pi].inner.definition.identifiers.len();
        let ghost n = params@[pi as int].inner.definition.identifiers@.len();
        proof {
            assert(sig_of_params(params@, pi as int, tbl) == Seq::new(n, |k: int| ctv)
                + sig_of_params(params@, pi + 1, tbl));
        }
        let mut j: usize = 0;
        while j < ids_n
            invariant
                tbl == symbols.deep(),
                pi < params@.len(),
                ctv == canon_of(params@[pi as int].inner.definition.typename, tbl),
                ct.deep_view() == ctv,
                j <= n,
                ids_n == n,
                sig_of_params(params@, 0, tbl) == sig_view_from(out@, 0) + Seq::new(
                    (n - j) as nat,
                    |k: int| ctv,
                ) + sig_of_params(params@, pi + 1, tbl),
            decreases n - j,
        {
            let ghost prevout = out@;
            let c2 = clone_canonical(&ct);
            out.push(c2);
            proof {
                lemma_sig_view_push(prevout, c2);
                assert(Seq::new((n - j) as nat, |k: int| ctv) =~= seq![ctv] + Seq::new(
                    (n - j - 1) as nat,
                    |k: int| ctv,
                ));
                assert(sig_view_from(out@, 0) + Seq::new((n - j - 1) as nat, |k: int| ctv)
                    + sig_of_params(params@, pi + 1, tbl) =~= sig_view_from(prevout, 0) + Seq::new(
                    (n - j) as nat,
                    |k: int| ctv,
                ) + sig_of_params(params@, pi + 1, tbl));
            }
            j += 1;
        }
        proof {
            assert(Seq::new((n - j) as nat, |k: int| ctv) =~= Seq::<
                crate::canonical::CanonicalTypeView,
            >::empty());
            assert(sig_view_from(out@, 0) + Seq::<crate::canonical::CanonicalTypeView>::empty()
                + sig_of_params(params@, pi + 1, tbl) =~= sig_view_from(out@, 0) + sig_of_params(
                params@,
                pi + 1,
                tbl,
            ));
        }
        pi += 1;
    }
    proof {
        assert(sig_of_params(params@, pi as int, tbl) =~= Seq::<
            crate::canonical::CanonicalTypeView,
        >::empty());
        assert(sig_view_from(out@, 0) + Seq::<crate::canonical::CanonicalTypeView>::empty()
            =~= sig_view_from(out@, 0));
    }
    out
}

impl Analyzer {
    /// Declare one group of identifiers as variables of one type: a locally
    /// duplicated name is flagged and not rebound; each binding uses the
    /// type's canonical form under the table as it then stands.
    fn declare_group_ids(&mut self, ids: &crate::ast::PositionalVec<String>, tname: &SNLType)
        requires
            old(self).tblv().len() >= 1,
        ensures
            final(self).tblv() == decl_var_ids(ids@, 0, *tname, old(self).tblv()).1,
            final(self).errv() == old(self).errv() + decl_var_ids(ids@, 0, *tname, old(self).tblv()).0,
            final(self).tblv().len() == old(self).tblv().len(),
    {
        let ghost tbl0 = self.tblv();
        let ghost e0 = self.errv();
        let mut k: usize = 0;
        while k < ids.len()
            invariant
                self.tblv().len() == tbl0.len(),
                tbl0.len() >= 1,
                k <= ids@.len(),
                e0 + decl_var_ids(ids@, 0, *tname, tbl0).0 == self.errv() + decl_var_ids(
                    ids@,
                    k as int,
                    *tname,
                    self.tblv(),
                ).0,
                decl_var_ids(ids@, 0, *tname, tbl0).1 == decl_var_ids(
                    ids@,
                    k as int,
                    *tname,
                    self.tblv(),
                ).1,
            decreases ids@.len() - k,
        {
            if self.symbols.has_own_property(ids[k].inner.as_str()) {
                self.emit(
                    ids[k].line,
                    ids[k].column,
                    Error::DuplicatedIdentifier(ids[k].inner.clone()),
                );
            } else {
                let ct = canonicalize(tname, &self.symbols);
                self.symbols.insert(ids[k].inner.clone(), Symbol::Variable(ct));
            }
            k += 1;
        }
        proof {
            assert(decl_var_ids(ids@, k as int, *tname, self.tblv()).0 =~= Seq::<
                Positional<crate::error::ErrorView>,
            >::empty());
            assert(self.errv() + Seq::<Positional<crate::error::ErrorView>>::empty()
                =~= self.errv());
        }
    }

    /// Populate the table from one declaration part, validating as spec'd:
    /// types, then variables, then procedures, each procedure checked in a
    /// nested scope that is discarded afterwards.
    pub fn analyze_declare(&mut self, d: &ProgramDeclare)
        requires
            old(self).tblv().len() >= 1,
        ensures
            final(self).tblv() == decl_declare(*d, old(self).tblv()).1,
            final(self).errv() == old(self).errv() + decl_declare(*d, old(self).tblv()).0,
            final(self).tblv().len() == old(self).tblv().len(),
        decreases *d,
    {
        let ghost tbl0 = self.tblv();
        let ghost e0 = self.errv();
        // type aliases
        let tds = &d.type_declare;
        let mut i: usize = 0;
        while i < tds.len()
            invariant
                tds == &d.type_declare,
                self.tblv().len() == tbl0.len(),
                tbl0.len() >= 1,
                i <= tds@.len(),
                e0 + decl_types(tds@, 0, tbl0).0 == self.errv() + decl_types(
                    tds@,
                    i as int,
                    self.tblv(),
                ).0,
                decl_types(tds@, 0, tbl0).1 == decl_types(tds@, i as int, self.tblv()).1,
            decreases tds@.len() - i,
        {
            let td = &tds[i];
            if self.symbols.has_own_property(td.inner.name.as_str()) {
                self.emit(
                    td.line,
                    td.column,
                    Error::DuplicatedIdentifier(td.inner.name.clone()),
                );
            } else {
                self.analyze_type(&td.inner.base.inner, td.inner.base.line, td.inner.base.column);
                let ct = canonicalize(&td.inner.base.inner, &self.symbols);
                self.symbols.insert(td.inner.name.clone(), Symbol::Type(ct));
            }
            i += 1;
        }
        proof {
            assert(decl_types(tds@, i as int, self.tblv()).0 =~= Seq::<
                Positional<crate::error::ErrorView>,
            >::empty());
            assert(self.errv() + Seq::<Positional<crate::error::ErrorView>>::empty()
                =~= self.errv());
        }
        let ghost tbl1 = self.tblv();
        let ghost e1 = self.errv();
        // variables
        let vds = &d.variable_declare;
        let mut v: usize = 0;
        while v < vds.len()
            invariant
                vds == &d.variable_declare,
                self.tblv().len() == tbl1.len(),
                tbl1.len() == tbl0.len(),
                tbl0.len() >= 1,
                v <= vds@.len(),
                e1 + decl_vars(vds@, 0, tbl1).0 == self.errv() + decl_vars(
                    vds@,
                    v as int,
                    self.tblv(),
                ).0,
                decl_vars(vds@, 0, tbl1).1 == decl_vars(vds@, v as int, self.tblv()).1,
            decreases vds@.len() - v,
        {
            let vd = &vds[v];
            self.analyze_type(&vd.inner.typename, vd.line, vd.column);
            self.declare_group_ids(&vd.inner.identifiers, &vd.inner.typename);
            v += 1;
        }
        proof {
            assert(decl_vars(vds@, v as int, self.tblv()).0 =~= Seq::<
                Positional<crate::error::ErrorView>,
            >::empty());
            assert(self.errv() + Seq::<Positional<crate::error::ErrorView>>::empty()
                =~= self.errv());
        }
        let ghost tbl2 = self.tblv();
        let ghost e2 = self.errv();
        // procedures
        let procs = &d.procedure_declare;
        let mut pi: usize = 0;
        while pi < procs.len()
            invariant
                procs == &d.procedure_declare,
                *d == (ProgramDeclare {
                    type_declare: *tds,
                    variable_declare: *vds,
                    procedure_declare: *procs,
                }),
                tds == &d.type_declare,
                vds == &d.variable_declare,
                self.tblv().len() == tbl2.len(),
                tbl2.len() == tbl0.len(),
                tbl0.len() >= 1,
                pi <= procs@.len(),
                e2 + decl_procs(procs@, 0, tbl2).0 == self.errv() + decl_procs(
                    procs@,
                    pi as int,
                    self.tblv(),
                ).0,
                decl_procs(procs@, 0, tbl2).1 == decl_procs(procs@, pi as int, self.tblv()).1,
            decreases procs@.len() - pi,
        {
            let ghost tblp = self.tblv();
            let ghost ep = self.errv();
            let p = &procs[pi];
            proof {
                assert(procs@[pi as int] == (*d).procedure_declare@[pi as int]);
                assert(decreases_to!(*d => d.procedure_declare));
                assert(decreases_to!(d.procedure_declare => d.procedure_declare@));
                assert(decreases_to!(d.procedure_declare@ => d.procedure_declare@[pi as int]));
                assert(decreases_to!(d.procedure_declare@[pi as int] =>
                    d.procedure_declare@[pi as int].inner));
                assert(decreases_to!(d.procedure_declare@[pi as int].inner =>
                    d.procedure_declare@[pi as int].inner.declare));
            }
            let sigv = signature_of(&p.inner.params, &self.symbols);
            let sym1 = Symbol::Procedure(sigv);
            let sym2 = clone_symbol(&sym1);
            proof {
                assert(sym1.deep_view() == SymbolView::Procedure(
                    sig_of_params(p.inner.params@, 0, tblp),
                ));
            }
            if self.symbols.has_own_property(p.inner.name.as_str()) {
                self.emit(
                    p.line,
                    p.column,
                    Error::DuplicatedIdentifier(p.inner.name.clone()),
                );
            } else {
                self.symbols.insert(p.inner.name.clone(), sym1);
            }
            self.symbols.step_in();
            self.symbols.insert(p.inner.name.clone(), sym2);
            let ghost tbl3 = self.tblv();
            // parameters become variables of the nested scope
            let pars = &p.inner.params;
            let ghost e3 = self.errv();
            let mut pg: usize = 0;
            while pg < pars.len()
                invariant
                    pars == &procs@[pi as int].inner.params,
                    self.tblv().len() == tbl3.len(),
                    tbl3.len() >= 1,
                    pg <= pars@.len(),
                    e3 + decl_params(pars@, 0, tbl3).0 == self.errv() + decl_params(
                        pars@,
                        pg as int,
                        self.tblv(),
                    ).0,
                    decl_params(pars@, 0, tbl3).1 == decl_params(pars@, pg as int, self.tblv()).1,
                decreases pars@.len() - pg,
            {
                let pp = &pars[pg];
                self.analyze_type(&pp.inner.definition.typename, pp.line, pp.column);
                self.declare_group_ids(&pp.inner.definition.identifiers, &pp.inner.definition.typename);
                pg += 1;
            }
            proof {
                assert(decl_params(pars@, pg as int, self.tblv()).0 =~= Seq::<
                    Positional<crate::error::ErrorView>,
                >::empty());
                assert(self.errv() + Seq::<Positional<crate::error::ErrorView>>::empty()
                    =~= self.errv());
                lemma_decl_params_len(pars@, 0, tbl3);
            }
            // the procedure's own declarations and body
            self.analyze_declare(&*p.inner.declare);
            proof {
                lemma_decl_declare_len(*p.inner.declare, decl_params(pars@, 0, tbl3).1);
            }
            self.analyze_statement_list(&p.inner.body);
            let _scope = self.symbols.step_out();
            proof {
                assert(e2 + decl_procs(procs@, 0, tbl2).0 =~= self.errv() + decl_procs(
                    procs@,
                    pi + 1,
                    self.tblv(),
                ).0);
            }
            pi += 1;
        }
        proof {
            assert(decl_procs(procs@, pi as int, self.tblv()).0 =~= Seq::<
                Positional<crate::error::ErrorView>,
            >::empty());
            assert(self.errv() + Seq::<Positional<crate::error::ErrorView>>::empty()
                =~= self.errv());
            assert(self.errv() =~= e0 + decl_declare(*d, tbl0).0);
        }
    }
}

/// The semantic analysis of one parsed compilation unit.
pub struct Semantic {
    pub ast: Positional<Program>,
}

impl Semantic {
    pub fn new(ast: Positional<Program>) -> (r: Self)
        ensures
            r.ast == ast,
    {
        Semantic { ast }
    }

    /// Run the analysis: process the declarations, then check the body, and
    /// hand back every diagnostic in discovery order. An empty result means
    /// the program is semantically valid.
    pub fn analyze(self) -> (r: Vec<Positional<Error>>)
        ensures
            r.deep_view() == analysis(self.ast.inner),
    {
        let mut a = Analyzer { symbols: SymbolTable::new(), errors: Vec::new() };
        proof {
            assert(a.errv() =~= Seq::<Positional<crate::error::ErrorView>>::empty());
        }
        a.analyze_declare(&self.ast.inner.declare);
        a.analyze_statement_list(&self.ast.inner.body);
        proof {
            assert(a.errv() =~= analysis(self.ast.inner));
        }
        a.errors
    }
}

} // verus!
