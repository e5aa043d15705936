//! The laws of the analysis: properties that hold of every input, proved
//! from the rules alone.

use vstd::prelude::*;
use crate::ast::{
    CallStatement, Positional, ProcedureDeclare, SNLType, SNLTypeArray, TypedIdentifiers,
};
use crate::canonical::{type_equal_view, CanonicalTypeView};
use crate::error::ErrorView;
use crate::rules::{
    canon_of, check_args, check_call, check_input, dedup_fields, diag, decl_declare, decl_params,
    decl_procs, decl_types, decl_var_ids, decl_vars, flat_fields, group_fields, sig_of_params,
    tbl_insert, validate_type,
};
use crate::symbol::{
    scope_find, scope_has, scope_index_of, scope_update, table_find, table_find_at, SymbolView,
};

verus! {

// ---------------------------------------------------------------------------
// Association-list facts
// ---------------------------------------------------------------------------

/// The first index of `name` is a real index of a binding of `name`, with
/// no earlier binding of it; `-1` means no binding at all.
pub proof fn lemma_scope_index_of_props<V>(s: Seq<(Seq<char>, V)>, n: Seq<char>, k: int)
    requires
        0 <= k,
    ensures
        ({
            let r = scope_index_of(s, n, k);
            &&& (r == -1 || (k <= r < s.len() && s[r].0 == n))
            &&& r == -1 ==> forall|j: int| k <= j < s.len() ==> (#[trigger] s[j]).0 != n
            &&& r >= 0 ==> forall|j: int| k <= j < r ==> (#[trigger] s[j]).0 != n
        }),
    decreases s.len() - k,
{
    if k < s.len() && s[k].0 != n {
        lemma_scope_index_of_props(s, n, k + 1);
    }
}

/// After an update in place, searches for any other name are undisturbed.
proof fn lemma_index_of_update_other<V>(s: Seq<(Seq<char>, V)>, i: int, v: V, m: Seq<char>, k: int)
    requires
        0 <= i < s.len(),
        0 <= k,
        s[i].0 != m,
    ensures
        scope_index_of(s.update(i, (s[i].0, v)), m, k) == scope_index_of(s, m, k),
        scope_find(s.update(i, (s[i].0, v)), m) == scope_find(s, m),
    decreases s.len() - k,
{
    let s2 = s.update(i, (s[i].0, v));
    assert(s2.len() == s.len());
    assert(forall|j: int| 0 <= j < s.len() ==> (#[trigger] s2[j]).0 == s[j].0);
    if k < s.len() {
        lemma_index_of_update_other(s, i, v, m, k + 1);
    }
    lemma_scope_index_of_props(s, m, 0);
    let r = scope_index_of(s, m, 0);
    if r >= 0 {
        assert(r != i);
        assert(s2[r] == s[r]);
    }
    assert(scope_index_of(s2, m, 0) == scope_index_of(s, m, 0)) by {
        lemma_index_of_eq_names(s, s2, m, 0);
    }
}

/// Two scopes with pointwise equal names have the same first index for any
/// name.
proof fn lemma_index_of_eq_names<V>(
    s: Seq<(Seq<char>, V)>,
    s2: Seq<(Seq<char>, V)>,
    m: Seq<char>,
    k: int,
)
    requires
        s.len() == s2.len(),
        forall|j: int| 0 <= j < s.len() ==> (#[trigger] s[j]).0 == s2[j].0,
    ensures
        scope_index_of(s, m, k) == scope_index_of(s2, m, k),
    decreases s.len() - k,
{
    if 0 <= k && k < s.len() {
        lemma_index_of_eq_names(s, s2, m, k + 1);
    }
}

/// Appending a binding of another name leaves searches undisturbed.
proof fn lemma_index_of_push_other<V>(
    s: Seq<(Seq<char>, V)>,
    n: Seq<char>,
    v: V,
    m: Seq<char>,
    k: int,
)
    requires
        0 <= k,
        m != n,
    ensures
        scope_index_of(s.push((n, v)), m, k) == scope_index_of(s, m, k),
        scope_find(s.push((n, v)), m) == scope_find(s, m),
    decreases s.len() + 1 - k,
{
    let s2 = s.push((n, v));
    if k < s2.len() {
        lemma_index_of_push_other(s, n, v, m, k + 1);
    }
    lemma_scope_index_of_props(s, m, 0);
    lemma_scope_index_of_props(s2, m, 0);
    let r = scope_index_of(s, m, 0);
    if r >= 0 {
        assert(s2[r] == s[r]);
    }
}

/// After binding `n`, the scope binds `n` to the new value, and every other
/// name exactly as before.
pub proof fn lemma_scope_update_semantics<V>(s: Seq<(Seq<char>, V)>, n: Seq<char>, v: V)
    ensures
        scope_has(scope_update(s, n, v), n),
        scope_find(scope_update(s, n, v), n) == Some(v),
        forall|m: Seq<char>|
            m != n ==> #[trigger] scope_find(scope_update(s, n, v), m) == scope_find(s, m),
        forall|m: Seq<char>|
            m != n ==> #[trigger] scope_has(scope_update(s, n, v), m) == scope_has(s, m),
{
    lemma_scope_index_of_props(s, n, 0);
    let i = scope_index_of(s, n, 0);
    let s2 = scope_update(s, n, v);
    if i >= 0 {
        assert(s2 == s.update(i, (n, v)));
        assert(s[i].0 == n);
        lemma_scope_index_of_props(s2, n, 0);
        let r2 = scope_index_of(s2, n, 0);
        assert(forall|j: int| 0 <= j < s2.len() ==> (#[trigger] s2[j]).0 == s[j].0);
        lemma_index_of_eq_names(s, s2, n, 0);
        assert(r2 == i);
        assert(s2[i] == (n, v));
        assert forall|m: Seq<char>| m != n implies #[trigger] scope_find(s2, m) == scope_find(
            s,
            m,
        ) by {
            assert(s.update(i, (s[i].0, v)) =~= s2);
            lemma_index_of_update_other(s, i, v, m, 0);
        }
    } else {
        assert(s2 == s.push((n, v)));
        lemma_scope_index_of_props(s2, n, 0);
        let r2 = scope_index_of(s2, n, 0);
        if r2 == -1 {
            assert(s2[s.len() as int].0 == n);
            assert(false);
        }
        assert(forall|j: int| 0 <= j < s.len() ==> (#[trigger] s[j]).0 != n);
        assert forall|j: int| 0 <= j < r2 implies (#[trigger] s2[j]).0 != n by {}
        assert(s2[r2].0 == n);
        assert(r2 == s.len());
        assert(s2[r2] == (n, v));
        assert forall|m: Seq<char>| m != n implies #[trigger] scope_find(s2, m) == scope_find(
            s,
            m,
        ) by {
            lemma_index_of_push_other(s, n, v, m, 0);
        }
    }
    assert forall|m: Seq<char>| m != n implies #[trigger] scope_has(s2, m) == scope_has(s, m) by {
        assert(scope_find(s2, m) == scope_find(s, m));
        lemma_scope_index_of_props(s2, m, 0);
        lemma_scope_index_of_props(s, m, 0);
    }
}

/// Resolution through a stack of scopes agrees wherever each scope's own
/// resolution agrees.
proof fn lemma_table_find_at_eq<V>(
    t1: Seq<Seq<(Seq<char>, V)>>,
    t2: Seq<Seq<(Seq<char>, V)>>,
    m: Seq<char>,
    level: int,
)
    requires
        level <= t1.len(),
        level <= t2.len(),
        forall|j: int| 0 <= j < level ==> scope_find(#[trigger] t1[j], m) == scope_find(t2[j], m),
    ensures
        table_find_at(t1, m, level) == table_find_at(t2, m, level),
    decreases level,
{
    if level > 0 {
        lemma_table_find_at_eq(t1, t2, m, level - 1);
    }
}

/// Binding one name in the innermost scope leaves the resolution of every
/// other name unchanged.
pub proof fn lemma_table_insert_other(
    tbl: Seq<Seq<(Seq<char>, SymbolView)>>,
    n: Seq<char>,
    sym: SymbolView,
    m: Seq<char>,
)
    requires
        tbl.len() >= 1,
        m != n,
    ensures
        table_find(tbl_insert(tbl, n, sym), m) == table_find(tbl, m),
{
    let t2 = tbl_insert(tbl, n, sym);
    lemma_scope_update_semantics(tbl.last(), n, sym);
    assert forall|j: int| 0 <= j < tbl.len() implies scope_find(#[trigger] t2[j], m) == scope_find(
        tbl[j],
        m,
    ) by {
        if j < tbl.len() - 1 {
            assert(t2[j] == tbl[j]);
        } else {
            assert(t2[j] == scope_update(tbl.last(), n, sym));
        }
    }
    lemma_table_find_at_eq(t2, tbl, m, tbl.len() as int);
}

// ---------------------------------------------------------------------------
// Frame: declarations touch only the innermost scope
// ---------------------------------------------------------------------------

/// Type declarations never touch a scope below the innermost one.
pub proof fn lemma_decl_types_frame(
    tds: Seq<Positional<crate::ast::TypeDeclare>>,
    i: int,
    tbl: Seq<Seq<(Seq<char>, SymbolView)>>,
)
    ensures
        decl_types(tds, i, tbl).1.len() == tbl.len(),
        forall|j: int| 0 <= j < tbl.len() - 1 ==> #[trigger] decl_types(tds, i, tbl).1[j] == tbl[j],
    decreases tds.len() - i,
{
    if 0 <= i && i < tds.len() && tbl.len() > 0 {
        let td = tds[i];
        if scope_has(tbl.last(), td.inner.name@) {
            lemma_decl_types_frame(tds, i + 1, tbl);
        } else {
            let tbl2 = tbl_insert(
                tbl,
                td.inner.name@,
                SymbolView::Type(canon_of(td.inner.base.inner, tbl)),
            );
            lemma_decl_types_frame(tds, i + 1, tbl2);
        }
    }
}

/// Declaring a group's identifiers never touches a scope below the
/// innermost one.
pub proof fn lemma_decl_var_ids_frame(
    ids: Seq<Positional<String>>,
    k: int,
    tname: SNLType,
    tbl: Seq<Seq<(Seq<char>, SymbolView)>>,
)
    ensures
        decl_var_ids(ids, k, tname, tbl).1.len() == tbl.len(),
        forall|j: int|
            0 <= j < tbl.len() - 1 ==> #[trigger] decl_var_ids(ids, k, tname, tbl).1[j] == tbl[j],
    decreases ids.len() - k,
{
    if 0 <= k && k < ids.len() && tbl.len() > 0 {
        let id = ids[k];
        if scope_has(tbl.last(), id.inner@) {
            lemma_decl_var_ids_frame(ids, k + 1, tname, tbl);
        } else {
            let tbl2 = tbl_insert(tbl, id.inner@, SymbolView::Variable(canon_of(tname, tbl)));
            lemma_decl_var_ids_frame(ids, k + 1, tname, tbl2);
        }
    }
}

/// Variable declarations never touch a scope below the innermost one.
pub proof fn lemma_decl_vars_frame(
    vds: Seq<Positional<TypedIdentifiers>>,
    i: int,
    tbl: Seq<Seq<(Seq<char>, SymbolView)>>,
)
    ensures
        decl_vars(vds, i, tbl).1.len() == tbl.len(),
        forall|j: int| 0 <= j < tbl.len() - 1 ==> #[trigger] decl_vars(vds, i, tbl).1[j] == tbl[j],
    decreases vds.len() - i,
{
    if 0 <= i && i < vds.len() {
        let vd = vds[i];
        lemma_decl_var_ids_frame(vd.inner.identifiers@, 0, vd.inner.typename, tbl);
        let tbl2 = decl_var_ids(vd.inner.identifiers@, 0, vd.inner.typename, tbl).1;
        lemma_decl_vars_frame(vds, i + 1, tbl2);
    }
}

/// Parameter declarations never touch a scope below the innermost one.
pub proof fn lemma_decl_params_frame(
    params: Seq<Positional<crate::ast::Param>>,
    pi: int,
    tbl: Seq<Seq<(Seq<char>, SymbolView)>>,
)
    ensures
        decl_params(params, pi, tbl).1.len() == tbl.len(),
        forall|j: int|
            0 <= j < tbl.len() - 1 ==> #[trigger] decl_params(params, pi, tbl).1[j] == tbl[j],
    decreases params.len() - pi,
{
    if 0 <= pi && pi < params.len() {
        let p = params[pi];
        lemma_decl_var_ids_frame(
            p.inner.definition.identifiers@,
            0,
            p.inner.definition.typename,
            tbl,
        );
        let tbl2 = decl_var_ids(
            p.inner.definition.identifiers@,
            0,
            p.inner.definition.typename,
            tbl,
        ).1;
        lemma_decl_params_frame(params, pi + 1, tbl2);
    }
}

/// Procedure declarations leave every scope below the innermost one as it
/// was: each nested scope is opened and discarded in pairs, so the table
/// returns to its height and only the innermost scope gains the procedure
/// names.
pub proof fn lemma_decl_procs_frame(
    procs: Seq<Positional<ProcedureDeclare>>,
    pi: int,
    tbl: Seq<Seq<(Seq<char>, SymbolView)>>,
)
    ensures
        decl_procs(procs, pi, tbl).1.len() == tbl.len(),
        forall|j: int|
            0 <= j < tbl.len() - 1 ==> #[trigger] decl_procs(procs, pi, tbl).1[j] == tbl[j],
    decreases procs, procs.len() - pi, 0int,
{
    if 0 <= pi && pi < procs.len() && tbl.len() > 0 {
        let p = procs[pi];
        let sig = SymbolView::Procedure(sig_of_params(p.inner.params@, 0, tbl));
        let head1 = if scope_has(tbl.last(), p.inner.name@) {
            tbl
        } else {
            tbl_insert(tbl, p.inner.name@, sig)
        };
        let tbl2 = head1.push(Seq::empty());
        let tbl3 = tbl_insert(tbl2, p.inner.name@, sig);
        assert(forall|j: int| 0 <= j < tbl2.len() - 1 ==> #[trigger] tbl3[j] == tbl2[j]);
        lemma_decl_params_frame(p.inner.params@, 0, tbl3);
        let par1 = decl_params(p.inner.params@, 0, tbl3).1;
        lemma_decl_declare_frame(*p.inner.declare, par1);
        let inner1 = decl_declare(*p.inner.declare, par1).1;
        let tbl_out = inner1.drop_last();
        assert(tbl_out =~= head1);
        lemma_decl_procs_frame(procs, pi + 1, tbl_out);
    }
}

/// One declaration part never touches a scope below the innermost one.
pub proof fn lemma_decl_declare_frame(
    d: crate::ast::ProgramDeclare,
    tbl: Seq<Seq<(Seq<char>, SymbolView)>>,
)
    ensures
        decl_declare(d, tbl).1.len() == tbl.len(),
        forall|j: int| 0 <= j < tbl.len() - 1 ==> #[trigger] decl_declare(d, tbl).1[j] == tbl[j],
    decreases d, 0int, 1int,
{
    lemma_decl_types_frame(d.type_declare@, 0, tbl);
    let tbl1 = decl_types(d.type_declare@, 0, tbl).1;
    lemma_decl_vars_frame(d.variable_declare@, 0, tbl1);
    let tbl2 = decl_vars(d.variable_declare@, 0, tbl1).1;
    lemma_decl_procs_frame(d.procedure_declare@, 0, tbl2);
}

// ---------------------------------------------------------------------------
// Duplicate detection
// ---------------------------------------------------------------------------

/// Declaring two variables of the same name in the same scope yields
/// exactly one `DuplicatedIdentifier`, for the second of them; the first
/// declaration goes through.
pub proof fn lemma_duplicate_variable_flagged_once(
    g1: Positional<TypedIdentifiers>,
    g2: Positional<TypedIdentifiers>,
    id1: Positional<String>,
    id2: Positional<String>,
    tbl: Seq<Seq<(Seq<char>, SymbolView)>>,
)
    requires
        tbl.len() >= 1,
        !scope_has(tbl.last(), id1.inner@),
        id1.inner@ == id2.inner@,
        g1.inner.typename is Integer,
        g2.inner.typename is Integer,
        g1.inner.identifiers@ == seq![id1],
        g2.inner.identifiers@ == seq![id2],
    ensures
        decl_vars(seq![g1, g2], 0, tbl).0 =~= seq![
            diag(id2.line, id2.column, ErrorView::DuplicatedIdentifier(id2.inner@)),
        ],
{
    reveal_with_fuel(decl_vars, 4);
    reveal_with_fuel(decl_var_ids, 4);
    let vds = seq![g1, g2];
    let tbl2 = tbl_insert(tbl, id1.inner@, SymbolView::Variable(canon_of(g1.inner.typename, tbl)));
    lemma_scope_update_semantics(
        tbl.last(),
        id1.inner@,
        SymbolView::Variable(canon_of(g1.inner.typename, tbl)),
    );
    assert(tbl2.last() == scope_update(
        tbl.last(),
        id1.inner@,
        SymbolView::Variable(canon_of(g1.inner.typename, tbl)),
    ));
    assert(scope_has(tbl2.last(), id2.inner@));
    assert(decl_var_ids(g1.inner.identifiers@, 0, g1.inner.typename, tbl).0 =~= Seq::<
        Positional<ErrorView>,
    >::empty());
    assert(decl_var_ids(g1.inner.identifiers@, 0, g1.inner.typename, tbl).1 == tbl2);
    assert(decl_var_ids(g2.inner.identifiers@, 0, g2.inner.typename, tbl2).0 =~= seq![
        diag(id2.line, id2.column, ErrorView::DuplicatedIdentifier(id2.inner@)),
    ]);
    assert(decl_vars(vds, 0, tbl).0 =~= seq![
        diag(id2.line, id2.column, ErrorView::DuplicatedIdentifier(id2.inner@)),
    ]);
}

/// Declaring a name in a freshly opened nested scope is shadowing, never a
/// duplicate, whatever the outer scopes bind.
pub proof fn lemma_shadowing_not_duplicate(
    id: Positional<String>,
    tname: SNLType,
    tbl: Seq<Seq<(Seq<char>, SymbolView)>>,
)
    ensures
        decl_var_ids(seq![id], 0, tname, tbl.push(Seq::empty())).0 =~= Seq::<
            Positional<ErrorView>,
        >::empty(),
{
    reveal_with_fuel(decl_var_ids, 3);
    let t2 = tbl.push(Seq::<(Seq<char>, SymbolView)>::empty());
    assert(t2.last() =~= Seq::<(Seq<char>, SymbolView)>::empty());
    assert(!scope_has(t2.last(), id.inner@));
}

// ---------------------------------------------------------------------------
// Scope restoration
// ---------------------------------------------------------------------------

/// After a procedure's body is checked and its scope exits, the table holds
/// exactly the enclosing scopes with only the procedure's own name added;
/// a name bound only inside the procedure resolves to nothing afterwards,
/// and reading into it is an undefined identifier.
pub proof fn lemma_scope_restoration(
    p: Positional<ProcedureDeclare>,
    tbl: Seq<Seq<(Seq<char>, SymbolView)>>,
    nm: Positional<String>,
)
    requires
        tbl.len() >= 1,
        !scope_has(tbl.last(), p.inner.name@),
    ensures
        decl_procs(seq![p], 0, tbl).1 =~= tbl_insert(
            tbl,
            p.inner.name@,
            SymbolView::Procedure(sig_of_params(p.inner.params@, 0, tbl)),
        ),
        table_find(tbl, nm.inner@) is None && nm.inner@ != p.inner.name@ ==> check_input(
            nm,
            decl_procs(seq![p], 0, tbl).1,
        ) =~= seq![diag(nm.line, nm.column, ErrorView::UndefinedIdentifier(nm.inner@))],
{
    reveal_with_fuel(decl_procs, 3);
    let procs = seq![p];
    let sig = SymbolView::Procedure(sig_of_params(p.inner.params@, 0, tbl));
    let head1 = tbl_insert(tbl, p.inner.name@, sig);
    let tbl2 = head1.push(Seq::empty());
    let tbl3 = tbl_insert(tbl2, p.inner.name@, sig);
    lemma_decl_params_frame(p.inner.params@, 0, tbl3);
    let par1 = decl_params(p.inner.params@, 0, tbl3).1;
    lemma_decl_declare_frame(*p.inner.declare, par1);
    let inner1 = decl_declare(*p.inner.declare, par1).1;
    let tbl_out = inner1.drop_last();
    assert(forall|j: int| 0 <= j < tbl2.len() - 1 ==> #[trigger] tbl3[j] == tbl2[j]);
    assert(tbl_out =~= head1);
    assert(decl_procs(procs, 1, tbl_out).1 == tbl_out);
    assert(decl_procs(procs, 0, tbl).1 =~= head1);
    if table_find(tbl, nm.inner@) is None && nm.inner@ != p.inner.name@ {
        lemma_table_insert_other(tbl, p.inner.name@, sig, nm.inner@);
        assert(table_find(head1, nm.inner@) is None);
        assert(check_input(nm, head1) =~= seq![
            diag(nm.line, nm.column, ErrorView::UndefinedIdentifier(nm.inner@)),
        ]);
    }
}

// ---------------------------------------------------------------------------
// Structural record equivalence
// ---------------------------------------------------------------------------

/// A canonical type is well formed when every record in it names each
/// field once.
pub open spec fn wf_view(t: CanonicalTypeView) -> bool
    decreases t,
{
    match t {
        CanonicalTypeView::Record(fs) => {
            &&& forall|i: int, j: int| #![trigger fs[i], fs[j]]
                0 <= i < j < fs.len() ==> fs[i].0 != fs[j].0
            &&& forall|i: int| 0 <= i < fs.len() ==> wf_view((#[trigger] fs[i]).1)
        },
        _ => true,
    }
}

/// Structural compatibility is reflexive on well-formed canonical types.
pub proof fn lemma_type_equal_refl(t: CanonicalTypeView)
    requires
        wf_view(t),
    ensures
        type_equal_view(t, t),
    decreases t,
{
    if t is Record {
        let fs = t->Record_0;
        assert forall|i: int| #![trigger fs[i]] 0 <= i < fs.len() implies (
        crate::canonical::fields_have_name(fs, fs[i].0)) by {
            assert(fs[i].0 == fs[i].0);
        }
        assert forall|i: int, j: int| #![trigger fs[i], fs[j]]
            0 <= i < fs.len() && 0 <= j < fs.len() && fs[i].0 == fs[j].0 implies type_equal_view(
            fs[i].1,
            fs[j].1,
        ) by {
            if i < j {
                assert(fs[i].0 != fs[j].0);
            } else if j < i {
                assert(fs[j].0 != fs[i].0);
            } else {
                lemma_type_equal_refl(fs[i].1);
            }
        }
        assert(crate::canonical::record_view_equal(fs, fs));
    }
}

/// A name is in a list extended by one entry exactly when it is in the
/// list or is that entry.
pub proof fn lemma_names_contain_push(seen: Seq<Seq<char>>, x: Seq<char>, n: Seq<char>)
    ensures
        crate::rules::names_contain(seen.push(x), n) == (crate::rules::names_contain(seen, n) || n
            == x),
{
    let s2 = seen.push(x);
    if crate::rules::names_contain(s2, n) {
        let k = choose|k: int| 0 <= k < s2.len() && s2[k] == n;
        if k < seen.len() {
            assert(seen[k] == n);
            assert(crate::rules::names_contain(seen, n));
        } else {
            assert(s2[k] == x);
        }
    }
    if crate::rules::names_contain(seen, n) {
        let k = choose|k: int| 0 <= k < seen.len() && seen[k] == n;
        assert(s2[k] == n);
        assert(crate::rules::names_contain(s2, n));
    }
    if n == x {
        assert(s2[seen.len() as int] == n);
        assert(crate::rules::names_contain(s2, n));
    }
}

/// Deduplicated fields carry distinct names, none of them already seen.
pub proof fn lemma_dedup_distinct(
    fs: Seq<(Seq<char>, CanonicalTypeView)>,
    i: int,
    seen: Seq<Seq<char>>,
)
    ensures
        ({
            let out = dedup_fields(fs, i, seen);
            &&& forall|k: int|
                0 <= k < out.len() ==> !crate::rules::names_contain(seen, (#[trigger] out[k]).0)
            &&& forall|k: int, m: int| #![trigger out[k], out[m]]
                0 <= k < m < out.len() ==> out[k].0 != out[m].0
        }),
    decreases fs.len() - i,
{
    if 0 <= i && i < fs.len() {
        if crate::rules::names_contain(seen, fs[i].0) {
            lemma_dedup_distinct(fs, i + 1, seen);
            assert(dedup_fields(fs, i, seen) =~= dedup_fields(fs, i + 1, seen));
        } else {
            let seen2 = seen.push(fs[i].0);
            lemma_dedup_distinct(fs, i + 1, seen2);
            let rest = dedup_fields(fs, i + 1, seen2);
            let out = dedup_fields(fs, i, seen);
            assert(out =~= seq![fs[i]] + rest);
            assert forall|k: int| 0 <= k < out.len() implies !crate::rules::names_contain(
                seen,
                (#[trigger] out[k]).0,
            ) by {
                if k > 0 {
                    assert(out[k] == rest[k - 1]);
                    lemma_names_contain_push(seen, fs[i].0, rest[k - 1].0);
                }
            }
            assert forall|k: int, m: int| #![trigger out[k], out[m]]
                0 <= k < m < out.len() implies out[k].0 != out[m].0 by {
                if k == 0 {
                    assert(out[m] == rest[m - 1]);
                    lemma_names_contain_push(seen, fs[i].0, rest[m - 1].0);
                } else {
                    assert(out[k] == rest[k - 1]);
                    assert(out[m] == rest[m - 1]);
                }
            }
        }
    } else {
        assert(dedup_fields(fs, i, seen) =~= Seq::<(Seq<char>, CanonicalTypeView)>::empty());
    }
}

/// Deduplication keeps each field's type.
pub proof fn lemma_dedup_constant_type(
    fs: Seq<(Seq<char>, CanonicalTypeView)>,
    i: int,
    seen: Seq<Seq<char>>,
    ct: CanonicalTypeView,
)
    requires
        forall|k: int| 0 <= k < fs.len() ==> (#[trigger] fs[k]).1 == ct,
    ensures
        forall|k: int|
            0 <= k < dedup_fields(fs, i, seen).len() ==> (#[trigger] dedup_fields(fs, i, seen)[k]).1
                == ct,
    decreases fs.len() - i,
{
    if 0 <= i && i < fs.len() {
        if crate::rules::names_contain(seen, fs[i].0) {
            lemma_dedup_constant_type(fs, i + 1, seen, ct);
        } else {
            lemma_dedup_constant_type(fs, i + 1, seen.push(fs[i].0), ct);
        }
    }
}

/// A record declared as two one-field groups has the same canonical form as
/// the record declaring both fields in one group of the same type; when
/// the shared field type is well formed, the two are also structurally
/// compatible.
pub proof fn lemma_record_grouping_equivalent(
    r1: SNLType,
    r2: SNLType,
    a: Positional<String>,
    b: Positional<String>,
    tbl: Seq<Seq<(Seq<char>, SymbolView)>>,
)
    requires
        r1 is Record,
        r2 is Record,
        r1->Record_0@.len() == 2,
        r2->Record_0@.len() == 1,
        r1->Record_0@[0].typename == r2->Record_0@[0].typename,
        r1->Record_0@[1].typename == r2->Record_0@[0].typename,
        r1->Record_0@[0].identifiers@ == seq![a],
        r1->Record_0@[1].identifiers@ == seq![b],
        r2->Record_0@[0].identifiers@ == seq![a, b],
    ensures
        canon_of(r1, tbl) == canon_of(r2, tbl),
        wf_view(canon_of(r2->Record_0@[0].typename, tbl)) ==> type_equal_view(
            canon_of(r1, tbl),
            canon_of(r2, tbl),
        ),
{
    reveal_with_fuel(group_fields, 4);
    reveal_with_fuel(flat_fields, 4);
    let groups1 = r1->Record_0@;
    let groups2 = r2->Record_0@;
    let ct = canon_of(groups2[0].typename, tbl);
    assert(group_fields(seq![a], 0, ct) =~= seq![(a.inner@, ct)]);
    assert(group_fields(seq![b], 0, ct) =~= seq![(b.inner@, ct)]);
    assert(group_fields(seq![a, b], 0, ct) =~= seq![(a.inner@, ct), (b.inner@, ct)]);
    assert(flat_fields(groups1, 2, tbl) =~= Seq::empty());
    assert(flat_fields(groups2, 1, tbl) =~= Seq::empty());
    assert(flat_fields(groups1, 0, tbl) =~= seq![(a.inner@, ct), (b.inner@, ct)]);
    assert(flat_fields(groups2, 0, tbl) =~= seq![(a.inner@, ct), (b.inner@, ct)]);
    assert(canon_of(r1, tbl) == canon_of(r2, tbl));
    if wf_view(ct) {
        let flat = seq![(a.inner@, ct), (b.inner@, ct)];
        let ded = dedup_fields(flat, 0, Seq::empty());
        assert(canon_of(r1, tbl) == CanonicalTypeView::Record(ded));
        lemma_dedup_distinct(flat, 0, Seq::empty());
        lemma_dedup_constant_type(flat, 0, Seq::empty(), ct);
        assert(wf_view(CanonicalTypeView::Record(ded))) by {
            assert forall|k: int| 0 <= k < ded.len() implies wf_view((#[trigger] ded[k]).1) by {
                assert(ded[k].1 == ct);
            }
        }
        lemma_type_equal_refl(CanonicalTypeView::Record(ded));
        assert(type_equal_view(canon_of(r1, tbl), canon_of(r2, tbl)));
    }
}

/// A record declared as two one-field groups renders to the same signature
/// string as the record declaring both fields in one group of the same
/// type: the textual normal form does not depend on how fields were
/// grouped.
pub proof fn lemma_record_grouping_renders_identically(
    r1: SNLType,
    r2: SNLType,
    a: Positional<String>,
    b: Positional<String>,
)
    requires
        r1 is Record,
        r2 is Record,
        r1->Record_0@.len() == 2,
        r2->Record_0@.len() == 1,
        r1->Record_0@[0].typename == r2->Record_0@[0].typename,
        r1->Record_0@[1].typename == r2->Record_0@[0].typename,
        r1->Record_0@[0].identifiers@ == seq![a],
        r1->Record_0@[1].identifiers@ == seq![b],
        r2->Record_0@[0].identifiers@ == seq![a, b],
    ensures
        crate::sig::type_sig(r1) == crate::sig::type_sig(r2),
{
    reveal_with_fuel(crate::sig::build_rows, 4);
    reveal_with_fuel(crate::sig::add_ids, 4);
    let groups1 = r1->Record_0@;
    let groups2 = r2->Record_0@;
    let ty = crate::sig::type_sig(groups2[0].typename);
    let empty_rows = Seq::<(Seq<char>, Seq<Seq<char>>)>::empty();
    // the first field opens the row of its type signature
    assert(scope_index_of(empty_rows, ty, 0) == -1);
    assert(crate::sig::row_pos(empty_rows, ty, 0) == 0);
    let started = empty_rows.insert(0, (ty, Seq::<Seq<char>>::empty()));
    assert(started =~= seq![(ty, Seq::<Seq<char>>::empty())]);
    assert(crate::sig::name_pos(started[0].1, a.inner@, 0) == 0);
    let with_a = started.update(0, (ty, started[0].1.insert(0, a.inner@)));
    assert(crate::sig::add_group(empty_rows, ty, seq![a]) == with_a);
    assert(with_a.len() == 1 && with_a[0].0 == ty);
    // the second field joins the same row, found by its signature
    assert(scope_index_of(with_a, ty, 0) == 0);
    assert(crate::sig::add_group(with_a, ty, seq![b]) == crate::sig::add_ids(
        seq![b],
        0,
        ty,
        with_a,
        0,
    ));
    // grouped or not, both fields pass through the same insertions
    assert(crate::sig::add_group(empty_rows, ty, seq![a, b]) == crate::sig::add_ids(
        seq![a, b],
        0,
        ty,
        started,
        0,
    ));
    assert(crate::sig::add_ids(seq![a, b], 0, ty, started, 0) == crate::sig::add_ids(
        seq![a, b],
        1,
        ty,
        with_a,
        0,
    ));
    assert(crate::sig::add_ids(seq![a, b], 1, ty, with_a, 0) == crate::sig::add_ids(
        seq![b],
        0,
        ty,
        with_a,
        0,
    )) by {
        assert(seq![a, b][1] == b);
    }
    assert(crate::sig::build_rows(groups1, 0, empty_rows) == crate::sig::build_rows(
        groups2,
        0,
        empty_rows,
    ));
}

// ---------------------------------------------------------------------------
// Call arity and argument types
// ---------------------------------------------------------------------------

/// A call of a procedure with the wrong number of well-typed arguments
/// yields exactly one `CallParameterCountMismatch` carrying the declared
/// and the given count.
pub proof fn lemma_call_arity(
    c: Positional<CallStatement>,
    sg: Seq<CanonicalTypeView>,
    tbl: Seq<Seq<(Seq<char>, SymbolView)>>,
)
    requires
        table_find(tbl, c.inner.name@) == Some(SymbolView::Procedure(sg)),
        sg.len() != c.inner.params@.len(),
        check_args(c.inner.params@, 0, tbl).0 == Seq::<Positional<ErrorView>>::empty(),
    ensures
        check_call(c, tbl) =~= seq![
            diag(
                c.line,
                c.column,
                ErrorView::CallParameterCountMismatch {
                    expected: sg.len() as usize,
                    got: c.inner.params@.len() as usize,
                },
            ),
        ],
{
}

/// A call with the right number of arguments but one argument of the wrong
/// type yields exactly one `CallParameterTypeMismatch` carrying the
/// declared parameter type and the argument's type, in that order.
pub proof fn lemma_call_argument_type(
    c: Positional<CallStatement>,
    sg: Seq<CanonicalTypeView>,
    tbl: Seq<Seq<(Seq<char>, SymbolView)>>,
)
    requires
        table_find(tbl, c.inner.name@) == Some(SymbolView::Procedure(sg)),
        sg.len() == 1,
        c.inner.params@.len() == 1,
        check_args(c.inner.params@, 0, tbl).0 == Seq::<Positional<ErrorView>>::empty(),
        !type_equal_view(sg[0], check_args(c.inner.params@, 0, tbl).1[0]),
    ensures
        check_call(c, tbl) =~= seq![
            diag(
                c.inner.params@[0].left.line,
                c.inner.params@[0].left.column,
                ErrorView::CallParameterTypeMismatch {
                    expected: sg[0],
                    got: check_args(c.inner.params@, 0, tbl).1[0],
                },
            ),
        ],
{
    let ats = check_args(c.inner.params@, 0, tbl).1;
    assert(check_args(c.inner.params@, 1, tbl).1 =~= Seq::<CanonicalTypeView>::empty());
    assert(ats =~= seq![check_expr0(c.inner.params@[0], tbl)]);
    assert(crate::rules::arg_mismatches(c.inner.params@, ats, sg, 1) =~= Seq::<
        Positional<ErrorView>,
    >::empty());
}

/// The inferred type of one expression; a name for the second component of
/// the expression rule.
pub open spec fn check_expr0(
    e: crate::ast::Expression,
    tbl: Seq<Seq<(Seq<char>, SymbolView)>>,
) -> CanonicalTypeView {
    crate::rules::check_expr(e, tbl).1
}

// ---------------------------------------------------------------------------
// Array bounds and assignment mismatch order
// ---------------------------------------------------------------------------

/// An array type is invalid exactly when its lower bound exceeds its upper
/// bound, and the diagnostic is `InvalidArrayDefinition` at the type's
/// position.
pub proof fn lemma_array_bounds(
    a: SNLTypeArray,
    line: u32,
    column: u32,
    tbl: Seq<Seq<(Seq<char>, SymbolView)>>,
)
    ensures
        validate_type(SNLType::Array(a), line, column, tbl) == if a.lower_bound > a.upper_bound {
            seq![diag(line, column, ErrorView::InvalidArrayDefinition)]
        } else {
            Seq::<Positional<ErrorView>>::empty()
        },
{
}

/// An assignment between resolvable sides of incompatible types yields
/// `AssignTypeMismatch` whose `expected` is the assignee's type and whose
/// `got` is the value's type, never the other way round.
pub proof fn lemma_assign_mismatch_order(
    a: crate::ast::AssignStatement,
    tbl: Seq<Seq<(Seq<char>, SymbolView)>>,
)
    requires
        !(crate::rules::check_varrep(a.variable, tbl).1 is Unknown),
        !type_equal_view(
            crate::rules::check_varrep(a.variable, tbl).1,
            crate::rules::check_expr(a.value, tbl).1,
        ),
    ensures
        crate::rules::check_assign(a, tbl) == crate::rules::check_varrep(a.variable, tbl).0
            + crate::rules::check_expr(a.value, tbl).0 + seq![
            diag(
                a.value.left.line,
                a.value.left.column,
                ErrorView::AssignTypeMismatch {
                    expected: crate::rules::check_varrep(a.variable, tbl).1,
                    got: crate::rules::check_expr(a.value, tbl).1,
                },
            ),
        ],
{
}

} // verus!
