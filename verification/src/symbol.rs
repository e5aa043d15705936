//! Symbols and the scoped symbol table.
//!
//! The table is a stack of scopes; each scope is an association list from a
//! name to a symbol, where an insert overwrites the binding of the same name
//! in that scope. Resolution scans from the innermost scope outward, so an
//! inner declaration shadows, but does not delete, an outer one; leaving a
//! scope discards its bindings and nothing else.

use vstd::prelude::*;
use crate::canonical::{canon_view, clone_canonical, CanonicalType, CanonicalTypeView};
use crate::text::str_eq;

verus! {

/// What a name means: a variable of a type, a procedure with an ordered
/// parameter signature, or a named type alias.
#[derive(Debug, PartialEq)]
pub enum Symbol {
    Variable(CanonicalType),
    Procedure(Vec<CanonicalType>),
    Type(CanonicalType),
}

/// The mathematical shape of a [`Symbol`].
pub enum SymbolView {
    Variable(CanonicalTypeView),
    Procedure(Seq<CanonicalTypeView>),
    Type(CanonicalTypeView),
}

/// The views of a signature's canonical types, from index `i` on.
pub open spec fn sig_view_from(sig: Seq<CanonicalType>, i: int) -> Seq<CanonicalTypeView>
    decreases sig.len() - i,
{
    if i < 0 || i >= sig.len() {
        Seq::empty()
    } else {
        seq![canon_view(sig[i])] + sig_view_from(sig, i + 1)
    }
}

/// Each signature view entry is the view of the canonical type at its place.
pub proof fn lemma_sig_view_len(sig: Seq<CanonicalType>, i: int)
    requires
        0 <= i <= sig.len(),
    ensures
        sig_view_from(sig, i).len() == sig.len() - i,
        forall|j: int|
            0 <= j < sig.len() - i ==> #[trigger] sig_view_from(sig, i)[j] == canon_view(
                sig[i + j],
            ),
    decreases sig.len() - i,
{
    if i < sig.len() {
        lemma_sig_view_len(sig, i + 1);
        assert forall|j: int| 0 <= j < sig.len() - i implies #[trigger] sig_view_from(sig, i)[j]
            == canon_view(sig[i + j]) by {
            if j > 0 {
                assert(sig_view_from(sig, i)[j] == sig_view_from(sig, i + 1)[j - 1]);
            }
        }
    }
}

impl DeepView for Symbol {
    type V = SymbolView;

    open spec fn deep_view(&self) -> SymbolView {
        match *self {
            Symbol::Variable(t) => SymbolView::Variable(canon_view(t)),
            Symbol::Procedure(sig) => SymbolView::Procedure(sig_view_from(sig@, 0)),
            Symbol::Type(t) => SymbolView::Type(canon_view(t)),
        }
    }
}

/// Copy a symbol; the copy has the same view.
pub fn clone_symbol(s: &Symbol) -> (r: Symbol)
    ensures
        r.deep_view() == s.deep_view(),
{
    match s {
        Symbol::Variable(t) => Symbol::Variable(clone_canonical(t)),
        Symbol::Type(t) => Symbol::Type(clone_canonical(t)),
        Symbol::Procedure(sig) => {
            let mut out: Vec<CanonicalType> = Vec::new();
            let mut i: usize = 0;
            proof {
                lemma_sig_view_len(sig@, 0);
            }
            while i < sig.len()
                invariant
                    i <= sig@.len(),
                    out@.len() == i,
                    forall|k: int|
                        0 <= k < i ==> canon_view(#[trigger] out@[k]) == canon_view(sig@[k]),
                decreases sig@.len() - i,
            {
                let t = clone_canonical(&sig[i]);
                let ghost prev = out@;
                out.push(t);
                proof {
                    assert(out@ == prev.push(t));
                    assert forall|k: int| 0 <= k < i + 1 implies canon_view(#[trigger] out@[k])
                        == canon_view(sig@[k]) by {
                        if k < i {
                            assert(out@[k] == prev[k]);
                        } else {
                            assert(out@[k] == t);
                        }
                    }
                }
                i += 1;
            }
            proof {
                lemma_sig_view_pointwise(out@, sig@, 0);
            }
            Symbol::Procedure(out)
        },
    }
}

/// Two signatures whose entries agree pointwise on views have the same
/// signature view from any index on.
pub proof fn lemma_sig_view_pointwise(a: Seq<CanonicalType>, b: Seq<CanonicalType>, i: int)
    requires
        a.len() == b.len(),
        forall|k: int| 0 <= k < a.len() ==> canon_view(#[trigger] a[k]) == canon_view(b[k]),
    ensures
        sig_view_from(a, i) == sig_view_from(b, i),
    decreases a.len() - i,
{
    if 0 <= i && i < a.len() {
        lemma_sig_view_pointwise(a, b, i + 1);
        assert(sig_view_from(a, i) =~= sig_view_from(b, i));
    } else {
        assert(sig_view_from(a, i) =~= sig_view_from(b, i));
    }
}

/// The view of one scope: names become character sequences, symbols their
/// views, order kept.
pub open spec fn scope_deep<T: DeepView>(scope: Seq<(String, T)>) -> Seq<(Seq<char>, T::V)> {
    Seq::new(scope.len(), |j: int| (scope[j].0@, scope[j].1.deep_view()))
}

/// The first index at or after `i` whose binding carries `name`, or `-1`.
pub open spec fn scope_index_of<V>(scope: Seq<(Seq<char>, V)>, name: Seq<char>, i: int) -> int
    decreases scope.len() - i,
{
    if i < 0 || i >= scope.len() {
        -1
    } else if scope[i].0 == name {
        i
    } else {
        scope_index_of(scope, name, i + 1)
    }
}

/// What `name` is bound to in one scope: the first binding that carries it.
pub open spec fn scope_find<V>(scope: Seq<(Seq<char>, V)>, name: Seq<char>) -> Option<V> {
    let i = scope_index_of(scope, name, 0);
    if i >= 0 {
        Some(scope[i].1)
    } else {
        None
    }
}

/// Whether one scope binds `name`.
pub open spec fn scope_has<V>(scope: Seq<(Seq<char>, V)>, name: Seq<char>) -> bool {
    scope_index_of(scope, name, 0) >= 0
}

/// One scope after binding `name` to `value`: the first binding of the same
/// name is overwritten in place, a new name is appended.
pub open spec fn scope_update<V>(scope: Seq<(Seq<char>, V)>, name: Seq<char>, value: V) -> Seq<
    (Seq<char>, V),
> {
    let i = scope_index_of(scope, name, 0);
    if i >= 0 {
        scope.update(i, (name, value))
    } else {
        scope.push((name, value))
    }
}

/// What `name` resolves to among the innermost `level` scopes: the first
/// match scanning from scope `level - 1` down to the outermost scope.
pub open spec fn table_find_at<V>(
    table: Seq<Seq<(Seq<char>, V)>>,
    name: Seq<char>,
    level: int,
) -> Option<V>
    decreases level,
{
    if level <= 0 || level > table.len() {
        None
    } else {
        match scope_find(table[level - 1], name) {
            Some(v) => Some(v),
            None => table_find_at(table, name, level - 1),
        }
    }
}

/// What `name` resolves to in the whole table, innermost scope first.
pub open spec fn table_find<V>(table: Seq<Seq<(Seq<char>, V)>>, name: Seq<char>) -> Option<V> {
    table_find_at(table, name, table.len() as int)
}

/// A lexically scoped symbol table: a stack of association-list scopes.
#[derive(Debug)]
pub struct SymbolTable<T> {
    pub inner: Vec<Vec<(String, T)>>,
}

impl<T: DeepView> SymbolTable<T> {
    /// The mathematical table: the stack of scope views, outermost first.
    pub open spec fn deep(self) -> Seq<Seq<(Seq<char>, T::V)>> {
        Seq::new(self.inner@.len(), |i: int| scope_deep(self.inner@[i]@))
    }

    /// A fresh table holding one empty scope: the global scope.
    pub fn new() -> (r: Self)
        ensures
            r.deep() =~= seq![Seq::<(Seq<char>, T::V)>::empty()],
    {
        let mut inner: Vec<Vec<(String, T)>> = Vec::new();
        inner.push(Vec::new());
        let r = Self { inner };
        proof {
            assert(r.deep() =~= seq![Seq::<(Seq<char>, T::V)>::empty()]) by {
                assert(r.deep().len() == 1);
                assert(r.deep()[0] =~= Seq::<(Seq<char>, T::V)>::empty());
            }
        }
        r
    }

    /// How many scopes are open.
    pub fn level(&self) -> (r: usize)
        ensures
            r == self.deep().len(),
    {
        self.inner.len()
    }

    /// Open a nested scope.
    pub fn step_in(&mut self)
        ensures
            final(self).deep() =~= old(self).deep().push(Seq::<(Seq<char>, T::V)>::empty()),
    {
        let ghost before = self.deep();
        self.inner.push(Vec::new());
        proof {
            assert(self.deep() =~= before.push(Seq::<(Seq<char>, T::V)>::empty())) by {
                assert(self.deep().len() == before.len() + 1);
                assert forall|i: int| 0 <= i < self.deep().len() implies self.deep()[i]
                    == before.push(Seq::<(Seq<char>, T::V)>::empty())[i] by {
                    if i < before.len() {
                        assert(self.inner@[i] == old(self).inner@[i]);
                        assert(self.deep()[i] =~= before[i]);
                    } else {
                        assert(self.deep()[i] =~= Seq::<(Seq<char>, T::V)>::empty());
                    }
                }
            }
        }
    }

    /// Close the innermost scope and hand its bindings back; they vanish
    /// from the table.
    pub fn step_out(&mut self) -> (r: Vec<(String, T)>)
        requires
            old(self).deep().len() >= 1,
        ensures
            final(self).deep() =~= old(self).deep().drop_last(),
            scope_deep(r@) == old(self).deep().last(),
    {
        let r = self.inner.pop().unwrap();
        proof {
            assert(self.deep() =~= old(self).deep().drop_last());
            assert(scope_deep(r@) =~= old(self).deep().last());
        }
        r
    }

    /// Resolve `key` in the whole table, innermost scope first.
    pub fn query(&self, key: &str) -> (r: Option<&T>)
        ensures
            match r {
                Some(v) => table_find(self.deep(), key@) == Some(v.deep_view()),
                None => table_find(self.deep(), key@) is None,
            },
    {
        self.query_at(key, self.inner.len())
    }

    /// Resolve `key` among the innermost `level` scopes (clamped to the
    /// table's height), innermost first.
    pub fn query_at(&self, key: &str, level: usize) -> (r: Option<&T>)
        ensures
            ({
                let lv = if level <= self.deep().len() {
                    level as int
                } else {
                    self.deep().len() as int
                };
                match r {
                    Some(v) => table_find_at(self.deep(), key@, lv) == Some(v.deep_view()),
                    None => table_find_at(self.deep(), key@, lv) is None,
                }
            }),
    {
        let n = self.inner.len();
        let mut lvl: usize = if level <= n {
            level
        } else {
            n
        };
        while lvl > 0
            invariant
                lvl <= self.deep().len(),
                n == self.deep().len(),
                ({
                    let lv0 = if level <= self.deep().len() {
                        level as int
                    } else {
                        self.deep().len() as int
                    };
                    table_find_at(self.deep(), key@, lv0) == table_find_at(
                        self.deep(),
                        key@,
                        lvl as int,
                    )
                }),
            decreases lvl,
        {
            let scope = &self.inner[lvl - 1];
            match scope_scan(scope, key) {
                Some(j) => {
                    proof {
                        assert(scope_deep(scope@)[j as int] == (
                            scope@[j as int].0@,
                            scope@[j as int].1.deep_view(),
                        ));
                        assert(scope_find(self.deep()[lvl - 1], key@) == Some(
                            scope@[j as int].1.deep_view(),
                        ));
                    }
                    return Some(&scope[j].1);
                },
                None => {
                    proof {
                        assert(scope_find(self.deep()[lvl - 1], key@) is None);
                        assert(table_find_at(self.deep(), key@, lvl as int) == table_find_at(
                            self.deep(),
                            key@,
                            lvl - 1,
                        ));
                    }
                },
            }
            lvl = lvl - 1;
        }
        None
    }

    /// Bind `key` to `value` in the innermost scope, overwriting a binding
    /// of the same name there and leaving every other scope alone.
    pub fn insert(&mut self, key: String, value: T)
        requires
            old(self).deep().len() >= 1,
        ensures
            final(self).deep() =~= old(self).deep().update(
                old(self).deep().len() - 1,
                scope_update(old(self).deep().last(), key@, value.deep_view()),
            ),
    {
        let ghost oldtable = self.deep();
        let mut scope = self.inner.pop().unwrap();
        let ghost oldscope = scope@;
        proof {
            assert(scope_deep(oldscope) == oldtable.last());
        }
        match scope_scan(&scope, key.as_str()) {
            Some(i) => {
                scope.remove(i);
                scope.insert(i, (key, value));
                proof {
                    assert(scope_deep(scope@) =~= scope_update(
                        scope_deep(oldscope),
                        key@,
                        value.deep_view(),
                    ));
                }
            },
            None => {
                scope.push((key, value));
                proof {
                    assert(scope_deep(scope@) =~= scope_update(
                        scope_deep(oldscope),
                        key@,
                        value.deep_view(),
                    ));
                }
            },
        }
        self.inner.push(scope);
        proof {
            assert(self.deep() =~= oldtable.update(
                oldtable.len() - 1,
                scope_update(oldtable.last(), key@, value.deep_view()),
            ));
        }
    }

    /// Whether the innermost scope itself binds `key`; outer scopes are not
    /// consulted, so shadowing an outer name is not a duplicate.
    pub fn has_own_property(&self, key: &str) -> (r: bool)
        requires
            self.deep().len() >= 1,
        ensures
            r == scope_has(self.deep().last(), key@),
    {
        let n = self.inner.len();
        let scope = &self.inner[n - 1];
        proof {
            assert(scope_deep(scope@) == self.deep().last());
        }
        match scope_scan(scope, key) {
            Some(_) => true,
            None => false,
        }
    }
}

/// Scan one scope for the first binding of `key`; the returned index is
/// the one `scope_index_of` names.
pub(crate) fn scope_scan<T: DeepView>(scope: &Vec<(String, T)>, key: &str) -> (r: Option<usize>)
    ensures
        match r {
            Some(i) => i < scope@.len() && scope_index_of(scope_deep(scope@), key@, 0) == i as int,
            None => scope_index_of(scope_deep(scope@), key@, 0) == -1,
        },
{
    let ghost sd = scope_deep(scope@);
    let n = scope.len();
    let mut i: usize = 0;
    while i < n
        invariant
            sd == scope_deep(scope@),
            n == scope@.len(),
            sd.len() == scope@.len(),
            i <= n,
            scope_index_of(sd, key@, 0) == scope_index_of(sd, key@, i as int),
        decreases n - i,
    {
        proof {
            assert(sd[i as int] == (scope@[i as int].0@, scope@[i as int].1.deep_view()));
        }
        if str_eq(scope[i].0.as_str(), key) {
            proof {
                assert(sd[i as int].0 == key@);
                assert(scope_index_of(sd, key@, i as int) == i as int);
            }
            return Some(i);
        }
        proof {
            assert(sd[i as int].0 != key@);
            assert(scope_index_of(sd, key@, i as int) == scope_index_of(sd, key@, i + 1));
        }
        i += 1;
    }
    proof {
        assert(scope_index_of(sd, key@, i as int) == -1);
    }
    None
}

} // verus!
