//! Canonical types: the alias-resolved, structural form of a syntactic type,
//! used for every type comparison of the semantic analysis.
//!
//! A canonical record is the flattened list of its fields in declaration
//! order, one entry per distinct field name (a repeated name keeps its first
//! type). Two canonical types are compared structurally; the `Unknown`
//! sentinel, which stands for a type reference that could not be resolved,
//! is compatible with everything so that one root cause is reported once.

use vstd::prelude::*;
use crate::ast::SNLBaseType;
use crate::text::str_eq;

verus! {

/// A canonical, alias-free structural type.
#[derive(Debug, PartialEq)]
pub enum CanonicalType {
    Integer,
    Char,
    Array { base: SNLBaseType, lower_bound: usize, upper_bound: usize },
    Record(Vec<RecordField>),
    Unknown,
}

/// One field of a canonical record type.
#[derive(Debug, PartialEq)]
pub struct RecordField {
    pub name: String,
    pub field_type: CanonicalType,
}

/// The mathematical shape of a [`CanonicalType`]: field names become
/// character sequences, field lists become sequences of pairs.
pub enum CanonicalTypeView {
    Integer,
    Char,
    Array { base: SNLBaseType, lower_bound: usize, upper_bound: usize },
    Record(Seq<(Seq<char>, CanonicalTypeView)>),
    Unknown,
}

/// The view of a canonical type.
pub open spec fn canon_view(t: CanonicalType) -> CanonicalTypeView
    decreases t, 0int,
{
    match t {
        CanonicalType::Integer => CanonicalTypeView::Integer,
        CanonicalType::Char => CanonicalTypeView::Char,
        CanonicalType::Array { base, lower_bound, upper_bound } => CanonicalTypeView::Array {
            base,
            lower_bound,
            upper_bound,
        },
        CanonicalType::Record(fields) => CanonicalTypeView::Record(fields_view_from(fields@, 0)),
        CanonicalType::Unknown => CanonicalTypeView::Unknown,
    }
}

/// The views of the record fields from index `i` on.
pub open spec fn fields_view_from(fields: Seq<RecordField>, i: int) -> Seq<
    (Seq<char>, CanonicalTypeView),
>
    decreases fields, fields.len() - i,
{
    if i < 0 || i >= fields.len() {
        Seq::empty()
    } else {
        seq![(fields[i].name@, canon_view(fields[i].field_type))] + fields_view_from(fields, i + 1)
    }
}

impl DeepView for CanonicalType {
    type V = CanonicalTypeView;

    open spec fn deep_view(&self) -> CanonicalTypeView {
        canon_view(*self)
    }
}

/// Whether some field of `fs` carries the name `n`.
pub open spec fn fields_have_name(fs: Seq<(Seq<char>, CanonicalTypeView)>, n: Seq<char>) -> bool {
    exists|j: int| 0 <= j < fs.len() && #[trigger] fs[j].0 == n
}

/// Structural compatibility of two canonical types: `Unknown` matches
/// everything; arrays match on base and both bounds; records match when they
/// expose the same set of field names and every pair of fields sharing a
/// name has compatible types, regardless of field order.
pub open spec fn type_equal_view(a: CanonicalTypeView, b: CanonicalTypeView) -> bool
    decreases a,
{
    if a is Unknown || b is Unknown {
        true
    } else if a is Integer {
        b is Integer
    } else if a is Char {
        b is Char
    } else if a is Array {
        b is Array && a->base == b->base && a->lower_bound == b->lower_bound && a->upper_bound
            == b->upper_bound
    } else if a is Record {
        b is Record && record_view_equal(a->Record_0, b->Record_0)
    } else {
        false
    }
}

/// Record compatibility of two field-view lists: the same names on both
/// sides, and compatible types wherever a name is shared.
pub open spec fn record_view_equal(
    f1: Seq<(Seq<char>, CanonicalTypeView)>,
    f2: Seq<(Seq<char>, CanonicalTypeView)>,
) -> bool
    decreases f1,
{
    &&& forall|i: int| #![trigger f1[i]] 0 <= i < f1.len() ==> fields_have_name(f2, f1[i].0)
    &&& forall|j: int| #![trigger f2[j]] 0 <= j < f2.len() ==> fields_have_name(f1, f2[j].0)
    &&& forall|i: int, j: int| #![trigger f1[i], f2[j]]
        0 <= i < f1.len() && 0 <= j < f2.len() && f1[i].0 == f2[j].0 ==> type_equal_view(
            f1[i].1,
            f2[j].1,
        )
}

/// Decide structural compatibility of two canonical types.
pub fn type_equal(a: &CanonicalType, b: &CanonicalType) -> (r: bool)
    ensures
        r == type_equal_view(a.deep_view(), b.deep_view()),
    decreases *a, 1int,
{
    match (a, b) {
        (CanonicalType::Unknown, _) => true,
        (_, CanonicalType::Unknown) => true,
        (CanonicalType::Integer, CanonicalType::Integer) => true,
        (CanonicalType::Char, CanonicalType::Char) => true,
        (
            CanonicalType::Array { base: b1, lower_bound: l1, upper_bound: u1 },
            CanonicalType::Array { base: b2, lower_bound: l2, upper_bound: u2 },
        ) => b1 == b2 && l1 == l2 && u1 == u2,
        (CanonicalType::Record(f1), CanonicalType::Record(f2)) => record_fields_equal(f1, f2),
        _ => false,
    }
}

/// Decide record compatibility: both field lists expose the same names and
/// every name-sharing pair of fields has compatible types.
fn record_fields_equal(f1: &Vec<RecordField>, f2: &Vec<RecordField>) -> (r: bool)
    ensures
        r == type_equal_view(
            CanonicalTypeView::Record(fields_view_from(f1@, 0)),
            CanonicalTypeView::Record(fields_view_from(f2@, 0)),
        ),
    decreases f1@, 0int,
{
    let ghost v1 = fields_view_from(f1@, 0);
    let ghost v2 = fields_view_from(f2@, 0);
    proof {
        lemma_fields_view_len(f1@, 0);
        lemma_fields_view_len(f2@, 0);
    }
    let mut i: usize = 0;
    while i < f1.len()
        invariant
            v1 == fields_view_from(f1@, 0),
            v2 == fields_view_from(f2@, 0),
            v1.len() == f1@.len(),
            v2.len() == f2@.len(),
            forall|k: int| 0 <= k < v1.len() ==> #[trigger] v1[k] == (
                f1@[k].name@,
                canon_view(f1@[k].field_type),
            ),
            forall|k: int| 0 <= k < v2.len() ==> #[trigger] v2[k] == (
                f2@[k].name@,
                canon_view(f2@[k].field_type),
            ),
            i <= f1@.len(),
            forall|k: int| #![trigger v1[k]] 0 <= k < i ==> fields_have_name(v2, v1[k].0),
            forall|k: int, j: int| #![trigger v1[k], v2[j]]
                0 <= k < i && 0 <= j < v2.len() && v1[k].0 == v2[j].0 ==> type_equal_view(
                    v1[k].1,
                    v2[j].1,
                ),
        decreases f1@.len() - i,
    {
        let mut found = false;
        let mut j: usize = 0;
        while j < f2.len()
            invariant
                v1 == fields_view_from(f1@, 0),
                v2 == fields_view_from(f2@, 0),
                v1.len() == f1@.len(),
                v2.len() == f2@.len(),
                forall|k: int| 0 <= k < v1.len() ==> #[trigger] v1[k] == (
                    f1@[k].name@,
                    canon_view(f1@[k].field_type),
                ),
                forall|k: int| 0 <= k < v2.len() ==> #[trigger] v2[k] == (
                    f2@[k].name@,
                    canon_view(f2@[k].field_type),
                ),
                i < f1@.len(),
                j <= f2@.len(),
                found <==> exists|k: int| 0 <= k < j && #[trigger] v2[k].0 == v1[i as int].0,
                forall|k: int|
                    0 <= k < j && v2[k].0 == v1[i as int].0 ==> type_equal_view(
                        v1[i as int].1,
                        #[trigger] v2[k].1,
                    ),
            decreases f2@.len() - j,
        {
            if str_eq(f1[i].name.as_str(), f2[j].name.as_str()) {
                if !type_equal(&f1[i].field_type, &f2[j].field_type) {
                    proof {
                        assert(v1[i as int].0 == v2[j as int].0);
                        assert(!type_equal_view(v1[i as int].1, v2[j as int].1));
                        assert(!record_view_equal(v1, v2)) by {
                            if record_view_equal(v1, v2) {
                                assert(type_equal_view(v1[i as int].1, v2[j as int].1));
                            }
                        }
                    }
                    return false;
                }
                found = true;
                proof {
                    assert(v2[j as int].0 == v1[i as int].0);
                }
            } else {
                proof {
                    assert(v2[j as int].0 != v1[i as int].0);
                }
            }
            j += 1;
        }
        if !found {
            proof {
                assert(forall|k: int| 0 <= k < v2.len() ==> #[trigger] v2[k].0 != v1[i as int].0);
                assert(!fields_have_name(v2, v1[i as int].0));
                assert(!record_view_equal(v1, v2)) by {
                    if record_view_equal(v1, v2) {
                        assert(fields_have_name(v2, v1[i as int].0));
                    }
                }
            }
            return false;
        }
        proof {
            assert(fields_have_name(v2, v1[i as int].0));
        }
        i += 1;
    }
    let mut j: usize = 0;
    while j < f2.len()
        invariant
            v1 == fields_view_from(f1@, 0),
            v2 == fields_view_from(f2@, 0),
            v1.len() == f1@.len(),
            v2.len() == f2@.len(),
            forall|k: int| 0 <= k < v1.len() ==> #[trigger] v1[k] == (
                f1@[k].name@,
                canon_view(f1@[k].field_type),
            ),
            forall|k: int| 0 <= k < v2.len() ==> #[trigger] v2[k] == (
                f2@[k].name@,
                canon_view(f2@[k].field_type),
            ),
            j <= f2@.len(),
            forall|k: int| #![trigger v1[k]] 0 <= k < v1.len() ==> fields_have_name(v2, v1[k].0),
            forall|k: int, m: int| #![trigger v1[k], v2[m]]
                0 <= k < v1.len() && 0 <= m < v2.len() && v1[k].0 == v2[m].0 ==> type_equal_view(
                    v1[k].1,
                    v2[m].1,
                ),
            forall|k: int| #![trigger v2[k]] 0 <= k < j ==> fields_have_name(v1, v2[k].0),
        decreases f2@.len() - j,
    {
        let mut found = false;
        let mut k: usize = 0;
        while k < f1.len()
            invariant
                v1 == fields_view_from(f1@, 0),
                v1.len() == f1@.len(),
                v2.len() == f2@.len(),
                forall|m: int| 0 <= m < v1.len() ==> #[trigger] v1[m] == (
                    f1@[m].name@,
                    canon_view(f1@[m].field_type),
                ),
                forall|m: int| 0 <= m < v2.len() ==> #[trigger] v2[m] == (
                    f2@[m].name@,
                    canon_view(f2@[m].field_type),
                ),
                j < f2@.len(),
                k <= f1@.len(),
                found <==> exists|m: int| 0 <= m < k && #[trigger] v1[m].0 == v2[j as int].0,
            decreases f1@.len() - k,
        {
            if str_eq(f1[k].name.as_str(), f2[j].name.as_str()) {
                found = true;
                proof {
                    assert(v1[k as int].0 == v2[j as int].0);
                }
            } else {
                proof {
                    assert(v1[k as int].0 != v2[j as int].0);
                }
            }
            k += 1;
        }
        if !found {
            proof {
                assert(forall|m: int| 0 <= m < v1.len() ==> #[trigger] v1[m].0 != v2[j as int].0);
                assert(!fields_have_name(v1, v2[j as int].0));
                assert(!record_view_equal(v1, v2)) by {
                    if record_view_equal(v1, v2) {
                        assert(fields_have_name(v1, v2[j as int].0));
                    }
                }
            }
            return false;
        }
        proof {
            assert(fields_have_name(v1, v2[j as int].0));
        }
        j += 1;
    }
    proof {
        assert(record_view_equal(v1, v2));
    }
    true
}

/// The field views from `i` on are as long as the fields from `i` on, and
/// each is the view of the field at its place.
pub proof fn lemma_fields_view_len(fields: Seq<RecordField>, i: int)
    requires
        0 <= i <= fields.len(),
    ensures
        fields_view_from(fields, i).len() == fields.len() - i,
        forall|j: int|
            0 <= j < fields.len() - i ==> #[trigger] fields_view_from(fields, i)[j] == (
                fields[i + j].name@,
                canon_view(fields[i + j].field_type),
            ),
    decreases fields.len() - i,
{
    if i < fields.len() {
        lemma_fields_view_len(fields, i + 1);
        assert forall|j: int| 0 <= j < fields.len() - i implies #[trigger] fields_view_from(
            fields,
            i,
        )[j] == (fields[i + j].name@, canon_view(fields[i + j].field_type)) by {
            if j > 0 {
                assert(fields_view_from(fields, i)[j] == fields_view_from(fields, i + 1)[j - 1]);
                assert(fields_view_from(fields, i + 1)[j - 1] == (
                    fields[i + 1 + (j - 1)].name@,
                    canon_view(fields[i + 1 + (j - 1)].field_type),
                ));
            }
        }
    }
}

/// Copy a canonical type; the copy has the same view.
pub fn clone_canonical(t: &CanonicalType) -> (r: CanonicalType)
    ensures
        r.deep_view() == t.deep_view(),
    decreases *t,
{
    match t {
        CanonicalType::Integer => CanonicalType::Integer,
        CanonicalType::Char => CanonicalType::Char,
        CanonicalType::Unknown => CanonicalType::Unknown,
        CanonicalType::Array { base, lower_bound, upper_bound } => CanonicalType::Array {
            base: *base,
            lower_bound: *lower_bound,
            upper_bound: *upper_bound,
        },
        CanonicalType::Record(fields) => {
            let mut out: Vec<RecordField> = Vec::new();
            let mut i: usize = 0;
            proof {
                lemma_fields_view_len(fields@, 0);
            }
            while i < fields.len()
                invariant
                    *t == CanonicalType::Record(*fields),
                    i <= fields@.len(),
                    out@.len() == i,
                    forall|k: int| #![trigger out@[k]]
                        0 <= k < i ==> out@[k].name@ == fields@[k].name@ && canon_view(
                            out@[k].field_type,
                        ) == canon_view(fields@[k].field_type),
                decreases fields@.len() - i,
            {
                proof {
                    assert(t->Record_0 == *fields);
                    assert(decreases_to!(*t => t->Record_0));
                    assert(decreases_to!(*fields => fields@));
                    assert(decreases_to!(fields@ => fields@[i as int]));
                    assert(decreases_to!(fields@[i as int] => fields@[i as int].field_type));
                    assert(decreases_to!(*t => fields@[i as int].field_type));
                }
                let field = RecordField {
                    name: fields[i].name.clone(),
                    field_type: clone_canonical(&fields[i].field_type),
                };
                let ghost prev = out@;
                out.push(field);
                proof {
                    assert(out@ == prev.push(field));
                    assert forall|k: int| #![trigger out@[k]] 0 <= k < i + 1 implies out@[k].name@
                        == fields@[k].name@ && canon_view(out@[k].field_type) == canon_view(
                        fields@[k].field_type,
                    ) by {
                        if k < i {
                            assert(out@[k] == prev[k]);
                        } else {
                            assert(out@[k] == field);
                        }
                    }
                }
                i += 1;
            }
            proof {
                lemma_fields_view_pointwise(out@, fields@, 0);
            }
            CanonicalType::Record(out)
        },
    }
}

/// Two field lists whose fields agree pointwise on name view and type view
/// have the same field views from any index on.
pub proof fn lemma_fields_view_pointwise(a: Seq<RecordField>, b: Seq<RecordField>, i: int)
    requires
        a.len() == b.len(),
        forall|k: int| #![trigger a[k]]
            0 <= k < a.len() ==> a[k].name@ == b[k].name@ && canon_view(a[k].field_type)
                == canon_view(b[k].field_type),
    ensures
        fields_view_from(a, i) == fields_view_from(b, i),
    decreases a.len() - i,
{
    if 0 <= i && i < a.len() {
        lemma_fields_view_pointwise(a, b, i + 1);
        assert(fields_view_from(a, i) =~= fields_view_from(b, i));
    } else {
        assert(fields_view_from(a, i) =~= fields_view_from(b, i));
    }
}

} // verus!
