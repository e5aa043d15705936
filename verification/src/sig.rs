//! Textual type signatures: rendering a syntactic type to its signature
//! string and reading simple signatures back.
//!
//! A signature begins with a letter for `integer` and `char`, `[` for an
//! array, `{` for a record and `#` for a named alias. Record signatures
//! group field names by field-type signature and sort both, so equivalent
//! records render identically. Rendering is for diagnostics and tests; the
//! analysis itself compares canonical values, never strings.

use vstd::prelude::*;
use vstd::string::*;
use crate::ast::{Positional, SNLBaseType, SNLType, SNLTypeArray, TypedIdentifiers};
use crate::symbol::{scope_deep, scope_index_of, scope_scan};
use crate::text::str_eq;

verus! {

/// The digit character of one decimal digit.
pub open spec fn dec_digit(d: nat) -> char {
    if d == 0 {
        '0'
    } else if d == 1 {
        '1'
    } else if d == 2 {
        '2'
    } else if d == 3 {
        '3'
    } else if d == 4 {
        '4'
    } else if d == 5 {
        '5'
    } else if d == 6 {
        '6'
    } else if d == 7 {
        '7'
    } else if d == 8 {
        '8'
    } else {
        '9'
    }
}

/// The decimal rendering of a number, most significant digit first.
pub open spec fn dec_rep(n: nat) -> Seq<char>
    decreases n,
{
    if n < 10 {
        seq![dec_digit(n)]
    } else {
        dec_rep(n / 10).push(dec_digit(n % 10))
    }
}

/// One decimal digit as a string slice.
fn digit_str(d: usize) -> (r: &'static str)
    requires
        d < 10,
    ensures
        r@ == seq![dec_digit(d as nat)],
{
    proof {
        reveal_strlit("0");
        reveal_strlit("1");
        reveal_strlit("2");
        reveal_strlit("3");
        reveal_strlit("4");
        reveal_strlit("5");
        reveal_strlit("6");
        reveal_strlit("7");
        reveal_strlit("8");
        reveal_strlit("9");
    }
    if d == 0 {
        "0"
    } else if d == 1 {
        "1"
    } else if d == 2 {
        "2"
    } else if d == 3 {
        "3"
    } else if d == 4 {
        "4"
    } else if d == 5 {
        "5"
    } else if d == 6 {
        "6"
    } else if d == 7 {
        "7"
    } else if d == 8 {
        "8"
    } else {
        "9"
    }
}

/// Render a number in decimal.
pub fn render_usize(n: usize) -> (r: String)
    ensures
        r@ == dec_rep(n as nat),
    decreases n,
{
    if n < 10 {
        digit_str(n).to_owned()
    } else {
        let mut s = render_usize(n / 10);
        s.append(digit_str(n % 10));
        proof {
            assert(s@ =~= dec_rep(n as nat));
        }
        s
    }
}

impl SNLTypeArray {
    /// The array signature `[lower..upper;base]`.
    pub fn to_string(&self) -> (r: String)
        ensures
            r@ == seq!['['] + dec_rep(self.lower_bound as nat) + seq!['.', '.'] + dec_rep(
                self.upper_bound as nat,
            ) + seq![';'] + (if self.base is Integer {
                "integer"@
            } else {
                "char"@
            }) + seq![']'],
    {
        proof {
            reveal_strlit("[");
            reveal_strlit("..");
            reveal_strlit(";");
            reveal_strlit("]");
        }
        let mut s = "[".to_owned();
        s.append(render_usize(self.lower_bound).as_str());
        s.append("..");
        s.append(render_usize(self.upper_bound).as_str());
        s.append(";");
        let base = self.base.to_string();
        s.append(base.as_str());
        s.append("]");
        proof {
            assert(s@ =~= seq!['['] + dec_rep(self.lower_bound as nat) + seq!['.', '.'] + dec_rep(
                self.upper_bound as nat,
            ) + seq![';'] + (if self.base is Integer {
                "integer"@
            } else {
                "char"@
            }) + seq![']']);
        }
        s
    }
}

/// Whether `a` orders strictly before `b`, character by character.
pub open spec fn lex_lt(a: Seq<char>, b: Seq<char>) -> bool
    decreases a.len(),
{
    if b.len() == 0 {
        false
    } else if a.len() == 0 {
        true
    } else if a[0] != b[0] {
        (a[0] as u32) < (b[0] as u32)
    } else {
        lex_lt(a.drop_first(), b.drop_first())
    }
}

/// Decide the lexicographic order of two strings.
fn str_lt(a: &str, b: &str) -> (r: bool)
    ensures
        r == lex_lt(a@, b@),
{
    let an = a.unicode_len();
    let bn = b.unicode_len();
    proof {
        assert(a@.skip(0) =~= a@);
        assert(b@.skip(0) =~= b@);
    }
    let mut i: usize = 0;
    while i < an && i < bn
        invariant
            an == a@.len(),
            bn == b@.len(),
            i <= an,
            i <= bn,
            forall|k: int| 0 <= k < i ==> a@[k] == b@[k],
            lex_lt(a@, b@) == lex_lt(a@.skip(i as int), b@.skip(i as int)),
        decreases an - i,
    {
        let ca = a.get_char(i);
        let cb = b.get_char(i);
        if ca != cb {
            proof {
                assert(a@.skip(i as int)[0] == ca);
                assert(b@.skip(i as int)[0] == cb);
            }
            return (ca as u32) < (cb as u32);
        }
        proof {
            assert(a@.skip(i as int).drop_first() =~= a@.skip(i + 1));
            assert(b@.skip(i as int).drop_first() =~= b@.skip(i + 1));
            assert(a@.skip(i as int)[0] == ca);
            assert(b@.skip(i as int)[0] == cb);
        }
        i += 1;
    }
    proof {
        assert(a@.skip(i as int).len() == an - i);
        assert(b@.skip(i as int).len() == bn - i);
    }
    i < bn
}

/// The signature of an array base type.
pub open spec fn base_sig(b: SNLBaseType) -> Seq<char> {
    if b is Integer {
        "integer"@
    } else {
        "char"@
    }
}

/// The signature string of a syntactic type: `integer` and `char` spelled
/// out, `#` before an alias name, the bracketed bounds and base of an
/// array, and for a record the brace-enclosed rows built below.
pub open spec fn type_sig(t: SNLType) -> Seq<char>
    decreases t, 0int, 0int,
{
    match t {
        SNLType::Integer => "integer"@,
        SNLType::Char => "char"@,
        SNLType::Others(n) => seq!['#'] + n@,
        SNLType::Array(a) => seq!['['] + dec_rep(a.lower_bound as nat) + seq!['.', '.'] + dec_rep(
            a.upper_bound as nat,
        ) + seq![';'] + base_sig(a.base) + seq![']'],
        SNLType::Record(groups) => seq!['{'] + render_rows(
            build_rows(groups@, 0, Seq::empty()),
            0,
        ) + seq!['}'],
    }
}

/// The record rows after folding in the groups from `gi` on: each row
/// pairs one field-type signature with the sorted names of that type.
pub open spec fn build_rows(
    groups: Seq<TypedIdentifiers>,
    gi: int,
    rows: Seq<(Seq<char>, Seq<Seq<char>>)>,
) -> Seq<(Seq<char>, Seq<Seq<char>>)>
    decreases groups, groups.len() - gi, 1int,
{
    if gi < 0 || gi >= groups.len() {
        rows
    } else {
        build_rows(
            groups,
            gi + 1,
            add_group(rows, type_sig(groups[gi].typename), groups[gi].identifiers@),
        )
    }
}

/// One group folded into the rows: the row of the group's type signature
/// is found, or created at its ordered place, and each identifier joins it.
pub open spec fn add_group(
    rows: Seq<(Seq<char>, Seq<Seq<char>>)>,
    ty: Seq<char>,
    ids: Seq<Positional<String>>,
) -> Seq<(Seq<char>, Seq<Seq<char>>)> {
    let r = scope_index_of(rows, ty, 0);
    if r >= 0 {
        add_ids(ids, 0, ty, rows, r)
    } else {
        let p = row_pos(rows, ty, 0);
        add_ids(ids, 0, ty, rows.insert(p, (ty, Seq::empty())), p)
    }
}

/// Where a new row of signature `ty` belongs: after every row that orders
/// strictly before it.
pub open spec fn row_pos(rows: Seq<(Seq<char>, Seq<Seq<char>>)>, ty: Seq<char>, i: int) -> int
    decreases rows.len() - i,
{
    if i < 0 || i >= rows.len() {
        rows.len() as int
    } else if lex_lt(rows[i].0, ty) {
        row_pos(rows, ty, i + 1)
    } else {
        i
    }
}

/// Where a name belongs in a row: after every name that orders strictly
/// before it.
pub open spec fn name_pos(names: Seq<Seq<char>>, n: Seq<char>, i: int) -> int
    decreases names.len() - i,
{
    if i < 0 || i >= names.len() {
        names.len() as int
    } else if lex_lt(names[i], n) {
        name_pos(names, n, i + 1)
    } else {
        i
    }
}

/// The identifiers from `k` on joined into the row at `idx`: each name is
/// inserted at its ordered place unless the row already carries it.
pub open spec fn add_ids(
    ids: Seq<Positional<String>>,
    k: int,
    ty: Seq<char>,
    rows: Seq<(Seq<char>, Seq<Seq<char>>)>,
    idx: int,
) -> Seq<(Seq<char>, Seq<Seq<char>>)>
    decreases ids.len() - k,
{
    if k < 0 || k >= ids.len() {
        rows
    } else {
        let names = rows[idx].1;
        let q = name_pos(names, ids[k].inner@, 0);
        let rows2 = if 0 <= q < names.len() && names[q] == ids[k].inner@ {
            rows
        } else {
            rows.update(idx, (ty, names.insert(q, ids[k].inner@)))
        };
        add_ids(ids, k + 1, ty, rows2, idx)
    }
}

/// A row's names joined with commas, from `k` on.
pub open spec fn join_names(names: Seq<Seq<char>>, k: int) -> Seq<char>
    decreases names.len() - k,
{
    if k < 0 || k >= names.len() {
        Seq::empty()
    } else {
        (if k > 0 {
            seq![',']
        } else {
            Seq::<char>::empty()
        }) + names[k] + join_names(names, k + 1)
    }
}

/// The rows rendered from `i` on: `names:type`, rows joined with
/// semicolons.
pub open spec fn render_rows(rows: Seq<(Seq<char>, Seq<Seq<char>>)>, i: int) -> Seq<char>
    decreases rows.len() - i,
{
    if i < 0 || i >= rows.len() {
        Seq::empty()
    } else {
        (if i > 0 {
            seq![';']
        } else {
            Seq::<char>::empty()
        }) + join_names(rows[i].1, 0) + seq![':'] + rows[i].0 + render_rows(rows, i + 1)
    }
}

impl SNLType {
    /// Render this type's signature, exactly as `type_sig` states it.
    pub fn to_string(&self) -> (r: String)
        ensures
            r@ == type_sig(*self),
        decreases *self, 1int, 0int,
    {
        match self {
            SNLType::Integer => "integer".to_owned(),
            SNLType::Char => "char".to_owned(),
            SNLType::Others(name) => {
                proof {
                    reveal_strlit("#");
                }
                let mut s = "#".to_owned();
                s.append(name.as_str());
                proof {
                    assert(s@ =~= seq!['#'] + name@);
                }
                s
            },
            SNLType::Array(a) => a.to_string(),
            SNLType::Record(groups) => {
                proof {
                    reveal_strlit("{");
                    reveal_strlit("}");
                    reveal_strlit(",");
                    reveal_strlit(":");
                    reveal_strlit(";");
                }
                // field names grouped by field-type signature, both sorted
                let mut table: Vec<(String, Vec<String>)> = Vec::new();
                let mut gi: usize = 0;
                proof {
                    assert(scope_deep(table@) =~= Seq::<(Seq<char>, Seq<Seq<char>>)>::empty());
                }
                while gi < groups.len()
                    invariant
                        *self == SNLType::Record(*groups),
                        gi <= groups@.len(),
                        build_rows(groups@, 0, Seq::empty()) == build_rows(
                            groups@,
                            gi as int,
                            scope_deep(table@),
                        ),
                    decreases groups@.len() - gi,
                {
                    proof {
                        assert(groups@[gi as int] == (*self)->Record_0@[gi as int]);
                        assert(decreases_to!(*self => self->Record_0));
                        assert(decreases_to!(self->Record_0 => self->Record_0@));
                        assert(decreases_to!(self->Record_0@ => self->Record_0@[gi as int]));
                        assert(decreases_to!(self->Record_0@[gi as int] =>
                            self->Record_0@[gi as int].typename));
                    }
                    let ghost rows0 = scope_deep(table@);
                    let ty = groups[gi].typename.to_string();
                    let ghost tyv = type_sig(groups@[gi as int].typename);
                    // find the row of this signature, or create it in order
                    let row: usize;
                    match scope_scan(&table, ty.as_str()) {
                        Some(r) => {
                            row = r;
                            proof {
                                crate::laws::lemma_scope_index_of_props(rows0, tyv, 0);
                            }
                        },
                        None => {
                            let mut at: usize = 0;
                            while at < table.len() && str_lt(table[at].0.as_str(), ty.as_str())
                                invariant
                                    rows0 == scope_deep(table@),
                                    at <= table@.len(),
                                    rows0.len() == table@.len(),
                                    row_pos(rows0, tyv, 0) == row_pos(rows0, tyv, at as int),
                                    ty@ == tyv,
                                decreases table@.len() - at,
                            {
                                proof {
                                    assert(rows0[at as int].0 == table@[at as int].0@);
                                    assert(row_pos(rows0, tyv, at as int) == row_pos(
                                        rows0,
                                        tyv,
                                        at + 1,
                                    ));
                                }
                                at += 1;
                            }
                            proof {
                                if at < table@.len() {
                                    assert(rows0[at as int].0 == table@[at as int].0@);
                                }
                                assert(row_pos(rows0, tyv, at as int) == at as int);
                            }
                            table.insert(at, (ty, Vec::new()));
                            proof {
                                assert(scope_deep(table@) =~~= rows0.insert(
                                    at as int,
                                    (tyv, Seq::<Seq<char>>::empty()),
                                ));
                            }
                            row = at;
                        },
                    }
                    let ghost rows1 = scope_deep(table@);
                    proof {
                        assert(add_group(rows0, tyv, groups@[gi as int].identifiers@) == add_ids(
                            groups@[gi as int].identifiers@,
                            0,
                            tyv,
                            rows1,
                            row as int,
                        ));
                        assert(rows1[row as int].0 == tyv);
                    }
                    // insert each field name at its ordered place, once
                    let ids = &groups[gi].identifiers;
                    let mut k: usize = 0;
                    while k < ids.len()
                        invariant
                            gi < groups@.len(),
                            ids == &groups@[gi as int].identifiers,
                            row < table@.len(),
                            scope_deep(table@).len() == table@.len(),
                            scope_deep(table@)[row as int].0 == tyv,
                            k <= ids@.len(),
                            add_ids(ids@, 0, tyv, rows1, row as int) == add_ids(
                                ids@,
                                k as int,
                                tyv,
                                scope_deep(table@),
                                row as int,
                            ),
                        decreases ids@.len() - k,
                    {
                        let name = &ids[k].inner;
                        let ghost rowsk = scope_deep(table@);
                        let ghost names_v = rowsk[row as int].1;
                        proof {
                            assert(names_v == table@[row as int].1.deep_view());
                        }
                        let mut at2: usize = 0;
                        let names_len = table[row].1.len();
                        while at2 < names_len && str_lt(table[row].1[at2].as_str(), name.as_str())
                            invariant
                                rowsk == scope_deep(table@),
                                row < table@.len(),
                                names_v == table@[row as int].1.deep_view(),
                                names_len == table@[row as int].1@.len(),
                                names_v.len() == names_len,
                                at2 <= names_len,
                                name_pos(names_v, ids@[k as int].inner@, 0) == name_pos(
                                    names_v,
                                    ids@[k as int].inner@,
                                    at2 as int,
                                ),
                                name == &ids@[k as int].inner,
                                k < ids@.len(),
                                ids == &groups@[gi as int].identifiers,
                                gi < groups@.len(),
                            decreases names_len - at2,
                        {
                            proof {
                                assert(names_v[at2 as int] == table@[row as int].1@[at2 as int]@);
                                assert(name_pos(names_v, ids@[k as int].inner@, at2 as int)
                                    == name_pos(names_v, ids@[k as int].inner@, at2 + 1));
                            }
                            at2 += 1;
                        }
                        proof {
                            if at2 < names_len {
                                assert(names_v[at2 as int] == table@[row as int].1@[at2 as int]@);
                            }
                            assert(name_pos(names_v, ids@[k as int].inner@, at2 as int)
                                == at2 as int);
                        }
                        let already = if at2 < names_len {
                            str_eq(table[row].1[at2].as_str(), name.as_str())
                        } else {
                            false
                        };
                        if !already {
                            let mut entry = table.remove(row);
                            entry.1.insert(at2, name.clone());
                            let ghost prevnames = names_v;
                            table.insert(row, entry);
                            proof {
                                assert(entry.1.deep_view() =~~= prevnames.insert(
                                    at2 as int,
                                    ids@[k as int].inner@,
                                ));
                                assert(scope_deep(table@) =~~= rowsk.update(
                                    row as int,
                                    (tyv, prevnames.insert(at2 as int, ids@[k as int].inner@)),
                                ));
                            }
                        } else {
                            proof {
                                assert(names_v[at2 as int] == ids@[k as int].inner@);
                            }
                        }
                        proof {
                            assert(add_ids(ids@, k as int, tyv, rowsk, row as int) == add_ids(
                                ids@,
                                k + 1,
                                tyv,
                                scope_deep(table@),
                                row as int,
                            ));
                        }
                        k += 1;
                    }
                    proof {
                        assert(add_ids(ids@, k as int, tyv, scope_deep(table@), row as int)
                            == scope_deep(table@));
                        assert(build_rows(groups@, gi as int, rows0) == build_rows(
                            groups@,
                            gi + 1,
                            scope_deep(table@),
                        ));
                    }
                    gi += 1;
                }
                proof {
                    assert(build_rows(groups@, gi as int, scope_deep(table@)) == scope_deep(
                        table@,
                    ));
                }
                let ghost rows_v = scope_deep(table@);
                // render the grouped rows
                let mut s = "{".to_owned();
                proof {
                    assert(s@ =~= seq!['{']);
                }
                let mut r2: usize = 0;
                while r2 < table.len()
                    invariant
                        rows_v == scope_deep(table@),
                        rows_v.len() == table@.len(),
                        r2 <= table@.len(),
                        seq!['{'] + render_rows(rows_v, 0) == s@ + render_rows(rows_v, r2 as int),
                    decreases table@.len() - r2,
                {
                    proof {
                        reveal_strlit(";");
                        reveal_strlit(":");
                        reveal_strlit(",");
                    }
                    let ghost srow = s@;
                    if r2 != 0 {
                        s.append(";");
                    }
                    proof {
                        assert(rows_v[r2 as int] == (
                            table@[r2 as int].0@,
                            table@[r2 as int].1.deep_view(),
                        ));
                        assert(s@ =~= srow + (if r2 > 0 {
                            seq![';']
                        } else {
                            Seq::<char>::empty()
                        }));
                    }
                    let names_n = table[r2].1.len();
                    let ghost names_v = rows_v[r2 as int].1;
                    let mut k2: usize = 0;
                    while k2 < names_n
                        invariant
                            rows_v == scope_deep(table@),
                            rows_v.len() == table@.len(),
                            r2 < table@.len(),
                            names_v == rows_v[r2 as int].1,
                            names_v == table@[r2 as int].1.deep_view(),
                            names_n == table@[r2 as int].1@.len(),
                            names_v.len() == names_n,
                            k2 <= names_n,
                            seq!['{'] + render_rows(rows_v, 0) == s@ + join_names(
                                names_v,
                                k2 as int,
                            ) + seq![':'] + rows_v[r2 as int].0 + render_rows(rows_v, r2 + 1),
                        decreases names_n - k2,
                    {
                        proof {
                            reveal_strlit(",");
                        }
                        let ghost sname = s@;
                        if k2 != 0 {
                            s.append(",");
                        }
                        s.append(table[r2].1[k2].as_str());
                        proof {
                            assert(names_v[k2 as int] == table@[r2 as int].1@[k2 as int]@);
                            assert(s@ =~= sname + (if k2 > 0 {
                                seq![',']
                            } else {
                                Seq::<char>::empty()
                            }) + names_v[k2 as int]);
                            assert(s@ + join_names(names_v, k2 + 1) =~= sname + join_names(
                                names_v,
                                k2 as int,
                            ));
                        }
                        k2 += 1;
                    }
                    proof {
                        assert(join_names(names_v, k2 as int) =~= Seq::<char>::empty());
                    }
                    s.append(":");
                    s.append(table[r2].0.as_str());
                    proof {
                        assert(s@ + render_rows(rows_v, r2 + 1) =~= srow + render_rows(
                            rows_v,
                            r2 as int,
                        ));
                    }
                    r2 += 1;
                }
                proof {
                    assert(render_rows(rows_v, r2 as int) =~= Seq::<char>::empty());
                }
                s.append("}");
                proof {
                    assert(s@ =~= seq!['{'] + render_rows(rows_v, 0) + seq!['}']);
                    assert(rows_v == build_rows(groups@, 0, Seq::empty()));
                }
                s
            },
        }
    }

    /// Read a simple signature back: `integer`, `char`, `#name`, or an
    /// array signature; record signatures are not read back.
    pub fn from_str(s: &str) -> (r: Option<SNLType>)
        ensures
            s@ == "integer"@ ==> r == Some(SNLType::Integer),
            s@ != "integer"@ && s@ == "char"@ ==> r == Some(SNLType::Char),
            r matches Some(t) ==> (t is Others ==> s@.len() >= 1 && s@[0] == '#'
                && t->Others_0@ == s@.skip(1)),
    {
        if str_eq(s, "integer") {
            return Some(SNLType::Integer);
        }
        if str_eq(s, "char") {
            return Some(SNLType::Char);
        }
        let n = s.unicode_len();
        if n == 0 {
            return None;
        }
        let first = s.get_char(0);
        if first == '#' {
            let rest = s.substring_char(1, n).to_owned();
            return Some(SNLType::Others(rest));
        }
        if first != '[' {
            return None;
        }
        // [lower..upper;base]
        let mut i: usize = 1;
        let lower = match read_number(s, &mut i) {
            Some(v) => v,
            None => {
                return None;
            },
        };
        if !expect_char(s, &mut i, '.') {
            return None;
        }
        if !expect_char(s, &mut i, '.') {
            return None;
        }
        let upper = match read_number(s, &mut i) {
            Some(v) => v,
            None => {
                return None;
            },
        };
        if !expect_char(s, &mut i, ';') {
            return None;
        }
        let base_start = i;
        let mut j: usize = i;
        while j < n && s.get_char(j) != ']'
            invariant
                n == s@.len(),
                base_start <= j <= n,
            decreases n - j,
        {
            j += 1;
        }
        if j >= n {
            return None;
        }
        let base_img = s.substring_char(base_start, j);
        let base = match SNLBaseType::from_str(base_img) {
            Some(b) => b,
            None => {
                return None;
            },
        };
        Some(SNLType::Array(SNLTypeArray { base, lower_bound: lower, upper_bound: upper }))
    }
}

/// Read a decimal run at `*i`, advancing past it.
fn read_number(s: &str, i: &mut usize) -> (r: Option<usize>)
    ensures
        *final(i) >= *old(i),
        *final(i) <= s@.len() || *final(i) == *old(i),
{
    let n = s.unicode_len();
    if *i >= n {
        return None;
    }
    let mut acc: usize = 0;
    let mut seen = false;
    while *i < n
        invariant
            n == s@.len(),
            *i <= n,
            *i >= *old(i),
        decreases n - *i,
    {
        let c = s.get_char(*i);
        let u = c as u32;
        if u < 48 || u > 57 {
            if seen {
                return Some(acc);
            }
            return None;
        }
        let d = (u - 48) as usize;
        acc = match acc.checked_mul(10) {
            Some(m) => match m.checked_add(d) {
                Some(a) => a,
                None => {
                    return None;
                },
            },
            None => {
                return None;
            },
        };
        seen = true;
        *i += 1;
    }
    if seen {
        Some(acc)
    } else {
        None
    }
}

/// Consume one expected character at `*i`.
fn expect_char(s: &str, i: &mut usize, c: char) -> (r: bool)
    ensures
        *final(i) >= *old(i),
        *final(i) <= *old(i) + 1,
        *final(i) <= s@.len() || *final(i) == *old(i),
{
    let n = s.unicode_len();
    if *i < n && s.get_char(*i) == c {
        *i += 1;
        true
    } else {
        false
    }
}

} // verus!
