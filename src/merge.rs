use vstd::prelude::*;
use vstd::string::*;
use crate::doc::{Doc, Kind, key_at, has_key, unique_keys, lookup, lemma_lookup_at};

verus! {

broadcast use vstd::std_specs::vec::group_vec_axioms;

/// An override that was refused because its variant differs from the base value's.
#[derive(Debug, Clone, PartialEq)]
pub struct Mismatch {
    /// Dotted path of the refused key.
    pub path: String,
    /// The variant that the base document holds there.
    pub expected: Kind,
    /// The variant that the override tried to put there.
    pub found: Kind,
}

/// The dotted path of `key` below `path` (the root has the empty path).
pub open spec fn joined(path: Seq<char>, key: Seq<char>) -> Seq<char> {
    if path.len() == 0 {
        key
    } else {
        path + "."@ + key
    }
}

/// `r` is what merging the override `o` into the base `b` yields.
/// Between two tables every key of either side is kept; a key only in the base
/// keeps its value, a key only in the override is taken over, nested tables merge
/// recursively, a value of the same variant replaces the base value, and a value
/// of another variant is refused, keeping the base value. Anything but two tables
/// leaves the base as it is.
pub open spec fn merged_into(b: Doc, o: Doc, r: Doc) -> bool
    decreases o,
{
    if b is Table && o is Table {
        let bt = b->Table_0@;
        let ot = o->Table_0@;
        &&& r is Table
        &&& unique_keys(r->Table_0@)
        &&& positions_kept(bt, ot, r->Table_0@)
        &&& forall|k: Seq<char>| #[trigger]
            has_key(r->Table_0@, k) <==> (has_key(bt, k) || has_key(ot, k))
        &&& forall|k: Seq<char>|
            !has_key(ot, k) ==> #[trigger] lookup(r->Table_0@, k) == lookup(bt, k)
        &&& forall|j: int|
            0 <= j < ot.len() ==> match lookup(bt, #[trigger] key_at(ot, j)) {
                None => lookup(r->Table_0@, key_at(ot, j)) == Some(ot[j].1),
                Some(bv) => if bv.kind_of() != ot[j].1.kind_of() {
                    lookup(r->Table_0@, key_at(ot, j)) == Some(bv)
                } else if bv is Table {
                    match lookup(r->Table_0@, key_at(ot, j)) {
                        Some(rv) => merged_into(bv, ot[j].1, rv),
                        None => false,
                    }
                } else {
                    lookup(r->Table_0@, key_at(ot, j)) == Some(ot[j].1)
                },
            }
    } else {
        r == b
    }
}

/// The entries of the base table `bt` keep their positions in `rt`, and every
/// entry after them holds a key of the override table `ot` that `bt` lacks.
pub open spec fn positions_kept(bt: Seq<(String, Doc)>, ot: Seq<(String, Doc)>, rt: Seq<(String, Doc)>) -> bool {
    &&& rt.len() >= bt.len()
    &&& forall|i: int| 0 <= i < bt.len() ==> #[trigger] key_at(rt, i) == key_at(bt, i)
    &&& forall|i: int|
        bt.len() <= i < rt.len() ==> !has_key(bt, #[trigger] key_at(rt, i)) && has_key(ot, key_at(rt, i))
}

/// `d` holds a mismatch record for the key `k` below `path`.
pub open spec fn reported(d: Seq<Mismatch>, path: Seq<char>, k: Seq<char>, expected: Kind, found: Kind) -> bool {
    exists|m: int|
        0 <= m < d.len() && (#[trigger] d[m]).path@ == joined(path, k) && d[m].expected == expected
            && d[m].found == found
}

/// Every override of `o` refused at the top level of the merge into `b` is recorded in `d`.
pub open spec fn refusals_reported(b: Doc, o: Doc, path: Seq<char>, d: Seq<Mismatch>) -> bool {
    b is Table && o is Table ==> forall|j: int|
        0 <= j < o->Table_0@.len() ==> match lookup(b->Table_0@, #[trigger] key_at(o->Table_0@, j)) {
            Some(bv) => bv.kind_of() != o->Table_0@[j].1.kind_of() ==> reported(
                d,
                path,
                key_at(o->Table_0@, j),
                bv.kind_of(),
                o->Table_0@[j].1.kind_of(),
            ),
            None => true,
        }
}

/// A refusal as a plain value: dotted path, base variant, override variant.
pub open spec fn record_of(m: Mismatch) -> (Seq<char>, Kind, Kind) {
    (m.path@, m.expected, m.found)
}

/// The refusal records held in `d`, as plain values.
pub open spec fn records(d: Seq<Mismatch>) -> Seq<(Seq<char>, Kind, Kind)> {
    d.map_values(|m: Mismatch| record_of(m))
}

/// The number of entries of a table (zero for anything else).
pub open spec fn table_len(o: Doc) -> int {
    if o is Table {
        o->Table_0@.len() as int
    } else {
        0
    }
}

/// The refusals, in order and at every depth, of merging the first `n` entries of
/// the override `o` into the base `b` at `path`.
pub open spec fn refusals_upto(b: Doc, o: Doc, n: int, path: Seq<char>) -> Seq<(Seq<char>, Kind, Kind)>
    decreases o, n,
{
    if !(b is Table && o is Table) || n <= 0 || n > o->Table_0@.len() {
        Seq::empty()
    } else {
        let k = key_at(o->Table_0@, n - 1);
        let ov = o->Table_0@[n - 1].1;
        refusals_upto(b, o, n - 1, path) + match lookup(b->Table_0@, k) {
            None => Seq::empty(),
            Some(bv) => if bv.kind_of() != ov.kind_of() {
                seq![(joined(path, k), bv.kind_of(), ov.kind_of())]
            } else if bv is Table {
                refusals_upto(bv, ov, table_len(ov), joined(path, k))
            } else {
                Seq::empty()
            },
        }
    }
}

/// Every refusal, in order and at every depth, of merging `o` into `b` at `path`:
/// one for each key present on both sides whose variants differ.
pub open spec fn refusals(b: Doc, o: Doc, path: Seq<char>) -> Seq<(Seq<char>, Kind, Kind)> {
    refusals_upto(b, o, table_len(o), path)
}

proof fn lemma_records_push(d: Seq<Mismatch>, m: Mismatch)
    ensures
        records(d.push(m)) == records(d).push(record_of(m)),
{
    assert(records(d.push(m)) =~= records(d).push(record_of(m)));
}

proof fn lemma_update_entry(t: Seq<(String, Doc)>, i: int, v: Doc)
    requires
        unique_keys(t),
        0 <= i < t.len(),
    ensures
        unique_keys(t.update(i, (t[i].0, v))),
        forall|k: Seq<char>| #[trigger] has_key(t.update(i, (t[i].0, v)), k) == has_key(t, k),
        forall|k: Seq<char>|
            #[trigger] lookup(t.update(i, (t[i].0, v)), k) == if k == key_at(t, i) {
                Some(v)
            } else {
                lookup(t, k)
            },
{
    let t2 = t.update(i, (t[i].0, v));
    assert forall|a: int, b: int| 0 <= a < t2.len() && 0 <= b < t2.len() && a != b implies #[trigger] key_at(t2, a)
        != #[trigger] key_at(t2, b) by {
        assert(key_at(t2, a) == key_at(t, a));
        assert(key_at(t2, b) == key_at(t, b));
    }
    assert forall|k: Seq<char>| #[trigger] has_key(t2, k) == has_key(t, k) by {
        if has_key(t, k) {
            let a = choose|a: int| 0 <= a < t.len() && #[trigger] key_at(t, a) == k;
            assert(key_at(t2, a) == k);
        }
        if has_key(t2, k) {
            let a = choose|a: int| 0 <= a < t2.len() && #[trigger] key_at(t2, a) == k;
            assert(key_at(t, a) == k);
        }
    }
    assert forall|k: Seq<char>|
        #[trigger] lookup(t2, k) == if k == key_at(t, i) {
            Some(v)
        } else {
            lookup(t, k)
        } by {
        if has_key(t, k) {
            let a = choose|a: int| 0 <= a < t.len() && #[trigger] key_at(t, a) == k;
            lemma_lookup_at(t, a);
            assert(key_at(t2, a) == k);
            lemma_lookup_at(t2, a);
        }
    }
}

proof fn lemma_push_entry(t: Seq<(String, Doc)>, key: String, v: Doc)
    requires
        unique_keys(t),
        !has_key(t, key@),
    ensures
        unique_keys(t.push((key, v))),
        forall|k: Seq<char>| #[trigger] has_key(t.push((key, v)), k) == (has_key(t, k) || k == key@),
        forall|k: Seq<char>|
            #[trigger] lookup(t.push((key, v)), k) == if k == key@ {
                Some(v)
            } else {
                lookup(t, k)
            },
{
    let t2 = t.push((key, v));
    assert forall|a: int, b: int| 0 <= a < t2.len() && 0 <= b < t2.len() && a != b implies #[trigger] key_at(t2, a)
        != #[trigger] key_at(t2, b) by {
        if a < t.len() {
            assert(key_at(t2, a) == key_at(t, a));
        }
        if b < t.len() {
            assert(key_at(t2, b) == key_at(t, b));
        }
    }
    assert(key_at(t2, t.len() as int) == key@);
    assert forall|k: Seq<char>| #[trigger] has_key(t2, k) == (has_key(t, k) || k == key@) by {
        if has_key(t, k) {
            let a = choose|a: int| 0 <= a < t.len() && #[trigger] key_at(t, a) == k;
            assert(key_at(t2, a) == k);
        }
        if has_key(t2, k) && k != key@ {
            let a = choose|a: int| 0 <= a < t2.len() && #[trigger] key_at(t2, a) == k;
            assert(key_at(t, a) == k);
        }
    }
    assert forall|k: Seq<char>|
        #[trigger] lookup(t2, k) == if k == key@ {
            Some(v)
        } else {
            lookup(t, k)
        } by {
        if k == key@ {
            lemma_lookup_at(t2, t.len() as int);
        } else if has_key(t, k) {
            let a = choose|a: int| 0 <= a < t.len() && #[trigger] key_at(t, a) == k;
            lemma_lookup_at(t, a);
            assert(key_at(t2, a) == k);
            lemma_lookup_at(t2, a);
        }
    }
}

/// The position of `k` in the table, if it is there.
pub(crate) fn find_key(t: &Vec<(String, Doc)>, k: &String) -> (r: Option<usize>)
    ensures
        match r {
            Some(i) => i < t@.len() && key_at(t@, i as int) == k@,
            None => !has_key(t@, k@),
        },
{
    let mut i: usize = 0;
    while i < t.len()
        invariant
            i <= t@.len(),
            forall|a: int| 0 <= a < i ==> #[trigger] key_at(t@, a) != k@,
        decreases t@.len() - i,
    {
        if t[i].0 == *k {
            return Some(i);
        }
        i += 1;
    }
    None
}

fn join_path(path: &str, key: &String) -> (r: String)
    ensures
        r@ == joined(path@, key@),
{
    if path.is_empty() {
        key.clone()
    } else {
        let mut r = path.to_owned();
        proof { reveal_strlit("."); }
        r.append(".");
        r.append(key.as_str());
        r
    }
}

/// Entry `j` of the override table `ot` has been applied to `rt`, as [`merged_into`] says.
pub open spec fn entry_applied(bt: Seq<(String, Doc)>, ot: Seq<(String, Doc)>, j: int, rt: Seq<(String, Doc)>) -> bool {
    match lookup(bt, key_at(ot, j)) {
        None => lookup(rt, key_at(ot, j)) == Some(ot[j].1),
        Some(bv) => if bv.kind_of() != ot[j].1.kind_of() {
            lookup(rt, key_at(ot, j)) == Some(bv)
        } else if bv is Table {
            match lookup(rt, key_at(ot, j)) {
                Some(rv) => merged_into(bv, ot[j].1, rv),
                None => false,
            }
        } else {
            lookup(rt, key_at(ot, j)) == Some(ot[j].1)
        },
    }
}

/// A refusal of entry `j` of the override table `ot`, if any, is recorded in `d`.
pub open spec fn entry_reported(bt: Seq<(String, Doc)>, ot: Seq<(String, Doc)>, j: int, path: Seq<char>, d: Seq<Mismatch>) -> bool {
    match lookup(bt, key_at(ot, j)) {
        Some(bv) => bv.kind_of() != ot[j].1.kind_of() ==> reported(
            d,
            path,
            key_at(ot, j),
            bv.kind_of(),
            ot[j].1.kind_of(),
        ),
        None => true,
    }
}

proof fn lemma_reported_grows(
    bt: Seq<(String, Doc)>,
    ot: Seq<(String, Doc)>,
    j: int,
    path: Seq<char>,
    d1: Seq<Mismatch>,
    d2: Seq<Mismatch>,
)
    requires
        entry_reported(bt, ot, j, path, d1),
        d2.len() >= d1.len(),
        d2.subrange(0, d1.len() as int) == d1,
    ensures
        entry_reported(bt, ot, j, path, d2),
{
    if let Some(bv) = lookup(bt, key_at(ot, j)) {
        if bv.kind_of() != ot[j].1.kind_of() {
            let m = choose|m: int|
                0 <= m < d1.len() && (#[trigger] d1[m]).path@ == joined(path, key_at(ot, j))
                    && d1[m].expected == bv.kind_of() && d1[m].found == ot[j].1.kind_of();
            assert(d2[m] == d1[m]);
        }
    }
}

/// Merges the override document into the base, key by key (see [`merged_into`]).
/// Each refused override is recorded in `diags`, after what it held before.
pub fn merge_with_fallback(base: &mut Doc, override_v: Doc, path: &str, diags: &mut Vec<Mismatch>)
    requires
        old(base).wf(),
        override_v.wf(),
    ensures
        final(base).wf(),
        merged_into(*old(base), override_v, *final(base)),
        final(diags)@.len() >= old(diags)@.len(),
        final(diags)@.subrange(0, old(diags)@.len() as int) == old(diags)@,
        refusals_reported(*old(base), override_v, path@, final(diags)@),
        records(final(diags)@) == records(old(diags)@) + refusals(*old(base), override_v, path@),
    decreases override_v,
{
    if base.kind() != Kind::Table {
        proof { assert(records(diags@) =~= records(diags@) + refusals(*base, override_v, path@)); }
        return;
    }
    let ghost ov0 = override_v;
    let ghost b0 = *base;
    let ot = match override_v {
        Doc::Table(ot) => ot,
        _ => {
            proof { assert(records(diags@) =~= records(diags@) + refusals(b0, ov0, path@)); }
            return;
        },
    };
    let mut taken = Doc::Boolean(false);
    std::mem::swap(base, &mut taken);
    let mut cur = match taken {
        Doc::Table(bt) => bt,
        _ => {
            return;
        },
    };
    let ghost bt0 = cur@;
    let ghost ot0 = ot@;
    let ghost d0 = diags@;
    let mut rest = ot;
    let n = rest.len();
    let mut j: usize = 0;
    while j < n
        invariant
            ov0 == override_v,
            ov0 is Table,
            b0 is Table,
            b0->Table_0@ == bt0,
            ot0 == ov0->Table_0@,
            unique_keys(bt0),
            unique_keys(ot0),
            forall|a: int| 0 <= a < bt0.len() ==> (#[trigger] bt0[a]).1.wf(),
            forall|a: int| 0 <= a < ot0.len() ==> (#[trigger] ot0[a]).1.wf(),
            n == ot0.len(),
            j <= n,
            rest@ == ot0.subrange(j as int, n as int),
            unique_keys(cur@),
            forall|a: int| 0 <= a < cur@.len() ==> (#[trigger] cur@[a]).1.wf(),
            forall|k: Seq<char>| #[trigger]
                has_key(cur@, k) <==> (has_key(bt0, k) || has_key(ot0.subrange(0, j as int), k)),
            forall|k: Seq<char>|
                !has_key(ot0.subrange(0, j as int), k) ==> #[trigger] lookup(cur@, k) == lookup(bt0, k),
            forall|jj: int| 0 <= jj < j ==> #[trigger] entry_applied(bt0, ot0, jj, cur@),
            forall|jj: int| 0 <= jj < j ==> #[trigger] entry_reported(bt0, ot0, jj, path@, diags@),
            records(diags@) == records(d0) + refusals_upto(b0, ov0, j as int, path@),
            positions_kept(bt0, ot0.subrange(0, j as int), cur@),
            diags@.len() >= d0.len(),
            diags@.subrange(0, d0.len() as int) == d0,
        decreases n - j,
    {
        let (k, ov) = rest.remove(0);
        proof {
            assert(ot0[j as int] == (k, ov));
            assert(key_at(ot0, j as int) == k@);
        }
        proof {
            assert forall|a: int| 0 <= a < j implies #[trigger] key_at(ot0.subrange(0, j as int), a) != k@ by {
                assert(key_at(ot0, a) != key_at(ot0, j as int));
            }
        }
        let found = find_key(&cur, &k);
        let new_path = join_path(path, &k);
        let ghost cur_before = cur@;
        let ghost d_before = diags@;
        match found {
            None => {
                proof {
                    lemma_push_entry(cur@, k, ov);
                    assert(lookup(bt0, k@) is None);
                    assert(refusals_upto(b0, ov0, j + 1, path@) =~= refusals_upto(b0, ov0, j as int, path@));
                }
                cur.push((k, ov));
            },
            Some(i) => {
                proof { lemma_lookup_at(cur@, i as int); }
                let (bk, mut bv) = cur.remove(i);
                let ghost bv0 = bv;
                proof { assert(lookup(bt0, k@) == Some(bv0)); }
                if bv.kind() != ov.kind() {
                    diags.push(Mismatch { path: new_path, expected: bv.kind(), found: ov.kind() });
                    proof {
                        let m = diags@.len() - 1;
                        assert(diags@[m].path@ == joined(path@, key_at(ot0, j as int)));
                        assert(reported(diags@, path@, key_at(ot0, j as int), bv.kind_of(), ov.kind_of()));
                        lemma_records_push(d_before, diags@[m]);
                        assert(diags@ == d_before.push(diags@[m]));
                        assert(refusals_upto(b0, ov0, j + 1, path@) =~= refusals_upto(b0, ov0, j as int, path@)
                            + seq![(joined(path@, k@), bv0.kind_of(), ov.kind_of())]);
                    }
                } else if bv.kind() == Kind::Table {
                    proof {
                        let ov_vec = ov0->Table_0;
                        assert(decreases_to!(ov0 => ov_vec));
                        assert(decreases_to!(ov_vec => ov_vec@));
                        assert(decreases_to!(ot0 => ot0[j as int]));
                        assert(decreases_to!(ot0[j as int] => ot0[j as int].1));
                        assert(decreases_to!(ov0 => ov));
                    }
                    merge_with_fallback(&mut bv, ov, new_path.as_str(), diags);
                    proof {
                        assert(refusals_upto(b0, ov0, j + 1, path@) =~= refusals_upto(b0, ov0, j as int, path@)
                            + refusals(bv0, ov, joined(path@, k@)));
                    }
                } else {
                    proof {
                        assert(refusals_upto(b0, ov0, j + 1, path@) =~= refusals_upto(b0, ov0, j as int, path@));
                    }
                    bv = ov;
                }
                cur.insert(i, (bk, bv));
                proof {
                    assert(cur@ =~= cur_before.update(i as int, (cur_before[i as int].0, bv)));
                    lemma_update_entry(cur_before, i as int, bv);
                }
            },
        }
        proof {
            assert(ot0.subrange(0, j + 1) =~= ot0.subrange(0, j as int).push(ot0[j as int]));
            assert forall|kk: Seq<char>| #[trigger] has_key(ot0.subrange(0, j + 1), kk) == (has_key(
                ot0.subrange(0, j as int),
                kk,
            ) || kk == k@) by {
                let s1 = ot0.subrange(0, j + 1);
                let s0 = ot0.subrange(0, j as int);
                if has_key(s0, kk) {
                    let a = choose|a: int| 0 <= a < s0.len() && #[trigger] key_at(s0, a) == kk;
                    assert(key_at(s1, a) == kk);
                }
                if has_key(s1, kk) && kk != k@ {
                    let a = choose|a: int| 0 <= a < s1.len() && #[trigger] key_at(s1, a) == kk;
                    assert(key_at(s0, a) == kk);
                }
                if kk == k@ {
                    assert(key_at(s1, j as int) == kk);
                }
            }
            assert forall|jj: int| 0 <= jj < j + 1 implies #[trigger] entry_reported(bt0, ot0, jj, path@, diags@) by {
                if jj < j {
                    assert(entry_reported(bt0, ot0, jj, path@, d_before));
                    assert(diags@.subrange(0, d_before.len() as int) =~= d_before);
                    lemma_reported_grows(bt0, ot0, jj, path@, d_before, diags@);
                }
            }
            assert forall|jj: int| 0 <= jj < j implies #[trigger] entry_applied(bt0, ot0, jj, cur@) by {
                assert(entry_applied(bt0, ot0, jj, cur_before));
                assert(key_at(ot0, jj) != k@);
            }
            assert(diags@.subrange(0, d0.len() as int) =~= d0);
            assert(records(diags@) =~= records(d0) + refusals_upto(b0, ov0, j + 1, path@));
            assert forall|i: int| 0 <= i < bt0.len() implies #[trigger] key_at(cur@, i) == key_at(bt0, i) by {
                assert(key_at(cur_before, i) == key_at(bt0, i));
            }
            assert forall|i: int| bt0.len() <= i < cur@.len() implies !has_key(bt0, #[trigger] key_at(cur@, i))
                && has_key(ot0.subrange(0, j + 1), key_at(cur@, i)) by {
                if i < cur_before.len() {
                    assert(key_at(cur_before, i) == key_at(cur@, i));
                    assert(has_key(ot0.subrange(0, j as int), key_at(cur@, i)));
                } else {
                    assert(key_at(cur@, i) == k@);
                }
            }
            assert(positions_kept(bt0, ot0.subrange(0, j + 1), cur@));
            assert(entry_applied(bt0, ot0, j as int, cur@));
        }
        j += 1;
    }
    proof {
        assert(ot0.subrange(0, n as int) =~= ot0);
        assert(positions_kept(bt0, ot0, cur@));
        assert forall|jj: int| 0 <= jj < ot0.len() implies #[trigger] entry_reported(bt0, ot0, jj, path@, diags@) by {}
        assert forall|jj: int| 0 <= jj < ot0.len() implies #[trigger] entry_applied(bt0, ot0, jj, cur@) by {}
    }
    *base = Doc::Table(cur);
    proof {
        assert(b0->Table_0@ == bt0);
        let rt = cur@;
        assert forall|k: Seq<char>| #[trigger] has_key(rt, k) <==> (has_key(bt0, k) || has_key(ot0, k)) by {
            assert(has_key(ot0.subrange(0, n as int), k) == has_key(ot0, k));
        }
        assert forall|k: Seq<char>| !has_key(ot0, k) implies #[trigger] lookup(rt, k) == lookup(bt0, k) by {
            assert(has_key(ot0.subrange(0, n as int), k) == has_key(ot0, k));
        }
        assert forall|jj: int|
            0 <= jj < ot0.len() implies match lookup(bt0, #[trigger] key_at(ot0, jj)) {
                None => lookup(rt, key_at(ot0, jj)) == Some(ot0[jj].1),
                Some(bv) => if bv.kind_of() != ot0[jj].1.kind_of() {
                    lookup(rt, key_at(ot0, jj)) == Some(bv)
                } else if bv is Table {
                    match lookup(rt, key_at(ot0, jj)) {
                        Some(rv) => merged_into(bv, ot0[jj].1, rv),
                        None => false,
                    }
                } else {
                    lookup(rt, key_at(ot0, jj)) == Some(ot0[jj].1)
                },
            } by {
            assert(entry_applied(bt0, ot0, jj, rt));
        }
        assert forall|jj: int|
            0 <= jj < ot0.len() implies match lookup(bt0, #[trigger] key_at(ot0, jj)) {
                Some(bv) => bv.kind_of() != ot0[jj].1.kind_of() ==> reported(
                    diags@,
                    path@,
                    key_at(ot0, jj),
                    bv.kind_of(),
                    ot0[jj].1.kind_of(),
                ),
                None => true,
            } by {
            assert(entry_reported(bt0, ot0, jj, path@, diags@));
        }
        assert(merged_into(b0, ov0, *base));
        assert(refusals_reported(b0, ov0, path@, diags@));
    }
}

proof fn lemma_override_entry(bt: Seq<(String, Doc)>, ot: Seq<(String, Doc)>, k: Seq<char>) -> (j: int)
    requires
        unique_keys(ot),
        has_key(ot, k),
    ensures
        0 <= j < ot.len(),
        key_at(ot, j) == k,
        lookup(ot, k) == Some(ot[j].1),
{
    let j = choose|j: int| 0 <= j < ot.len() && #[trigger] key_at(ot, j) == k;
    lemma_lookup_at(ot, j);
    j
}

/// Where the base and the override both hold a table under `k`, the result holds
/// the merge of those two tables there, and every key that the override leaves
/// alone keeps its base value.
pub proof fn lemma_nested_tables_merge(b: Doc, o: Doc, r: Doc, k: Seq<char>)
    requires
        o.wf(),
        merged_into(b, o, r),
        b is Table,
        o is Table,
        lookup(b->Table_0@, k) matches Some(bv) && bv is Table,
        lookup(o->Table_0@, k) matches Some(ov) && ov is Table,
    ensures
        lookup(r->Table_0@, k) matches Some(rv) && merged_into(
            lookup(b->Table_0@, k)->Some_0,
            lookup(o->Table_0@, k)->Some_0,
            rv,
        ),
        forall|k2: Seq<char>|
            !has_key(o->Table_0@, k2) ==> #[trigger] lookup(r->Table_0@, k2) == lookup(b->Table_0@, k2),
{
    let j = lemma_override_entry(b->Table_0@, o->Table_0@, k);
    assert(key_at(o->Table_0@, j) == k);
}

/// Where the override holds under `k` a value of another variant than the base,
/// the result keeps the base value there and the refusal is recorded.
pub proof fn lemma_mismatch_keeps_base(b: Doc, o: Doc, r: Doc, path: Seq<char>, d: Seq<Mismatch>, k: Seq<char>)
    requires
        o.wf(),
        merged_into(b, o, r),
        refusals_reported(b, o, path, d),
        b is Table,
        o is Table,
        lookup(b->Table_0@, k) is Some,
        lookup(o->Table_0@, k) is Some,
        lookup(b->Table_0@, k)->Some_0.kind_of() != lookup(o->Table_0@, k)->Some_0.kind_of(),
    ensures
        lookup(r->Table_0@, k) == lookup(b->Table_0@, k),
        reported(
            d,
            path,
            k,
            lookup(b->Table_0@, k)->Some_0.kind_of(),
            lookup(o->Table_0@, k)->Some_0.kind_of(),
        ),
{
    let j = lemma_override_entry(b->Table_0@, o->Table_0@, k);
    assert(key_at(o->Table_0@, j) == k);
}

/// Merging an empty override table changes nothing: the result holds the base
/// table's entries, key for key and value for value, in the same positions, and
/// nothing is refused.
pub proof fn lemma_empty_override_changes_nothing(b: Doc, o: Doc, r: Doc, path: Seq<char>)
    requires
        b.wf(),
        merged_into(b, o, r),
        b is Table,
        o is Table,
        o->Table_0@.len() == 0,
    ensures
        r->Table_0@.len() == b->Table_0@.len(),
        forall|i: int|
            0 <= i < b->Table_0@.len() ==> #[trigger] key_at(r->Table_0@, i) == key_at(b->Table_0@, i)
                && r->Table_0@[i].1 == b->Table_0@[i].1,
        refusals(b, o, path) == Seq::<(Seq<char>, Kind, Kind)>::empty(),
{
    let bt = b->Table_0@;
    let ot = o->Table_0@;
    let rt = r->Table_0@;
    if rt.len() > bt.len() {
        let i = bt.len() as int;
        assert(has_key(ot, key_at(rt, i)));
        let a = choose|a: int| 0 <= a < ot.len() && #[trigger] key_at(ot, a) == key_at(rt, i);
    }
    assert forall|i: int| 0 <= i < bt.len() implies #[trigger] key_at(rt, i) == key_at(bt, i) && rt[i].1 == bt[i].1 by {
        let k = key_at(bt, i);
        if has_key(ot, k) {
            let a = choose|a: int| 0 <= a < ot.len() && #[trigger] key_at(ot, a) == k;
        }
        lemma_lookup_at(bt, i);
        assert(key_at(rt, i) == k);
        lemma_lookup_at(rt, i);
    }
}

} // verus!
