use crate::moves::MoveDir;
use crate::orbit::{lemma_rotated_index, orbit_distinct, orbit_within, rotated, source_slot};
use vstd::prelude::*;
use vstd::set_lib::{lemma_int_range, lemma_subset_equality, set_int_range};

verus! {

/// The sequence holds every number from 0 up to its length, each of them once:
/// all its entries lie below its length and no two of them are equal.
pub open spec fn is_permutation_seq(s: Seq<int>) -> bool {
    &&& forall|i: int| 0 <= i < s.len() ==> 0 <= #[trigger] s[i] < s.len()
    &&& forall|i: int, j: int| 0 <= i < j < s.len() ==> s[i] != s[j]
}

/// The entries of a byte sequence as numbers.
pub open spec fn as_indices(s: Seq<u8>) -> Seq<int> {
    Seq::new(s.len(), |i: int| s[i] as int)
}

/// Every entry lies below `bound`.
pub open spec fn all_below(s: Seq<u8>, bound: int) -> bool {
    forall|i: int| 0 <= i < s.len() ==> (#[trigger] s[i]) < bound
}

/// The sum of the entries.
pub open spec fn total(s: Seq<u8>) -> int
    decreases s.len(),
{
    if s.len() == 0 {
        0
    } else {
        total(s.drop_last()) + s.last()
    }
}

/// How often `v` occurs among the entries.
pub open spec fn occurrences(s: Seq<u8>, v: u8) -> int
    decreases s.len(),
{
    if s.len() == 0 {
        0
    } else {
        occurrences(s.drop_last(), v) + if s.last() == v {
            1int
        } else {
            0int
        }
    }
}

/// A permutation of the numbers below `n` misses none of them.
pub proof fn lemma_permutation_onto(s: Seq<int>)
    requires
        is_permutation_seq(s),
    ensures
        forall|v: int| 0 <= v < s.len() ==> s.contains(v),
{
    let n = s.len() as int;
    let range = set_int_range(0, n);
    assert(s.no_duplicates());
    s.unique_seq_to_set();
    lemma_int_range(0, n);
    assert(s.to_set().subset_of(range)) by {
        assert forall|v: int| s.to_set().contains(v) implies range.contains(v) by {
            let i = choose|i: int| 0 <= i < s.len() && s[i] == v;
            assert(0 <= s[i] < n);
        }
    }
    lemma_subset_equality(s.to_set(), range);
    assert forall|v: int| 0 <= v < n implies s.contains(v) by {
        assert(range.contains(v));
        assert(s.to_set().contains(v));
    }
}

/// Writing `v` over entry `i` changes the sum by their difference.
pub proof fn lemma_total_update(s: Seq<u8>, i: int, v: u8)
    requires
        0 <= i < s.len(),
    ensures
        total(s.update(i, v)) == total(s) - s[i] + v,
    decreases s.len(),
{
    let t = s.update(i, v);
    if i == s.len() - 1 {
        assert(t.drop_last() =~= s.drop_last());
    } else {
        assert(t.drop_last() =~= s.drop_last().update(i, v));
        lemma_total_update(s.drop_last(), i, v);
    }
}

/// Writing `v` over entry `i` takes one occurrence from the old value and
/// gives one to `v`.
pub proof fn lemma_occurrences_update(s: Seq<u8>, i: int, v: u8, w: u8)
    requires
        0 <= i < s.len(),
    ensures
        occurrences(s.update(i, v), w) == occurrences(s, w) - (if s[i] == w {
            1int
        } else {
            0int
        }) + (if v == w {
            1int
        } else {
            0int
        }),
    decreases s.len(),
{
    let t = s.update(i, v);
    if i == s.len() - 1 {
        assert(t.drop_last() =~= s.drop_last());
    } else {
        assert(t.drop_last() =~= s.drop_last().update(i, v));
        lemma_occurrences_update(s.drop_last(), i, v, w);
    }
}

/// A turn keeps the sum of the entries.
pub proof fn lemma_rotated_total(s: Seq<u8>, orbit: [usize; 4], dir: MoveDir)
    requires
        orbit_within(orbit, s.len() as int),
        orbit_distinct(orbit),
    ensures
        total(rotated(s, orbit, dir)) == total(s),
{
    let v0 = s[orbit[source_slot(dir, 0)] as int];
    let v1 = s[orbit[source_slot(dir, 1)] as int];
    let v2 = s[orbit[source_slot(dir, 2)] as int];
    let v3 = s[orbit[source_slot(dir, 3)] as int];
    let s1 = s.update(orbit[0] as int, v0);
    let s2 = s1.update(orbit[1] as int, v1);
    let s3 = s2.update(orbit[2] as int, v2);
    lemma_total_update(s, orbit[0] as int, v0);
    lemma_total_update(s1, orbit[1] as int, v1);
    lemma_total_update(s2, orbit[2] as int, v2);
    lemma_total_update(s3, orbit[3] as int, v3);
}

/// A turn keeps how often each value occurs.
pub proof fn lemma_rotated_occurrences(s: Seq<u8>, orbit: [usize; 4], dir: MoveDir, w: u8)
    requires
        orbit_within(orbit, s.len() as int),
        orbit_distinct(orbit),
    ensures
        occurrences(rotated(s, orbit, dir), w) == occurrences(s, w),
{
    let v0 = s[orbit[source_slot(dir, 0)] as int];
    let v1 = s[orbit[source_slot(dir, 1)] as int];
    let v2 = s[orbit[source_slot(dir, 2)] as int];
    let v3 = s[orbit[source_slot(dir, 3)] as int];
    let s1 = s.update(orbit[0] as int, v0);
    let s2 = s1.update(orbit[1] as int, v1);
    let s3 = s2.update(orbit[2] as int, v2);
    lemma_occurrences_update(s, orbit[0] as int, v0, w);
    lemma_occurrences_update(s1, orbit[1] as int, v1, w);
    lemma_occurrences_update(s2, orbit[2] as int, v2, w);
    lemma_occurrences_update(s3, orbit[3] as int, v3, w);
}

/// A turn keeps every entry below a bound that held them all.
pub proof fn lemma_rotated_all_below(s: Seq<u8>, orbit: [usize; 4], dir: MoveDir, bound: int)
    requires
        orbit_within(orbit, s.len() as int),
        all_below(s, bound),
    ensures
        all_below(rotated(s, orbit, dir), bound),
{
}

/// A turn of a permutation is a permutation.
pub proof fn lemma_rotated_permutation(s: Seq<u8>, orbit: [usize; 4], dir: MoveDir)
    requires
        orbit_within(orbit, s.len() as int),
        orbit_distinct(orbit),
        is_permutation_seq(as_indices(s)),
    ensures
        is_permutation_seq(as_indices(rotated(s, orbit, dir))),
{
    lemma_rotated_index(s, orbit, dir);
    let r = rotated(s, orbit, dir);
    let a = as_indices(s);
    let b = as_indices(r);
    assert forall|i: int| 0 <= i < b.len() implies 0 <= #[trigger] b[i] < b.len() by {
        let k = crate::orbit::rotated_from(orbit, dir, i);
        assert(r[i] == s[k]);
        assert(b[i] == a[k]);
    }
    assert forall|i: int, j: int| 0 <= i < j < b.len() implies b[i] != b[j] by {
        let k = crate::orbit::rotated_from(orbit, dir, i);
        let l = crate::orbit::rotated_from(orbit, dir, j);
        assert(r[i] == s[k] && r[j] == s[l]);
        assert(b[i] == a[k] && b[j] == a[l]);
        assert(k != l);
    }
}

} // verus!
