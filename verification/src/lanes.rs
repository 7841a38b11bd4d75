use crate::moves::MoveDir;
use crate::orbit::{is_ring, orbit_distinct, orbit_within, rotated, source_slot};
use vstd::prelude::*;

verus! {

/// A word as sixteen lanes of one bit, the lowest bit first.
pub open spec fn bit_lanes(word: u16) -> Seq<u8> {
    Seq::new(16, |i: int| ((word >> (i as u16)) & 1) as u8)
}

/// A word as eight lanes of two bits, the lowest two bits first.
pub open spec fn pair_lanes(word: u16) -> Seq<u8> {
    Seq::new(8, |i: int| ((word >> ((2 * i) as u16)) & 3) as u8)
}

/// What the `k`-th place of the orbit brings to lane `p`: the value that the
/// place takes, where its slot is lane `p`, and no bit otherwise.
pub open spec fn brought(lanes: Seq<u8>, orbit: [usize; 4], dir: MoveDir, k: int, p: int) -> u8 {
    if orbit[k] == p {
        lanes[orbit[source_slot(dir, k)] as int]
    } else {
        0
    }
}

/// Lane `p` after a turn inside a packed word. A lane outside the orbit keeps
/// its value. A lane of the orbit is cleared and then takes the bits of every
/// value that is moved into it: one value where the orbit holds the lane
/// once, several merged where it holds the lane more than once.
pub open spec fn packed_lane(lanes: Seq<u8>, orbit: [usize; 4], dir: MoveDir, p: int) -> u8 {
    if p == orbit[0] || p == orbit[1] || p == orbit[2] || p == orbit[3] {
        brought(lanes, orbit, dir, 0, p) | brought(lanes, orbit, dir, 1, p) | brought(
            lanes,
            orbit,
            dir,
            2,
            p,
        ) | brought(lanes, orbit, dir, 3, p)
    } else {
        lanes[p]
    }
}

/// The lanes after a turn inside a packed word.
pub open spec fn rotated_packed(lanes: Seq<u8>, orbit: [usize; 4], dir: MoveDir) -> Seq<u8> {
    Seq::new(lanes.len(), |p: int| packed_lane(lanes, orbit, dir, p))
}

proof fn lemma_or_nothing(x: u8)
    by (bit_vector)
    ensures
        x | 0 == x,
        0 | x == x,
{
}

/// For an orbit without a repeated slot, a turn inside a packed word is the
/// turn of its lanes.
pub proof fn lemma_rotated_packed_distinct(lanes: Seq<u8>, orbit: [usize; 4], dir: MoveDir)
    requires
        orbit_within(orbit, lanes.len() as int),
        orbit_distinct(orbit),
    ensures
        rotated_packed(lanes, orbit, dir) == rotated(lanes, orbit, dir),
{
    lemma_or_nothing(0);
    lemma_or_nothing(lanes[orbit[0] as int]);
    lemma_or_nothing(lanes[orbit[1] as int]);
    lemma_or_nothing(lanes[orbit[2] as int]);
    lemma_or_nothing(lanes[orbit[3] as int]);
    assert(rotated_packed(lanes, orbit, dir) =~= rotated(lanes, orbit, dir));
}

/// Reading a one-bit lane through a byte gives the lane.
pub(crate) proof fn lemma_read_bit_lane(word: u16, at: u16)
    by (bit_vector)
    requires
        at < 16,
    ensures
        ((word >> at) as u8) & 1 == ((word >> at) & 1) as u8,
        ((word >> at) as u8) & 1 <= 1,
{
}

/// Reading a two-bit lane through a byte gives the lane.
pub(crate) proof fn lemma_read_pair_lane(word: u16, at: u16)
    by (bit_vector)
    requires
        at < 16,
    ensures
        ((word >> at) as u8) & 3 == ((word >> at) & 3) as u8,
        ((word >> at) as u8) & 3 <= 3,
{
}

/// The one-bit lane at `q` of a word in which the lanes at `o0` to `o3` were
/// cleared and the values `v0` to `v3` then shifted in.
pub(crate) proof fn lemma_written_bit_lane(
    word: u16,
    o0: u16,
    o1: u16,
    o2: u16,
    o3: u16,
    v0: u8,
    v1: u8,
    v2: u8,
    v3: u8,
    q: u16,
)
    by (bit_vector)
    requires
        o0 < 16,
        o1 < 16,
        o2 < 16,
        o3 < 16,
        q < 16,
        v0 <= 1,
        v1 <= 1,
        v2 <= 1,
        v3 <= 1,
    ensures
        ((((word & !((1u16 << o0) | (1u16 << o1) | (1u16 << o2) | (1u16 << o3))) | (((v0 as u16)
            << o0) | ((v1 as u16) << o1) | ((v2 as u16) << o2) | ((v3 as u16) << o3))) >> q)
            & 1) as u8 == (if q == o0 || q == o1 || q == o2 || q == o3 {
            (if o0 == q {
                v0
            } else {
                0u8
            }) | (if o1 == q {
                v1
            } else {
                0u8
            }) | (if o2 == q {
                v2
            } else {
                0u8
            }) | (if o3 == q {
                v3
            } else {
                0u8
            })
        } else {
            ((word >> q) & 1) as u8
        }),
{
}

/// The two-bit lane at bit `q` of a word in which the lanes at bits `o0` to
/// `o3` were cleared and the values `v0` to `v3` then shifted in.
pub(crate) proof fn lemma_written_pair_lane(
    word: u16,
    o0: u16,
    o1: u16,
    o2: u16,
    o3: u16,
    v0: u8,
    v1: u8,
    v2: u8,
    v3: u8,
    q: u16,
)
    by (bit_vector)
    requires
        o0 < 16 && o0 % 2 == 0,
        o1 < 16 && o1 % 2 == 0,
        o2 < 16 && o2 % 2 == 0,
        o3 < 16 && o3 % 2 == 0,
        q < 16 && q % 2 == 0,
        v0 <= 3,
        v1 <= 3,
        v2 <= 3,
        v3 <= 3,
    ensures
        ((((word & !((3u16 << o0) | (3u16 << o1) | (3u16 << o2) | (3u16 << o3))) | (((v0 as u16)
            << o0) | ((v1 as u16) << o1) | ((v2 as u16) << o2) | ((v3 as u16) << o3))) >> q)
            & 3) as u8 == (if q == o0 || q == o1 || q == o2 || q == o3 {
            (if o0 == q {
                v0
            } else {
                0u8
            }) | (if o1 == q {
                v1
            } else {
                0u8
            }) | (if o2 == q {
                v2
            } else {
                0u8
            }) | (if o3 == q {
                v3
            } else {
                0u8
            })
        } else {
            ((word >> q) & 3) as u8
        }),
{
}

proof fn lemma_same_bits(a: u16, b: u16)
    by (bit_vector)
    requires
        ((a >> 0u16) & 1) as u8 == ((b >> 0u16) & 1) as u8,
        ((a >> 1u16) & 1) as u8 == ((b >> 1u16) & 1) as u8,
        ((a >> 2u16) & 1) as u8 == ((b >> 2u16) & 1) as u8,
        ((a >> 3u16) & 1) as u8 == ((b >> 3u16) & 1) as u8,
        ((a >> 4u16) & 1) as u8 == ((b >> 4u16) & 1) as u8,
        ((a >> 5u16) & 1) as u8 == ((b >> 5u16) & 1) as u8,
        ((a >> 6u16) & 1) as u8 == ((b >> 6u16) & 1) as u8,
        ((a >> 7u16) & 1) as u8 == ((b >> 7u16) & 1) as u8,
        ((a >> 8u16) & 1) as u8 == ((b >> 8u16) & 1) as u8,
        ((a >> 9u16) & 1) as u8 == ((b >> 9u16) & 1) as u8,
        ((a >> 10u16) & 1) as u8 == ((b >> 10u16) & 1) as u8,
        ((a >> 11u16) & 1) as u8 == ((b >> 11u16) & 1) as u8,
        ((a >> 12u16) & 1) as u8 == ((b >> 12u16) & 1) as u8,
        ((a >> 13u16) & 1) as u8 == ((b >> 13u16) & 1) as u8,
        ((a >> 14u16) & 1) as u8 == ((b >> 14u16) & 1) as u8,
        ((a >> 15u16) & 1) as u8 == ((b >> 15u16) & 1) as u8,
    ensures
        a == b,
{
}

proof fn lemma_same_pairs(a: u16, b: u16)
    by (bit_vector)
    requires
        ((a >> 0u16) & 3) as u8 == ((b >> 0u16) & 3) as u8,
        ((a >> 2u16) & 3) as u8 == ((b >> 2u16) & 3) as u8,
        ((a >> 4u16) & 3) as u8 == ((b >> 4u16) & 3) as u8,
        ((a >> 6u16) & 3) as u8 == ((b >> 6u16) & 3) as u8,
        ((a >> 8u16) & 3) as u8 == ((b >> 8u16) & 3) as u8,
        ((a >> 10u16) & 3) as u8 == ((b >> 10u16) & 3) as u8,
        ((a >> 12u16) & 3) as u8 == ((b >> 12u16) & 3) as u8,
        ((a >> 14u16) & 3) as u8 == ((b >> 14u16) & 3) as u8,
    ensures
        a == b,
{
}

/// A word is determined by its one-bit lanes.
pub proof fn lemma_bit_lanes_determine(a: u16, b: u16)
    requires
        bit_lanes(a) == bit_lanes(b),
    ensures
        a == b,
{
    let (x, y) = (bit_lanes(a), bit_lanes(b));
    assert(x[0] == y[0] && x[1] == y[1] && x[2] == y[2] && x[3] == y[3]);
    assert(x[4] == y[4] && x[5] == y[5] && x[6] == y[6] && x[7] == y[7]);
    assert(x[8] == y[8] && x[9] == y[9] && x[10] == y[10] && x[11] == y[11]);
    assert(x[12] == y[12] && x[13] == y[13] && x[14] == y[14] && x[15] == y[15]);
    lemma_same_bits(a, b);
}

/// A word is determined by its two-bit lanes.
pub proof fn lemma_pair_lanes_determine(a: u16, b: u16)
    requires
        pair_lanes(a) == pair_lanes(b),
    ensures
        a == b,
{
    let (x, y) = (pair_lanes(a), pair_lanes(b));
    assert(x[0] == y[0] && x[1] == y[1] && x[2] == y[2] && x[3] == y[3]);
    assert(x[4] == y[4] && x[5] == y[5] && x[6] == y[6] && x[7] == y[7]);
    lemma_same_pairs(a, b);
}

/// The turn of an array, the turn inside a word of one-bit lanes and the turn
/// inside a word of two-bit lanes agree: where both words hold the entries of
/// `a` in their first lanes, then after the turn of a ring of `a` both hold
/// the entries of the turned `a` there.
pub proof fn lemma_packed_forms_agree(
    a: Seq<u8>,
    bits: u16,
    pairs: u16,
    orbit: [usize; 4],
    dir: MoveDir,
)
    requires
        a.len() <= 8,
        is_ring(orbit, a.len() as int),
        forall|i: int| 0 <= i < a.len() ==> bit_lanes(bits)[i] == a[i],
        forall|i: int| 0 <= i < a.len() ==> pair_lanes(pairs)[i] == a[i],
    ensures
        forall|i: int|
            0 <= i < a.len() ==> rotated_packed(bit_lanes(bits), orbit, dir)[i] == rotated(
                a,
                orbit,
                dir,
            )[i],
        forall|i: int|
            0 <= i < a.len() ==> rotated_packed(pair_lanes(pairs), orbit, dir)[i] == rotated(
                a,
                orbit,
                dir,
            )[i],
{
    lemma_rotated_packed_distinct(bit_lanes(bits), orbit, dir);
    lemma_rotated_packed_distinct(pair_lanes(pairs), orbit, dir);
}

} // verus!
