use crate::counting::{
    all_below, as_indices, is_permutation_seq, lemma_rotated_all_below, lemma_rotated_occurrences,
    lemma_rotated_permutation, lemma_rotated_total, lemma_total_update, occurrences, total,
};
use crate::model::{
    centers_plus_moved, centers_x_moved, corners_twisted, midges_flipped, twisted_along,
    wings_moved, StateView,
};
use crate::moves::{Face, MoveDir, MoveType, MoveUnpkd};
use crate::orbit::{
    in_orbit, is_ring, lemma_rotated2_four_quarters, lemma_rotated2_undone,
    lemma_rotated3_four_quarters, lemma_rotated3_undone, lemma_rotated_four_quarters,
    lemma_rotated_undone, opposite, orbits_disjoint, rotated, rotated2, rotated3, source_slot,
};
use crate::tables::{
    CENTER_ORBITS_WIDE_X, CORNER_ORBITS, CORNER_ORIENTATION_CHANGES, MIDGE_ORBITS,
    MIDGE_ORIENTATION_CHANGES, WING_ORBITS_OUTER, WING_ORBITS_WIDE,
};
use vstd::prelude::*;

verus! {

/// Every row of the tables is a ring of its family, and the rings that one
/// move turns in one family share no slot.
pub proof fn lemma_tables_hold_rings(face: Face)
    ensures
        is_ring(CORNER_ORBITS[face.code() as int], 8),
        is_ring(MIDGE_ORBITS[face.code() as int], 12),
        is_ring(WING_ORBITS_OUTER[face.code() as int].0, 24),
        is_ring(WING_ORBITS_OUTER[face.code() as int].1, 24),
        is_ring(WING_ORBITS_WIDE[face.code() as int], 24),
        is_ring(CENTER_ORBITS_WIDE_X[face.code() as int].0, 24),
        is_ring(CENTER_ORBITS_WIDE_X[face.code() as int].1, 24),
        orbits_disjoint(
            WING_ORBITS_OUTER[face.code() as int].0,
            WING_ORBITS_OUTER[face.code() as int].1,
        ),
        orbits_disjoint(
            WING_ORBITS_OUTER[face.code() as int].0,
            WING_ORBITS_WIDE[face.code() as int],
        ),
        orbits_disjoint(
            WING_ORBITS_OUTER[face.code() as int].1,
            WING_ORBITS_WIDE[face.code() as int],
        ),
        orbits_disjoint(
            WING_ORBITS_OUTER[face.code() as int].0,
            CENTER_ORBITS_WIDE_X[face.code() as int].0,
        ),
        orbits_disjoint(
            WING_ORBITS_OUTER[face.code() as int].0,
            CENTER_ORBITS_WIDE_X[face.code() as int].1,
        ),
        orbits_disjoint(
            CENTER_ORBITS_WIDE_X[face.code() as int].0,
            CENTER_ORBITS_WIDE_X[face.code() as int].1,
        ),
{
    match face {
        Face::U => {},
        Face::L => {},
        Face::F => {},
        Face::R => {},
        Face::B => {},
        Face::D => {},
    }
}

/// A sequence of zeros adds up to zero.
proof fn lemma_total_of_zeros(s: Seq<u8>)
    requires
        forall|i: int| 0 <= i < s.len() ==> s[i] == 0,
    ensures
        total(s) == 0,
    decreases s.len(),
{
    if s.len() > 0 {
        lemma_total_of_zeros(s.drop_last());
    }
}

/// Among the first `n` centres of a solved cube, which come in runs of four
/// of one colour, a colour occurs as often as its run reaches into them.
proof fn lemma_solved_centers(n: int, colour: u8)
    requires
        0 <= n <= 24,
    ensures
        occurrences(StateView::solved().centers_x.take(n), colour) == if n <= 4 * colour {
            0
        } else if n >= 4 * colour + 4 {
            4
        } else {
            n - 4 * colour
        },
    decreases n,
{
    let all = StateView::solved().centers_x;
    if n > 0 {
        lemma_solved_centers(n - 1, colour);
        assert(all.take(n).drop_last() =~= all.take(n - 1));
        assert(all.take(n).last() == ((n - 1) / 4) as u8);
    }
}

/// The solved cube is valid.
pub proof fn lemma_solved_is_valid()
    ensures
        StateView::solved().valid(),
{
    let v = StateView::solved();
    lemma_total_of_zeros(v.corners_ori);
    lemma_total_of_zeros(v.midges_ori);
    assert(v.centers_plus =~= v.centers_x);
    assert(v.centers_x.take(24) =~= v.centers_x);
    assert forall|colour: u8| colour < 6 implies #[trigger] occurrences(v.centers_x, colour)
        == 4 by {
        lemma_solved_centers(24, colour);
    }
}

/// Adding a change at one slot, modulo 2 or 3, changes the sum by the change
/// up to a multiple of the modulus, and leaves every other entry alone.
proof fn lemma_twist_one(s: Seq<u8>, at: int, change: u8, modulus: int)
    requires
        modulus == 2 || modulus == 3,
        0 <= at < s.len(),
    ensures
        ({
            let r = s.update(at, ((s[at] + change) % modulus) as u8);
            &&& (total(r) - total(s) - change) % modulus == 0
            &&& all_below(s, modulus) ==> all_below(r, modulus)
        }),
{
    let r = s.update(at, ((s[at] + change) % modulus) as u8);
    lemma_total_update(s, at, ((s[at] + change) % modulus) as u8);
    if all_below(s, modulus) {
        assert forall|i: int| 0 <= i < r.len() implies (#[trigger] r[i]) < modulus by {
            if i != at {
                assert(r[i] == s[i]);
            }
        }
    }
}

/// Adding the four changes along an orbit, modulo 2 or 3, changes the sum by
/// the sum of the changes up to a multiple of the modulus, and keeps the
/// entries below the modulus if they were.
proof fn lemma_twisted_along(s: Seq<u8>, orbit: [usize; 4], changes: [u8; 4], modulus: int)
    requires
        modulus == 2 || modulus == 3,
        orbit[0] < s.len() && orbit[1] < s.len() && orbit[2] < s.len() && orbit[3] < s.len(),
    ensures
        twisted_along(s, orbit, changes, modulus, 4).len() == s.len(),
        (total(twisted_along(s, orbit, changes, modulus, 4)) - total(s) - (changes[0] + changes[1]
            + changes[2] + changes[3])) % modulus == 0,
        all_below(s, modulus) ==> all_below(twisted_along(s, orbit, changes, modulus, 4), modulus),
{
    reveal_with_fuel(twisted_along, 5);
    let s1 = twisted_along(s, orbit, changes, modulus, 1);
    let s2 = twisted_along(s, orbit, changes, modulus, 2);
    let s3 = twisted_along(s, orbit, changes, modulus, 3);
    let s4 = twisted_along(s, orbit, changes, modulus, 4);
    lemma_twist_one(s, orbit[0] as int, changes[0], modulus);
    lemma_twist_one(s1, orbit[1] as int, changes[1], modulus);
    lemma_twist_one(s2, orbit[2] as int, changes[2], modulus);
    lemma_twist_one(s3, orbit[3] as int, changes[3], modulus);
    let d1 = total(s1) - total(s) - changes[0];
    let d2 = total(s2) - total(s1) - changes[1];
    let d3 = total(s3) - total(s2) - changes[2];
    let d4 = total(s4) - total(s3) - changes[3];
    assert(d1 % modulus == 0 && d2 % modulus == 0 && d3 % modulus == 0 && d4 % modulus == 0);
    assert((d1 + d2 + d3 + d4) % modulus == 0);
}

/// Adding the changes of a quarter turn keeps the corner orientations below
/// 3 and their sum a multiple of 3.
proof fn lemma_corners_twisted(ori: Seq<u8>, face: Face, dir: MoveDir)
    requires
        ori.len() == 8,
        all_below(ori, 3),
        total(ori) % 3 == 0,
    ensures
        corners_twisted(ori, face, dir).len() == 8,
        all_below(corners_twisted(ori, face, dir), 3),
        total(corners_twisted(ori, face, dir)) % 3 == 0,
{
    if dir != MoveDir::Dub {
        let orbit = CORNER_ORBITS[face.code() as int];
        let changes = CORNER_ORIENTATION_CHANGES[face.code() as int];
        lemma_tables_hold_rings(face);
        lemma_twisted_along(ori, orbit, changes, 3);
        let sum = changes[0] + changes[1] + changes[2] + changes[3];
        assert(sum == 0 || sum == 6) by {
            match face {
                Face::U => {},
                Face::L => {},
                Face::F => {},
                Face::R => {},
                Face::B => {},
                Face::D => {},
            }
        }
    }
}

/// Flipping the midges of a quarter turn keeps the midge orientations below
/// 2 and their sum even.
proof fn lemma_midges_flipped(ori: Seq<u8>, face: Face, dir: MoveDir)
    requires
        ori.len() == 12,
        all_below(ori, 2),
        total(ori) % 2 == 0,
    ensures
        midges_flipped(ori, face, dir).len() == 12,
        all_below(midges_flipped(ori, face, dir), 2),
        total(midges_flipped(ori, face, dir)) % 2 == 0,
{
    if dir != MoveDir::Dub && (face == Face::F || face == Face::B) {
        lemma_tables_hold_rings(face);
        lemma_twisted_along(ori, MIDGE_ORBITS[face.code() as int], MIDGE_ORIENTATION_CHANGES, 2);
    }
}

/// A move takes a valid state to a valid state.
pub proof fn lemma_move_keeps_valid(v: StateView, m: MoveUnpkd)
    requires
        v.valid(),
    ensures
        v.after_move(m).valid(),
{
    let f = m.face.code() as int;
    let w = v.after_move(m);
    lemma_tables_hold_rings(m.face);

    lemma_rotated_permutation(v.corners_perm, CORNER_ORBITS[f], m.dir);
    let co = rotated(v.corners_ori, CORNER_ORBITS[f], m.dir);
    lemma_rotated_all_below(v.corners_ori, CORNER_ORBITS[f], m.dir, 3);
    lemma_rotated_total(v.corners_ori, CORNER_ORBITS[f], m.dir);
    lemma_corners_twisted(co, m.face, m.dir);

    lemma_rotated_permutation(v.midges_perm, MIDGE_ORBITS[f], m.dir);
    let mo = rotated(v.midges_ori, MIDGE_ORBITS[f], m.dir);
    lemma_rotated_all_below(v.midges_ori, MIDGE_ORBITS[f], m.dir, 2);
    lemma_rotated_total(v.midges_ori, MIDGE_ORBITS[f], m.dir);
    lemma_midges_flipped(mo, m.face, m.dir);

    let ring = WING_ORBITS_OUTER[f].0;
    let round = WING_ORBITS_OUTER[f].1;
    let inner = WING_ORBITS_WIDE[f];
    let x1 = CENTER_ORBITS_WIDE_X[f].0;
    let x2 = CENTER_ORBITS_WIDE_X[f].1;

    let w1 = rotated(v.wings, ring, m.dir);
    let w2 = rotated(w1, round, m.dir);
    lemma_rotated_permutation(v.wings, ring, m.dir);
    lemma_rotated_permutation(w1, round, m.dir);
    lemma_rotated_permutation(w2, inner, m.dir);
    assert(is_permutation_seq(as_indices(w.wings)));

    let q1 = rotated(v.centers_plus, ring, m.dir);
    lemma_rotated_all_below(v.centers_plus, ring, m.dir, 6);
    lemma_rotated_all_below(q1, round, m.dir, 6);
    assert forall|colour: u8| colour < 6 implies #[trigger] occurrences(w.centers_plus, colour)
        == 4 by {
        lemma_rotated_occurrences(v.centers_plus, ring, m.dir, colour);
        lemma_rotated_occurrences(q1, round, m.dir, colour);
    }

    let c1 = rotated(v.centers_x, ring, m.dir);
    let c2 = rotated(c1, x1, m.dir);
    lemma_rotated_all_below(v.centers_x, ring, m.dir, 6);
    lemma_rotated_all_below(c1, x1, m.dir, 6);
    lemma_rotated_all_below(c2, x2, m.dir, 6);
    assert forall|colour: u8| colour < 6 implies #[trigger] occurrences(w.centers_x, colour)
        == 4 by {
        lemma_rotated_occurrences(v.centers_x, ring, m.dir, colour);
        lemma_rotated_occurrences(c1, x1, m.dir, colour);
        lemma_rotated_occurrences(c2, x2, m.dir, colour);
    }
}

/// A sequence of moves takes a valid state to a valid state.
pub proof fn lemma_moves_keep_valid(v: StateView, ms: Seq<MoveUnpkd>)
    requires
        v.valid(),
    ensures
        v.after_moves(ms).valid(),
    decreases ms.len(),
{
    if ms.len() > 0 {
        lemma_moves_keep_valid(v, ms.drop_last());
        lemma_move_keeps_valid(v.after_moves(ms.drop_last()), ms.last());
    }
}

/// Every state that moves can reach from the solved cube is valid.
pub proof fn lemma_reachable_is_valid(ms: Seq<MoveUnpkd>)
    ensures
        StateView::solved().after_moves(ms).valid(),
{
    lemma_solved_is_valid();
    lemma_moves_keep_valid(StateView::solved(), ms);
}

/// A turn of one ring followed by the changes along it.
#[verifier::opaque]
pub open spec fn turned(
    s: Seq<u8>,
    orbit: [usize; 4],
    changes: [u8; 4],
    modulus: int,
    dir: MoveDir,
) -> Seq<u8> {
    twisted_along(rotated(s, orbit, dir), orbit, changes, modulus, 4)
}

/// The value of a slot after a turn with changes: the value of the slot's
/// source plus the slot's change.
pub open spec fn turned_value(
    s: Seq<u8>,
    orbit: [usize; 4],
    changes: [u8; 4],
    modulus: int,
    dir: MoveDir,
    k: int,
) -> u8 {
    ((s[orbit[source_slot(dir, k)] as int] + changes[k]) % modulus) as u8
}

/// After a turn with changes, each slot of the ring holds its
/// `turned_value`, and every other entry is as it was.
proof fn lemma_turned_index(
    s: Seq<u8>,
    orbit: [usize; 4],
    changes: [u8; 4],
    modulus: int,
    dir: MoveDir,
)
    requires
        is_ring(orbit, s.len() as int),
    ensures
        turned(s, orbit, changes, modulus, dir).len() == s.len(),
        forall|i: int|
            0 <= i < s.len() && !in_orbit(orbit, i) ==> #[trigger] turned(
                s,
                orbit,
                changes,
                modulus,
                dir,
            )[i] == s[i],
        turned(s, orbit, changes, modulus, dir)[orbit[0] as int] == turned_value(
            s,
            orbit,
            changes,
            modulus,
            dir,
            0,
        ),
        turned(s, orbit, changes, modulus, dir)[orbit[1] as int] == turned_value(
            s,
            orbit,
            changes,
            modulus,
            dir,
            1,
        ),
        turned(s, orbit, changes, modulus, dir)[orbit[2] as int] == turned_value(
            s,
            orbit,
            changes,
            modulus,
            dir,
            2,
        ),
        turned(s, orbit, changes, modulus, dir)[orbit[3] as int] == turned_value(
            s,
            orbit,
            changes,
            modulus,
            dir,
            3,
        ),
{
    reveal(turned);
    reveal_with_fuel(twisted_along, 5);
}

/// Adding two changes that cancel, one after the other, gives the value back.
proof fn lemma_add_two(x: int, a: int, b: int, modulus: int)
    requires
        modulus == 2 || modulus == 3,
        0 <= x < modulus,
        0 <= a,
        0 <= b,
        (a + b) % modulus == 0,
    ensures
        0 <= (x + a) % modulus < modulus,
        ((x + a) % modulus + b) % modulus == x,
{
}

/// Adding four changes that cancel, one after the other, gives the value
/// back.
proof fn lemma_add_four(x: int, a: int, b: int, c: int, d: int, modulus: int)
    requires
        modulus == 2 || modulus == 3,
        0 <= x < modulus,
        0 <= a,
        0 <= b,
        0 <= c,
        0 <= d,
        (a + b + c + d) % modulus == 0,
    ensures
        0 <= (x + a) % modulus < modulus,
        0 <= ((x + a) % modulus + b) % modulus < modulus,
        0 <= (((x + a) % modulus + b) % modulus + c) % modulus < modulus,
        ((((x + a) % modulus + b) % modulus + c) % modulus + d) % modulus == x,
{
}

/// A quarter turn with changes and then the quarter turn back with the same
/// changes restore the sequence, if the entries of the ring are below the
/// modulus and the changes of neighbouring slots cancel.
proof fn lemma_turned_undone(
    s: Seq<u8>,
    orbit: [usize; 4],
    changes: [u8; 4],
    modulus: int,
    dir: MoveDir,
)
    requires
        modulus == 2 || modulus == 3,
        is_ring(orbit, s.len() as int),
        dir != MoveDir::Dub,
        s[orbit[0] as int] < modulus && s[orbit[1] as int] < modulus && s[orbit[2] as int]
            < modulus && s[orbit[3] as int] < modulus,
        (changes[0] + changes[1]) % modulus == 0,
        (changes[1] + changes[2]) % modulus == 0,
        (changes[2] + changes[3]) % modulus == 0,
        (changes[3] + changes[0]) % modulus == 0,
    ensures
        turned(turned(s, orbit, changes, modulus, dir), orbit, changes, modulus, opposite(dir))
            == s,
{
    let back = opposite(dir);
    let s1 = turned(s, orbit, changes, modulus, dir);
    let s2 = turned(s1, orbit, changes, modulus, back);
    lemma_turned_index(s, orbit, changes, modulus, dir);
    lemma_turned_index(s1, orbit, changes, modulus, back);
    assert forall|k: int| 0 <= k < 4 implies s2[orbit[k] as int] == s[orbit[k] as int] by {
        let j = source_slot(back, k);
        assert(source_slot(dir, j) == k);
        let x = s[orbit[k] as int] as int;
        lemma_add_two(x, changes[j] as int, changes[k] as int, modulus);
        assert(s1[orbit[j] as int] == turned_value(s, orbit, changes, modulus, dir, j));
        assert(s2[orbit[k] as int] == turned_value(s1, orbit, changes, modulus, back, k));
    }
    assert forall|i: int| 0 <= i < s.len() implies s2[i] == s[i] by {
        if in_orbit(orbit, i) {
            let k = if i == orbit[0] {
                0int
            } else if i == orbit[1] {
                1int
            } else if i == orbit[2] {
                2int
            } else {
                3int
            };
            assert(s2[orbit[k] as int] == s[orbit[k] as int]);
        } else {
            assert(s1[i] == s[i]);
        }
    }
    assert(s2 =~= s);
}

/// Where the `k`-th slot of a ring is read and changed four times in a row,
/// each time from its source, it ends up with the value it started with, if
/// that value is below the modulus and the four changes cancel.
proof fn lemma_turned_four_at(
    s: Seq<u8>,
    s1: Seq<u8>,
    s2: Seq<u8>,
    s3: Seq<u8>,
    s4: Seq<u8>,
    orbit: [usize; 4],
    changes: [u8; 4],
    modulus: int,
    dir: MoveDir,
    k: int,
    k1: int,
    k2: int,
    k3: int,
)
    requires
        modulus == 2 || modulus == 3,
        0 <= k < 4 && 0 <= k1 < 4 && 0 <= k2 < 4 && 0 <= k3 < 4,
        k + k1 + k2 + k3 == 6,
        source_slot(dir, k) == k1 && source_slot(dir, k1) == k2 && source_slot(dir, k2) == k3
            && source_slot(dir, k3) == k,
        s[orbit[k] as int] < modulus,
        (changes[0] + changes[1] + changes[2] + changes[3]) % modulus == 0,
        s1[orbit[k3] as int] == turned_value(s, orbit, changes, modulus, dir, k3),
        s2[orbit[k2] as int] == turned_value(s1, orbit, changes, modulus, dir, k2),
        s3[orbit[k1] as int] == turned_value(s2, orbit, changes, modulus, dir, k1),
        s4[orbit[k] as int] == turned_value(s3, orbit, changes, modulus, dir, k),
    ensures
        s4[orbit[k] as int] == s[orbit[k] as int],
{
    let x = s[orbit[k] as int] as int;
    let (a, b, c, d) = (changes[k3] as int, changes[k2] as int, changes[k1] as int, changes[k] as int);
    assert(a + b + c + d == changes[0] + changes[1] + changes[2] + changes[3]);
    lemma_add_four(x, a, b, c, d, modulus);
    assert(s1[orbit[k3] as int] == (x + a) % modulus);
    assert(s2[orbit[k2] as int] == ((x + a) % modulus + b) % modulus);
    assert(s3[orbit[k1] as int] == (((x + a) % modulus + b) % modulus + c) % modulus);
}

/// Four quarter turns the same way, each with its changes, restore the
/// sequence, if the entries of the ring are below the modulus and the four
/// changes together cancel.
proof fn lemma_turned_four_quarters(
    s: Seq<u8>,
    orbit: [usize; 4],
    changes: [u8; 4],
    modulus: int,
    dir: MoveDir,
)
    requires
        modulus == 2 || modulus == 3,
        is_ring(orbit, s.len() as int),
        dir != MoveDir::Dub,
        s[orbit[0] as int] < modulus && s[orbit[1] as int] < modulus && s[orbit[2] as int]
            < modulus && s[orbit[3] as int] < modulus,
        (changes[0] + changes[1] + changes[2] + changes[3]) % modulus == 0,
    ensures
        turned(
            turned(
                turned(turned(s, orbit, changes, modulus, dir), orbit, changes, modulus, dir),
                orbit,
                changes,
                modulus,
                dir,
            ),
            orbit,
            changes,
            modulus,
            dir,
        ) == s,
{
    let s1 = turned(s, orbit, changes, modulus, dir);
    let s2 = turned(s1, orbit, changes, modulus, dir);
    let s3 = turned(s2, orbit, changes, modulus, dir);
    let s4 = turned(s3, orbit, changes, modulus, dir);
    lemma_turned_index(s, orbit, changes, modulus, dir);
    lemma_turned_index(s1, orbit, changes, modulus, dir);
    lemma_turned_index(s2, orbit, changes, modulus, dir);
    lemma_turned_index(s3, orbit, changes, modulus, dir);
    if dir == MoveDir::CW {
        lemma_turned_four_at(s, s1, s2, s3, s4, orbit, changes, modulus, dir, 0, 3, 2, 1);
        lemma_turned_four_at(s, s1, s2, s3, s4, orbit, changes, modulus, dir, 1, 0, 3, 2);
        lemma_turned_four_at(s, s1, s2, s3, s4, orbit, changes, modulus, dir, 2, 1, 0, 3);
        lemma_turned_four_at(s, s1, s2, s3, s4, orbit, changes, modulus, dir, 3, 2, 1, 0);
    } else {
        lemma_turned_four_at(s, s1, s2, s3, s4, orbit, changes, modulus, dir, 0, 1, 2, 3);
        lemma_turned_four_at(s, s1, s2, s3, s4, orbit, changes, modulus, dir, 1, 2, 3, 0);
        lemma_turned_four_at(s, s1, s2, s3, s4, orbit, changes, modulus, dir, 2, 3, 0, 1);
        lemma_turned_four_at(s, s1, s2, s3, s4, orbit, changes, modulus, dir, 3, 0, 1, 2);
    }
    assert forall|i: int| 0 <= i < s.len() implies s4[i] == s[i] by {
        if !in_orbit(orbit, i) {
            assert(s1[i] == s[i]);
            assert(s2[i] == s1[i]);
            assert(s3[i] == s2[i]);
        }
    }
    assert(s4 =~= s);
}

/// The changes that a quarter turn of each face makes cancel between
/// neighbouring slots, and so over the whole ring.
proof fn lemma_changes_cancel(face: Face)
    ensures
        ({
            let c = CORNER_ORIENTATION_CHANGES[face.code() as int];
            &&& (c[0] + c[1]) % 3 == 0
            &&& (c[1] + c[2]) % 3 == 0
            &&& (c[2] + c[3]) % 3 == 0
            &&& (c[3] + c[0]) % 3 == 0
            &&& (c[0] + c[1] + c[2] + c[3]) % 3 == 0
        }),
        ({
            let c = MIDGE_ORIENTATION_CHANGES;
            &&& (c[0] + c[1]) % 2 == 0
            &&& (c[1] + c[2]) % 2 == 0
            &&& (c[2] + c[3]) % 2 == 0
            &&& (c[3] + c[0]) % 2 == 0
            &&& (c[0] + c[1] + c[2] + c[3]) % 2 == 0
        }),
{
    match face {
        Face::U => {},
        Face::L => {},
        Face::F => {},
        Face::R => {},
        Face::B => {},
        Face::D => {},
    }
}

/// The orientations that a quarter turn of `face` reads are orientations:
/// the corners of the face are twisted by 0, 1 or 2, and for the front and the
/// back face the midges of the face are flipped by 0 or 1.
pub open spec fn orientations_in_range(v: StateView, face: Face) -> bool {
    let c = CORNER_ORBITS[face.code() as int];
    let e = MIDGE_ORBITS[face.code() as int];
    &&& v.corners_ori[c[0] as int] < 3
    &&& v.corners_ori[c[1] as int] < 3
    &&& v.corners_ori[c[2] as int] < 3
    &&& v.corners_ori[c[3] as int] < 3
    &&& face == Face::F || face == Face::B ==> {
        &&& v.midges_ori[e[0] as int] < 2
        &&& v.midges_ori[e[1] as int] < 2
        &&& v.midges_ori[e[2] as int] < 2
        &&& v.midges_ori[e[3] as int] < 2
    }
}

/// The move that takes `m` back: the same face and kind, turned the
/// opposite way.
pub open spec fn reversed(m: MoveUnpkd) -> MoveUnpkd {
    MoveUnpkd { face: m.face, type_: m.type_, dir: opposite(m.dir) }
}

/// A move and then its reverse give the state back: a quarter turn clockwise
/// and one counter-clockwise, in either order, or two half turns. For quarter
/// turns the orientations that the turn reads must be orientations; two half
/// turns give any state back.
pub proof fn lemma_move_undone(v: StateView, m: MoveUnpkd)
    requires
        v.well_formed(),
        m.dir != MoveDir::Dub ==> orientations_in_range(v, m.face),
    ensures
        v.after_move(m).after_move(reversed(m)) == v,
{
    let f = m.face.code() as int;
    let back = reversed(m);
    let w = v.after_move(m).after_move(back);
    reveal(turned);
    lemma_tables_hold_rings(m.face);
    lemma_changes_cancel(m.face);
    let ring = WING_ORBITS_OUTER[f].0;
    let round = WING_ORBITS_OUTER[f].1;
    let inner = WING_ORBITS_WIDE[f];
    let x1 = CENTER_ORBITS_WIDE_X[f].0;
    let x2 = CENTER_ORBITS_WIDE_X[f].1;

    lemma_rotated_undone(v.corners_perm, CORNER_ORBITS[f], m.dir);
    lemma_rotated_undone(v.midges_perm, MIDGE_ORBITS[f], m.dir);
    lemma_rotated_undone(v.corners_ori, CORNER_ORBITS[f], m.dir);
    lemma_rotated_undone(v.midges_ori, MIDGE_ORBITS[f], m.dir);
    if m.dir != MoveDir::Dub {
        lemma_turned_undone(
            v.corners_ori,
            CORNER_ORBITS[f],
            CORNER_ORIENTATION_CHANGES[f],
            3,
            m.dir,
        );
        if m.face == Face::F || m.face == Face::B {
            lemma_turned_undone(v.midges_ori, MIDGE_ORBITS[f], MIDGE_ORIENTATION_CHANGES, 2, m.dir);
        }
    }
    assert(w.corners_ori == v.corners_ori);
    assert(w.midges_ori == v.midges_ori);

    if m.type_ == MoveType::Wide {
        lemma_rotated3_undone(v.wings, ring, round, inner, m.dir);
        assert(wings_moved(v.wings, m) == rotated3(v.wings, ring, round, inner, m.dir));
        lemma_rotated2_undone(v.centers_plus, ring, round, m.dir);
        assert(centers_plus_moved(v.centers_plus, m) == rotated2(
            v.centers_plus,
            ring,
            round,
            m.dir,
        ));
        lemma_rotated3_undone(v.centers_x, ring, x1, x2, m.dir);
        assert(centers_x_moved(v.centers_x, m) == rotated3(v.centers_x, ring, x1, x2, m.dir));
    } else {
        lemma_rotated2_undone(v.wings, ring, round, m.dir);
        assert(wings_moved(v.wings, m) == rotated2(v.wings, ring, round, m.dir));
        lemma_rotated_undone(v.centers_plus, ring, m.dir);
        lemma_rotated_undone(v.centers_x, ring, m.dir);
    }
    assert(w.wings == v.wings);
    assert(w.centers_plus == v.centers_plus);
    assert(w.centers_x == v.centers_x);
}

/// Four quarter turns of one face, the same way and of the same kind, give
/// the state back, if the orientations that the turn reads are orientations.
pub proof fn lemma_four_quarter_turns(v: StateView, m: MoveUnpkd)
    requires
        v.well_formed(),
        m.dir != MoveDir::Dub,
        orientations_in_range(v, m.face),
    ensures
        v.after_move(m).after_move(m).after_move(m).after_move(m) == v,
{
    let f = m.face.code() as int;
    let v1 = v.after_move(m);
    let v2 = v1.after_move(m);
    let v3 = v2.after_move(m);
    let w = v3.after_move(m);
    reveal(turned);
    lemma_tables_hold_rings(m.face);
    lemma_changes_cancel(m.face);
    let ring = WING_ORBITS_OUTER[f].0;
    let round = WING_ORBITS_OUTER[f].1;
    let inner = WING_ORBITS_WIDE[f];
    let x1 = CENTER_ORBITS_WIDE_X[f].0;
    let x2 = CENTER_ORBITS_WIDE_X[f].1;

    lemma_rotated_four_quarters(v.corners_perm, CORNER_ORBITS[f], m.dir);
    lemma_rotated_four_quarters(v.midges_perm, MIDGE_ORBITS[f], m.dir);
    lemma_turned_four_quarters(
        v.corners_ori,
        CORNER_ORBITS[f],
        CORNER_ORIENTATION_CHANGES[f],
        3,
        m.dir,
    );
    if m.face == Face::F || m.face == Face::B {
        lemma_turned_four_quarters(
            v.midges_ori,
            MIDGE_ORBITS[f],
            MIDGE_ORIENTATION_CHANGES,
            2,
            m.dir,
        );
    } else {
        lemma_rotated_four_quarters(v.midges_ori, MIDGE_ORBITS[f], m.dir);
    }
    assert(w.corners_perm == v.corners_perm);
    assert(w.midges_perm == v.midges_perm);
    assert(w.corners_ori == v.corners_ori);
    assert(w.midges_ori == v.midges_ori);

    if m.type_ == MoveType::Wide {
        lemma_rotated3_four_quarters(v.wings, ring, round, inner, m.dir);
        assert(v1.wings == rotated3(v.wings, ring, round, inner, m.dir));
        assert(v2.wings == rotated3(v1.wings, ring, round, inner, m.dir));
        assert(v3.wings == rotated3(v2.wings, ring, round, inner, m.dir));
        assert(w.wings == rotated3(v3.wings, ring, round, inner, m.dir));
        lemma_rotated2_four_quarters(v.centers_plus, ring, round, m.dir);
        assert(v1.centers_plus == rotated2(v.centers_plus, ring, round, m.dir));
        assert(v2.centers_plus == rotated2(v1.centers_plus, ring, round, m.dir));
        assert(v3.centers_plus == rotated2(v2.centers_plus, ring, round, m.dir));
        assert(w.centers_plus == rotated2(v3.centers_plus, ring, round, m.dir));
        lemma_rotated3_four_quarters(v.centers_x, ring, x1, x2, m.dir);
        assert(v1.centers_x == rotated3(v.centers_x, ring, x1, x2, m.dir));
        assert(v2.centers_x == rotated3(v1.centers_x, ring, x1, x2, m.dir));
        assert(v3.centers_x == rotated3(v2.centers_x, ring, x1, x2, m.dir));
        assert(w.centers_x == rotated3(v3.centers_x, ring, x1, x2, m.dir));
    } else {
        lemma_rotated2_four_quarters(v.wings, ring, round, m.dir);
        assert(v1.wings == rotated2(v.wings, ring, round, m.dir));
        assert(v2.wings == rotated2(v1.wings, ring, round, m.dir));
        assert(v3.wings == rotated2(v2.wings, ring, round, m.dir));
        assert(w.wings == rotated2(v3.wings, ring, round, m.dir));
        lemma_rotated_four_quarters(v.centers_plus, ring, m.dir);
        lemma_rotated_four_quarters(v.centers_x, ring, m.dir);
    }
    assert(w.wings == v.wings);
    assert(w.centers_plus == v.centers_plus);
    assert(w.centers_x == v.centers_x);
}

} // verus!
