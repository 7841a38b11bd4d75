use crate::moves::MoveDir;
use vstd::prelude::*;

verus! {

/// How many places further along the orbit the value of a slot comes from.
pub open spec fn turn_offset(dir: MoveDir) -> int {
    match dir {
        MoveDir::CW => 3,
        MoveDir::CCW => 1,
        MoveDir::Dub => 2,
    }
}

/// The place in the orbit whose value the `k`-th place takes: the one before
/// it for a clockwise turn, the one after it for a counter-clockwise turn, the
/// one opposite for a half turn.
pub open spec fn source_slot(dir: MoveDir, k: int) -> int {
    (k + turn_offset(dir)) % 4
}

/// Every slot of the orbit lies below `len`.
pub open spec fn orbit_within(orbit: [usize; 4], len: int) -> bool {
    orbit[0] < len && orbit[1] < len && orbit[2] < len && orbit[3] < len
}

/// No slot occurs twice in the orbit.
pub open spec fn orbit_distinct(orbit: [usize; 4]) -> bool {
    orbit[0] != orbit[1] && orbit[0] != orbit[2] && orbit[0] != orbit[3] && orbit[1] != orbit[2]
        && orbit[1] != orbit[3] && orbit[2] != orbit[3]
}

/// The orbit holds slot `i`.
pub open spec fn in_orbit(orbit: [usize; 4], i: int) -> bool {
    i == orbit[0] || i == orbit[1] || i == orbit[2] || i == orbit[3]
}

/// The two orbits share no slot.
pub open spec fn orbits_disjoint(a: [usize; 4], b: [usize; 4]) -> bool {
    !in_orbit(b, a[0] as int) && !in_orbit(b, a[1] as int) && !in_orbit(b, a[2] as int)
        && !in_orbit(b, a[3] as int)
}

/// A ring of a sequence of length `len`: four different slots below `len`.
pub open spec fn is_ring(orbit: [usize; 4], len: int) -> bool {
    orbit_within(orbit, len) && orbit_distinct(orbit)
}

/// The turn that takes a turn back.
pub open spec fn opposite(dir: MoveDir) -> MoveDir {
    match dir {
        MoveDir::CW => MoveDir::CCW,
        MoveDir::CCW => MoveDir::CW,
        MoveDir::Dub => MoveDir::Dub,
    }
}

/// The sequence after the four slots of the orbit have been turned: the slots
/// are written in the orbit's order, each with the value that its source
/// held before the turn. Where a slot occurs twice, the later write stays.
pub open spec fn rotated<T>(s: Seq<T>, orbit: [usize; 4], dir: MoveDir) -> Seq<T> {
    s.update(orbit[0] as int, s[orbit[source_slot(dir, 0)] as int]).update(
        orbit[1] as int,
        s[orbit[source_slot(dir, 1)] as int],
    ).update(orbit[2] as int, s[orbit[source_slot(dir, 2)] as int]).update(
        orbit[3] as int,
        s[orbit[source_slot(dir, 3)] as int],
    )
}

/// The index whose old value stands at index `i` after the turn, for an
/// orbit without a repeated slot.
pub open spec fn rotated_from(orbit: [usize; 4], dir: MoveDir, i: int) -> int {
    if i == orbit[0] {
        orbit[source_slot(dir, 0)] as int
    } else if i == orbit[1] {
        orbit[source_slot(dir, 1)] as int
    } else if i == orbit[2] {
        orbit[source_slot(dir, 2)] as int
    } else if i == orbit[3] {
        orbit[source_slot(dir, 3)] as int
    } else {
        i
    }
}

/// A turn moves values and changes none: index `i` holds afterwards what
/// `rotated_from` of `i` held before, and no two indices draw on the same one.
pub proof fn lemma_rotated_index<T>(s: Seq<T>, orbit: [usize; 4], dir: MoveDir)
    requires
        orbit_within(orbit, s.len() as int),
        orbit_distinct(orbit),
    ensures
        rotated(s, orbit, dir).len() == s.len(),
        forall|i: int|
            0 <= i < s.len() ==> #[trigger] rotated(s, orbit, dir)[i] == s[rotated_from(
                orbit,
                dir,
                i,
            )],
        forall|i: int| 0 <= i < s.len() ==> 0 <= #[trigger] rotated_from(orbit, dir, i) < s.len(),
        forall|i: int, j: int|
            0 <= i < s.len() && 0 <= j < s.len() && i != j ==> #[trigger] rotated_from(
                orbit,
                dir,
                i,
            ) != #[trigger] rotated_from(orbit, dir, j),
{
}

/// Four quarter turns the same way bring every value back.
pub proof fn lemma_rotated_four_quarters<T>(s: Seq<T>, orbit: [usize; 4], dir: MoveDir)
    requires
        is_ring(orbit, s.len() as int),
        dir != MoveDir::Dub,
    ensures
        rotated(rotated(rotated(rotated(s, orbit, dir), orbit, dir), orbit, dir), orbit, dir) == s,
{
    let s1 = rotated(s, orbit, dir);
    let s2 = rotated(s1, orbit, dir);
    let s3 = rotated(s2, orbit, dir);
    let s4 = rotated(s3, orbit, dir);
    assert(s4 =~= s);
}

/// A turn and then the opposite turn bring every value back: a quarter turn
/// one way and one the other way, or two half turns.
pub proof fn lemma_rotated_undone<T>(s: Seq<T>, orbit: [usize; 4], dir: MoveDir)
    requires
        is_ring(orbit, s.len() as int),
    ensures
        rotated(rotated(s, orbit, dir), orbit, opposite(dir)) == s,
{
    assert(rotated(rotated(s, orbit, dir), orbit, opposite(dir)) =~= s);
}

/// The same turn of two rings that share no slot, one ring after the other.
pub open spec fn rotated2<T>(s: Seq<T>, a: [usize; 4], b: [usize; 4], dir: MoveDir) -> Seq<T> {
    rotated(rotated(s, a, dir), b, dir)
}

/// The same turn of three rings that share no slot, one ring after the other.
pub open spec fn rotated3<T>(
    s: Seq<T>,
    a: [usize; 4],
    b: [usize; 4],
    c: [usize; 4],
    dir: MoveDir,
) -> Seq<T> {
    rotated(rotated(rotated(s, a, dir), b, dir), c, dir)
}

/// Where a turn of two rings draws the value at index `i` from.
pub open spec fn rotated2_from(a: [usize; 4], b: [usize; 4], dir: MoveDir, i: int) -> int {
    rotated_from(a, dir, rotated_from(b, dir, i))
}

/// Where a turn of three rings draws the value at index `i` from.
pub open spec fn rotated3_from(
    a: [usize; 4],
    b: [usize; 4],
    c: [usize; 4],
    dir: MoveDir,
    i: int,
) -> int {
    rotated_from(a, dir, rotated_from(b, dir, rotated_from(c, dir, i)))
}

/// A turn of two rings moves values and changes none.
pub proof fn lemma_rotated2_index<T>(s: Seq<T>, a: [usize; 4], b: [usize; 4], dir: MoveDir)
    requires
        is_ring(a, s.len() as int),
        is_ring(b, s.len() as int),
    ensures
        rotated2(s, a, b, dir).len() == s.len(),
        forall|i: int|
            0 <= i < s.len() ==> #[trigger] rotated2(s, a, b, dir)[i] == s[rotated2_from(
                a,
                b,
                dir,
                i,
            )],
        forall|i: int|
            0 <= i < s.len() ==> 0 <= #[trigger] rotated2_from(a, b, dir, i) < s.len(),
{
    lemma_rotated_index(s, a, dir);
    lemma_rotated_index(rotated(s, a, dir), b, dir);
}

/// A turn of three rings moves values and changes none.
pub proof fn lemma_rotated3_index<T>(
    s: Seq<T>,
    a: [usize; 4],
    b: [usize; 4],
    c: [usize; 4],
    dir: MoveDir,
)
    requires
        is_ring(a, s.len() as int),
        is_ring(b, s.len() as int),
        is_ring(c, s.len() as int),
    ensures
        rotated3(s, a, b, c, dir).len() == s.len(),
        forall|i: int|
            0 <= i < s.len() ==> #[trigger] rotated3(s, a, b, c, dir)[i] == s[rotated3_from(
                a,
                b,
                c,
                dir,
                i,
            )],
        forall|i: int|
            0 <= i < s.len() ==> 0 <= #[trigger] rotated3_from(a, b, c, dir, i) < s.len(),
{
    lemma_rotated_index(s, a, dir);
    lemma_rotated_index(rotated(s, a, dir), b, dir);
    lemma_rotated_index(rotated(rotated(s, a, dir), b, dir), c, dir);
}

/// A turn draws the values of its ring from its ring and every other value
/// from where it is; the opposite turn, and three more quarter turns the same
/// way, lead back to where a value came from.
pub proof fn lemma_from_one_ring(a: [usize; 4], dir: MoveDir, i: int)
    requires
        orbit_distinct(a),
    ensures
        in_orbit(a, i) ==> in_orbit(a, rotated_from(a, dir, i)),
        !in_orbit(a, i) ==> rotated_from(a, dir, i) == i,
        rotated_from(a, dir, rotated_from(a, opposite(dir), i)) == i,
        dir != MoveDir::Dub ==> rotated_from(
            a,
            dir,
            rotated_from(a, dir, rotated_from(a, dir, rotated_from(a, dir, i))),
        ) == i,
{
}

/// What `lemma_from_one_ring` says, for a turn of two rings that share no slot.
pub proof fn lemma_from_two_rings(a: [usize; 4], b: [usize; 4], dir: MoveDir, i: int)
    requires
        orbit_distinct(a),
        orbit_distinct(b),
        orbits_disjoint(a, b),
    ensures
        rotated2_from(a, b, dir, rotated2_from(a, b, opposite(dir), i)) == i,
        dir != MoveDir::Dub ==> rotated2_from(
            a,
            b,
            dir,
            rotated2_from(a, b, dir, rotated2_from(a, b, dir, rotated2_from(a, b, dir, i))),
        ) == i,
{
    let back = opposite(dir);
    if in_orbit(a, i) {
        assert(!in_orbit(b, i));
        let i1 = rotated_from(a, dir, i);
        let i2 = rotated_from(a, dir, i1);
        let i3 = rotated_from(a, dir, i2);
        let j1 = rotated_from(a, back, i);
        lemma_from_one_ring(a, dir, i);
        lemma_from_one_ring(a, dir, i1);
        lemma_from_one_ring(a, dir, i2);
        lemma_from_one_ring(a, dir, i3);
        lemma_from_one_ring(a, back, i);
        lemma_from_one_ring(a, dir, j1);
        assert(!in_orbit(b, i1) && !in_orbit(b, i2) && !in_orbit(b, i3) && !in_orbit(b, j1));
        assert(rotated2_from(a, b, dir, i) == i1);
        assert(rotated2_from(a, b, dir, i1) == i2);
        assert(rotated2_from(a, b, dir, i2) == i3);
        assert(rotated2_from(a, b, back, i) == j1);
        assert(rotated2_from(a, b, dir, j1) == rotated_from(a, dir, j1));
    } else if in_orbit(b, i) {
        let i1 = rotated_from(b, dir, i);
        let i2 = rotated_from(b, dir, i1);
        let i3 = rotated_from(b, dir, i2);
        let j1 = rotated_from(b, back, i);
        lemma_from_one_ring(b, dir, i);
        lemma_from_one_ring(b, dir, i1);
        lemma_from_one_ring(b, dir, i2);
        lemma_from_one_ring(b, dir, i3);
        lemma_from_one_ring(b, back, i);
        lemma_from_one_ring(b, dir, j1);
        assert(!in_orbit(a, i1) && !in_orbit(a, i2) && !in_orbit(a, i3) && !in_orbit(a, j1));
        assert(rotated2_from(a, b, dir, i) == i1);
        assert(rotated2_from(a, b, dir, i1) == i2);
        assert(rotated2_from(a, b, dir, i2) == i3);
        assert(rotated2_from(a, b, back, i) == j1);
        assert(rotated2_from(a, b, dir, j1) == rotated_from(b, dir, j1));
    } else {
        assert(rotated2_from(a, b, dir, i) == i);
        assert(rotated2_from(a, b, back, i) == i);
    }
}

/// What `lemma_from_one_ring` says, for a turn of three rings that share no
/// slot.
pub proof fn lemma_from_three_rings(
    a: [usize; 4],
    b: [usize; 4],
    c: [usize; 4],
    dir: MoveDir,
    i: int,
)
    requires
        orbit_distinct(a),
        orbit_distinct(b),
        orbit_distinct(c),
        orbits_disjoint(a, b),
        orbits_disjoint(a, c),
        orbits_disjoint(b, c),
    ensures
        rotated3_from(a, b, c, dir, rotated3_from(a, b, c, opposite(dir), i)) == i,
        dir != MoveDir::Dub ==> rotated3_from(
            a,
            b,
            c,
            dir,
            rotated3_from(
                a,
                b,
                c,
                dir,
                rotated3_from(a, b, c, dir, rotated3_from(a, b, c, dir, i)),
            ),
        ) == i,
{
    let back = opposite(dir);
    if in_orbit(c, i) {
        assert(!in_orbit(a, i) && !in_orbit(b, i));
        let i1 = rotated_from(c, dir, i);
        let i2 = rotated_from(c, dir, i1);
        let i3 = rotated_from(c, dir, i2);
        let j1 = rotated_from(c, back, i);
        lemma_from_one_ring(c, dir, i);
        lemma_from_one_ring(c, dir, i1);
        lemma_from_one_ring(c, dir, i2);
        lemma_from_one_ring(c, dir, i3);
        lemma_from_one_ring(c, back, i);
        lemma_from_one_ring(c, dir, j1);
        assert(!in_orbit(a, i1) && !in_orbit(a, i2) && !in_orbit(a, i3) && !in_orbit(a, j1));
        assert(!in_orbit(b, i1) && !in_orbit(b, i2) && !in_orbit(b, i3) && !in_orbit(b, j1));
        assert(rotated3_from(a, b, c, dir, i) == i1);
        assert(rotated3_from(a, b, c, dir, i1) == i2);
        assert(rotated3_from(a, b, c, dir, i2) == i3);
        assert(rotated3_from(a, b, c, back, i) == j1);
        assert(rotated3_from(a, b, c, dir, j1) == rotated_from(c, dir, j1));
    } else {
        lemma_from_two_rings(a, b, dir, i);
        let i1 = rotated2_from(a, b, dir, i);
        let i2 = rotated2_from(a, b, dir, i1);
        let i3 = rotated2_from(a, b, dir, i2);
        let j1 = rotated2_from(a, b, back, i);
        lemma_from_one_ring(a, dir, i);
        lemma_from_one_ring(b, dir, i);
        lemma_from_one_ring(a, dir, i1);
        lemma_from_one_ring(b, dir, i1);
        lemma_from_one_ring(a, dir, i2);
        lemma_from_one_ring(b, dir, i2);
        lemma_from_one_ring(a, back, i);
        lemma_from_one_ring(b, back, i);
        lemma_from_one_ring(a, dir, rotated_from(b, dir, i));
        lemma_from_one_ring(a, dir, rotated_from(b, dir, i1));
        lemma_from_one_ring(a, dir, rotated_from(b, dir, i2));
        lemma_from_one_ring(a, back, rotated_from(b, back, i));
        assert(!in_orbit(c, i1) && !in_orbit(c, i2) && !in_orbit(c, i3) && !in_orbit(c, j1));
        assert(rotated3_from(a, b, c, dir, i) == i1);
        assert(rotated3_from(a, b, c, dir, i1) == i2);
        assert(rotated3_from(a, b, c, dir, i2) == i3);
        assert(rotated3_from(a, b, c, back, i) == j1);
        assert(rotated3_from(a, b, c, dir, j1) == rotated2_from(a, b, dir, j1));
    }
}

/// Four quarter turns of two rings bring every value back.
pub proof fn lemma_rotated2_four_quarters<T>(
    s: Seq<T>,
    a: [usize; 4],
    b: [usize; 4],
    dir: MoveDir,
)
    requires
        is_ring(a, s.len() as int),
        is_ring(b, s.len() as int),
        orbits_disjoint(a, b),
        dir != MoveDir::Dub,
    ensures
        rotated2(rotated2(rotated2(rotated2(s, a, b, dir), a, b, dir), a, b, dir), a, b, dir) == s,
{
    let s1 = rotated2(s, a, b, dir);
    let s2 = rotated2(s1, a, b, dir);
    let s3 = rotated2(s2, a, b, dir);
    let s4 = rotated2(s3, a, b, dir);
    lemma_rotated2_index(s, a, b, dir);
    lemma_rotated2_index(s1, a, b, dir);
    lemma_rotated2_index(s2, a, b, dir);
    lemma_rotated2_index(s3, a, b, dir);
    assert forall|i: int| 0 <= i < s.len() implies s4[i] == s[i] by {
        lemma_from_two_rings(a, b, dir, i);
    }
    assert(s4 =~= s);
}

/// A turn of two rings and then the opposite turn bring every value back.
pub proof fn lemma_rotated2_undone<T>(s: Seq<T>, a: [usize; 4], b: [usize; 4], dir: MoveDir)
    requires
        is_ring(a, s.len() as int),
        is_ring(b, s.len() as int),
        orbits_disjoint(a, b),
    ensures
        rotated2(rotated2(s, a, b, dir), a, b, opposite(dir)) == s,
{
    let s1 = rotated2(s, a, b, dir);
    let s2 = rotated2(s1, a, b, opposite(dir));
    lemma_rotated2_index(s, a, b, dir);
    lemma_rotated2_index(s1, a, b, opposite(dir));
    assert forall|i: int| 0 <= i < s.len() implies s2[i] == s[i] by {
        lemma_from_two_rings(a, b, dir, i);
    }
    assert(s2 =~= s);
}

/// Four quarter turns of three rings bring every value back.
pub proof fn lemma_rotated3_four_quarters<T>(
    s: Seq<T>,
    a: [usize; 4],
    b: [usize; 4],
    c: [usize; 4],
    dir: MoveDir,
)
    requires
        is_ring(a, s.len() as int),
        is_ring(b, s.len() as int),
        is_ring(c, s.len() as int),
        orbits_disjoint(a, b),
        orbits_disjoint(a, c),
        orbits_disjoint(b, c),
        dir != MoveDir::Dub,
    ensures
        rotated3(
            rotated3(rotated3(rotated3(s, a, b, c, dir), a, b, c, dir), a, b, c, dir),
            a,
            b,
            c,
            dir,
        ) == s,
{
    let s1 = rotated3(s, a, b, c, dir);
    let s2 = rotated3(s1, a, b, c, dir);
    let s3 = rotated3(s2, a, b, c, dir);
    let s4 = rotated3(s3, a, b, c, dir);
    lemma_rotated3_index(s, a, b, c, dir);
    lemma_rotated3_index(s1, a, b, c, dir);
    lemma_rotated3_index(s2, a, b, c, dir);
    lemma_rotated3_index(s3, a, b, c, dir);
    assert forall|i: int| 0 <= i < s.len() implies s4[i] == s[i] by {
        lemma_from_three_rings(a, b, c, dir, i);
    }
    assert(s4 =~= s);
}

/// A turn of three rings and then the opposite turn bring every value back.
pub proof fn lemma_rotated3_undone<T>(
    s: Seq<T>,
    a: [usize; 4],
    b: [usize; 4],
    c: [usize; 4],
    dir: MoveDir,
)
    requires
        is_ring(a, s.len() as int),
        is_ring(b, s.len() as int),
        is_ring(c, s.len() as int),
        orbits_disjoint(a, b),
        orbits_disjoint(a, c),
        orbits_disjoint(b, c),
    ensures
        rotated3(rotated3(s, a, b, c, dir), a, b, c, opposite(dir)) == s,
{
    let s1 = rotated3(s, a, b, c, dir);
    let s2 = rotated3(s1, a, b, c, opposite(dir));
    lemma_rotated3_index(s, a, b, c, dir);
    lemma_rotated3_index(s1, a, b, c, opposite(dir));
    assert forall|i: int| 0 <= i < s.len() implies s2[i] == s[i] by {
        lemma_from_three_rings(a, b, c, dir, i);
    }
    assert(s2 =~= s);
}

} // verus!
