use crate::counting::{all_below, as_indices, is_permutation_seq, occurrences, total};
use crate::moves::{Face, MoveDir, MoveType, MoveUnpkd};
use crate::orbit::rotated;
use crate::tables::{
    CENTER_ORBITS_WIDE_X, CORNER_ORBITS, CORNER_ORIENTATION_CHANGES, MIDGE_ORBITS,
    MIDGE_ORIENTATION_CHANGES, WING_ORBITS_OUTER, WING_ORBITS_WIDE,
};
use vstd::prelude::*;

verus! {

/// A state of the cube as seven sequences.
pub struct StateView {
    pub corners_perm: Seq<u8>,
    pub corners_ori: Seq<u8>,
    pub midges_perm: Seq<u8>,
    pub midges_ori: Seq<u8>,
    pub wings: Seq<u8>,
    pub centers_x: Seq<u8>,
    pub centers_plus: Seq<u8>,
}

/// The sequence after the first `k` slots of the orbit, in order, have each
/// had their change added, modulo `modulus`.
pub open spec fn twisted_along(
    s: Seq<u8>,
    orbit: [usize; 4],
    changes: [u8; 4],
    modulus: int,
    k: nat,
) -> Seq<u8>
    decreases k,
{
    if k == 0 {
        s
    } else {
        let before = twisted_along(s, orbit, changes, modulus, (k - 1) as nat);
        let at = orbit[k - 1] as int;
        before.update(at, ((before[at] + changes[k - 1]) % modulus) as u8)
    }
}

/// The corner orientations once the corners have been carried round: a
/// quarter turn then adds the face's change at each slot of its orbit,
/// modulo 3; a half turn adds nothing.
pub open spec fn corners_twisted(ori: Seq<u8>, face: Face, dir: MoveDir) -> Seq<u8> {
    if dir != MoveDir::Dub {
        twisted_along(
            ori,
            CORNER_ORBITS[face.code() as int],
            CORNER_ORIENTATION_CHANGES[face.code() as int],
            3,
            4,
        )
    } else {
        ori
    }
}

/// The midge orientations once the midges have been carried round: a
/// quarter turn of the front or the back face then flips each slot of its
/// orbit; no other turn flips any.
pub open spec fn midges_flipped(ori: Seq<u8>, face: Face, dir: MoveDir) -> Seq<u8> {
    if dir != MoveDir::Dub && (face == Face::F || face == Face::B) {
        twisted_along(ori, MIDGE_ORBITS[face.code() as int], MIDGE_ORIENTATION_CHANGES, 2, 4)
    } else {
        ori
    }
}

/// The wings after a move: both outer rings turn, and for a wide move the
/// inner ring too.
pub open spec fn wings_moved(wings: Seq<u8>, m: MoveUnpkd) -> Seq<u8> {
    let f = m.face.code() as int;
    let outer = rotated(
        rotated(wings, WING_ORBITS_OUTER[f].0, m.dir),
        WING_ORBITS_OUTER[f].1,
        m.dir,
    );
    if m.type_ == MoveType::Wide {
        rotated(outer, WING_ORBITS_WIDE[f], m.dir)
    } else {
        outer
    }
}

/// The plus-centres after a move: the ring on the face turns, and for a wide
/// move the ring round it too. In the lettering used here these two rings
/// have the numbers of the two outer rings of wings.
pub open spec fn centers_plus_moved(centers: Seq<u8>, m: MoveUnpkd) -> Seq<u8> {
    let f = m.face.code() as int;
    let outer = rotated(centers, WING_ORBITS_OUTER[f].0, m.dir);
    if m.type_ == MoveType::Wide {
        rotated(outer, WING_ORBITS_OUTER[f].1, m.dir)
    } else {
        outer
    }
}

/// The x-centres after a move: the ring on the face turns, and for a wide
/// move the two rings round it too.
pub open spec fn centers_x_moved(centers: Seq<u8>, m: MoveUnpkd) -> Seq<u8> {
    let f = m.face.code() as int;
    let outer = rotated(centers, WING_ORBITS_OUTER[f].0, m.dir);
    if m.type_ == MoveType::Wide {
        rotated(
            rotated(outer, CENTER_ORBITS_WIDE_X[f].0, m.dir),
            CENTER_ORBITS_WIDE_X[f].1,
            m.dir,
        )
    } else {
        outer
    }
}

impl StateView {
    /// The state of a solved cube: every piece in its own slot, no piece
    /// twisted or flipped, and on each face four centres of the face's colour.
    pub open spec fn solved() -> StateView {
        StateView {
            corners_perm: Seq::new(8, |i: int| i as u8),
            corners_ori: Seq::new(8, |i: int| 0u8),
            midges_perm: Seq::new(12, |i: int| i as u8),
            midges_ori: Seq::new(12, |i: int| 0u8),
            wings: Seq::new(24, |i: int| i as u8),
            centers_x: Seq::new(24, |i: int| (i / 4) as u8),
            centers_plus: Seq::new(24, |i: int| (i / 4) as u8),
        }
    }

    /// Each sequence has the length of its family: 8 corners, 12 midges, 24
    /// wings, 24 centres of each kind.
    pub open spec fn well_formed(self) -> bool {
        &&& self.corners_perm.len() == 8
        &&& self.corners_ori.len() == 8
        &&& self.midges_perm.len() == 12
        &&& self.midges_ori.len() == 12
        &&& self.wings.len() == 24
        &&& self.centers_x.len() == 24
        &&& self.centers_plus.len() == 24
    }

    /// What holds of every state that a real cube can be in.
    pub open spec fn valid(self) -> bool {
        &&& self.well_formed()
        &&& is_permutation_seq(as_indices(self.corners_perm))
        &&& all_below(self.corners_ori, 3)
        &&& total(self.corners_ori) % 3 == 0
        &&& is_permutation_seq(as_indices(self.midges_perm))
        &&& all_below(self.midges_ori, 2)
        &&& total(self.midges_ori) % 2 == 0
        &&& is_permutation_seq(as_indices(self.wings))
        &&& all_below(self.centers_plus, 6)
        &&& forall|colour: u8| colour < 6 ==> #[trigger] occurrences(self.centers_plus, colour) == 4
        &&& all_below(self.centers_x, 6)
        &&& forall|colour: u8| colour < 6 ==> #[trigger] occurrences(self.centers_x, colour) == 4
    }

    /// The state after one move.
    pub open spec fn after_move(self, m: MoveUnpkd) -> StateView {
        let f = m.face.code() as int;
        StateView {
            corners_perm: rotated(self.corners_perm, CORNER_ORBITS[f], m.dir),
            corners_ori: corners_twisted(
                rotated(self.corners_ori, CORNER_ORBITS[f], m.dir),
                m.face,
                m.dir,
            ),
            midges_perm: rotated(self.midges_perm, MIDGE_ORBITS[f], m.dir),
            midges_ori: midges_flipped(
                rotated(self.midges_ori, MIDGE_ORBITS[f], m.dir),
                m.face,
                m.dir,
            ),
            wings: wings_moved(self.wings, m),
            centers_x: centers_x_moved(self.centers_x, m),
            centers_plus: centers_plus_moved(self.centers_plus, m),
        }
    }

    /// The state after a sequence of moves, made in order.
    pub open spec fn after_moves(self, ms: Seq<MoveUnpkd>) -> StateView
        decreases ms.len(),
    {
        if ms.len() == 0 {
            self
        } else {
            self.after_moves(ms.drop_last()).after_move(ms.last())
        }
    }
}

} // verus!
