use crate::counting::{all_below, as_indices, occurrences, total};
use crate::error::CubeError;
use crate::laws::{lemma_move_keeps_valid, lemma_solved_is_valid};
use crate::model::{twisted_along, StateView};
use crate::moves::{Face, MoveDir, MoveType, MoveUnpkd};
use crate::tables::{
    CENTER_ORBITS_WIDE_X, CORNER_ORBITS, CORNER_ORIENTATION_CHANGES, MIDGE_ORBITS,
    MIDGE_ORIENTATION_CHANGES, WING_ORBITS_OUTER, WING_ORBITS_WIDE,
};
use crate::utils::{apply_orbit_with_dir_to_array, converted, is_permutation};
use vstd::prelude::*;
use vstd::std_specs::convert::IntoSpec;

verus! {

/// Encodes the state of a 5x5 cube,
/// with data for different piece types stored separately.
///
/// x-centers, +-centers, and wings are ordered according to the speffz lettering scheme
///
/// Corners are ordered as follows:
///
/// ```text
///     +---+
///     |0 1|
///     |3 2|
/// +---+---+---+---+
/// |   |   |   |   |
/// |   |   |   |   |
/// +---+---+---+---+
///     |4 5|
///     |7 6|
///     +---+
/// ```
///
/// And midges are ordered as follows:
///
/// ```text
///     +---+
///     | 0 |
///     |3 1|
///     | 2 |
/// +---+---+---+---+
/// |   |   |   |   |
/// |   |5 4|   |7 6|
/// |   |   |   |   |
/// +---+---+---+---+
///     |  8  |
///     |11  9|
///     |  10 |
///     +-----+
/// ```
///
/// The typical orientation is white top, green front
#[derive(Clone, Copy, Debug, PartialEq, Eq)]
pub struct State {
    /// A permutation of the numbers 0 through 7, where `corners_perm[i]` represents the piece at position `i`.
    pub corners_perm: [u8; 8],
    /// Each orientation number is either {0,1,2},
    /// and the sum of orientations must be 0 mod 3.
    ///
    /// The orientation number denotes the number of clockwise twists that a corner needs before the U/D sticker faces U/D.
    pub corners_ori: [u8; 8],
    /// A permutation of the numbers 0 through 11, where `midges_perm[i]` represents the piece at position `i`.
    pub midges_perm: [u8; 12],
    /// Each orientation is either {0,1},
    /// and the sum of orientations must be 0 mod 2.
    ///
    /// The edge orientation is defined to be 0 if it is a "good edge" (solvable without doing F or B moves), and 1 otherwise.
    pub midges_ori: [u8; 12],
    /// A permutation of the numbers 0 through 23, where `wings[i]` represents the piece at position `i`.
    pub wings: [u8; 24],
    /// Each number is either {0,1,2,3,4,5},
    /// where `centers_x[i]` represents the color of the center at position `i`.
    /// (0 = white, 1 = orange, 2 = green, 3 = red, 4 = blue, 5 = yellow)
    pub centers_x: [u8; 24],
    /// Each number is either {0,1,2,3,4,5},
    /// where `centers_plus[i]` represents the color of the center at position `i`.
    /// (0 = white, 1 = orange, 2 = green, 3 = red, 4 = blue, 5 = yellow)
    pub centers_plus: [u8; 24],
}

impl View for State {
    type V = StateView;

    open spec fn view(&self) -> StateView {
        StateView {
            corners_perm: self.corners_perm@,
            corners_ori: self.corners_ori@,
            midges_perm: self.midges_perm@,
            midges_ori: self.midges_ori@,
            wings: self.wings@,
            centers_x: self.centers_x@,
            centers_plus: self.centers_plus@,
        }
    }
}

/// Tells whether every entry lies below `bound`.
fn every_below(arr: &[u8], bound: u8) -> (b: bool)
    ensures
        b == all_below(arr@, bound as int),
{
    for i in 0..arr.len()
        invariant
            forall|k: int| 0 <= k < i ==> arr@[k] < bound,
    {
        if arr[i] >= bound {
            return false;
        }
    }
    true
}

/// Adds up the entries.
fn sum_of(arr: &[u8]) -> (sum: usize)
    requires
        arr@.len() <= 0x10000,
    ensures
        sum == total(arr@),
{
    let mut sum: usize = 0;
    for i in 0..arr.len()
        invariant
            arr@.len() <= 0x10000,
            sum == total(arr@.take(i as int)),
            sum <= 255 * i,
    {
        proof {
            assert(arr@.take(i + 1).drop_last() =~= arr@.take(i as int));
        }
        sum += arr[i] as usize;
    }
    proof {
        assert(arr@.take(arr@.len() as int) =~= arr@);
    }
    sum
}

/// Counts the entries equal to `v`.
fn count_of(arr: &[u8], v: u8) -> (count: usize)
    ensures
        count == occurrences(arr@, v),
{
    let mut count: usize = 0;
    for i in 0..arr.len()
        invariant
            count == occurrences(arr@.take(i as int), v),
            count <= i,
    {
        proof {
            assert(arr@.take(i + 1).drop_last() =~= arr@.take(i as int));
        }
        if arr[i] == v {
            count += 1;
        }
    }
    proof {
        assert(arr@.take(arr@.len() as int) =~= arr@);
    }
    count
}

/// Tells whether each of the six colours occurs four times.
fn four_of_each(arr: &[u8]) -> (b: bool)
    ensures
        b == forall|colour: u8| colour < 6 ==> #[trigger] occurrences(arr@, colour) == 4,
{
    for num in 0..6u8
        invariant
            forall|colour: u8| colour < num ==> #[trigger] occurrences(arr@, colour) == 4,
    {
        let n_tiles_of_num = count_of(arr, num);
        if n_tiles_of_num != 4 {
            return false;
        }
    }
    true
}

impl State {
    /// Tells whether the state is one that a real cube can be in: the
    /// corners, the midges and the wings are each a permutation of their
    /// slots; every corner orientation is 0, 1 or 2 and they add up to a
    /// multiple of 3; every midge orientation is 0 or 1 and they add up to an
    /// even number; every centre has one of the six colours, and each colour
    /// is on four x-centres and on four plus-centres.
    pub fn is_self_valid(&self) -> (b: bool)
        ensures
            b == self@.valid(),
    {
        proof {
            assert(converted(self.corners_perm@) =~= as_indices(self.corners_perm@));
            assert(converted(self.midges_perm@) =~= as_indices(self.midges_perm@));
            assert(converted(self.wings@) =~= as_indices(self.wings@));
        }
        // CORNERS
        if !is_permutation(&self.corners_perm) {
            return false;
        }
        if !every_below(&self.corners_ori, 3) {
            return false;
        }
        let corners_ori_sum: usize = sum_of(&self.corners_ori);
        if corners_ori_sum % 3 != 0 {
            return false;
        }

        // MIDGES
        if !is_permutation(&self.midges_perm) {
            return false;
        }
        if !every_below(&self.midges_ori, 2) {
            return false;
        }
        let midges_ori_sum: usize = sum_of(&self.midges_ori);
        if midges_ori_sum % 2 != 0 {
            return false;
        }

        // WINGS
        if !is_permutation(&self.wings) {
            return false;
        }

        // + CENTERS
        if !every_below(&self.centers_plus, 6) {
            return false;
        }
        if !four_of_each(&self.centers_plus) {
            return false;
        }

        // X CENTERS
        if !every_below(&self.centers_x, 6) {
            return false;
        }
        if !four_of_each(&self.centers_x) {
            return false;
        }
        true
    }

    /// Checks the state and reports an invalid one as an error.
    pub fn assert_self_is_valid(&self) -> (r: Result<(), CubeError>)
        ensures
            self@.valid() ==> r == Ok::<(), CubeError>(()),
            !self@.valid() ==> r == Err::<(), CubeError>(CubeError::InvariantViolation),
    {
        if self.is_self_valid() {
            Ok(())
        } else {
            Err(CubeError::InvariantViolation)
        }
    }

    /// The solved cube.
    pub fn new() -> (s: State)
        ensures
            s@ == StateView::solved(),
            s@.valid(),
    {
        let s = State {
            corners_perm: [0, 1, 2, 3, 4, 5, 6, 7],
            corners_ori: [0; 8],
            midges_perm: [0, 1, 2, 3, 4, 5, 6, 7, 8, 9, 10, 11],
            midges_ori: [0; 12],
            wings: [
                0, 1, 2, 3, 4, 5, 6, 7, 8, 9, 10, 11, 12, 13, 14, 15, 16, 17, 18, 19, 20, 21, 22,
                23,
            ],
            centers_x: [0, 0, 0, 0, 1, 1, 1, 1, 2, 2, 2, 2, 3, 3, 3, 3, 4, 4, 4, 4, 5, 5, 5, 5],
            centers_plus: [0, 0, 0, 0, 1, 1, 1, 1, 2, 2, 2, 2, 3, 3, 3, 3, 4, 4, 4, 4, 5, 5, 5, 5],
        };
        proof {
            let v = StateView::solved();
            assert(s@.corners_perm =~= v.corners_perm);
            assert(s@.corners_ori =~= v.corners_ori);
            assert(s@.midges_perm =~= v.midges_perm);
            assert(s@.midges_ori =~= v.midges_ori);
            assert(s@.wings =~= v.wings);
            assert(s@.centers_x =~= v.centers_x);
            assert(s@.centers_plus =~= v.centers_plus);
            lemma_solved_is_valid();
        }
        s
    }
}

impl State {
    /// Makes one move: carries the pieces of every family round the rings of
    /// the move's face, the inner rings too for a wide move, and after a
    /// quarter turn adjusts the orientation of the corners and, for the front
    /// and the back face, of the midges that arrived. Any state can be moved,
    /// a valid one or not.
    pub fn apply_move(&mut self, m: MoveUnpkd)
        ensures
            final(self)@ == old(self)@.after_move(m),
            old(self)@.valid() ==> final(self)@.valid(),
    {
        let face = u8::from(m.face);

        // CORNERS:
        let c_orbit = CORNER_ORBITS[face as usize];
        let co_changes = CORNER_ORIENTATION_CHANGES[face as usize];
        apply_orbit_with_dir_to_array(&mut self.corners_perm, c_orbit, m.dir);
        apply_orbit_with_dir_to_array(&mut self.corners_ori, c_orbit, m.dir);
        if m.dir != MoveDir::Dub {
            let ghost turned = *self;
            for i in 0..4usize
                invariant
                    c_orbit == CORNER_ORBITS[face as int],
                    face < 6,
                    self.corners_ori@ == twisted_along(
                        turned.corners_ori@,
                        c_orbit,
                        co_changes,
                        3,
                        i as nat,
                    ),
                    self.corners_perm == turned.corners_perm,
                    self.midges_perm == turned.midges_perm,
                    self.midges_ori == turned.midges_ori,
                    self.wings == turned.wings,
                    self.centers_x == turned.centers_x,
                    self.centers_plus == turned.centers_plus,
            {
                let at = c_orbit[i];
                self.corners_ori[at] = ((self.corners_ori[at] as u16 + co_changes[i] as u16)
                    % 3) as u8;
            }
        }

        // MIDGES
        let m_orbit: [usize; 4] = MIDGE_ORBITS[face as usize];
        apply_orbit_with_dir_to_array(&mut self.midges_perm, m_orbit, m.dir);
        apply_orbit_with_dir_to_array(&mut self.midges_ori, m_orbit, m.dir);
        if m.dir != MoveDir::Dub && (m.face == Face::F || m.face == Face::B) {
            let ghost turned = *self;
            for i in 0..4usize
                invariant
                    m_orbit == MIDGE_ORBITS[face as int],
                    face < 6,
                    self.midges_ori@ == twisted_along(
                        turned.midges_ori@,
                        m_orbit,
                        MIDGE_ORIENTATION_CHANGES,
                        2,
                        i as nat,
                    ),
                    self.corners_perm == turned.corners_perm,
                    self.corners_ori == turned.corners_ori,
                    self.midges_perm == turned.midges_perm,
                    self.wings == turned.wings,
                    self.centers_x == turned.centers_x,
                    self.centers_plus == turned.centers_plus,
            {
                let at = m_orbit[i];
                self.midges_ori[at] = ((self.midges_ori[at] as u16
                    + MIDGE_ORIENTATION_CHANGES[i] as u16) % 2) as u8;
            }
        }

        // WINGS
        let (w_outer_orbit_1, w_outer_orbit_2) = WING_ORBITS_OUTER[face as usize];
        let w_wide_orbit = WING_ORBITS_WIDE[face as usize];
        apply_orbit_with_dir_to_array(&mut self.wings, w_outer_orbit_1, m.dir);
        apply_orbit_with_dir_to_array(&mut self.wings, w_outer_orbit_2, m.dir);
        if m.type_ == MoveType::Wide {
            apply_orbit_with_dir_to_array(&mut self.wings, w_wide_orbit, m.dir);
        }

        // PLUS CENTERS
        // here we exploit a coincidence that the wing orbits happen to be the same as the + center orbits (in speffz)
        let center_plus_orbit_outer = w_outer_orbit_1;
        let center_plus_orbit_wide = w_outer_orbit_2;
        apply_orbit_with_dir_to_array(&mut self.centers_plus, center_plus_orbit_outer, m.dir);
        if m.type_ == MoveType::Wide {
            apply_orbit_with_dir_to_array(&mut self.centers_plus, center_plus_orbit_wide, m.dir);
        }

        // X CENTERS
        let center_x_orbit_outer = w_outer_orbit_1;
        let (center_x_orbit_wide_1, center_x_orbit_wide_2) = CENTER_ORBITS_WIDE_X[face as usize];
        apply_orbit_with_dir_to_array(&mut self.centers_x, center_x_orbit_outer, m.dir);
        if m.type_ == MoveType::Wide {
            apply_orbit_with_dir_to_array(&mut self.centers_x, center_x_orbit_wide_1, m.dir);
            apply_orbit_with_dir_to_array(&mut self.centers_x, center_x_orbit_wide_2, m.dir);
        }
        proof {
            if old(self)@.valid() {
                lemma_move_keeps_valid(old(self)@, m);
            }
        }
    }
}

/// What a move can be made on.
pub trait MoveableState {
    /// Makes the move that `m` converts into.
    fn make_move<T>(&mut self, m: T) where T: Into<MoveUnpkd>;
}

impl MoveableState for State {
    /// Converts `m` into a move and makes it with `apply_move`. Where the
    /// conversion of `T` is specified, the move is the one it specifies; in
    /// every case the state is moved by some move.
    fn make_move<T>(&mut self, m: T) where T: Into<MoveUnpkd>
        ensures
            <T as IntoSpec<MoveUnpkd>>::obeys_into_spec() ==> final(self)@ == old(
                self,
            )@.after_move(<T as IntoSpec<MoveUnpkd>>::into_spec(m)),
            exists|made: MoveUnpkd| final(self)@ == old(self)@.after_move(made),
            old(self)@.valid() ==> final(self)@.valid(),
    {
        let m: MoveUnpkd = m.into();
        self.apply_move(m);
    }
}

impl Default for State {
    fn default() -> (s: Self)
        ensures
            s@ == StateView::solved(),
    {
        Self::new()
    }
}

/// Two states with the same view are the same state.
pub proof fn lemma_view_determines_state(a: State, b: State)
    requires
        a@ == b@,
    ensures
        a == b,
{
    assert(a.corners_perm =~= b.corners_perm);
    assert(a.corners_ori =~= b.corners_ori);
    assert(a.midges_perm =~= b.midges_perm);
    assert(a.midges_ori =~= b.midges_ori);
    assert(a.wings =~= b.wings);
    assert(a.centers_x =~= b.centers_x);
    assert(a.centers_plus =~= b.centers_plus);
}

} // verus!
