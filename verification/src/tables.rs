use vstd::prelude::*;

verus! {

// Wings and centres are numbered by the letters of the Speffz scheme, A = 0
// to X = 23. Corners and midges are numbered face by face: 0 to 3 round the
// top, 4 to 7 round the bottom (corners), 4 to 7 round the middle layer and
// 8 to 11 round the bottom (midges).
//
// Each row belongs to one face, in the order U, L, F, R, B, D, and lists the
// slots that a turn of that face carries round, in the order in which a
// clockwise quarter turn passes the pieces on.

/// The corners that each face carries round.
pub const CORNER_ORBITS: [[usize; 4]; 6] = [
    [0, 1, 2, 3],  // U
    [0, 3, 4, 7],  // L
    [3, 2, 5, 4],  // F
    [2, 1, 6, 5],  // R
    [1, 0, 7, 6],  // B
    [4, 5, 6, 7],  // D
];

/// What a quarter turn of each face adds to the orientation of the corner
/// that arrives at each slot of the face's orbit.
pub const CORNER_ORIENTATION_CHANGES: [[u8; 4]; 6] = [
    [0, 0, 0, 0],  // U
    [1, 2, 1, 2],  // L
    [1, 2, 1, 2],  // F
    [1, 2, 1, 2],  // R
    [1, 2, 1, 2],  // B
    [0, 0, 0, 0],  // D
];

/// The midges that each face carries round.
pub const MIDGE_ORBITS: [[usize; 4]; 6] = [
    [0, 1, 2, 3],  // U
    [3, 5, 11, 6],  // L
    [2, 4, 8, 5],  // F
    [1, 7, 9, 4],  // R
    [0, 6, 10, 7],  // B
    [8, 9, 10, 11],  // D
];

/// What a quarter turn of the front or the back face adds to the orientation
/// of each midge that it carries round.
pub const MIDGE_ORIENTATION_CHANGES: [u8; 4] = [1, 1, 1, 1];

/// The two rings of wings that every turn of a face carries round.
pub const WING_ORBITS_OUTER: [([usize; 4], [usize; 4]); 6] = [
    ([0, 1, 2, 3], [4, 16, 12, 8]),  // U: ABCD, EQMI
    ([4, 5, 6, 7], [3, 11, 23, 17]),  // L: EFGH, DLXR
    ([8, 9, 10, 11], [2, 15, 20, 5]),  // F: IJKL, CPUF
    ([12, 13, 14, 15], [1, 19, 21, 9]),  // R: MNOP, BTVJ
    ([16, 17, 18, 19], [0, 7, 22, 13]),  // B: QRST, AHWN
    ([20, 21, 22, 23], [10, 14, 18, 6]),  // D: UVWX, KOSG
];

/// The ring of wings that a wide turn of a face carries round besides.
pub const WING_ORBITS_WIDE: [[usize; 4]; 6] = [
    [11, 7, 19, 15],  // U: LHTP
    [16, 2, 10, 22],  // L: QCKW
    [1, 14, 23, 4],  // F: BOXE
    [0, 18, 20, 8],  // R: ASUI
    [12, 3, 6, 21],  // B: MDGV
    [9, 13, 17, 5],  // D: JNRF
];

/// The two rings of x-centres that a wide turn of a face carries round
/// besides the ring on the face itself.
pub const CENTER_ORBITS_WIDE_X: [([usize; 4], [usize; 4]); 6] = [
    ([5, 17, 13, 9], [4, 16, 12, 8]),  // U: FRNJ, EQMI
    ([0, 8, 20, 18], [3, 11, 23, 17]),  // L: AIUS, DLXR
    ([3, 12, 21, 6], [2, 15, 20, 5]),  // F: DMVG, CPUF
    ([2, 16, 22, 10], [1, 19, 21, 9]),  // R: CQWK, BTVJ
    ([1, 4, 23, 14], [0, 7, 22, 13]),  // B: BEXO, AHWN
    ([11, 15, 19, 7], [10, 14, 18, 6]),  // D: LPTH, KOSG
];

} // verus!
