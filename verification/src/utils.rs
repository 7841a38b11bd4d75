use crate::counting::is_permutation_seq;
use crate::lanes::{
    bit_lanes, lemma_read_bit_lane, lemma_read_pair_lane, lemma_rotated_packed_distinct,
    lemma_written_bit_lane, lemma_written_pair_lane, packed_lane, pair_lanes, rotated_packed,
};
use crate::moves::MoveDir;
use crate::orbit::{orbit_distinct, orbit_within, rotated, source_slot};
use vstd::prelude::*;
use vstd::std_specs::convert::FromSpec;

verus! {

/// The entries of a slice as numbers, each through its conversion to `usize`.
pub open spec fn converted<T>(s: Seq<T>) -> Seq<int> where usize: From<T> {
    Seq::new(s.len(), |i: int| <usize as FromSpec<T>>::from_spec(s[i]) as int)
}

/// Tells whether the slice, read as numbers, holds each number below its
/// length exactly once. The answer is about the numbers that the conversion
/// to `usize` is specified to give; for an element type whose conversion has
/// no specification nothing is said.
pub fn is_permutation<T>(slice: &[T]) -> (b: bool) where T: Copy, usize: From<T>
    ensures
        <usize as FromSpec<T>>::obeys_from_spec() ==> b == is_permutation_seq(converted(slice@)),
{
    let n = slice.len();
    let ghost nums = converted(slice@);

    // Use a boolean array to track which numbers we've seen
    let mut seen = vec![false; n];

    for k in 0..n
        invariant
            n == slice@.len(),
            nums == converted(slice@),
            seen@.len() == n,
            <usize as FromSpec<T>>::obeys_from_spec() ==> {
                &&& forall|i: int| 0 <= i < k ==> 0 <= #[trigger] nums[i] < n
                &&& forall|i: int, j: int| 0 <= i < j < k ==> nums[i] != nums[j]
                &&& forall|v: int|
                    0 <= v < n ==> (#[trigger] seen@[v] <==> exists|i: int|
                        0 <= i < k && nums[i] == v)
            },
    {
        let idx = usize::from(slice[k]);
        assert(<usize as FromSpec<T>>::obeys_from_spec() ==> idx == nums[k as int]);

        if idx >= n {
            return false;
        }
        if seen[idx] {
            // We've seen this number before, so it's not a permutation
            proof {
                if <usize as FromSpec<T>>::obeys_from_spec() {
                    let i = choose|i: int| 0 <= i < k && nums[i] == idx;
                    assert(nums[i] == nums[k as int]);
                }
            }
            return false;
        }
        let ghost seen_before = seen@;
        seen[idx] = true;
        proof {
            if <usize as FromSpec<T>>::obeys_from_spec() {
                assert forall|v: int| 0 <= v < n implies (#[trigger] seen@[v] <==> exists|i: int|
                    0 <= i < k + 1 && nums[i] == v) by {
                    if v == idx {
                        assert(nums[k as int] == v);
                    }
                }
                assert forall|i: int, j: int| 0 <= i < j < k + 1 implies nums[i] != nums[j] by {
                    if j == k && nums[i] == nums[j] {
                        assert(seen_before[idx as int]);
                    }
                }
            }
        }
    }

    // If we get here, all numbers 0 to n-1 appeared exactly once
    true
}

/// Turns the four slots of `orbit` in `arr`: clockwise, each slot takes the
/// value of the slot before it in the orbit (the first that of the last);
/// counter-clockwise, that of the slot after it; for a half turn, that of
/// the slot opposite.
pub fn apply_orbit_with_dir_to_array<T>(arr: &mut [T], orbit: [usize; 4], dir: MoveDir) where
    T: Copy,

    requires
        orbit_within(orbit, old(arr)@.len() as int),
    ensures
        final(arr)@ == rotated(old(arr)@, orbit, dir),
{
    let a0 = arr[orbit[0]];
    let a1 = arr[orbit[1]];
    let a2 = arr[orbit[2]];
    let a3 = arr[orbit[3]];
    match dir {
        MoveDir::CW => {
            arr[orbit[0]] = a3;
            arr[orbit[1]] = a0;
            arr[orbit[2]] = a1;
            arr[orbit[3]] = a2;
        },
        MoveDir::CCW => {
            arr[orbit[0]] = a1;
            arr[orbit[1]] = a2;
            arr[orbit[2]] = a3;
            arr[orbit[3]] = a0;
        },
        MoveDir::Dub => {
            arr[orbit[0]] = a2;
            arr[orbit[1]] = a3;
            arr[orbit[2]] = a0;
            arr[orbit[3]] = a1;
        },
    }
}

/// Turns four one-bit lanes of a packed word as `apply_orbit_with_dir_to_array`
/// turns four slots of an array; lane `i` is bit `i` of the word.
///
/// Where the orbit names a lane more than once, the lane ends up with the
/// bits of all the values moved into it.
pub fn apply_orbit_with_dir_to_packed_u16(arr_packed: &mut u16, orbit: [usize; 4], dir: MoveDir)
    requires
        orbit_within(orbit, 16),
    ensures
        bit_lanes(*final(arr_packed)) == rotated_packed(bit_lanes(*old(arr_packed)), orbit, dir),
        orbit_distinct(orbit) ==> bit_lanes(*final(arr_packed)) == rotated(
            bit_lanes(*old(arr_packed)),
            orbit,
            dir,
        ),
{
    let word: u16 = *arr_packed;
    let mut arr: [u8; 4] = [
        (word >> orbit[0]) as u8 & 1,
        (word >> orbit[1]) as u8 & 1,
        (word >> orbit[2]) as u8 & 1,
        (word >> orbit[3]) as u8 & 1,
    ];
    proof {
        lemma_read_bit_lane(word, orbit[0] as u16);
        lemma_read_bit_lane(word, orbit[1] as u16);
        lemma_read_bit_lane(word, orbit[2] as u16);
        lemma_read_bit_lane(word, orbit[3] as u16);
    }

    match dir {
        MoveDir::CW => {
            arr = [arr[3], arr[0], arr[1], arr[2]];
        },
        MoveDir::CCW => {
            arr = [arr[1], arr[2], arr[3], arr[0]];
        },
        MoveDir::Dub => {
            arr = [arr[2], arr[3], arr[0], arr[1]];
        },
    }
    *arr_packed &= !((1u16 << orbit[0]) | (1u16 << orbit[1]) | (1u16 << orbit[2]) | (1u16
        << orbit[3]));
    *arr_packed |= ((arr[0] as u16) << orbit[0]) | ((arr[1] as u16) << orbit[1]) | ((arr[2] as u16)
        << orbit[2]) | ((arr[3] as u16) << orbit[3]);
    proof {
        let before = bit_lanes(word);
        let after = bit_lanes(*arr_packed);
        assert forall|q: int| 0 <= q < 16 implies after[q] == packed_lane(
            before,
            orbit,
            dir,
            q,
        ) by {
            lemma_written_bit_lane(
                word,
                orbit[0] as u16,
                orbit[1] as u16,
                orbit[2] as u16,
                orbit[3] as u16,
                arr[0],
                arr[1],
                arr[2],
                arr[3],
                q as u16,
            );
        }
        assert(after =~= rotated_packed(before, orbit, dir));
        if orbit_distinct(orbit) {
            lemma_rotated_packed_distinct(before, orbit, dir);
        }
    }
}

/// Turns four two-bit lanes of a packed word as `apply_orbit_with_dir_to_array`
/// turns four slots of an array; lane `i` is bits `2 * i` and `2 * i + 1` of
/// the word.
///
/// Where the orbit names a lane more than once, the lane ends up with the
/// bits of all the values moved into it.
pub fn apply_orbit_with_dir_to_double_packed_u16(
    arr_packed: &mut u16,
    orbit: [usize; 4],
    dir: MoveDir,
)
    requires
        orbit_within(orbit, 8),
    ensures
        pair_lanes(*final(arr_packed)) == rotated_packed(pair_lanes(*old(arr_packed)), orbit, dir),
        orbit_distinct(orbit) ==> pair_lanes(*final(arr_packed)) == rotated(
            pair_lanes(*old(arr_packed)),
            orbit,
            dir,
        ),
{
    let word: u16 = *arr_packed;
    let ghost before = pair_lanes(word);
    let mut arr: [u8; 4] = [
        (word >> (2 * orbit[0])) as u8 & 3,
        (word >> (2 * orbit[1])) as u8 & 3,
        (word >> (2 * orbit[2])) as u8 & 3,
        (word >> (2 * orbit[3])) as u8 & 3,
    ];
    proof {
        lemma_read_pair_lane(word, (2 * orbit[0]) as u16);
        lemma_read_pair_lane(word, (2 * orbit[1]) as u16);
        lemma_read_pair_lane(word, (2 * orbit[2]) as u16);
        lemma_read_pair_lane(word, (2 * orbit[3]) as u16);
        assert(arr[0] == before[orbit[0] as int] && arr[1] == before[orbit[1] as int] && arr[2]
            == before[orbit[2] as int] && arr[3] == before[orbit[3] as int]);
    }

    match dir {
        MoveDir::CW => {
            arr = [arr[3], arr[0], arr[1], arr[2]];
        },
        MoveDir::CCW => {
            arr = [arr[1], arr[2], arr[3], arr[0]];
        },
        MoveDir::Dub => {
            arr = [arr[2], arr[3], arr[0], arr[1]];
        },
    }
    assert(forall|k: int| 0 <= k < 4 ==> arr[k] == before[orbit[source_slot(dir, k)] as int] && arr[k] <= 3);
    *arr_packed &= !((3u16 << (2 * orbit[0])) | (3u16 << (2 * orbit[1])) | (3u16 << (2 * orbit[2]))
        | (3u16 << (2 * orbit[3])));
    *arr_packed |= ((arr[0] as u16) << (2 * orbit[0])) | ((arr[1] as u16) << (2 * orbit[1])) | ((
    arr[2] as u16) << (2 * orbit[2])) | ((arr[3] as u16) << (2 * orbit[3]));
    proof {
        let after = pair_lanes(*arr_packed);
        let (o0, o1, o2, o3) = (
            (2 * orbit[0]) as u16,
            (2 * orbit[1]) as u16,
            (2 * orbit[2]) as u16,
            (2 * orbit[3]) as u16,
        );
        assert(*arr_packed == (word & !((3u16 << o0) | (3u16 << o1) | (3u16 << o2) | (3u16 << o3)))
            | (((arr[0] as u16) << o0) | ((arr[1] as u16) << o1) | ((arr[2] as u16) << o2) | ((
        arr[3] as u16) << o3)));
        assert forall|q: int| 0 <= q < 8 implies after[q] == packed_lane(before, orbit, dir, q) by {
            let t = (2 * q) as u16;
            lemma_written_pair_lane(word, o0, o1, o2, o3, arr[0], arr[1], arr[2], arr[3], t);
            assert(t == o0 <==> q == orbit[0]);
            assert(t == o1 <==> q == orbit[1]);
            assert(t == o2 <==> q == orbit[2]);
            assert(t == o3 <==> q == orbit[3]);
            assert(after[q] == ((*arr_packed >> t) & 3) as u8);
            assert(before[q] == ((word >> t) & 3) as u8);
        }
        assert(after =~= rotated_packed(before, orbit, dir));
        if orbit_distinct(orbit) {
            lemma_rotated_packed_distinct(before, orbit, dir);
        }
    }
}

} // verus!
