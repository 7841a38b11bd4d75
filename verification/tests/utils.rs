use cube5x5::moves::MoveDir;
use cube5x5::utils::{
    apply_orbit_with_dir_to_array, apply_orbit_with_dir_to_double_packed_u16,
    apply_orbit_with_dir_to_packed_u16, is_permutation,
};

const DIRS: [MoveDir; 3] = [MoveDir::CW, MoveDir::CCW, MoveDir::Dub];

#[test]
fn identity_is_a_permutation() {
    assert!(is_permutation(&[0u8, 1, 2, 3, 4, 5, 6, 7]));
    assert!(is_permutation(&[0u8]));
}

#[test]
fn empty_slice_is_a_permutation() {
    let empty: [u8; 0] = [];
    assert!(is_permutation(&empty));
}

#[test]
fn shuffled_indices_are_a_permutation() {
    assert!(is_permutation(&[3u8, 0, 2, 1]));
    assert!(is_permutation(&[7u8, 6, 5, 4, 3, 2, 1, 0]));
    assert!(is_permutation(&[1u16, 0, 2]));
    assert!(is_permutation(&[2usize, 0, 1]));
}

#[test]
fn repeated_entry_is_no_permutation() {
    assert!(!is_permutation(&[0u8, 1, 1, 3]));
    assert!(!is_permutation(&[0u8, 0]));
    assert!(!is_permutation(&[2u8, 1, 2]));
}

#[test]
fn entry_out_of_range_is_no_permutation() {
    assert!(!is_permutation(&[0u8, 1, 2, 4]));
    assert!(!is_permutation(&[1u8]));
    assert!(!is_permutation(&[255u8, 0, 1]));
    assert!(!is_permutation(&[1u8, 2, 3]));
}

#[test]
fn clockwise_passes_values_forward() {
    let mut arr = [10u8, 11, 12, 13, 14, 15];
    apply_orbit_with_dir_to_array(&mut arr, [0, 2, 4, 5], MoveDir::CW);
    // slot 0 receives what was at the last slot of the orbit
    assert_eq!(arr, [15, 11, 10, 13, 12, 14]);
}

#[test]
fn counter_clockwise_passes_values_backward() {
    let mut arr = [10u8, 11, 12, 13, 14, 15];
    apply_orbit_with_dir_to_array(&mut arr, [0, 2, 4, 5], MoveDir::CCW);
    // slot 0 receives what was at the second slot of the orbit
    assert_eq!(arr, [12, 11, 14, 13, 15, 10]);
}

#[test]
fn half_turn_swaps_opposite_slots() {
    let mut arr = [10u8, 11, 12, 13, 14, 15];
    apply_orbit_with_dir_to_array(&mut arr, [0, 2, 4, 5], MoveDir::Dub);
    assert_eq!(arr, [14, 11, 15, 13, 10, 12]);
}

#[test]
fn orbit_order_matters() {
    let mut arr = ['a', 'b', 'c', 'd'];
    apply_orbit_with_dir_to_array(&mut arr, [3, 1, 0, 2], MoveDir::CW);
    // 3 <- 2, 1 <- 3, 0 <- 1, 2 <- 0
    assert_eq!(arr, ['b', 'd', 'a', 'c']);
}

#[test]
fn array_turn_works_for_any_copy_type() {
    let mut arr = [(0u32, false), (1, true), (2, false), (3, true)];
    apply_orbit_with_dir_to_array(&mut arr, [0, 1, 2, 3], MoveDir::CCW);
    assert_eq!(arr, [(1, true), (2, false), (3, true), (0, false)]);
}

#[test]
fn repeated_slot_keeps_the_later_write() {
    let mut arr = [1u8, 2, 3, 4];
    // slots written in order: 0 <- old 3, 0 <- old 0, 2 <- old 0, 3 <- old 2
    apply_orbit_with_dir_to_array(&mut arr, [0, 0, 2, 3], MoveDir::CW);
    assert_eq!(arr, [1, 2, 1, 3]);
}

#[test]
fn array_turn_cycles() {
    let start = [5u8, 6, 7, 8, 9];
    let orbit = [4, 0, 3, 1];
    for dir in [MoveDir::CW, MoveDir::CCW] {
        let mut arr = start;
        for _ in 0..4 {
            apply_orbit_with_dir_to_array(&mut arr, orbit, dir);
        }
        assert_eq!(arr, start);
    }
    let mut arr = start;
    apply_orbit_with_dir_to_array(&mut arr, orbit, MoveDir::Dub);
    assert_ne!(arr, start);
    apply_orbit_with_dir_to_array(&mut arr, orbit, MoveDir::Dub);
    assert_eq!(arr, start);
    apply_orbit_with_dir_to_array(&mut arr, orbit, MoveDir::CW);
    apply_orbit_with_dir_to_array(&mut arr, orbit, MoveDir::CCW);
    assert_eq!(arr, start);
}

#[test]
fn packed_bit_moves_one_slot_forward() {
    let mut word: u16 = 0b0001;
    apply_orbit_with_dir_to_packed_u16(&mut word, [0, 1, 2, 3], MoveDir::CW);
    assert_eq!(word, 0b0010);
    apply_orbit_with_dir_to_packed_u16(&mut word, [0, 1, 2, 3], MoveDir::Dub);
    assert_eq!(word, 0b1000);
    apply_orbit_with_dir_to_packed_u16(&mut word, [0, 1, 2, 3], MoveDir::CCW);
    assert_eq!(word, 0b0100);
}

#[test]
fn packed_turn_leaves_other_bits_alone() {
    let mut word: u16 = 0b1010_0101_1100_0011;
    apply_orbit_with_dir_to_packed_u16(&mut word, [15, 8, 4, 0], MoveDir::CW);
    // bits before: 15 = 1, 8 = 1, 4 = 0, 0 = 1; after: 15 <- 1, 8 <- 1, 4 <- 1, 0 <- 0
    assert_eq!(word, 0b1010_0101_1101_0010);
}

#[test]
fn double_packed_value_moves_one_slot_forward() {
    // lanes, lowest first: 3, 2, 1, 0
    let mut word: u16 = 0b00_01_10_11;
    apply_orbit_with_dir_to_double_packed_u16(&mut word, [0, 1, 2, 3], MoveDir::CW);
    // lanes: 0, 3, 2, 1
    assert_eq!(word, 0b01_10_11_00);
    apply_orbit_with_dir_to_double_packed_u16(&mut word, [0, 1, 2, 3], MoveDir::Dub);
    // lanes: 2, 1, 0, 3
    assert_eq!(word, 0b11_00_01_10);
    apply_orbit_with_dir_to_double_packed_u16(&mut word, [0, 1, 2, 3], MoveDir::CCW);
    // lanes: 1, 0, 3, 2
    assert_eq!(word, 0b10_11_00_01);
}

#[test]
fn double_packed_turn_leaves_other_lanes_alone() {
    // lanes 7..0: 2, 1, 3, 0, 1, 2, 0, 3
    let mut word: u16 = 0b10_01_11_00_01_10_00_11;
    apply_orbit_with_dir_to_double_packed_u16(&mut word, [7, 0, 5, 2], MoveDir::CCW);
    // 7 <- lane 0 = 3, 0 <- lane 5 = 3, 5 <- lane 2 = 2, 2 <- lane 7 = 2
    assert_eq!(word, 0b11_01_10_00_01_10_00_11);
}

#[test]
fn packed_repeated_slot_merges_bits() {
    let mut word: u16 = 0b0110;
    // values read: slot 1 = 1, slot 1 = 1, slot 2 = 1, slot 3 = 0; clockwise they
    // become 0, 1, 1, 1 and both of the first two are written into bit 1
    apply_orbit_with_dir_to_packed_u16(&mut word, [1, 1, 2, 3], MoveDir::CW);
    assert_eq!(word, 0b1110);
    let mut pairs: u16 = 0b00_10_01_00;
    // values read: lane 1 = 1, lane 1 = 1, lane 2 = 2, lane 3 = 0; counter-clockwise
    // they become 1, 2, 0, 1; lane 1 takes 1 | 2, lane 2 takes 0, lane 3 takes 1
    apply_orbit_with_dir_to_double_packed_u16(&mut pairs, [1, 1, 2, 3], MoveDir::CCW);
    assert_eq!(pairs, 0b01_00_11_00);
}

fn unpack_bits(word: u16) -> [u8; 16] {
    let mut arr = [0u8; 16];
    for i in 0..16 {
        arr[i] = ((word >> i) & 1) as u8;
    }
    arr
}

fn unpack_pairs(word: u16) -> [u8; 8] {
    let mut arr = [0u8; 8];
    for i in 0..8 {
        arr[i] = ((word >> (2 * i)) & 3) as u8;
    }
    arr
}

fn orbits(n: usize) -> Vec<[usize; 4]> {
    let mut all = Vec::new();
    for a in 0..n {
        for b in 0..n {
            for c in 0..n {
                for d in 0..n {
                    if a != b && a != c && a != d && b != c && b != d && c != d {
                        all.push([a, b, c, d]);
                    }
                }
            }
        }
    }
    all
}

#[test]
fn packed_turn_agrees_with_array_turn() {
    let words: [u16; 6] = [0, 0xffff, 0x0001, 0x8000, 0xa5c3, 0x1234];
    let mut step = 0usize;
    for orbit in orbits(16) {
        step += 1;
        if step % 7 != 0 {
            continue;
        }
        for dir in DIRS {
            for word in words {
                let mut arr = unpack_bits(word);
                apply_orbit_with_dir_to_array(&mut arr, orbit, dir);
                let mut packed = word;
                apply_orbit_with_dir_to_packed_u16(&mut packed, orbit, dir);
                assert_eq!(unpack_bits(packed), arr);
            }
        }
    }
}

#[test]
fn double_packed_turn_agrees_with_array_turn() {
    let words: [u16; 6] = [0, 0xffff, 0x0003, 0xc000, 0xa5c3, 0x1b1b];
    for orbit in orbits(8) {
        for dir in DIRS {
            for word in words {
                let mut arr = unpack_pairs(word);
                apply_orbit_with_dir_to_array(&mut arr, orbit, dir);
                let mut packed = word;
                apply_orbit_with_dir_to_double_packed_u16(&mut packed, orbit, dir);
                assert_eq!(unpack_pairs(packed), arr);
            }
        }
    }
}

#[test]
fn all_three_forms_agree_on_one_logical_input() {
    // eight entries of one bit each, held as an array, as bits and as pairs
    for input in 0..=255u16 {
        let mut entries = [0u8; 8];
        let mut pairs: u16 = 0;
        for i in 0..8 {
            entries[i] = ((input >> i) & 1) as u8;
            pairs |= ((input >> i) & 1) << (2 * i);
        }
        for orbit in [[0, 1, 2, 3], [7, 3, 5, 1], [2, 6, 0, 4], [4, 5, 6, 7]] {
            for dir in DIRS {
                let mut arr = entries;
                let mut one = input;
                let mut two = pairs;
                apply_orbit_with_dir_to_array(&mut arr, orbit, dir);
                apply_orbit_with_dir_to_packed_u16(&mut one, orbit, dir);
                apply_orbit_with_dir_to_double_packed_u16(&mut two, orbit, dir);
                for i in 0..8 {
                    assert_eq!(((one >> i) & 1) as u8, arr[i]);
                    assert_eq!(((two >> (2 * i)) & 3) as u8, arr[i]);
                }
                assert_eq!(one >> 8, 0);
            }
        }
    }
}
