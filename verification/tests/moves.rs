use cube5x5::error::CubeError;
use cube5x5::moves::{
    convert_moves_to_string, convert_string_to_moves, Face, MoveDir, MovePkd, MoveType, MoveUnpkd,
};

const FACES: [Face; 6] = [Face::U, Face::L, Face::F, Face::R, Face::B, Face::D];
const KINDS: [MoveType; 2] = [MoveType::Outer, MoveType::Wide];
const DIRS: [MoveDir; 3] = [MoveDir::CW, MoveDir::CCW, MoveDir::Dub];

fn all_moves() -> Vec<MoveUnpkd> {
    let mut all = Vec::new();
    for face in FACES {
        for type_ in KINDS {
            for dir in DIRS {
                all.push(MoveUnpkd { face, type_, dir });
            }
        }
    }
    all
}

fn mv(face: Face, type_: MoveType, dir: MoveDir) -> MoveUnpkd {
    MoveUnpkd { face, type_, dir }
}

#[test]
fn face_codes_are_zero_to_five() {
    for (code, face) in FACES.iter().enumerate() {
        assert_eq!(u8::from(*face), code as u8);
        assert_eq!(Face::from(code as u8), *face);
    }
}

#[test]
fn unknown_codes_fall_back() {
    assert_eq!(Face::from(6), Face::U);
    assert_eq!(Face::from(7), Face::U);
    assert_eq!(Face::from(255), Face::U);
    assert_eq!(MoveType::from(0), MoveType::Outer);
    assert_eq!(MoveType::from(1), MoveType::Wide);
    assert_eq!(MoveType::from(2), MoveType::Outer);
    assert_eq!(MoveDir::from(0), MoveDir::CW);
    assert_eq!(MoveDir::from(1), MoveDir::CCW);
    assert_eq!(MoveDir::from(2), MoveDir::Dub);
    assert_eq!(MoveDir::from(3), MoveDir::CW);
    assert_eq!(u8::from(MoveType::Wide), 1);
    assert_eq!(u8::from(MoveDir::Dub), 2);
}

#[test]
fn packing_puts_each_field_in_its_bits() {
    assert_eq!(MovePkd::from(mv(Face::U, MoveType::Outer, MoveDir::CW)), 0);
    assert_eq!(MovePkd::from(mv(Face::D, MoveType::Outer, MoveDir::CW)), 5);
    assert_eq!(MovePkd::from(mv(Face::U, MoveType::Wide, MoveDir::CW)), 8);
    assert_eq!(MovePkd::from(mv(Face::U, MoveType::Outer, MoveDir::CCW)), 16);
    assert_eq!(MovePkd::from(mv(Face::U, MoveType::Outer, MoveDir::Dub)), 32);
    assert_eq!(MovePkd::from(mv(Face::R, MoveType::Wide, MoveDir::Dub)), 43);
    assert_eq!(MovePkd::from(mv(Face::B, MoveType::Wide, MoveDir::CCW)), 28);
}

#[test]
fn unpacking_reads_each_field_from_its_bits() {
    assert_eq!(MoveUnpkd::from(43u8), mv(Face::R, MoveType::Wide, MoveDir::Dub));
    assert_eq!(MoveUnpkd::from(0u8), mv(Face::U, MoveType::Outer, MoveDir::CW));
    assert_eq!(MoveUnpkd::from(0b0001_0010u8), mv(Face::F, MoveType::Outer, MoveDir::CCW));
}

#[test]
fn unpacking_never_fails_and_falls_back() {
    // face bits 6 and 7 name no face
    assert_eq!(MoveUnpkd::from(0b0000_0110u8), mv(Face::U, MoveType::Outer, MoveDir::CW));
    assert_eq!(MoveUnpkd::from(0b0010_1111u8), mv(Face::U, MoveType::Wide, MoveDir::Dub));
    // direction bits 3 name no direction
    assert_eq!(MoveUnpkd::from(0b0011_0001u8), mv(Face::L, MoveType::Outer, MoveDir::CW));
    // the two top bits are not read
    assert_eq!(MoveUnpkd::from(0b1110_1011u8), mv(Face::R, MoveType::Wide, MoveDir::Dub));
    for byte in 0..=255u8 {
        let m = MoveUnpkd::from(byte);
        assert_eq!(m.face, Face::from(byte & 7));
        assert_eq!(m.type_, MoveType::from((byte >> 3) & 1));
        assert_eq!(m.dir, MoveDir::from((byte >> 4) & 3));
    }
}

#[test]
fn pack_then_unpack_is_identity_for_every_move() {
    for m in all_moves() {
        let byte = MovePkd::from(m);
        assert!(byte < 48);
        assert_eq!(MoveUnpkd::from(byte), m);
    }
}

#[test]
fn unpack_then_pack_is_identity_on_canonical_bytes_only() {
    for byte in 0..=255u8 {
        let canonical = byte % 8 < 6 && byte / 16 < 3;
        assert_eq!(MovePkd::from(MoveUnpkd::from(byte)) == byte, canonical);
    }
}

#[test]
fn rw2_parses_and_round_trips_through_a_byte() {
    let m = MoveUnpkd::parse("Rw2").unwrap();
    assert_eq!(m.face, Face::R);
    assert_eq!(m.type_, MoveType::Wide);
    assert_eq!(m.dir, MoveDir::Dub);
    let back = MoveUnpkd::from(MovePkd::from(m));
    assert_eq!(back.face, Face::R);
    assert_eq!(back.type_, MoveType::Wide);
    assert_eq!(back.dir, MoveDir::Dub);
}

#[test]
fn parse_reads_every_face_letter() {
    assert_eq!(MoveUnpkd::parse("U"), Ok(mv(Face::U, MoveType::Outer, MoveDir::CW)));
    assert_eq!(MoveUnpkd::parse("L"), Ok(mv(Face::L, MoveType::Outer, MoveDir::CW)));
    assert_eq!(MoveUnpkd::parse("F"), Ok(mv(Face::F, MoveType::Outer, MoveDir::CW)));
    assert_eq!(MoveUnpkd::parse("R"), Ok(mv(Face::R, MoveType::Outer, MoveDir::CW)));
    assert_eq!(MoveUnpkd::parse("B"), Ok(mv(Face::B, MoveType::Outer, MoveDir::CW)));
    assert_eq!(MoveUnpkd::parse("D"), Ok(mv(Face::D, MoveType::Outer, MoveDir::CW)));
}

#[test]
fn parse_reads_marks() {
    assert_eq!(MoveUnpkd::parse("D'"), Ok(mv(Face::D, MoveType::Outer, MoveDir::CCW)));
    assert_eq!(MoveUnpkd::parse("B2"), Ok(mv(Face::B, MoveType::Outer, MoveDir::Dub)));
    assert_eq!(MoveUnpkd::parse("Dw"), Ok(mv(Face::D, MoveType::Wide, MoveDir::CW)));
    assert_eq!(MoveUnpkd::parse("Dw'"), Ok(mv(Face::D, MoveType::Wide, MoveDir::CCW)));
    assert_eq!(MoveUnpkd::parse("Fw2"), Ok(mv(Face::F, MoveType::Wide, MoveDir::Dub)));
}

#[test]
fn parse_rejects_empty_text() {
    assert_eq!(MoveUnpkd::parse(""), Err(CubeError::InvalidNotation));
}

#[test]
fn parse_rejects_text_without_a_face_letter() {
    assert_eq!(MoveUnpkd::parse("X"), Err(CubeError::InvalidNotation));
    assert_eq!(MoveUnpkd::parse("r"), Err(CubeError::InvalidNotation));
    assert_eq!(MoveUnpkd::parse("w"), Err(CubeError::InvalidNotation));
    assert_eq!(MoveUnpkd::parse("2R"), Err(CubeError::InvalidNotation));
    assert_eq!(MoveUnpkd::parse("'"), Err(CubeError::InvalidNotation));
    assert_eq!(MoveUnpkd::parse(" R"), Err(CubeError::InvalidNotation));
    assert_eq!(MoveUnpkd::parse("\u{e9}"), Err(CubeError::InvalidNotation));
}

#[test]
fn parse_looks_only_at_first_second_and_last_character() {
    assert_eq!(MoveUnpkd::parse("Rx"), Ok(mv(Face::R, MoveType::Outer, MoveDir::CW)));
    assert_eq!(MoveUnpkd::parse("Rxyz'"), Ok(mv(Face::R, MoveType::Outer, MoveDir::CCW)));
    assert_eq!(MoveUnpkd::parse("Rw\u{e9}2"), Ok(mv(Face::R, MoveType::Wide, MoveDir::Dub)));
    assert_eq!(MoveUnpkd::parse("R2w"), Ok(mv(Face::R, MoveType::Outer, MoveDir::CW)));
}

#[test]
fn format_writes_letter_then_marks() {
    assert_eq!(mv(Face::U, MoveType::Outer, MoveDir::CW).to_notation(), "U");
    assert_eq!(mv(Face::L, MoveType::Wide, MoveDir::CW).to_notation(), "Lw");
    assert_eq!(mv(Face::F, MoveType::Outer, MoveDir::CCW).to_notation(), "F'");
    assert_eq!(mv(Face::R, MoveType::Wide, MoveDir::Dub).to_notation(), "Rw2");
    assert_eq!(mv(Face::B, MoveType::Outer, MoveDir::Dub).to_notation(), "B2");
    assert_eq!(mv(Face::D, MoveType::Wide, MoveDir::CCW).to_notation(), "Dw'");
}

#[test]
fn parse_inverts_format_for_every_move() {
    for m in all_moves() {
        let text = m.to_notation();
        assert!(!text.is_empty() && text.len() <= 3);
        assert!(!text.contains(' '));
        assert_eq!(MoveUnpkd::parse(&text), Ok(m));
    }
}

#[test]
fn format_inverts_parse_on_codec_text() {
    for text in ["U", "Lw", "F'", "Rw2", "B2", "Dw'", "D'", "Uw"] {
        assert_eq!(MoveUnpkd::parse(text).unwrap().to_notation(), text);
    }
}

#[test]
fn line_of_moves_is_split_on_spaces() {
    let moves = convert_string_to_moves("B2 L2 Dw D2 Bw D' Dw' Rw2").unwrap();
    assert_eq!(
        moves,
        vec![
            mv(Face::B, MoveType::Outer, MoveDir::Dub),
            mv(Face::L, MoveType::Outer, MoveDir::Dub),
            mv(Face::D, MoveType::Wide, MoveDir::CW),
            mv(Face::D, MoveType::Outer, MoveDir::Dub),
            mv(Face::B, MoveType::Wide, MoveDir::CW),
            mv(Face::D, MoveType::Outer, MoveDir::CCW),
            mv(Face::D, MoveType::Wide, MoveDir::CCW),
            mv(Face::R, MoveType::Wide, MoveDir::Dub),
        ]
    );
}

#[test]
fn empty_line_has_no_moves() {
    assert_eq!(convert_string_to_moves(""), Ok(vec![]));
    assert_eq!(convert_string_to_moves(" "), Ok(vec![]));
    assert_eq!(convert_string_to_moves("    "), Ok(vec![]));
}

#[test]
fn extra_spaces_are_passed_over() {
    let expected = vec![
        mv(Face::R, MoveType::Outer, MoveDir::CW),
        mv(Face::U, MoveType::Outer, MoveDir::CCW),
        mv(Face::F, MoveType::Wide, MoveDir::Dub),
    ];
    assert_eq!(convert_string_to_moves("R U' Fw2"), Ok(expected.clone()));
    assert_eq!(convert_string_to_moves(" R U' Fw2"), Ok(expected.clone()));
    assert_eq!(convert_string_to_moves("R U' Fw2 "), Ok(expected.clone()));
    assert_eq!(convert_string_to_moves("R  U'   Fw2"), Ok(expected.clone()));
    assert_eq!(convert_string_to_moves("   R  U'   Fw2  "), Ok(expected));
}

#[test]
fn single_word_line() {
    assert_eq!(
        convert_string_to_moves("Lw'"),
        Ok(vec![mv(Face::L, MoveType::Wide, MoveDir::CCW)])
    );
}

#[test]
fn only_spaces_separate() {
    // a tab is part of a word, not a separator
    assert_eq!(
        convert_string_to_moves("R\tU"),
        Ok(vec![mv(Face::R, MoveType::Outer, MoveDir::CW)])
    );
    assert_eq!(convert_string_to_moves("R \tU"), Err(CubeError::InvalidNotation));
}

#[test]
fn line_with_a_bad_word_is_invalid() {
    assert_eq!(convert_string_to_moves("R X U"), Err(CubeError::InvalidNotation));
    assert_eq!(convert_string_to_moves("x"), Err(CubeError::InvalidNotation));
    assert_eq!(convert_string_to_moves("R U 2"), Err(CubeError::InvalidNotation));
    assert_eq!(convert_string_to_moves("w R"), Err(CubeError::InvalidNotation));
}

#[test]
fn moves_are_joined_with_single_spaces() {
    let moves = vec![
        mv(Face::R, MoveType::Outer, MoveDir::CW),
        mv(Face::U, MoveType::Outer, MoveDir::CCW),
        mv(Face::F, MoveType::Wide, MoveDir::Dub),
    ];
    assert_eq!(convert_moves_to_string(&moves), "R U' Fw2");
}

#[test]
fn no_moves_give_empty_text() {
    assert_eq!(convert_moves_to_string(&vec![]), "");
}

#[test]
fn one_move_gives_its_text_without_spaces() {
    assert_eq!(
        convert_moves_to_string(&vec![mv(Face::D, MoveType::Wide, MoveDir::CCW)]),
        "Dw'"
    );
}

#[test]
fn line_round_trips_from_moves() {
    let moves = all_moves();
    let text = convert_moves_to_string(&moves);
    assert_eq!(text.split(' ').count(), 36);
    assert_eq!(convert_string_to_moves(&text), Ok(moves));
}

#[test]
fn line_round_trips_from_text_up_to_spacing() {
    let text = "  B2 L2   Dw D2 Bw  D' Dw' Rw2 ";
    let moves = convert_string_to_moves(text).unwrap();
    assert_eq!(convert_moves_to_string(&moves), "B2 L2 Dw D2 Bw D' Dw' Rw2");
    let tidy = "B2 L2 Dw D2 Bw D' Dw' Rw2";
    assert_eq!(convert_moves_to_string(&convert_string_to_moves(tidy).unwrap()), tidy);
}
