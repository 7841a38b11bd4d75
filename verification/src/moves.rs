use crate::error::CubeError;
use crate::notation::{
    format_line, joined, lemma_words_after_space, lemma_words_after_word, notation, notations,
    parse_line, parse_notation, words,
};
use itertools::Itertools;
use vstd::prelude::*;
use vstd::slice::slice_subrange;
use vstd::std_specs::convert::FromSpecImpl;
use vstd::string::StringExecFns;

verus! {

/// A move in one byte: the face in bits 0 to 2, the kind in bit 3, the
/// direction in bits 4 and 5.
pub type MovePkd = u8;

/// The six faces, in the order of their codes 0 to 5.
#[derive(Debug, PartialEq, Eq, Clone, Copy, Structural)]
pub enum Face {
    U,
    L,
    F,
    R,
    B,
    D,
}

/// How deep a turn reaches: the outer layer alone, or the layer below it too.
#[derive(Debug, PartialEq, Eq, Clone, Copy, Structural)]
pub enum MoveType {
    Outer,
    Wide,
}

/// How far a turn goes: a quarter clockwise, a quarter counter-clockwise, or
/// a half turn.
#[derive(Debug, PartialEq, Eq, Clone, Copy, Structural)]
pub enum MoveDir {
    CW,
    CCW,
    Dub,
}

/// A move as a triple.
#[derive(Debug, PartialEq, Eq, Clone, Copy, Structural)]
pub struct MoveUnpkd {
    pub face: Face,
    pub type_: MoveType,
    pub dir: MoveDir,
}

impl Face {
    /// The face's code.
    pub open spec fn code(self) -> u8 {
        match self {
            Face::U => 0,
            Face::L => 1,
            Face::F => 2,
            Face::R => 3,
            Face::B => 4,
            Face::D => 5,
        }
    }

    /// The face with the given code; a code that no face has stands for `U`.
    pub open spec fn of_code(code: u8) -> Face {
        if code == 1 {
            Face::L
        } else if code == 2 {
            Face::F
        } else if code == 3 {
            Face::R
        } else if code == 4 {
            Face::B
        } else if code == 5 {
            Face::D
        } else {
            Face::U
        }
    }
}

impl From<u8> for Face {
    fn from(code: u8) -> (face: Face) {
        match code {
            1 => Face::L,
            2 => Face::F,
            3 => Face::R,
            4 => Face::B,
            5 => Face::D,
            _ => Face::U,
        }
    }
}

impl FromSpecImpl<u8> for Face {
    open spec fn obeys_from_spec() -> bool {
        true
    }

    open spec fn from_spec(code: u8) -> Face {
        Face::of_code(code)
    }
}

impl From<Face> for u8 {
    fn from(face: Face) -> (code: u8) {
        match face {
            Face::U => 0,
            Face::L => 1,
            Face::F => 2,
            Face::R => 3,
            Face::B => 4,
            Face::D => 5,
        }
    }
}

impl FromSpecImpl<Face> for u8 {
    open spec fn obeys_from_spec() -> bool {
        true
    }

    open spec fn from_spec(face: Face) -> u8 {
        face.code()
    }
}

impl MoveType {
    /// The kind's code.
    pub open spec fn code(self) -> u8 {
        match self {
            MoveType::Outer => 0,
            MoveType::Wide => 1,
        }
    }

    /// The kind with the given code; a code that no kind has stands for `Outer`.
    pub open spec fn of_code(code: u8) -> MoveType {
        if code == 1 {
            MoveType::Wide
        } else {
            MoveType::Outer
        }
    }
}

impl From<u8> for MoveType {
    fn from(code: u8) -> (kind: MoveType) {
        match code {
            1 => MoveType::Wide,
            _ => MoveType::Outer,
        }
    }
}

impl FromSpecImpl<u8> for MoveType {
    open spec fn obeys_from_spec() -> bool {
        true
    }

    open spec fn from_spec(code: u8) -> MoveType {
        MoveType::of_code(code)
    }
}

impl From<MoveType> for u8 {
    fn from(kind: MoveType) -> (code: u8) {
        match kind {
            MoveType::Outer => 0,
            MoveType::Wide => 1,
        }
    }
}

impl FromSpecImpl<MoveType> for u8 {
    open spec fn obeys_from_spec() -> bool {
        true
    }

    open spec fn from_spec(kind: MoveType) -> u8 {
        kind.code()
    }
}

impl MoveDir {
    /// The direction's code.
    pub open spec fn code(self) -> u8 {
        match self {
            MoveDir::CW => 0,
            MoveDir::CCW => 1,
            MoveDir::Dub => 2,
        }
    }

    /// The direction with the given code; a code that no direction has stands
    /// for `CW`.
    pub open spec fn of_code(code: u8) -> MoveDir {
        if code == 1 {
            MoveDir::CCW
        } else if code == 2 {
            MoveDir::Dub
        } else {
            MoveDir::CW
        }
    }
}

impl From<u8> for MoveDir {
    fn from(code: u8) -> (dir: MoveDir) {
        match code {
            1 => MoveDir::CCW,
            2 => MoveDir::Dub,
            _ => MoveDir::CW,
        }
    }
}

impl FromSpecImpl<u8> for MoveDir {
    open spec fn obeys_from_spec() -> bool {
        true
    }

    open spec fn from_spec(code: u8) -> MoveDir {
        MoveDir::of_code(code)
    }
}

impl From<MoveDir> for u8 {
    fn from(dir: MoveDir) -> (code: u8) {
        match dir {
            MoveDir::CW => 0,
            MoveDir::CCW => 1,
            MoveDir::Dub => 2,
        }
    }
}

impl FromSpecImpl<MoveDir> for u8 {
    open spec fn obeys_from_spec() -> bool {
        true
    }

    open spec fn from_spec(dir: MoveDir) -> u8 {
        dir.code()
    }
}

impl MoveUnpkd {
    /// The byte that holds the move: its face's code, plus 8 for a wide turn,
    /// plus 16 times its direction's code.
    pub open spec fn packed(self) -> u8 {
        (self.face.code() + 8 * self.type_.code() + 16 * self.dir.code()) as u8
    }

    /// The move that a byte holds. The two top bits are not read, and a field
    /// whose bits name nothing falls back to `U`, `Outer` or `CW`.
    pub open spec fn unpacked(byte: u8) -> MoveUnpkd {
        MoveUnpkd {
            face: Face::of_code((byte % 8) as u8),
            type_: MoveType::of_code(((byte / 8) % 2) as u8),
            dir: MoveDir::of_code(((byte / 16) % 4) as u8),
        }
    }
}

impl From<MovePkd> for MoveUnpkd {
    fn from(value: u8) -> (m: MoveUnpkd) {
        let face: u8 = value & 0b00000111;
        let type_: u8 = (value & 0b00001000) >> 3;
        let dir: u8 = (value & 0b00110000) >> 4;
        assert(value & 0b00000111 == value % 8 && (value & 0b00001000) >> 3 == (value / 8) % 2
            && (value & 0b00110000) >> 4 == (value / 16) % 4) by (bit_vector);
        MoveUnpkd { face: Face::from(face), type_: MoveType::from(type_), dir: MoveDir::from(dir) }
    }
}

impl FromSpecImpl<MovePkd> for MoveUnpkd {
    open spec fn obeys_from_spec() -> bool {
        true
    }

    open spec fn from_spec(value: u8) -> MoveUnpkd {
        MoveUnpkd::unpacked(value)
    }
}

impl From<MoveUnpkd> for MovePkd {
    fn from(value: MoveUnpkd) -> (byte: u8) {
        let face: u8 = u8::from(value.face);
        let type_: u8 = u8::from(value.type_);
        let dir: u8 = u8::from(value.dir);
        assert(face | (type_ << 3) | (dir << 4) == face + 8 * type_ + 16 * dir) by (bit_vector)
            requires
                face < 8,
                type_ < 2,
                dir < 4,
        ;
        face | (type_ << 3) | (dir << 4)
    }
}

impl FromSpecImpl<MoveUnpkd> for MovePkd {
    open spec fn obeys_from_spec() -> bool {
        true
    }

    open spec fn from_spec(value: MoveUnpkd) -> u8 {
        value.packed()
    }
}

/// The characters of a text, in order.
fn chars_of(text: &str) -> (chars: Vec<char>)
    ensures
        chars@ == text@,
{
    let mut chars: Vec<char> = Vec::new();
    for c in it: text.chars()
        invariant
            chars@ == it.seq().take(it.index() as int),
    {
        chars.push(c);
    }
    chars
}

/// Reads one move from the characters of its text.
fn parse_chars(chars: &[char]) -> (r: Result<MoveUnpkd, CubeError>)
    ensures
        r == parse_notation(chars@),
{
    if chars.len() < 1 {
        return Err(CubeError::InvalidNotation);
    }
    let face = match chars[0] {
        'U' => Face::U,
        'L' => Face::L,
        'F' => Face::F,
        'R' => Face::R,
        'B' => Face::B,
        'D' => Face::D,
        _ => {
            return Err(CubeError::InvalidNotation);
        },
    };

    let type_ = if chars.len() >= 2 && chars[1] == 'w' {
        MoveType::Wide
    } else {
        MoveType::Outer
    };

    let last_char = chars[chars.len() - 1];
    let dir = match last_char {
        '\'' => MoveDir::CCW,
        '2' => MoveDir::Dub,
        _ => MoveDir::CW,
    };
    Ok(MoveUnpkd { face, type_, dir })
}

impl MoveUnpkd {
    /// Reads a move from its text, such as `R`, `Uw`, `D'` or `Rw2`. A text
    /// that is empty, or that does not start with the letter of a face, is
    /// not a move.
    pub fn parse(text: &str) -> (r: Result<MoveUnpkd, CubeError>)
        ensures
            r == parse_notation(text@),
    {
        let chars = chars_of(text);
        parse_chars(chars.as_slice())
    }

    /// Writes the move as text.
    pub fn to_notation(&self) -> (text: String)
        ensures
            text@ == notation(*self),
    {
        proof {
            reveal_strlit("U");
            reveal_strlit("L");
            reveal_strlit("F");
            reveal_strlit("R");
            reveal_strlit("B");
            reveal_strlit("D");
            reveal_strlit("w");
            reveal_strlit("'");
            reveal_strlit("2");
        }
        let mut result = String::new();
        match self.face {
            Face::U => result.append("U"),
            Face::L => result.append("L"),
            Face::F => result.append("F"),
            Face::R => result.append("R"),
            Face::B => result.append("B"),
            Face::D => result.append("D"),
        };
        match self.type_ {
            MoveType::Outer => {},
            MoveType::Wide => result.append("w"),
        }
        match self.dir {
            MoveDir::CW => {},
            MoveDir::CCW => result.append("'"),
            MoveDir::Dub => result.append("2"),
        }
        assert(result@ =~= notation(*self));
        result
    }
}

/// Reads a line of moves. The moves are separated by spaces; spaces at the
/// start, at the end, or several in a row are passed over. The first word
/// that is not a move makes the whole line invalid.
pub fn convert_string_to_moves(s: &str) -> (r: Result<Vec<MoveUnpkd>, CubeError>)
    ensures
        match r {
            Ok(moves) => parse_line(s@) == Ok::<Seq<MoveUnpkd>, CubeError>(moves@),
            Err(e) => parse_line(s@) == Err::<Seq<MoveUnpkd>, CubeError>(e),
        },
{
    let chars = chars_of(s);
    let n = chars.len();
    let mut moves: Vec<MoveUnpkd> = Vec::new();
    let ghost mut done: Seq<Seq<char>> = Seq::empty();
    let mut i: usize = 0;
    assert(chars@.skip(0) =~= chars@);
    while i < n
        invariant
            chars@ == s@,
            n == chars@.len(),
            i <= n,
            words(chars@) == done + words(chars@.skip(i as int)),
            moves@.len() == done.len(),
            forall|k: int|
                0 <= k < done.len() ==> (#[trigger] parse_notation(done[k])) == Ok::<
                    MoveUnpkd,
                    CubeError,
                >(moves@[k]),
        decreases n - i,
    {
        if chars[i] == ' ' {
            proof {
                lemma_words_after_space(chars@, i as int);
            }
            i += 1;
        } else {
            let start = i;
            let mut end = i + 1;
            while end < n && chars[end] != ' '
                invariant
                    n == chars@.len(),
                    start < end <= n,
                    forall|k: int| start <= k < end ==> chars@[k] != ' ',
                decreases n - end,
            {
                end += 1;
            }
            let word = slice_subrange(chars.as_slice(), start, end);
            proof {
                lemma_words_after_word(chars@, start as int, end as int);
            }
            match parse_chars(word) {
                Ok(m) => {
                    moves.push(m);
                    proof {
                        done = done.push(word@);
                        assert(words(chars@) =~= done + words(chars@.skip(end as int)));
                    }
                },
                Err(e) => {
                    proof {
                        let ws = words(chars@);
                        assert(ws[done.len() as int] == word@);
                        assert(!(parse_notation(ws[done.len() as int]) is Ok));
                    }
                    return Err(e);
                },
            }
            i = end;
        }
    }
    proof {
        assert(chars@.skip(n as int) =~= Seq::<char>::empty());
        assert(words(chars@) =~= done);
        assert(Seq::new(done.len(), |k: int| parse_notation(done[k])->Ok_0) =~= moves@);
    }
    Ok(moves)
}

/// The texts that a vector of strings holds.
pub open spec fn texts(parts: Seq<String>) -> Seq<Seq<char>> {
    Seq::new(parts.len(), |i: int| parts[i]@)
}

/// `Itertools::join` of the itertools crate, on the strings of `parts`. It
/// returns the empty string where there is none; else it writes the first
/// string and then, for each further one, the separator and the string,
/// each string as its `Display` gives it, which for a string is the string.
/// Before it writes, it multiplies the separator's length in bytes by the
/// number of strings after the first, to reserve room: the product must
/// fit in a `usize`. That memory can be had is, here as for every string
/// and vector, not part of the contract.
#[verifier::external_body]
fn join_strings(parts: &Vec<String>, sep: &str) -> (text: String)
    requires
        sep.len() * parts@.len() <= usize::MAX,
    ensures
        text@ == joined(texts(parts@), sep@),
{
    parts.iter().join(sep)
}

/// Writes a line of moves: the text of each, with one space between each
/// two.
pub fn convert_moves_to_string(moves: &Vec<MoveUnpkd>) -> (text: String)
    ensures
        text@ == format_line(moves@),
{
    let mut parts: Vec<String> = Vec::new();
    for i in 0..moves.len()
        invariant
            parts@.len() == i,
            forall|k: int| 0 <= k < i ==> (#[trigger] parts@[k])@ == notation(moves@[k]),
    {
        parts.push(moves[i].to_notation());
    }
    proof {
        reveal_strlit(" ");
        assert(" "@ =~= seq![' ']);
        vstd::utf8::is_ascii_chars_encode_utf8(" "@);
        assert(" ".len() * parts@.len() == parts@.len()) by (nonlinear_arith)
            requires
                " ".len() == 1,
        ;
        assert(texts(parts@) =~= notations(moves@));
    }
    join_strings(&parts, " ")
}

/// Unpacking a packed move gives the move back.
pub proof fn lemma_unpack_pack(m: MoveUnpkd)
    ensures
        MoveUnpkd::unpacked(m.packed()) == m,
        m.packed() < 48,
{
}

/// Packing an unpacked byte gives the byte back exactly when each field of
/// the byte names something and the two top bits are clear.
pub proof fn lemma_pack_unpack(byte: u8)
    ensures
        MoveUnpkd::unpacked(byte).packed() == byte <==> byte % 8 < 6 && byte / 16 < 3,
{
}

} // verus!
