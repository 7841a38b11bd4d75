use crate::error::CubeError;
use crate::moves::{Face, MoveDir, MoveType, MoveUnpkd};
use vstd::prelude::*;

verus! {

/// The letter that names a face.
pub open spec fn face_letter(face: Face) -> char {
    match face {
        Face::U => 'U',
        Face::L => 'L',
        Face::F => 'F',
        Face::R => 'R',
        Face::B => 'B',
        Face::D => 'D',
    }
}

/// The face that a letter names, if it names one.
pub open spec fn face_of_letter(c: char) -> Option<Face> {
    if c == 'U' {
        Some(Face::U)
    } else if c == 'L' {
        Some(Face::L)
    } else if c == 'F' {
        Some(Face::F)
    } else if c == 'R' {
        Some(Face::R)
    } else if c == 'B' {
        Some(Face::B)
    } else if c == 'D' {
        Some(Face::D)
    } else {
        None
    }
}

/// What follows the face's letter for a kind of turn: `w` for a wide one.
pub open spec fn kind_mark(kind: MoveType) -> Seq<char> {
    match kind {
        MoveType::Outer => Seq::empty(),
        MoveType::Wide => seq!['w'],
    }
}

/// What ends a move's text for a direction: `'` for a quarter turn
/// counter-clockwise, `2` for a half turn.
pub open spec fn turn_mark(dir: MoveDir) -> Seq<char> {
    match dir {
        MoveDir::CW => Seq::empty(),
        MoveDir::CCW => seq!['\''],
        MoveDir::Dub => seq!['2'],
    }
}

/// The text of a move: the face's letter, the mark of its kind, the mark of
/// its direction.
pub open spec fn notation(m: MoveUnpkd) -> Seq<char> {
    seq![face_letter(m.face)] + kind_mark(m.type_) + turn_mark(m.dir)
}

/// The move that a text stands for. The first character must name a face.
/// The turn is wide when the second character is `w`, and the last character
/// gives the direction; anything else in the text is not looked at.
pub open spec fn parse_notation(text: Seq<char>) -> Result<MoveUnpkd, CubeError> {
    if text.len() == 0 {
        Err(CubeError::InvalidNotation)
    } else {
        match face_of_letter(text[0]) {
            None => Err(CubeError::InvalidNotation),
            Some(face) => Ok(
                MoveUnpkd {
                    face,
                    type_: if text.len() >= 2 && text[1] == 'w' {
                        MoveType::Wide
                    } else {
                        MoveType::Outer
                    },
                    dir: if text.last() == '\'' {
                        MoveDir::CCW
                    } else if text.last() == '2' {
                        MoveDir::Dub
                    } else {
                        MoveDir::CW
                    },
                },
            ),
        }
    }
}

/// The number of characters of `s` before its first space, or its length
/// where it has none.
pub open spec fn word_len(s: Seq<char>) -> nat
    decreases s.len(),
{
    if s.len() == 0 || s[0] == ' ' {
        0
    } else {
        1 + word_len(s.drop_first())
    }
}

/// `word_len` stops at the first space and nowhere before it.
pub proof fn lemma_word_len(s: Seq<char>)
    ensures
        word_len(s) <= s.len(),
        forall|k: int| 0 <= k < word_len(s) ==> s[k] != ' ',
        word_len(s) < s.len() ==> s[word_len(s) as int] == ' ',
        s.len() > 0 && s[0] != ' ' ==> word_len(s) >= 1,
    decreases s.len(),
{
    if s.len() != 0 && s[0] != ' ' {
        let rest = s.drop_first();
        lemma_word_len(rest);
        assert forall|k: int| 0 <= k < word_len(s) implies s[k] != ' ' by {
            if k > 0 {
                assert(s[k] == rest[k - 1]);
            }
        }
        if word_len(s) < s.len() {
            assert(s[word_len(s) as int] == rest[word_len(rest) as int]);
        }
    }
}

/// A stretch without a space that ends at a space or at the end of `s` is
/// the first word of `s`.
pub proof fn lemma_word_len_is(s: Seq<char>, n: int)
    requires
        0 <= n <= s.len(),
        forall|k: int| 0 <= k < n ==> s[k] != ' ',
        n < s.len() ==> s[n] == ' ',
    ensures
        word_len(s) == n,
{
    lemma_word_len(s);
    let w = word_len(s) as int;
    if w < n {
        assert(s[w] == ' ');
    } else if w > n {
        assert(s[n] != ' ');
    }
}

/// The words of a text: its longest stretches without a space, in order.
/// Spaces before, between and after them, however many, separate and are
/// dropped.
pub open spec fn words(s: Seq<char>) -> Seq<Seq<char>>
    decreases s.len(),
{
    if s.len() == 0 {
        Seq::empty()
    } else if s[0] == ' ' {
        words(s.drop_first())
    } else {
        proof {
            lemma_word_len(s);
        }
        seq![s.take(word_len(s) as int)] + words(s.skip(word_len(s) as int))
    }
}

/// The moves that the words of a text stand for, in order, or the error of
/// a word that stands for none.
pub open spec fn parse_words(ws: Seq<Seq<char>>) -> Result<Seq<MoveUnpkd>, CubeError> {
    if forall|i: int| 0 <= i < ws.len() ==> (#[trigger] parse_notation(ws[i])) is Ok {
        Ok(Seq::new(ws.len(), |i: int| parse_notation(ws[i])->Ok_0))
    } else {
        Err(CubeError::InvalidNotation)
    }
}

/// The moves that a line of text stands for.
pub open spec fn parse_line(text: Seq<char>) -> Result<Seq<MoveUnpkd>, CubeError> {
    parse_words(words(text))
}

/// The parts written one after the other with `sep` between each two.
pub open spec fn joined(parts: Seq<Seq<char>>, sep: Seq<char>) -> Seq<char>
    decreases parts.len(),
{
    if parts.len() == 0 {
        Seq::empty()
    } else if parts.len() == 1 {
        parts[0]
    } else {
        parts[0] + sep + joined(parts.drop_first(), sep)
    }
}

/// The texts of the moves, in order.
pub open spec fn notations(ms: Seq<MoveUnpkd>) -> Seq<Seq<char>> {
    Seq::new(ms.len(), |i: int| notation(ms[i]))
}

/// The line of text for a sequence of moves: their texts with one space
/// between each two.
pub open spec fn format_line(ms: Seq<MoveUnpkd>) -> Seq<char> {
    joined(notations(ms), seq![' '])
}

/// A text with its spacing put in order: its words with one space between
/// each two.
pub open spec fn normalized(text: Seq<char>) -> Seq<char> {
    joined(words(text), seq![' '])
}


/// The words of a text that starts with a space are those of the rest.
pub proof fn lemma_words_after_space(s: Seq<char>, i: int)
    requires
        0 <= i < s.len(),
        s[i] == ' ',
    ensures
        words(s.skip(i)) == words(s.skip(i + 1)),
{
    assert(s.skip(i).drop_first() =~= s.skip(i + 1));
}

/// Where a word starts at `i` and stops before `j`, the words from `i` on
/// are that word and then the words from `j` on.
pub proof fn lemma_words_after_word(s: Seq<char>, i: int, j: int)
    requires
        0 <= i < j <= s.len(),
        forall|k: int| i <= k < j ==> s[k] != ' ',
        j < s.len() ==> s[j] == ' ',
    ensures
        words(s.skip(i)) == seq![s.subrange(i, j)] + words(s.skip(j)),
{
    let t = s.skip(i);
    lemma_word_len_is(t, j - i);
    assert(t.take(j - i) =~= s.subrange(i, j));
    assert(t.skip(j - i) =~= s.skip(j));
}

/// Joining words with single spaces and taking the words of the result gives
/// the words back, if each of them is a word: not empty, and without a space.
pub proof fn lemma_words_of_joined(parts: Seq<Seq<char>>)
    requires
        forall|i: int| 0 <= i < parts.len() ==> (#[trigger] parts[i]).len() > 0,
        forall|i: int, k: int|
            0 <= i < parts.len() && 0 <= k < parts[i].len() ==> #[trigger] parts[i][k] != ' ',
    ensures
        words(joined(parts, seq![' '])) == parts,
    decreases parts.len(),
{
    let sep = seq![' '];
    let text = joined(parts, sep);
    if parts.len() == 0 {
        assert(words(text) =~= parts);
    } else {
        let first = parts[0];
        let n = first.len() as int;
        assert(first.len() > 0);
        assert forall|k: int| 0 <= k < n implies first[k] != ' ' by {
            assert(parts[0][k] != ' ');
        }
        if parts.len() == 1 {
            lemma_word_len_is(text, n);
            assert(text.take(n) =~= first);
            assert(text.skip(n) =~= Seq::<char>::empty());
            assert(words(text.skip(n)) =~= Seq::<Seq<char>>::empty());
            assert(words(text) =~= parts);
        } else {
            let rest = parts.drop_first();
            assert forall|i: int| 0 <= i < rest.len() implies (#[trigger] rest[i]).len() > 0 by {
                assert(rest[i] == parts[i + 1]);
            }
            assert forall|i: int, k: int|
                0 <= i < rest.len() && 0 <= k < rest[i].len() implies #[trigger] rest[i][k]
                != ' ' by {
                assert(rest[i] == parts[i + 1]);
                assert(parts[i + 1][k] != ' ');
            }
            lemma_words_of_joined(rest);
            let tail = joined(rest, sep);
            assert(text == first + sep + tail);
            assert forall|k: int| 0 <= k < n implies text[k] != ' ' by {
                assert(text[k] == first[k]);
            }
            assert(text[n] == sep[0]);
            lemma_word_len_is(text, n);
            assert(text.take(n) =~= first);
            let after = text.skip(n);
            assert(after[0] == ' ');
            assert(after.drop_first() =~= tail);
            assert(words(after) == words(tail));
            assert(words(text) == seq![first] + rest);
            assert(seq![first] + rest =~= parts);
        }
    }
}

/// The text of a move is not empty, holds no space, and reads back as the
/// move.
pub proof fn lemma_parse_format(m: MoveUnpkd)
    ensures
        parse_notation(notation(m)) == Ok::<MoveUnpkd, CubeError>(m),
        1 <= notation(m).len() <= 3,
        forall|k: int| 0 <= k < notation(m).len() ==> notation(m)[k] != ' ',
{
    let t = notation(m);
    assert(t[0] == face_letter(m.face));
    assert(face_of_letter(face_letter(m.face)) == Some(m.face));
    match m.type_ {
        MoveType::Outer => {
            assert(kind_mark(m.type_).len() == 0);
        },
        MoveType::Wide => {
            assert(t[1] == 'w');
        },
    }
    match m.dir {
        MoveDir::CW => {
            assert(turn_mark(m.dir).len() == 0);
        },
        MoveDir::CCW => {
            assert(t.last() == '\'');
        },
        MoveDir::Dub => {
            assert(t.last() == '2');
        },
    }
}

/// A text that is the text of some move is what its own move is written as.
pub proof fn lemma_format_parse(text: Seq<char>)
    requires
        exists|m: MoveUnpkd| text == notation(m),
    ensures
        parse_notation(text) is Ok,
        notation(parse_notation(text)->Ok_0) == text,
{
    let m = choose|m: MoveUnpkd| text == notation(m);
    lemma_parse_format(m);
}

/// A line written from moves reads back as the same moves.
pub proof fn lemma_parse_format_line(ms: Seq<MoveUnpkd>)
    ensures
        parse_line(format_line(ms)) == Ok::<Seq<MoveUnpkd>, CubeError>(ms),
{
    let parts = notations(ms);
    assert forall|i: int| 0 <= i < parts.len() implies (#[trigger] parts[i]).len() > 0 by {
        lemma_parse_format(ms[i]);
    }
    assert forall|i: int, k: int|
        0 <= i < parts.len() && 0 <= k < parts[i].len() implies #[trigger] parts[i][k] != ' ' by {
        lemma_parse_format(ms[i]);
    }
    lemma_words_of_joined(parts);
    assert forall|i: int| 0 <= i < parts.len() implies (#[trigger] parse_notation(parts[i]))
        == Ok::<MoveUnpkd, CubeError>(ms[i]) by {
        lemma_parse_format(ms[i]);
    }
    assert(Seq::new(parts.len(), |i: int| parse_notation(parts[i])->Ok_0) =~= ms);
}

/// A line whose every word is the text of some move, however it is spaced,
/// is written back from its moves with its spacing put in order.
pub proof fn lemma_format_parse_line(text: Seq<char>)
    requires
        forall|i: int|
            0 <= i < words(text).len() ==> exists|m: MoveUnpkd|
                (#[trigger] words(text)[i]) == notation(m),
    ensures
        parse_line(text) is Ok,
        format_line(parse_line(text)->Ok_0) == normalized(text),
{
    let ws = words(text);
    assert forall|i: int| 0 <= i < ws.len() implies (#[trigger] parse_notation(ws[i])) is Ok
        && notation(parse_notation(ws[i])->Ok_0) == ws[i] by {
        lemma_format_parse(ws[i]);
    }
    let ms = parse_line(text)->Ok_0;
    assert(notations(ms) =~= ws);
}

} // verus!
