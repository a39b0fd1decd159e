//! The twenty-one note spellings.

use vstd::prelude::*;

use crate::text::chars_of;

verus! {

/// A pitch spelling: a letter from `A` to `G`, natural, flat (`f`) or sharp
/// (`s`). Spellings are distinct tags: `As` and `Bf` are different notes.
#[derive(PartialEq, Eq, Structural, Debug, Clone, Copy)]
pub enum Note {
    Af,
    A,
    As,
    Bf,
    B,
    Bs,
    Cf,
    C,
    Cs,
    Df,
    D,
    Ds,
    Ef,
    E,
    Es,
    Ff,
    F,
    Fs,
    Gf,
    G,
    Gs,
}

/// The spelling of a note: its letter, then `b` for a flat or `#` for a sharp.
#[verifier::opaque]
pub open spec fn spelling(n: Note) -> Seq<char> {
    match n {
        Note::Af => seq!['A', 'b'],
        Note::A => seq!['A'],
        Note::As => seq!['A', '#'],
        Note::Bf => seq!['B', 'b'],
        Note::B => seq!['B'],
        Note::Bs => seq!['B', '#'],
        Note::Cf => seq!['C', 'b'],
        Note::C => seq!['C'],
        Note::Cs => seq!['C', '#'],
        Note::Df => seq!['D', 'b'],
        Note::D => seq!['D'],
        Note::Ds => seq!['D', '#'],
        Note::Ef => seq!['E', 'b'],
        Note::E => seq!['E'],
        Note::Es => seq!['E', '#'],
        Note::Ff => seq!['F', 'b'],
        Note::F => seq!['F'],
        Note::Fs => seq!['F', '#'],
        Note::Gf => seq!['G', 'b'],
        Note::G => seq!['G'],
        Note::Gs => seq!['G', '#'],
    }
}

/// The natural note of a letter.
pub open spec fn natural(c: char) -> Option<Note> {
    match c {
        'A' => Some(Note::A),
        'B' => Some(Note::B),
        'C' => Some(Note::C),
        'D' => Some(Note::D),
        'E' => Some(Note::E),
        'F' => Some(Note::F),
        'G' => Some(Note::G),
        _ => None,
    }
}

/// The sharp note of a letter.
pub open spec fn sharp(c: char) -> Option<Note> {
    match c {
        'A' => Some(Note::As),
        'B' => Some(Note::Bs),
        'C' => Some(Note::Cs),
        'D' => Some(Note::Ds),
        'E' => Some(Note::Es),
        'F' => Some(Note::Fs),
        'G' => Some(Note::Gs),
        _ => None,
    }
}

/// The flat note of a letter.
pub open spec fn flat(c: char) -> Option<Note> {
    match c {
        'A' => Some(Note::Af),
        'B' => Some(Note::Bf),
        'C' => Some(Note::Cf),
        'D' => Some(Note::Df),
        'E' => Some(Note::Ef),
        'F' => Some(Note::Ff),
        'G' => Some(Note::Gf),
        _ => None,
    }
}

/// The note that `s` spells, if `s` is one of the twenty-one spellings.
#[verifier::opaque]
pub open spec fn note_of(s: Seq<char>) -> Option<Note> {
    if s.len() == 1 {
        natural(s[0])
    } else if s.len() == 2 && s[1] == '#' {
        sharp(s[0])
    } else if s.len() == 2 && s[1] == 'b' {
        flat(s[0])
    } else {
        None
    }
}

/// A note letter, `A` to `G`.
pub open spec fn is_letter(c: char) -> bool {
    'A' <= c && c <= 'G'
}

/// A sign after a note letter: `#` or `b`.
pub open spec fn is_accidental(c: char) -> bool {
    c == '#' || c == 'b'
}

fn natural_of(c: char) -> (r: Option<Note>)
    ensures
        r == natural(c),
{
    match c {
        'A' => Some(Note::A),
        'B' => Some(Note::B),
        'C' => Some(Note::C),
        'D' => Some(Note::D),
        'E' => Some(Note::E),
        'F' => Some(Note::F),
        'G' => Some(Note::G),
        _ => None,
    }
}

fn sharp_of(c: char) -> (r: Option<Note>)
    ensures
        r == sharp(c),
{
    match c {
        'A' => Some(Note::As),
        'B' => Some(Note::Bs),
        'C' => Some(Note::Cs),
        'D' => Some(Note::Ds),
        'E' => Some(Note::Es),
        'F' => Some(Note::Fs),
        'G' => Some(Note::Gs),
        _ => None,
    }
}

fn flat_of(c: char) -> (r: Option<Note>)
    ensures
        r == flat(c),
{
    match c {
        'A' => Some(Note::Af),
        'B' => Some(Note::Bf),
        'C' => Some(Note::Cf),
        'D' => Some(Note::Df),
        'E' => Some(Note::Ef),
        'F' => Some(Note::Ff),
        'G' => Some(Note::Gf),
        _ => None,
    }
}

/// The note spelled by `cs[lo..hi]`.
pub(crate) fn note_in(cs: &Vec<char>, lo: usize, hi: usize) -> (r: Option<Note>)
    requires
        lo <= hi <= cs@.len(),
    ensures
        r == note_of(cs@.subrange(lo as int, hi as int)),
{
    reveal(note_of);
    if hi - lo == 1 {
        natural_of(cs[lo])
    } else if hi - lo == 2 && cs[lo + 1] == '#' {
        sharp_of(cs[lo])
    } else if hi - lo == 2 && cs[lo + 1] == 'b' {
        flat_of(cs[lo])
    } else {
        None
    }
}

/// Reads a note from its exact spelling: `Some` only for the twenty-one
/// spellings, case-sensitive, with no enharmonic normalisation.
pub fn parse_note(s: &str) -> (r: Option<Note>)
    ensures
        r == note_of(s@),
{
    let cs = chars_of(s);
    let r = note_in(&cs, 0, cs.len());
    assert(cs@.subrange(0, cs@.len() as int) =~= s@);
    r
}

impl std::str::FromStr for Note {
    type Err = ();

    fn from_str(s: &str) -> Result<Note, ()> {
        match parse_note(s) {
            Some(n) => Ok(n),
            None => Err(()),
        }
    }
}

/// Every note reads back from its own spelling, and a string reads as a note
/// only when it is that note's spelling.
pub proof fn lemma_note_spelling_round_trip(n: Note, s: Seq<char>)
    ensures
        note_of(spelling(n)) == Some(n),
        note_of(s) == Some(n) <==> s == spelling(n),
{
    reveal(spelling);
    reveal(note_of);
    if note_of(s) == Some(n) {
        assert(s =~= spelling(n));
    }
}

/// A spelling is a note letter, with a sign after it for a flat or a sharp.
pub proof fn lemma_spelling_shape(n: Note)
    ensures
        spelling(n).len() == 1 || spelling(n).len() == 2,
        is_letter(spelling(n)[0]),
        spelling(n).len() == 2 ==> is_accidental(spelling(n)[1]),
{
    reveal(spelling);
}

/// A note letter, alone or with a sign after it, spells a note.
pub proof fn lemma_shape_spells_note(s: Seq<char>)
    requires
        s.len() == 1 || s.len() == 2,
        is_letter(s[0]),
        s.len() == 2 ==> is_accidental(s[1]),
    ensures
        note_of(s) is Some,
{
    reveal(note_of);
}

} // verus!
