//! Chords: a root note, a free-form extension and an optional bass note.

use vstd::prelude::*;
use vstd::string::StrSliceExecFns;

use crate::note::{
    is_accidental, is_letter, lemma_note_spelling_round_trip, lemma_shape_spells_note, lemma_spelling_shape,
    note_in, note_of, spelling, Note,
};
use crate::text::chars_of;

verus! {

/// A chord as written: `<root><extension>[/<bass>]`.
#[derive(Debug, PartialEq, Eq)]
pub struct Chord {
    pub root: Note,
    pub extension: String,
    pub bass: Option<Note>,
}

/// The mathematical value of a [`Chord`].
pub struct ChordView {
    pub root: Note,
    pub extension: Seq<char>,
    pub bass: Option<Note>,
}

impl View for Chord {
    type V = ChordView;

    open spec fn view(&self) -> ChordView {
        ChordView { root: self.root, extension: self.extension@, bass: self.bass }
    }
}

/// The length of the root spelling at the start of `t`: the letter, and the
/// sign after it when there is one.
pub open spec fn root_len(t: Seq<char>) -> int {
    if t.len() >= 2 && is_accidental(t[1]) {
        2
    } else {
        1
    }
}

/// The length of a trailing `/<letter>` or `/<letter><sign>` of `r`, slash
/// included, or 0 when `r` has none.
pub open spec fn bass_len(r: Seq<char>) -> int {
    if r.len() >= 3 && r[r.len() - 3] == '/' && is_letter(r[r.len() - 2]) && is_accidental(
        r[r.len() - 1],
    ) {
        3
    } else if r.len() >= 2 && r[r.len() - 2] == '/' && is_letter(r[r.len() - 1]) {
        2
    } else {
        0
    }
}

/// The chord that token `t` reads as. It needs a note letter first; the root
/// takes a sign after the letter when one follows; the extension is the
/// shortest run after the root that leaves a trailing `/<note>` as the bass.
pub open spec fn chord_of(t: Seq<char>) -> Option<ChordView> {
    if t.len() >= 1 && is_letter(t[0]) {
        let rest = t.skip(root_len(t));
        let b = bass_len(rest);
        Some(
            ChordView {
                root: note_of(t.take(root_len(t))).unwrap(),
                extension: rest.take(rest.len() - b),
                bass: if b > 0 {
                    note_of(rest.skip(rest.len() - b + 1))
                } else {
                    None
                },
            },
        )
    } else {
        None
    }
}

/// The view of an optional chord.
pub open spec fn chord_view_of(c: Option<Chord>) -> Option<ChordView> {
    match c {
        Some(c) => Some(c@),
        None => None,
    }
}

fn is_letter_char(c: char) -> (r: bool)
    ensures
        r == is_letter(c),
{
    'A' <= c && c <= 'G'
}

fn is_accidental_char(c: char) -> (r: bool)
    ensures
        r == is_accidental(c),
{
    c == '#' || c == 'b'
}

/// Reads the chord of the characters `cs[lo..hi]` of `src`.
pub(crate) fn chord_in(src: &str, cs: &Vec<char>, lo: usize, hi: usize) -> (r: Option<Chord>)
    requires
        cs@ == src@,
        lo <= hi <= cs@.len(),
    ensures
        chord_view_of(r) == chord_of(cs@.subrange(lo as int, hi as int)),
{
    let ghost t = cs@.subrange(lo as int, hi as int);
    if lo == hi || !is_letter_char(cs[lo]) {
        return None;
    }
    let root_end: usize = if hi - lo >= 2 && is_accidental_char(cs[lo + 1]) {
        lo + 2
    } else {
        lo + 1
    };
    assert(root_end - lo == root_len(t));
    let n = hi - root_end;
    let ext_end: usize = if n >= 3 && cs[hi - 3] == '/' && is_letter_char(cs[hi - 2])
        && is_accidental_char(cs[hi - 1]) {
        hi - 3
    } else if n >= 2 && cs[hi - 2] == '/' && is_letter_char(cs[hi - 1]) {
        hi - 2
    } else {
        hi
    };
    let ghost rest = t.skip(root_len(t));
    assert(rest =~= cs@.subrange(root_end as int, hi as int));
    assert(hi - ext_end == bass_len(rest));
    assert(t.take(root_len(t)) =~= cs@.subrange(lo as int, root_end as int));
    assert(rest.take(rest.len() - bass_len(rest)) =~= cs@.subrange(
        root_end as int,
        ext_end as int,
    ));
    proof {
        lemma_shape_spells_note(cs@.subrange(lo as int, root_end as int));
    }
    let root = note_in(cs, lo, root_end);
    let bass = if ext_end < hi {
        assert(rest.skip(rest.len() - bass_len(rest) + 1) =~= cs@.subrange(
            ext_end + 1,
            hi as int,
        ));
        note_in(cs, ext_end + 1, hi)
    } else {
        None
    };
    match root {
        Some(root) => {
            let extension = src.substring_char(root_end, ext_end).to_owned();
            Some(Chord { root, extension, bass })
        },
        None => None,
    }
}

/// Reads a chord token such as `C`, `D7`, `Eb/C` or `Emaj7/C#`. It is `None`
/// exactly when the token does not start with a note letter `A` to `G`.
pub fn parse_chord(chord: &str) -> (r: Option<Chord>)
    ensures
        chord_view_of(r) == chord_of(chord@),
        r is None <==> !(chord@.len() >= 1 && is_letter(chord@[0])),
{
    let cs = chars_of(chord);
    assert(cs@.subrange(0, cs@.len() as int) =~= chord@);
    chord_in(chord, &cs, 0, cs.len())
}

/// The text of a chord: its root spelling, its extension, and `/` with the
/// bass spelling when it has a bass.
pub open spec fn chord_text(c: ChordView) -> Seq<char> {
    spelling(c.root) + c.extension + match c.bass {
        Some(b) => seq!['/'] + spelling(b),
        None => Seq::<char>::empty(),
    }
}

/// A one-letter root followed by a sign: the sign reads as part of the root.
pub open spec fn sign_joins_root(root: Note, after: Seq<char>) -> bool {
    spelling(root).len() == 1 && after.len() > 0 && is_accidental(after[0])
}

proof fn lemma_root_then(n: Note, rest: Seq<char>)
    requires
        !sign_joins_root(n, rest),
    ensures
        chord_of(spelling(n) + rest) == Some(
            ChordView {
                root: n,
                extension: rest.take(rest.len() - bass_len(rest)),
                bass: if bass_len(rest) > 0 {
                    note_of(rest.skip(rest.len() - bass_len(rest) + 1))
                } else {
                    None
                },
            },
        ),
{
    lemma_note_spelling_round_trip(n, spelling(n));
    lemma_spelling_shape(n);
    let t = spelling(n) + rest;
    assert(t.take(root_len(t)) =~= spelling(n));
    assert(t.skip(root_len(t)) =~= rest);
}

/// A root spelling followed by an extension without `/` reads as that root
/// and extension with no bass, unless a one-letter root is followed by a sign.
pub proof fn lemma_plain_chord(root: Note, ext: Seq<char>)
    requires
        !ext.contains('/'),
        !sign_joins_root(root, ext),
    ensures
        chord_of(spelling(root) + ext) == Some(
            ChordView { root, extension: ext, bass: None },
        ),
{
    lemma_root_then(root, ext);
    if ext.len() >= 2 {
        assert(ext[ext.len() - 2] != '/');
    }
    if ext.len() >= 3 {
        assert(ext[ext.len() - 3] != '/');
    }
    assert(ext.take(ext.len() as int) =~= ext);
}

/// `<root><ext>/<bass>` reads as that root, extension and bass, unless a
/// one-letter root is followed by a sign.
#[verifier::rlimit(20)]
pub proof fn lemma_slash_chord(root: Note, ext: Seq<char>, bass: Note)
    requires
        !sign_joins_root(root, ext + seq!['/'] + spelling(bass)),
    ensures
        chord_of(spelling(root) + ext + seq!['/'] + spelling(bass)) == Some(
            ChordView { root, extension: ext, bass: Some(bass) },
        ),
{
    let sb = spelling(bass);
    let rest = ext + seq!['/'] + sb;
    lemma_root_then(root, rest);
    lemma_note_spelling_round_trip(bass, sb);
    lemma_spelling_shape(bass);
    assert(spelling(root) + ext + seq!['/'] + sb =~= spelling(root) + rest);
    let k = sb.len() + 1;
    assert(rest[rest.len() - k] == '/');
    if sb.len() == 1 {
        assert(rest[rest.len() - 1] == sb[0]);
        assert(rest[rest.len() - 2] == '/');
    } else {
        assert(rest[rest.len() - 1] == sb[1]);
        assert(rest[rest.len() - 2] == sb[0]);
    }
    assert(bass_len(rest) == k);
    assert(rest.take(rest.len() - k) =~= ext);
    assert(rest.skip(rest.len() - k + 1) =~= sb);
    assert(note_of(rest.skip(rest.len() - bass_len(rest) + 1)) == Some(bass));
    assert(rest.take(rest.len() - bass_len(rest)) == ext);
}

/// `<root><ext>/<x>`, where `x` is no note spelling and holds no `/`, still
/// reads as a chord, with no bass.
pub proof fn lemma_slash_non_note(root: Note, ext: Seq<char>, x: Seq<char>)
    requires
        note_of(x) is None,
        !x.contains('/'),
    ensures
        chord_of(spelling(root) + ext + seq!['/'] + x) matches Some(c) && c.bass is None,
{
    let t = spelling(root) + ext + seq!['/'] + x;
    lemma_note_spelling_round_trip(root, spelling(root));
    lemma_spelling_shape(root);
    assert(t[0] == spelling(root)[0]);
    let rest = t.skip(root_len(t));
    assert(rest.len() >= x.len() + 1);
    if x.len() >= 2 {
        assert(rest[rest.len() - 2] == x[x.len() - 2]);
    }
    if x.len() >= 3 {
        assert(rest[rest.len() - 3] == x[x.len() - 3]);
    }
    if (x.len() == 1 || x.len() == 2) && is_letter(x[0]) && (x.len() == 2 ==> is_accidental(x[1])) {
        // such an `x` would spell a note
        lemma_shape_spells_note(x);
    }
    if x.len() == 2 {
        assert(rest[rest.len() - 2] == x[0]);
        assert(rest[rest.len() - 1] == x[1]);
    }
    if x.len() == 1 {
        assert(rest[rest.len() - 1] == x[0]);
    }
}

#[verifier::rlimit(20)]
proof fn lemma_text_with_bass(c: ChordView, b: Note)
    requires
        c.bass == Some(b),
        !sign_joins_root(c.root, c.extension + seq!['/'] + spelling(b)),
    ensures
        chord_of(chord_text(c)) == Some(c),
{
    let sr = spelling(c.root);
    let sb = spelling(b);
    let tail = seq!['/'] + sb;
    assert(chord_text(c) == sr + c.extension + tail);
    assert(sr + c.extension + seq!['/'] + sb =~= sr + c.extension + tail);
    lemma_slash_chord(c.root, c.extension, b);
}

proof fn lemma_text_without_bass(c: ChordView)
    requires
        c.bass is None,
        !sign_joins_root(c.root, c.extension),
        bass_len(c.extension) == 0,
    ensures
        chord_of(chord_text(c)) == Some(c),
{
    let rest = c.extension;
    assert(chord_text(c) =~= spelling(c.root) + rest);
    lemma_root_then(c.root, rest);
    assert(rest.take(rest.len() as int) =~= rest);
}

/// Reading the text of a chord gives the chord back, for every chord whose
/// text is unambiguous: no sign right after a one-letter root, and no
/// extension that ends like a bass when there is no bass.
pub proof fn lemma_chord_text_round_trip(c: ChordView)
    requires
        !sign_joins_root(c.root, chord_text(c).skip(spelling(c.root).len() as int)),
        c.bass is None ==> bass_len(c.extension) == 0,
    ensures
        chord_of(chord_text(c)) == Some(c),
{
    let sr = spelling(c.root);
    let text = chord_text(c);
    match c.bass {
        Some(b) => {
            assert(text.skip(sr.len() as int) =~= c.extension + seq!['/'] + spelling(b));
            lemma_text_with_bass(c, b);
        },
        None => {
            assert(text.skip(sr.len() as int) =~= c.extension);
            lemma_text_without_bass(c);
        },
    }
}

} // verus!
