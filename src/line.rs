//! Body lines: a chord line is a run of chord tokens, a lyric line is split
//! into segments at `^` marks.

use vstd::prelude::*;
use vstd::string::StrSliceExecFns;

use crate::chord::{chord_in, chord_of, Chord, ChordView};
use crate::text::{chars_of, is_whitespace, is_ws, trim, trim_bounds};

verus! {

/// Scans `s` from the left for whitespace-separated words: the words already
/// ended, and the word still open at the end of `s`.
pub open spec fn word_scan(s: Seq<char>) -> (Seq<Seq<char>>, Seq<char>)
    decreases s.len(),
{
    if s.len() == 0 {
        (Seq::empty(), Seq::empty())
    } else {
        let (done, cur) = word_scan(s.drop_last());
        if is_ws(s.last()) {
            (
                if cur.len() > 0 {
                    done.push(cur)
                } else {
                    done
                },
                Seq::empty(),
            )
        } else {
            (done, cur.push(s.last()))
        }
    }
}

/// The maximal runs of non-whitespace characters of `s`, in order.
pub open spec fn words(s: Seq<char>) -> Seq<Seq<char>> {
    let (done, cur) = word_scan(s);
    if cur.len() > 0 {
        done.push(cur)
    } else {
        done
    }
}

/// The chords of a chord line: one for each word, or `None` when some word
/// is no chord.
pub open spec fn chord_line_of(s: Seq<char>) -> Option<Seq<ChordView>> {
    let ws = words(s);
    if forall|i: int| 0 <= i < ws.len() ==> (#[trigger] chord_of(ws[i])) is Some {
        Some(ws.map_values(|w: Seq<char>| chord_of(w).unwrap()))
    } else {
        None
    }
}

/// The views of the chords of a `Vec`.
pub open spec fn chord_views(v: Seq<Chord>) -> Seq<ChordView> {
    v.map_values(|c: Chord| c@)
}

/// The chords read so far: all of `done` when `ok`, else some word of `done`
/// is no chord.
spec fn chords_so_far(done: Seq<Seq<char>>, chords: Seq<Chord>, ok: bool) -> bool {
    &&& ok ==> chords.len() == done.len()
    &&& ok ==> forall|j: int|
        0 <= j < done.len() ==> (#[trigger] chord_of(done[j])) == Some(chords[j]@)
    &&& !ok ==> exists|j: int| 0 <= j < done.len() && (#[trigger] chord_of(done[j])) is None
}

/// Reads the word `cs[start..end]` as the next chord of the line.
fn close_word(
    line: &str,
    cs: &Vec<char>,
    start: usize,
    end: usize,
    chords: &mut Vec<Chord>,
    ok: &mut bool,
    Ghost(done): Ghost<Seq<Seq<char>>>,
)
    requires
        cs@ == line@,
        start <= end <= cs@.len(),
        chords_so_far(done, old(chords)@, *old(ok)),
    ensures
        chords_so_far(
            done.push(cs@.subrange(start as int, end as int)),
            final(chords)@,
            *final(ok),
        ),
{
    let ghost word = cs@.subrange(start as int, end as int);
    let ghost next = done.push(word);
    if *ok {
        match chord_in(line, cs, start, end) {
            Some(c) => {
                chords.push(c);
            },
            None => {
                *ok = false;
            },
        }
    }
    proof {
        if *ok {
            assert forall|j: int| 0 <= j < next.len() implies (#[trigger] chord_of(next[j]))
                == Some(chords@[j]@) by {
                if j < done.len() {
                    assert(next[j] == done[j]);
                }
            }
        } else {
            if chord_of(word) is None {
                assert(chord_of(next[done.len() as int]) is None);
            } else {
                let j = choose|j: int|
                    0 <= j < done.len() && (#[trigger] chord_of(done[j])) is None;
                assert(next[j] == done[j]);
            }
        }
    }
}

/// Reads a chord line: every whitespace-separated token must be a chord, else
/// the line is no chord line and the result is `None`.
pub fn parse_line_chords(line: &str) -> (r: Option<Vec<Chord>>)
    ensures
        match r {
            Some(v) => chord_line_of(line@) == Some(chord_views(v@)),
            None => chord_line_of(line@) is None,
        },
{
    let cs = chars_of(line);
    let n = cs.len();
    let mut chords: Vec<Chord> = Vec::new();
    let mut ok = true;
    let mut start: usize = 0;
    let mut i: usize = 0;
    let ghost mut done: Seq<Seq<char>> = Seq::empty();
    while i < n
        invariant
            cs@ == line@,
            n == cs@.len(),
            start <= i <= n,
            word_scan(cs@.take(i as int)) == (done, cs@.subrange(start as int, i as int)),
            chords_so_far(done, chords@, ok),
        decreases n - i,
    {
        assert(cs@.take(i + 1).drop_last() =~= cs@.take(i as int));
        assert(cs@.take(i + 1).last() == cs@[i as int]);
        if is_whitespace(cs[i]) {
            if start < i {
                close_word(line, &cs, start, i, &mut chords, &mut ok, Ghost(done));
                proof {
                    done = done.push(cs@.subrange(start as int, i as int));
                }
            }
            start = i + 1;
        } else {
            assert(cs@.subrange(start as int, i + 1) =~= cs@.subrange(start as int, i as int).push(
                cs@[i as int],
            ));
        }
        i = i + 1;
    }
    assert(cs@.take(n as int) =~= cs@);
    if start < n {
        close_word(line, &cs, start, n, &mut chords, &mut ok, Ghost(done));
        proof {
            done = done.push(cs@.subrange(start as int, n as int));
        }
    }
    assert(words(line@) == done);
    if ok {
        assert(chord_views(chords@) =~= done.map_values(|w: Seq<char>| chord_of(w).unwrap()));
        Some(chords)
    } else {
        None
    }
}

/// Scans `s` from the left for pieces between `^` marks: the pieces already
/// ended, and the piece still open at the end of `s`.
pub open spec fn piece_scan(s: Seq<char>) -> (Seq<Seq<char>>, Seq<char>)
    decreases s.len(),
{
    if s.len() == 0 {
        (Seq::empty(), Seq::empty())
    } else {
        let (done, cur) = piece_scan(s.drop_last());
        if s.last() == '^' {
            (done.push(cur), Seq::empty())
        } else {
            (done, cur.push(s.last()))
        }
    }
}

/// The pieces of `s` between `^` marks: one more than there are marks.
pub open spec fn pieces(s: Seq<char>) -> Seq<Seq<char>> {
    let (done, cur) = piece_scan(s);
    done.push(cur)
}

/// The segments of a lyric line: its pieces between `^` marks, each trimmed.
pub open spec fn lyric_segments(s: Seq<char>) -> Seq<Seq<char>> {
    pieces(s).map_values(|p: Seq<char>| trim(p))
}

proof fn lemma_push_segment(
    before: Seq<&str>,
    after: Seq<&str>,
    done: Seq<Seq<char>>,
    piece: Seq<char>,
)
    requires
        before.map_values(|x: &str| x@) == done.map_values(|p: Seq<char>| trim(p)),
        after.len() == before.len() + 1,
        forall|j: int| 0 <= j < before.len() ==> after[j] == before[j],
        after.last()@ == trim(piece),
    ensures
        after.map_values(|x: &str| x@) == done.push(piece).map_values(|p: Seq<char>| trim(p)),
{
    let l = before.map_values(|x: &str| x@);
    let r = done.map_values(|p: Seq<char>| trim(p));
    assert(l.len() == before.len() && r.len() == done.len());
    assert forall|j: int| 0 <= j < before.len() implies after[j]@ == trim(done[j]) by {
        assert(l[j] == r[j]);
        assert(l[j] == before[j]@);
        assert(r[j] == trim(done[j]));
    }
    assert(after.map_values(|x: &str| x@) =~= done.push(piece).map_values(|p: Seq<char>| trim(p)));
}

/// Splits a lyric line at its `^` marks and trims each segment. A line with
/// no mark gives one segment.
pub fn parse_line_lyrics(line: &str) -> (r: Vec<&str>)
    ensures
        r@.map_values(|x: &str| x@) == lyric_segments(line@),
{
    let cs = chars_of(line);
    let n = cs.len();
    let mut segments: Vec<&str> = Vec::new();
    let mut start: usize = 0;
    let mut i: usize = 0;
    let ghost mut done: Seq<Seq<char>> = Seq::empty();
    while i < n
        invariant
            cs@ == line@,
            n == cs@.len(),
            start <= i <= n,
            piece_scan(cs@.take(i as int)) == (done, cs@.subrange(start as int, i as int)),
            segments@.map_values(|x: &str| x@) == done.map_values(|p: Seq<char>| trim(p)),
        decreases n - i,
    {
        assert(cs@.take(i + 1).drop_last() =~= cs@.take(i as int));
        assert(cs@.take(i + 1).last() == cs@[i as int]);
        if cs[i] == '^' {
            let (a, b) = trim_bounds(&cs, start, i);
            let ghost before = segments@;
            segments.push(line.substring_char(a, b));
            proof {
                lemma_push_segment(before, segments@, done, cs@.subrange(start as int, i as int));
                done = done.push(cs@.subrange(start as int, i as int));
            }
            start = i + 1;
        } else {
            assert(cs@.subrange(start as int, i + 1) =~= cs@.subrange(start as int, i as int).push(
                cs@[i as int],
            ));
        }
        i = i + 1;
    }
    assert(cs@.take(n as int) =~= cs@);
    let (a, b) = trim_bounds(&cs, start, n);
    let ghost before = segments@;
    segments.push(line.substring_char(a, b));
    proof {
        lemma_push_segment(before, segments@, done, cs@.subrange(start as int, n as int));
        done = done.push(cs@.subrange(start as int, n as int));
    }
    segments
}

} // verus!
