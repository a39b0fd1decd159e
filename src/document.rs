//! The document: a frontmatter block between two `+++` lines, then the body.

use vstd::prelude::*;

use crate::text::{chars_of, trim, trim_bounds};

verus! {

/// The metadata of a song, read from the frontmatter.
#[derive(Debug)]
pub struct Header {
    pub title: String,
    pub subtitle: Option<String>,
    pub key: Option<String>,
    pub artist: Option<String>,
    pub tempo: Option<i128>,
    pub time: Option<String>,
    pub transpose: Option<i128>,
    pub capo: Option<i128>,
}

/// A named, repeatable group of body lines.
pub struct Section {
    pub name: String,
    pub repeats: i128,
    pub lines: Vec<Line>,
}

/// A body line ready for display: chord tokens and the lyric segments under
/// them.
pub struct Line {
    pub chords: Vec<String>,
    pub lyrics: Vec<String>,
}

/// A line that is the delimiter `+++`, whitespace around it aside.
pub open spec fn is_delimiter(l: Seq<char>) -> bool {
    trim(l) == seq!['+', '+', '+']
}

/// The indices of the delimiter lines of `ls`, in increasing order.
pub open spec fn delimiters(ls: Seq<Seq<char>>) -> Seq<int>
    decreases ls.len(),
{
    if ls.len() == 0 {
        Seq::empty()
    } else {
        let d = delimiters(ls.drop_last());
        if is_delimiter(ls.last()) {
            d.push(ls.len() - 1)
        } else {
            d
        }
    }
}

/// The first two delimiter indices, or `(0, 0)` when there are fewer than two.
pub open spec fn frontmatter_span(ls: Seq<Seq<char>>) -> (int, int) {
    let d = delimiters(ls);
    if d.len() >= 2 {
        (d[0], d[1])
    } else {
        (0, 0)
    }
}

/// The characters of each line.
pub open spec fn line_texts(lines: Seq<&str>) -> Seq<Seq<char>> {
    lines.map_values(|l: &str| l@)
}

fn is_delimiter_line(line: &str) -> (r: bool)
    ensures
        r == is_delimiter(line@),
{
    let cs = chars_of(line);
    let (a, b) = trim_bounds(&cs, 0, cs.len());
    assert(cs@.subrange(0, cs@.len() as int) =~= line@);
    let ghost t = cs@.subrange(a as int, b as int);
    let ghost plus = seq!['+', '+', '+'];
    assert(plus.len() == 3 && plus[0] == '+' && plus[1] == '+' && plus[2] == '+');
    if b - a != 3 {
        return false;
    }
    assert(t[0] == cs@[a as int] && t[1] == cs@[a + 1] && t[2] == cs@[a + 2]);
    if cs[a] == '+' && cs[a + 1] == '+' && cs[a + 2] == '+' {
        assert(t =~= plus);
        true
    } else {
        false
    }
}

/// Finds the frontmatter of a file given as its lines: the indices of the
/// first and second `+++` lines, or `(0, 0)` when there are fewer than two.
pub fn split_frontmatter_body(lines: &Vec<&str>) -> (r: (usize, usize))
    ensures
        (r.0 as int, r.1 as int) == frontmatter_span(line_texts(lines@)),
{
    let ghost ls = line_texts(lines@);
    let mut positions: Vec<usize> = Vec::new();
    let mut i: usize = 0;
    while i < lines.len()
        invariant
            i <= lines@.len(),
            ls == line_texts(lines@),
            positions@.len() == delimiters(ls.take(i as int)).len(),
            forall|j: int|
                0 <= j < positions@.len() ==> positions@[j] as int == delimiters(
                    ls.take(i as int),
                )[j],
        decreases lines@.len() - i,
    {
        assert(ls.take(i + 1).drop_last() =~= ls.take(i as int));
        assert(ls.take(i + 1).last() == lines@[i as int]@);
        if is_delimiter_line(lines[i]) {
            positions.push(i);
        }
        i = i + 1;
    }
    assert(ls.take(lines@.len() as int) =~= ls);
    if positions.len() >= 2 {
        (positions[0], positions[1])
    } else {
        (0, 0)
    }
}

} // verus!
