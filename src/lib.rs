//! Parsing of chord sheets: notes, chords, chord and lyric lines, and the
//! split of a file into its frontmatter and body.

pub mod chord;
pub mod document;
pub mod line;
pub mod note;
pub mod text;
