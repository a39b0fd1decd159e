use chordown::note::{parse_note, Note};

const SPELLINGS: [(&str, Note); 21] = [
    ("Ab", Note::Af),
    ("A", Note::A),
    ("A#", Note::As),
    ("Bb", Note::Bf),
    ("B", Note::B),
    ("B#", Note::Bs),
    ("Cb", Note::Cf),
    ("C", Note::C),
    ("C#", Note::Cs),
    ("Db", Note::Df),
    ("D", Note::D),
    ("D#", Note::Ds),
    ("Eb", Note::Ef),
    ("E", Note::E),
    ("E#", Note::Es),
    ("Fb", Note::Ff),
    ("F", Note::F),
    ("F#", Note::Fs),
    ("Gb", Note::Gf),
    ("G", Note::G),
    ("G#", Note::Gs),
];

#[test]
fn every_spelling_reads_as_its_note() {
    for (s, n) in SPELLINGS {
        assert_eq!(parse_note(s), Some(n), "{}", s);
        assert_eq!(s.parse::<Note>(), Ok(n), "{}", s);
    }
}

#[test]
fn spellings_are_distinct_tags() {
    assert_ne!(parse_note("A#"), parse_note("Bb"));
    assert_ne!(parse_note("C#"), parse_note("Db"));
    assert_ne!(parse_note("E#"), parse_note("F"));
}

#[test]
fn other_strings_are_no_note() {
    for s in ["", "c", "cb", "H", "C##", "Cbb", "C♭", "C♯", "Bb7", " C", "C ", "#", "b", "AB"] {
        assert_eq!(parse_note(s), None, "{:?}", s);
        assert_eq!(s.parse::<Note>(), Err(()), "{:?}", s);
    }
}
