use chordown::chord::{parse_chord, Chord};
use chordown::note::Note;
use regex::Regex;

#[test]
fn test_parse_chord() {
    let test_cases = vec![
        (
            "C",
            Chord {
                root: Note::C,
                extension: "".to_string(),
                bass: None,
            },
        ),
        (
            "C#",
            Chord {
                root: Note::Cs,
                extension: "".to_string(),
                bass: None,
            },
        ),
        (
            "D7",
            Chord {
                root: Note::D,
                extension: "7".to_string(),
                bass: None,
            },
        ),
        (
            "Eb/C",
            Chord {
                root: Note::Ef,
                extension: "".to_string(),
                bass: Some(Note::C),
            },
        ),
        (
            "Emaj7/C#",
            Chord {
                root: Note::E,
                extension: "maj7".to_string(),
                bass: Some(Note::Cs),
            },
        ),
    ];
    for (input, expected_output) in test_cases {
        assert!(
            parse_chord(input).is_some(),
            "Chord should parse currently."
        );
        assert_eq!(parse_chord(input).unwrap().root, expected_output.root);
        assert_eq!(
            parse_chord(input).unwrap().extension,
            expected_output.extension
        );
        assert_eq!(parse_chord(input).unwrap().bass, expected_output.bass);
    }
}

#[test]
fn test_fails_to_parse_invalid_chords() {
    let test_cases = vec!["", " ", "abc", "xyz", "XYZ", "123"];
    for input in test_cases {
        assert!(
            parse_chord(input).is_none(),
            "Invalid chord should not parse."
        )
    }
}

fn chord(root: Note, extension: &str, bass: Option<Note>) -> Chord {
    Chord {
        root,
        extension: extension.to_string(),
        bass,
    }
}

#[test]
fn extension_is_kept_verbatim() {
    assert_eq!(parse_chord("Csus4"), Some(chord(Note::C, "sus4", None)));
    assert_eq!(parse_chord("Gmaj99x"), Some(chord(Note::G, "maj99x", None)));
    assert_eq!(parse_chord("A-7(b5)"), Some(chord(Note::A, "-7(b5)", None)));
}

#[test]
fn sign_after_letter_belongs_to_root() {
    assert_eq!(parse_chord("Bb"), Some(chord(Note::Bf, "", None)));
    assert_eq!(parse_chord("Cb7"), Some(chord(Note::Cf, "7", None)));
    assert_eq!(parse_chord("F#m"), Some(chord(Note::Fs, "m", None)));
    assert_eq!(parse_chord("E#"), Some(chord(Note::Es, "", None)));
}

#[test]
fn slash_with_every_bass_spelling() {
    assert_eq!(parse_chord("Am/G"), Some(chord(Note::A, "m", Some(Note::G))));
    assert_eq!(parse_chord("Am/Gb"), Some(chord(Note::A, "m", Some(Note::Gf))));
    assert_eq!(parse_chord("D/F#"), Some(chord(Note::D, "", Some(Note::Fs))));
    assert_eq!(parse_chord("C7/9/E"), Some(chord(Note::C, "7/9", Some(Note::E))));
}

#[test]
fn slash_without_note_gives_no_bass() {
    assert_eq!(parse_chord("C/Q"), Some(chord(Note::C, "/Q", None)));
    assert_eq!(parse_chord("Dm/"), Some(chord(Note::D, "m/", None)));
    assert_eq!(parse_chord("G7/c"), Some(chord(Note::G, "7/c", None)));
    assert_eq!(parse_chord("E/H7"), Some(chord(Note::E, "/H7", None)));
    let c = parse_chord("Am/xyz").unwrap();
    assert_eq!(c.root, Note::A);
    assert_eq!(c.bass, None);
}

#[test]
fn no_leading_root_is_no_chord() {
    for input in ["", " ", " C", "c", "H", "#C", "1A", "\tG", "bC"] {
        assert!(parse_chord(input).is_none(), "{:?}", input);
    }
}

#[test]
fn agrees_with_the_chord_pattern() {
    let re = Regex::new(
        r"^(?P<root>[A-G][#b]?)(?P<extension>.*?)(?:/(?P<bass>[A-G][#b]?))?$",
    )
    .unwrap();
    let tokens = [
        "", "C", "C#", "Cb", "Cbb", "C##", "D7", "Eb/C", "Emaj7/C#", "C/", "C//", "C/D/",
        "C/Db", "C/D#", "C/Dx", "Cm7/b5", "B/B", "G/G/G", "Fsus2/Ab", "A b", "Ab/C b", "x",
        "Q/C", "Ammaj9/Fb", "C/Hb", "Cé/Bb", "A7/b",
    ];
    for t in tokens {
        let parsed = parse_chord(t);
        match re.captures(t) {
            None => assert!(parsed.is_none(), "{:?}", t),
            Some(caps) => {
                let c = parsed.unwrap();
                let root: Note = caps.name("root").unwrap().as_str().parse().unwrap();
                assert_eq!(c.root, root, "{:?}", t);
                assert_eq!(c.extension, caps.name("extension").unwrap().as_str(), "{:?}", t);
                let bass = caps.name("bass").map(|b| b.as_str().parse::<Note>().unwrap());
                assert_eq!(c.bass, bass, "{:?}", t);
            }
        }
    }
}

const SPELLINGS: [(&str, Note); 21] = [
    ("Ab", Note::Af),
    ("A", Note::A),
    ("A#", Note::As),
    ("Bb", Note::Bf),
    ("B", Note::B),
    ("B#", Note::Bs),
    ("Cb", Note::Cf),
    ("C", Note::C),
    ("C#", Note::Cs),
    ("Db", Note::Df),
    ("D", Note::D),
    ("D#", Note::Ds),
    ("Eb", Note::Ef),
    ("E", Note::E),
    ("E#", Note::Es),
    ("Fb", Note::Ff),
    ("F", Note::F),
    ("F#", Note::Fs),
    ("Gb", Note::Gf),
    ("G", Note::G),
    ("G#", Note::Gs),
];

#[test]
fn written_chords_read_back() {
    for (root_text, root) in SPELLINGS {
        for ext in ["", "m", "maj7", "7/9", "sus4"] {
            let text = format!("{}{}", root_text, ext);
            assert_eq!(parse_chord(&text), Some(chord(root, ext, None)), "{}", text);
            for (bass_text, bass) in SPELLINGS {
                let text = format!("{}{}/{}", root_text, ext, bass_text);
                assert_eq!(parse_chord(&text), Some(chord(root, ext, Some(bass))), "{}", text);
            }
        }
    }
}
