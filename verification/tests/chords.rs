use staff::Accidental;
use staff::Chord;
use staff::ChordQuality;
use staff::MidiNote;
use staff::Natural;
use staff::Octave;
use staff::Pitch;
use staff::TheoryError;

fn note(n: Natural, octave: i8) -> MidiNote {
    MidiNote::new(Pitch::from_natural(n), Octave::new_unchecked(octave))
}

fn sharp(n: Natural, octave: i8) -> MidiNote {
    MidiNote::new(Pitch::new(n, Accidental::Sharp), Octave::new_unchecked(octave))
}

fn flat(n: Natural, octave: i8) -> MidiNote {
    MidiNote::new(Pitch::new(n, Accidental::Flat), Octave::new_unchecked(octave))
}

#[test]
fn c_major_first_inversion_displays_with_its_bass() {
    let chord = Chord::from_midi(
        note(Natural::C, 4),
        vec![note(Natural::E, 3), note(Natural::G, 3), note(Natural::C, 4)],
    );
    assert_eq!(chord.to_string(), "C/E");
}

#[test]
fn iteration_keeps_the_supplied_voicing_order() {
    let chord = Chord::from_midi(
        note(Natural::C, 4),
        vec![note(Natural::E, 3), note(Natural::G, 3), note(Natural::C, 4)],
    );
    let pitches = chord.pitches();
    assert_eq!(
        pitches,
        vec![
            Pitch::from_natural(Natural::E),
            Pitch::from_natural(Natural::G),
            Pitch::from_natural(Natural::C),
        ]
    );
}

#[test]
fn root_position_chords_show_no_slash() {
    let chord = Chord::from_midi(
        note(Natural::C, 4),
        vec![note(Natural::C, 4), note(Natural::E, 4), note(Natural::G, 4)],
    );
    assert_eq!(chord.quality(), ChordQuality::Major);
    assert!(!chord.is_inversion());
    assert_eq!(chord.to_string(), "C");
}

#[test]
fn minor_and_seventh_qualities_are_recognized() {
    let cm = Chord::from_midi(
        note(Natural::C, 4),
        vec![note(Natural::C, 4), flat(Natural::E, 4), note(Natural::G, 4)],
    );
    assert_eq!(cm.quality(), ChordQuality::Minor);
    assert_eq!(cm.to_string(), "Cm");

    let cm7 = Chord::from_midi(
        note(Natural::C, 4),
        vec![
            note(Natural::C, 4),
            flat(Natural::E, 4),
            note(Natural::G, 4),
            flat(Natural::B, 4),
        ],
    );
    assert_eq!(cm7.quality(), ChordQuality::Minor7);
    assert_eq!(cm7.to_string(), "Cm7");

    let c7 = Chord::from_midi(
        note(Natural::C, 4),
        vec![
            note(Natural::C, 4),
            note(Natural::E, 4),
            note(Natural::G, 4),
            flat(Natural::B, 4),
        ],
    );
    assert_eq!(c7.quality(), ChordQuality::Dominant7);
    assert_eq!(c7.to_string(), "C7");

    let cmaj7 = Chord::from_midi(
        note(Natural::C, 4),
        vec![
            note(Natural::C, 4),
            note(Natural::E, 4),
            note(Natural::G, 4),
            note(Natural::B, 4),
        ],
    );
    assert_eq!(cmaj7.quality(), ChordQuality::Major7);
    assert_eq!(cmaj7.to_string(), "Cmaj7");
}

#[test]
fn diminished_augmented_and_half_diminished_are_recognized() {
    let cdim = Chord::from_midi(
        note(Natural::C, 4),
        vec![note(Natural::C, 4), flat(Natural::E, 4), flat(Natural::G, 4)],
    );
    assert_eq!(cdim.quality(), ChordQuality::Diminished);
    assert_eq!(cdim.to_string(), "Cdim");

    let caug = Chord::from_midi(
        note(Natural::C, 4),
        vec![note(Natural::C, 4), note(Natural::E, 4), sharp(Natural::G, 4)],
    );
    assert_eq!(caug.quality(), ChordQuality::Augmented);
    assert_eq!(caug.to_string(), "Caug");

    let cm7b5 = Chord::from_midi(
        note(Natural::C, 4),
        vec![
            note(Natural::C, 4),
            flat(Natural::E, 4),
            flat(Natural::G, 4),
            flat(Natural::B, 4),
        ],
    );
    assert_eq!(cm7b5.quality(), ChordQuality::HalfDiminished7);
    assert_eq!(cm7b5.to_string(), "Cm7b5");

    let cdim7 = Chord::from_midi(
        note(Natural::C, 4),
        vec![
            note(Natural::C, 4),
            flat(Natural::E, 4),
            flat(Natural::G, 4),
            note(Natural::A, 4),
        ],
    );
    assert_eq!(cdim7.quality(), ChordQuality::Diminished7);
    assert_eq!(cdim7.to_string(), "Cdim7");
}

#[test]
fn doubled_notes_do_not_change_the_quality() {
    let chord = Chord::from_midi(
        note(Natural::C, 4),
        vec![
            note(Natural::C, 3),
            note(Natural::G, 3),
            note(Natural::C, 4),
            note(Natural::E, 4),
            note(Natural::G, 4),
        ],
    );
    assert_eq!(chord.quality(), ChordQuality::Major);
}

#[test]
fn an_unmatched_set_is_unidentified_but_still_prints() {
    let chord = Chord::from_midi(
        note(Natural::C, 4),
        vec![note(Natural::C, 4), sharp(Natural::C, 4)],
    );
    assert_eq!(chord.quality(), ChordQuality::Unidentified);
    assert_eq!(chord.to_string(), "C?");
    assert_eq!(chord.pitches().len(), 2);
    assert_eq!(chord.notes_string(), "C C#");
}

#[test]
fn the_raw_note_listing_keeps_the_voicing_order() {
    let chord = Chord::from_midi(
        note(Natural::C, 4),
        vec![note(Natural::E, 3), flat(Natural::G, 3), note(Natural::C, 4)],
    );
    assert_eq!(chord.notes_string(), "E Gb C");
}

#[test]
fn the_bass_is_the_lowest_note_regardless_of_order() {
    let chord = Chord::from_midi(
        note(Natural::C, 4),
        vec![note(Natural::C, 4), note(Natural::G, 2), note(Natural::E, 3)],
    );
    assert_eq!(chord.bass(), note(Natural::G, 2));
    assert!(chord.is_inversion());
    assert_eq!(chord.to_string(), "C/G");
}

#[test]
fn an_enharmonic_bass_is_not_an_inversion() {
    let chord = Chord::from_midi(
        note(Natural::C, 4),
        vec![sharp(Natural::B, 3), note(Natural::E, 4), note(Natural::G, 4)],
    );
    assert_eq!(chord.quality(), ChordQuality::Major);
    assert!(!chord.is_inversion());
}

#[test]
fn rebuilding_from_the_displayed_quality_reproduces_the_structure() {
    let voiced = Chord::from_midi(
        note(Natural::C, 4),
        vec![note(Natural::E, 3), note(Natural::G, 3), note(Natural::C, 4)],
    );
    let quality = voiced.quality();
    assert_eq!(quality, ChordQuality::Major);
    let rebuilt = Chord::from_parts(note(Natural::C, 4), quality).unwrap();
    assert_eq!(rebuilt.quality(), quality);
    assert_eq!(rebuilt.root(), voiced.root());
    let values: Vec<u8> = rebuilt.notes().iter().map(|n| n.into_byte()).collect();
    assert_eq!(values, vec![60, 64, 67]);
}

#[test]
fn rebuilding_every_recognized_quality_classifies_back() {
    let qualities = [
        ChordQuality::Major,
        ChordQuality::Minor,
        ChordQuality::Diminished,
        ChordQuality::Augmented,
        ChordQuality::Dominant7,
        ChordQuality::Major7,
        ChordQuality::Minor7,
        ChordQuality::HalfDiminished7,
        ChordQuality::Diminished7,
    ];
    for &q in qualities.iter() {
        let rebuilt = Chord::from_parts(note(Natural::C, 4), q).unwrap();
        assert_eq!(rebuilt.quality(), q);
    }
}

#[test]
fn symbols_parse_back_to_root_quality_and_bass() {
    let parsed = Chord::from_symbol("C/E").unwrap();
    assert_eq!(parsed.0, Pitch::from_natural(Natural::C));
    assert_eq!(parsed.1, ChordQuality::Major);
    assert_eq!(parsed.2, Some(Pitch::from_natural(Natural::E)));

    let parsed = Chord::from_symbol("C#m7/G#").unwrap();
    assert_eq!(parsed.0, Pitch::new(Natural::C, Accidental::Sharp));
    assert_eq!(parsed.1, ChordQuality::Minor7);
    assert_eq!(parsed.2, Some(Pitch::new(Natural::G, Accidental::Sharp)));

    let parsed = Chord::from_symbol("Bbm7b5").unwrap();
    assert_eq!(parsed.0, Pitch::new(Natural::B, Accidental::Flat));
    assert_eq!(parsed.1, ChordQuality::HalfDiminished7);
    assert_eq!(parsed.2, None);
}

#[test]
fn symbols_outside_the_grammar_are_rejected() {
    assert_eq!(Chord::from_symbol(""), Err(TheoryError::EmptyInput));
    assert_eq!(Chord::from_symbol("Hm"), Err(TheoryError::InvalidLetter('H')));
    assert_eq!(Chord::from_symbol("Cxyz"), Err(TheoryError::UnrecognizedInterval));
    assert_eq!(Chord::from_symbol("C/"), Err(TheoryError::EmptyInput));
    assert_eq!(Chord::from_symbol("C/E/G"), Err(TheoryError::InvalidAccidentalCombination));
}

#[test]
fn displayed_symbols_re_derive_the_interval_structure() {
    let chords = [
        Chord::from_midi(
            note(Natural::C, 4),
            vec![note(Natural::E, 3), note(Natural::G, 3), note(Natural::C, 4)],
        ),
        Chord::from_midi(
            note(Natural::C, 4),
            vec![note(Natural::C, 4), flat(Natural::E, 4), note(Natural::G, 4)],
        ),
        Chord::from_midi(
            sharp(Natural::F, 3),
            vec![
                sharp(Natural::F, 3),
                sharp(Natural::A, 3),
                sharp(Natural::C, 4),
                note(Natural::E, 4),
            ],
        ),
    ];
    for chord in chords.iter() {
        let symbol = chord.to_string();
        let (root, quality, _bass) = Chord::from_symbol(&symbol).unwrap();
        assert_eq!(root, chord.root());
        assert_eq!(quality, chord.quality());
        let rebuilt = Chord::from_parts(note(Natural::C, 4), quality).unwrap();
        assert_eq!(rebuilt.quality(), quality);
    }
}

#[test]
fn rebuilding_fails_cleanly_at_the_edges() {
    assert!(matches!(
        Chord::from_parts(note(Natural::C, 4), ChordQuality::Unidentified),
        Err(TheoryError::UnrecognizedInterval)
    ));
    let high = MidiNote::from_byte(125);
    assert!(matches!(
        Chord::from_parts(high, ChordQuality::Major),
        Err(TheoryError::MidiRangeExceeded)
    ));
}
