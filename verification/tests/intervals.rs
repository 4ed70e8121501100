use staff::Accidental;
use staff::Interval;
use staff::Natural;
use staff::Pitch;
use staff::Quality;
use staff::TheoryError;

#[test]
fn the_table_spells_the_common_intervals() {
    assert_eq!(Interval::new(3, 4), Ok(Interval::major_third()));
    assert_eq!(Interval::new(3, 3), Ok(Interval::minor_third()));
    assert_eq!(Interval::new(5, 7), Ok(Interval::perfect_fifth()));
    assert_eq!(Interval::new(8, 12), Ok(Interval::octave()));
    assert_eq!(Interval::new(1, 0), Ok(Interval::unison()));
}

#[test]
fn the_table_covers_augmented_and_diminished() {
    let aug4 = Interval::new(4, 6).unwrap();
    assert_eq!(aug4.quality, Quality::Augmented);
    let dim5 = Interval::new(5, 6).unwrap();
    assert_eq!(dim5.quality, Quality::Diminished);
    let dim7 = Interval::new(7, 9).unwrap();
    assert_eq!(dim7.quality, Quality::Diminished);
}

#[test]
fn the_table_reaches_the_thirteenth() {
    let maj13 = Interval::new(13, 21).unwrap();
    assert_eq!(maj13.quality, Quality::Major);
    let min9 = Interval::new(9, 13).unwrap();
    assert_eq!(min9.quality, Quality::Minor);
}

#[test]
fn pairs_outside_the_table_are_unrecognized() {
    assert_eq!(Interval::new(1, 3), Err(TheoryError::UnrecognizedInterval));
    assert_eq!(Interval::new(2, 5), Err(TheoryError::UnrecognizedInterval));
    assert_eq!(Interval::new(0, 0), Err(TheoryError::UnrecognizedInterval));
    assert_eq!(Interval::new(14, 23), Err(TheoryError::UnrecognizedInterval));
}

#[test]
fn negative_semitones_spell_descending_intervals() {
    let down_minor_second = Interval::new(2, -1).unwrap();
    assert_eq!(down_minor_second.quality, Quality::Minor);
    assert_eq!(down_minor_second.semitones, -1);
}

#[test]
fn between_pitches_measures_the_letters_and_the_classes() {
    let c = Pitch::from_natural(Natural::C);
    let e = Pitch::from_natural(Natural::E);
    assert_eq!(Interval::between_pitches(c, e), Ok(Interval::major_third()));
    let e_flat = Pitch::new(Natural::E, Accidental::Flat);
    assert_eq!(Interval::between_pitches(c, e_flat), Ok(Interval::minor_third()));
    assert_eq!(Interval::between_pitches(e, c), Ok(Interval::minor_sixth()));
    assert_eq!(Interval::between_pitches(c, c), Ok(Interval::unison()));
}

#[test]
fn a_pitch_pair_outside_the_table_is_unrecognized() {
    let c = Pitch::from_natural(Natural::C);
    let c_flat = Pitch::new(Natural::C, Accidental::Flat);
    assert_eq!(
        Interval::between_pitches(c, c_flat),
        Err(TheoryError::UnrecognizedInterval)
    );
}

#[test]
fn addition_carries_degrees_and_adds_semitones() {
    let fifth = Interval::major_third().add(Interval::minor_third()).unwrap();
    assert_eq!(fifth, Interval::perfect_fifth());
    let octave = Interval::perfect_fifth().add(Interval::perfect_fourth()).unwrap();
    assert_eq!(octave, Interval::octave());
}

#[test]
fn subtraction_undoes_addition() {
    let m3 = Interval::perfect_fifth().sub(Interval::major_third()).unwrap();
    assert_eq!(m3, Interval::minor_third());
    assert_eq!(
        Interval::major_third().sub(Interval::perfect_fifth()),
        Err(TheoryError::UnrecognizedInterval)
    );
}

#[test]
fn two_augmented_fourths_spell_an_augmented_seventh() {
    let aug4 = Interval::new(4, 6).unwrap();
    let sum = aug4.add(aug4).unwrap();
    assert_eq!(sum.degree, 7);
    assert_eq!(sum.semitones, 12);
    assert_eq!(sum.quality, Quality::Augmented);
}

#[test]
fn a_sum_beyond_the_thirteenth_is_unrecognized() {
    assert_eq!(
        Interval::octave().add(Interval::octave()),
        Err(TheoryError::UnrecognizedInterval)
    );
}
