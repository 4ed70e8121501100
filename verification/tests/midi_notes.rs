use staff::Accidental;
use staff::Interval;
use staff::MidiNote;
use staff::Natural;
use staff::Octave;
use staff::Pitch;
use staff::TheoryError;

fn note(n: Natural, octave: i8) -> MidiNote {
    MidiNote::new(Pitch::from_natural(n), Octave::new_unchecked(octave))
}

#[test]
fn middle_c_is_sixty() {
    assert_eq!(note(Natural::C, 4).into_byte(), 60);
    assert_eq!(note(Natural::A, 4).into_byte(), 69);
    assert_eq!(note(Natural::C, -1).into_byte(), 0);
    assert_eq!(note(Natural::G, 9).into_byte(), 127);
}

#[test]
fn construction_decomposes_back_to_its_parts() {
    let spellings = [
        Pitch::from_natural(Natural::C),
        Pitch::new(Natural::C, Accidental::Sharp),
        Pitch::new(Natural::D, Accidental::Flat),
        Pitch::new(Natural::B, Accidental::DoubleSharp),
        Pitch::from_natural(Natural::G),
    ];
    for &p in spellings.iter() {
        for oct in -1i8..=8 {
            let octave = Octave::new_unchecked(oct);
            let m = MidiNote::new(p, octave);
            assert_eq!(m.decompose(), (p, octave));
            assert_eq!(m.pitch(), p);
            assert_eq!(m.octave(), octave);
        }
    }
}

#[test]
fn byte_decomposition_round_trips() {
    for b in 0u8..=127 {
        assert_eq!(MidiNote::from_byte(b).into_byte(), b);
    }
    let c4 = MidiNote::from_byte(60);
    assert_eq!(c4.pitch(), Pitch::from_natural(Natural::C));
    assert_eq!(c4.octave(), Octave::new_unchecked(4));
}

#[test]
fn construction_succeeds_at_both_extremes() {
    let lowest = MidiNote::try_new(Pitch::from_natural(Natural::C), Octave::new_unchecked(-1));
    assert_eq!(lowest.unwrap().into_byte(), 0);
    let highest = MidiNote::try_new(Pitch::from_natural(Natural::G), Octave::new_unchecked(9));
    assert_eq!(highest.unwrap().into_byte(), 127);
}

#[test]
fn one_step_beyond_either_extreme_is_out_of_range() {
    let above = MidiNote::try_new(
        Pitch::new(Natural::G, Accidental::Sharp),
        Octave::new_unchecked(9),
    );
    assert_eq!(above, Err(TheoryError::MidiRangeExceeded));
    let down_minor_second = Interval::new(2, -1).unwrap();
    assert_eq!(
        MidiNote::from_byte(0).add_interval(down_minor_second),
        Err(TheoryError::MidiRangeExceeded)
    );
    let up_minor_second = Interval::minor_second();
    assert_eq!(
        MidiNote::from_byte(127).add_interval(up_minor_second),
        Err(TheoryError::MidiRangeExceeded)
    );
}

#[test]
fn octaves_outside_the_numbering_are_rejected() {
    assert_eq!(Octave::new(10), Err(TheoryError::MidiRangeExceeded));
    assert_eq!(Octave::new(-2), Err(TheoryError::MidiRangeExceeded));
    assert_eq!(Octave::new(4), Ok(Octave::new_unchecked(4)));
}

#[test]
fn interval_arithmetic_keeps_the_spelling_diatonic() {
    let c4 = note(Natural::C, 4);
    let d4 = c4.add_interval(Interval::major_second()).unwrap();
    assert_eq!(d4, note(Natural::D, 4));
    let b3 = note(Natural::B, 3);
    let c4_again = b3.add_interval(Interval::minor_second()).unwrap();
    assert_eq!(c4_again, note(Natural::C, 4));
    let e_flat = c4.add_interval(Interval::minor_third()).unwrap();
    assert_eq!(
        e_flat,
        MidiNote::new(Pitch::new(Natural::E, Accidental::Flat), Octave::new_unchecked(4))
    );
    let c5 = c4.add_interval(Interval::octave()).unwrap();
    assert_eq!(c5, note(Natural::C, 5));
}

#[test]
fn an_unspellable_arrival_is_rejected() {
    let c_double_flat_4 = MidiNote::new(
        Pitch::new(Natural::C, Accidental::DoubleFlat),
        Octave::new_unchecked(4),
    );
    let dim2 = Interval::new(2, 0).unwrap();
    assert_eq!(
        c_double_flat_4.add_interval(dim2),
        Err(TheoryError::InvalidAccidentalCombination)
    );
}

#[test]
fn interval_to_measures_between_notes() {
    let c4 = note(Natural::C, 4);
    let e4 = note(Natural::E, 4);
    assert_eq!(c4.interval_to(e4), Ok(Interval::major_third()));
    let e3 = note(Natural::E, 3);
    assert_eq!(e3.interval_to(c4), Ok(Interval::minor_sixth()));
    let down = c4.interval_to(e3).unwrap();
    assert_eq!(down.semitones, -8);
    assert_eq!(down.degree, 6);
}
