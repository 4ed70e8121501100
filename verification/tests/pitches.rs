use staff::Accidental;
use staff::Natural;
use staff::Pitch;
use staff::TheoryError;

#[test]
fn classes_follow_letter_and_accidental() {
    assert_eq!(Pitch::from_natural(Natural::C).class(), 0);
    assert_eq!(Pitch::new(Natural::C, Accidental::Sharp).class(), 1);
    assert_eq!(Pitch::new(Natural::D, Accidental::Flat).class(), 1);
    assert_eq!(Pitch::from_natural(Natural::B).class(), 11);
    assert_eq!(Pitch::new(Natural::B, Accidental::Sharp).class(), 0);
    assert_eq!(Pitch::new(Natural::C, Accidental::Flat).class(), 11);
    assert_eq!(Pitch::new(Natural::C, Accidental::DoubleFlat).class(), 10);
    assert_eq!(Pitch::new(Natural::F, Accidental::DoubleSharp).class(), 7);
}

#[test]
fn enharmonic_spellings_share_a_class_but_not_a_spelling() {
    let c_sharp = Pitch::new(Natural::C, Accidental::Sharp);
    let d_flat = Pitch::new(Natural::D, Accidental::Flat);
    assert!(c_sharp.is_enharmonic(&d_flat));
    assert_ne!(c_sharp, d_flat);
    assert_eq!(c_sharp, Pitch::new(Natural::C, Accidental::Sharp));
}

#[test]
fn display_shows_letter_then_accidental() {
    assert_eq!(Pitch::from_natural(Natural::C).to_string(), "C");
    assert_eq!(Pitch::new(Natural::C, Accidental::Sharp).to_string(), "C#");
    assert_eq!(Pitch::new(Natural::E, Accidental::Flat).to_string(), "Eb");
    assert_eq!(Pitch::new(Natural::B, Accidental::DoubleFlat).to_string(), "Bbb");
    assert_eq!(Pitch::new(Natural::F, Accidental::DoubleSharp).to_string(), "F##");
}

#[test]
fn parsing_inverts_the_display_form() {
    let spellings = [
        Pitch::from_natural(Natural::C),
        Pitch::new(Natural::C, Accidental::Sharp),
        Pitch::new(Natural::E, Accidental::Flat),
        Pitch::new(Natural::B, Accidental::DoubleFlat),
        Pitch::new(Natural::F, Accidental::DoubleSharp),
    ];
    for &p in spellings.iter() {
        assert_eq!(Pitch::from_str(&p.to_string()), Ok(p));
    }
}

#[test]
fn parsing_rejects_anything_outside_the_grammar() {
    assert_eq!(Pitch::from_str(""), Err(TheoryError::EmptyInput));
    assert_eq!(Pitch::from_str("H"), Err(TheoryError::InvalidLetter('H')));
    assert_eq!(Pitch::from_str("Cx"), Err(TheoryError::InvalidAccidentalCombination));
    assert_eq!(Pitch::from_str("C#b"), Err(TheoryError::InvalidAccidentalCombination));
    assert_eq!(Pitch::from_str("C###"), Err(TheoryError::InvalidAccidentalCombination));
}

#[test]
fn offsets_beyond_two_semitones_are_rejected() {
    assert_eq!(
        Pitch::from_offset(Natural::C, 3),
        Err(TheoryError::InvalidAccidentalCombination)
    );
    assert_eq!(
        Pitch::from_offset(Natural::C, -3),
        Err(TheoryError::InvalidAccidentalCombination)
    );
    assert_eq!(
        Pitch::from_offset(Natural::C, -1),
        Ok(Pitch::new(Natural::C, Accidental::Flat))
    );
}
