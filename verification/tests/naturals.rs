use staff::Natural;
use staff::TheoryError;

#[test]
fn to_char_names_every_letter() {
    assert_eq!(Natural::A.to_char(), 'A');
    assert_eq!(Natural::B.to_char(), 'B');
    assert_eq!(Natural::C.to_char(), 'C');
    assert_eq!(Natural::D.to_char(), 'D');
    assert_eq!(Natural::E.to_char(), 'E');
    assert_eq!(Natural::F.to_char(), 'F');
    assert_eq!(Natural::G.to_char(), 'G');
}

#[test]
fn try_from_accepts_exactly_the_letters() {
    assert_eq!(Natural::try_from('C'), Ok(Natural::C));
    assert_eq!(Natural::try_from('G'), Ok(Natural::G));
    assert_eq!(Natural::try_from('H'), Err('H'));
    assert_eq!(Natural::try_from('c'), Err('c'));
    assert_eq!(Natural::try_from('@'), Err('@'));
}

#[test]
fn from_byte_wraps_modulo_seven() {
    assert_eq!(Natural::from(0u8), Natural::A);
    assert_eq!(Natural::from(6u8), Natural::G);
    assert_eq!(Natural::from(7u8), Natural::A);
    assert_eq!(Natural::from(9u8), Natural::C);
}

#[test]
fn from_byte_cyclic_closure_over_all_bytes() {
    for b in 0u8..=255 {
        assert_eq!(Natural::from(b), Natural::from(b % 7));
    }
}

#[test]
fn add_steps_through_the_cycle() {
    assert_eq!(Natural::A.add(1), Natural::B);
    assert_eq!(Natural::G.add(1), Natural::A);
    assert_eq!(Natural::C.add(7), Natural::C);
    assert_eq!(Natural::E.add(255), Natural::A);
}

#[test]
fn add_inverse_returns_to_start_for_all_letters_and_steps() {
    let letters = [
        Natural::A,
        Natural::B,
        Natural::C,
        Natural::D,
        Natural::E,
        Natural::F,
        Natural::G,
    ];
    for &n in letters.iter() {
        for k in 0u8..=255 {
            assert_eq!(n.add(k).add(7 - (k % 7)), n);
        }
    }
}

#[test]
fn from_str_rejects_empty_input() {
    assert_eq!(Natural::from_str(""), Err(TheoryError::EmptyInput));
}

#[test]
fn from_str_echoes_an_invalid_letter() {
    assert_eq!(Natural::from_str("H"), Err(TheoryError::InvalidLetter('H')));
}

#[test]
fn from_str_reads_the_first_character() {
    assert_eq!(Natural::from_str("C"), Ok(Natural::C));
    assert_eq!(Natural::from_str("F#"), Ok(Natural::F));
}
