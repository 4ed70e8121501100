use vstd::prelude::*;

verus! {

/// The failures the algebra can report. Every fallible operation returns one
/// of these; nothing is swallowed or logged internally.
#[derive(Clone, Copy, Debug, PartialEq, Eq, Structural)]
pub enum TheoryError {
    /// A character outside `'A'..='G'` where a letter class was expected.
    InvalidLetter(char),
    /// A spelling whose accidental cannot stay within two semitones of the letter.
    InvalidAccidentalCombination,
    /// A (degree, semitone) pair outside the diatonic quality table.
    UnrecognizedInterval,
    /// An encoded MIDI value that would leave the range `0..=127`.
    MidiRangeExceeded,
    /// A parse called on empty text.
    EmptyInput,
}

} // verus!
