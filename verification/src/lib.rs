//! A symbolic music-theory algebra: letter classes, spelled pitches,
//! diatonic intervals, MIDI note numbers, chords and scales as exact,
//! composable values, with the arithmetic that relates them.

pub mod chord;
pub mod error;
pub mod interval;
pub mod midi;
pub mod natural;
pub mod pitch;
pub mod scale;

pub use chord::Chord;
pub use chord::ChordQuality;
pub use error::TheoryError;
pub use interval::Interval;
pub use interval::Quality;
pub use midi::MidiNote;
pub use midi::Octave;
pub use natural::Natural;
pub use pitch::Accidental;
pub use pitch::Pitch;
pub use scale::Scale;
