use vstd::prelude::*;

use crate::error::TheoryError;
use crate::interval::Interval;
use crate::interval::abs_spec;
use crate::natural::Natural;
use crate::pitch::Accidental;
use crate::pitch::Pitch;

verus! {

/// An octave index in the MIDI numbering convention: octave -1 holds note
/// values 0..=11 and middle C sits at C4 = 60, so the valid range is -1..=9.
#[derive(Clone, Copy, Debug, PartialEq, Eq, Structural)]
pub struct Octave {
    pub index: i8,
}

impl Octave {
    /// The valid octave range: -1 (values from 0) through 9 (values up to 127).
    pub open spec fn wf(self) -> bool {
        -1 <= self.index <= 9
    }

    /// Builds an octave after checking the range; an index outside -1..=9 can
    /// hold no valid MIDI value at all.
    pub fn new(index: i8) -> (r: Result<Octave, TheoryError>)
        ensures
            -1 <= index <= 9 ==> r == Ok::<Octave, TheoryError>(Octave { index }),
            !(-1 <= index <= 9) ==> r == Err::<Octave, TheoryError>(TheoryError::MidiRangeExceeded),
    {
        if -1 <= index && index <= 9 {
            Ok(Octave { index })
        } else {
            Err(TheoryError::MidiRangeExceeded)
        }
    }

    /// Builds an octave from an index the caller has already validated.
    pub fn new_unchecked(index: i8) -> (r: Octave)
        requires
            -1 <= index <= 9,
        ensures
            r == (Octave { index }),
    {
        Octave { index }
    }

    pub fn index(self) -> (i: i8)
        ensures
            i == self.index,
    {
        self.index
    }
}

/// An absolute note identity: a spelled pitch in an octave, encoding to the
/// MIDI note number `(octave + 1) * 12 + semitone class`, which must lie in
/// 0..=127.
#[derive(Clone, Copy, Debug, PartialEq, Eq, Structural)]
pub struct MidiNote {
    pub pitch: Pitch,
    pub octave: Octave,
}

impl MidiNote {
    /// The encoded MIDI note number.
    pub open spec fn value_spec(self) -> int {
        (self.octave.index + 1) * 12 + self.pitch.class_spec()
    }

    /// Validity: the octave is in range and the encoded value fits 0..=127.
    /// The lower bound holds already: octave -1 and class 0 encode to 0.
    pub open spec fn wf(self) -> bool {
        &&& self.octave.wf()
        &&& self.value_spec() <= 127
    }

    /// Builds a note from already-validated parts: the caller must avoid a
    /// combination whose encoded value would leave 0..=127.
    pub fn new(pitch: Pitch, octave: Octave) -> (r: MidiNote)
        requires
            octave.wf(),
            (octave.index + 1) * 12 + pitch.class_spec() <= 127,
        ensures
            r == (MidiNote { pitch, octave }),
            r.wf(),
    {
        MidiNote { pitch, octave }
    }

    /// What checked construction yields: the note, or the range error for a
    /// combination that encodes outside 0..=127.
    pub open spec fn try_new_spec(pitch: Pitch, octave: Octave) -> Result<MidiNote, TheoryError> {
        if octave.wf() && (octave.index + 1) * 12 + pitch.class_spec() <= 127 {
            Ok(MidiNote { pitch, octave })
        } else {
            Err(TheoryError::MidiRangeExceeded)
        }
    }

    /// The checked constructor for the general case.
    pub fn try_new(pitch: Pitch, octave: Octave) -> (r: Result<MidiNote, TheoryError>)
        ensures
            r == MidiNote::try_new_spec(pitch, octave),
            r matches Ok(m) ==> m.wf(),
    {
        if octave.index < -1 || octave.index > 9 {
            return Err(TheoryError::MidiRangeExceeded);
        }
        let value: i16 = (octave.index as i16 + 1) * 12 + pitch.class() as i16;
        if value <= 127 {
            Ok(MidiNote { pitch, octave })
        } else {
            Err(TheoryError::MidiRangeExceeded)
        }
    }

    pub fn pitch(self) -> (p: Pitch)
        ensures
            p == self.pitch,
    {
        self.pitch
    }

    pub fn octave(self) -> (o: Octave)
        ensures
            o == self.octave,
    {
        self.octave
    }

    /// The pure decomposition back into the parts the note was built from.
    pub fn decompose(self) -> (r: (Pitch, Octave))
        ensures
            r == (self.pitch, self.octave),
    {
        (self.pitch, self.octave)
    }

    /// The encoded MIDI note number as a byte.
    pub fn into_byte(self) -> (b: u8)
        requires
            self.wf(),
        ensures
            b as int == self.value_spec(),
    {
        ((self.octave.index as i16 + 1) * 12 + self.pitch.class() as i16) as u8
    }

    /// The canonically spelled pitch of a semitone class: naturals and sharps.
    pub open spec fn canonical_pitch_spec(class: int) -> Pitch {
        if class == 0 {
            Pitch { natural: Natural::C, accidental: Accidental::Natural }
        } else if class == 1 {
            Pitch { natural: Natural::C, accidental: Accidental::Sharp }
        } else if class == 2 {
            Pitch { natural: Natural::D, accidental: Accidental::Natural }
        } else if class == 3 {
            Pitch { natural: Natural::D, accidental: Accidental::Sharp }
        } else if class == 4 {
            Pitch { natural: Natural::E, accidental: Accidental::Natural }
        } else if class == 5 {
            Pitch { natural: Natural::F, accidental: Accidental::Natural }
        } else if class == 6 {
            Pitch { natural: Natural::F, accidental: Accidental::Sharp }
        } else if class == 7 {
            Pitch { natural: Natural::G, accidental: Accidental::Natural }
        } else if class == 8 {
            Pitch { natural: Natural::G, accidental: Accidental::Sharp }
        } else if class == 9 {
            Pitch { natural: Natural::A, accidental: Accidental::Natural }
        } else if class == 10 {
            Pitch { natural: Natural::A, accidental: Accidental::Sharp }
        } else {
            Pitch { natural: Natural::B, accidental: Accidental::Natural }
        }
    }

    /// What decoding a MIDI note number yields: the canonical spelling of its
    /// class in the octave the number determines.
    pub open spec fn from_byte_spec(byte: int) -> MidiNote {
        MidiNote {
            pitch: MidiNote::canonical_pitch_spec(byte % 12),
            octave: Octave { index: (byte / 12 - 1) as i8 },
        }
    }

    /// The letter the interval's degree steps to, upward for a non-negative
    /// semitone count and downward for a negative one.
    pub open spec fn stepped_letter_spec(self, iv: Interval) -> Natural {
        if iv.semitones >= 0 {
            Natural::from_ordinal((self.pitch.natural.ordinal() + (iv.degree - 1)) % 7)
        } else {
            Natural::from_ordinal((self.pitch.natural.ordinal() - (iv.degree - 1)) % 7)
        }
    }

    /// The accidental offset that spells the arrival class on the stepped
    /// letter, when one exists within two semitones; values outside -2..=2
    /// mean the arrival cannot keep the diatonic spelling.
    pub open spec fn spelling_offset_spec(self, iv: Interval) -> int {
        let target = (self.value_spec() + iv.semitones) % 12;
        let d0 = target - Pitch::base_semitone(self.stepped_letter_spec(iv));
        if d0 > 2 {
            d0 - 12
        } else if d0 < -2 {
            d0 + 12
        } else {
            d0
        }
    }

    /// What advancing by an interval yields: the semitone value moves by the
    /// signed count and the letter by the degree, respelled; a value outside
    /// 0..=127 is a range error, and an arrival that no accidental within two
    /// semitones can spell on the stepped letter is rejected.
    pub open spec fn add_interval_spec(self, iv: Interval) -> Result<MidiNote, TheoryError> {
        let v = self.value_spec() + iv.semitones;
        if v < 0 || v > 127 {
            Err(TheoryError::MidiRangeExceeded)
        } else {
            let letter = self.stepped_letter_spec(iv);
            let off = self.spelling_offset_spec(iv);
            if -2 <= off <= 2 {
                Ok(
                    MidiNote {
                        pitch: Pitch {
                            natural: letter,
                            accidental: Accidental::from_offset_spec(off),
                        },
                        octave: Octave { index: (v / 12 - 1) as i8 },
                    },
                )
            } else {
                Err(TheoryError::InvalidAccidentalCombination)
            }
        }
    }

    /// Advances the note by an interval, diatonically: the encoded value moves
    /// by the interval's signed semitone count, and the spelling steps by its
    /// degree.
    #[verifier::rlimit(60)]
    pub fn add_interval(self, iv: Interval) -> (r: Result<MidiNote, TheoryError>)
        requires
            self.wf(),
            iv.wf(),
        ensures
            r == self.add_interval_spec(iv),
            r matches Ok(m) ==> m.wf() && m.value_spec() == self.value_spec() + iv.semitones,
    {
        let v: i16 = self.into_byte() as i16 + iv.semitones;
        if v < 0 || v > 127 {
            return Err(TheoryError::MidiRangeExceeded);
        }
        let ord: u8 = self.pitch.natural.to_index();
        let dm: u8 = iv.degree - 1;
        let letter: Natural = if iv.semitones >= 0 {
            Natural::from_index((ord + dm) % 7)
        } else {
            proof {
                vstd::arithmetic::div_mod::lemma_mod_multiples_vanish(
                    2,
                    self.pitch.natural.ordinal() - (iv.degree - 1),
                    7,
                );
            }
            Natural::from_index((ord + 14 - dm) % 7)
        };
        let target: u8 = (v as u8) % 12;
        let base: u8 = Pitch { natural: letter, accidental: Accidental::Natural }.class();
        let d0: i16 = target as i16 - base as i16;
        let off: i16 = if d0 > 2 {
            d0 - 12
        } else if d0 < -2 {
            d0 + 12
        } else {
            d0
        };
        let accidental = match Accidental::from_offset(off as i8) {
            Ok(a) => a,
            Err(e) => {
                return Err(e);
            },
        };
        let octave = Octave { index: (v / 12) as i8 - 1 };
        let m = MidiNote { pitch: Pitch { natural: letter, accidental }, octave };
        proof {
            vstd::arithmetic::div_mod::lemma_fundamental_div_mod(v as int, 12);
            assert(m == self.add_interval_spec(iv)->Ok_0);
            assert(m.value_spec() == v);
        }
        Ok(m)
    }

    /// What measuring the interval to another note yields: the signed
    /// semitone count is the value difference, and the degree is the letter
    /// distance across octaves; a pair the diatonic table cannot spell is
    /// unrecognized.
    pub open spec fn interval_to_spec(self, other: MidiNote) -> Result<Interval, TheoryError> {
        let steps = 7 * (other.octave.index - self.octave.index) + (other.pitch.natural.ordinal()
            - self.pitch.natural.ordinal());
        Interval::new_spec(abs_spec(steps) + 1, other.value_spec() - self.value_spec())
    }

    /// The signed diatonic interval from this note to another.
    pub fn interval_to(self, other: MidiNote) -> (r: Result<Interval, TheoryError>)
        requires
            self.wf(),
            other.wf(),
        ensures
            r == self.interval_to_spec(other),
            r matches Ok(i) ==> i.wf(),
    {
        let steps: i16 = 7 * (other.octave.index as i16 - self.octave.index as i16)
            + (other.pitch.natural.to_index() as i16 - self.pitch.natural.to_index() as i16);
        let steps_abs: i16 = if steps < 0 {
            -steps
        } else {
            steps
        };
        let semis: i16 = other.into_byte() as i16 - self.into_byte() as i16;
        Interval::new((steps_abs + 1) as u8, semis)
    }

    /// Decodes a MIDI note number into its unique (canonical pitch, octave)
    /// decomposition.
    pub fn from_byte(byte: u8) -> (r: MidiNote)
        requires
            byte <= 127,
        ensures
            r == MidiNote::from_byte_spec(byte as int),
            r.wf(),
            r.value_spec() == byte,
    {
        let class: u8 = byte % 12;
        let octave = Octave { index: (byte / 12) as i8 - 1 };
        let pitch = canonical_pitch(class);
        MidiNote { pitch, octave }
    }
}

/// The canonically spelled pitch of a semitone class below 12.
fn canonical_pitch(class: u8) -> (p: Pitch)
    requires
        class < 12,
    ensures
        p == MidiNote::canonical_pitch_spec(class as int),
        p.class_spec() == class,
{
    match class {
        0 => Pitch { natural: Natural::C, accidental: Accidental::Natural },
        1 => Pitch { natural: Natural::C, accidental: Accidental::Sharp },
        2 => Pitch { natural: Natural::D, accidental: Accidental::Natural },
        3 => Pitch { natural: Natural::D, accidental: Accidental::Sharp },
        4 => Pitch { natural: Natural::E, accidental: Accidental::Natural },
        5 => Pitch { natural: Natural::F, accidental: Accidental::Natural },
        6 => Pitch { natural: Natural::F, accidental: Accidental::Sharp },
        7 => Pitch { natural: Natural::G, accidental: Accidental::Natural },
        8 => Pitch { natural: Natural::G, accidental: Accidental::Sharp },
        9 => Pitch { natural: Natural::A, accidental: Accidental::Natural },
        10 => Pitch { natural: Natural::A, accidental: Accidental::Sharp },
        _ => Pitch { natural: Natural::B, accidental: Accidental::Natural },
    }
}

/// Construction and decomposition round-trip: a note built from any valid
/// (pitch, octave) pair decomposes back to exactly that pair, spelling
/// included.
pub proof fn lemma_new_decompose_roundtrip(pitch: Pitch, octave: Octave)
    requires
        octave.wf(),
        (octave.index + 1) * 12 + pitch.class_spec() <= 127,
    ensures
        (MidiNote { pitch, octave }).pitch == pitch,
        (MidiNote { pitch, octave }).octave == octave,
        (MidiNote { pitch, octave }).wf(),
{
}

/// Decoding is a right inverse of encoding: every note number below 128
/// decodes to a note that encodes back to it, so the decomposition of a note
/// number is unique.
pub proof fn lemma_byte_roundtrip(byte: int)
    requires
        0 <= byte <= 127,
    ensures
        MidiNote::from_byte_spec(byte).wf(),
        MidiNote::from_byte_spec(byte).value_spec() == byte,
{
}

} // verus!
