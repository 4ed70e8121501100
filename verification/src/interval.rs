use vstd::prelude::*;

use crate::error::TheoryError;
use crate::pitch::Pitch;

verus! {

/// The diatonic qualifier of an interval.
#[derive(Clone, Copy, Debug, PartialEq, Eq, Structural)]
pub enum Quality {
    Perfect,
    Major,
    Minor,
    Augmented,
    Diminished,
}

/// A diatonic interval: a signed semitone distance together with the degree
/// (unison through thirteenth) and quality that spell it. The three parts are
/// kept mutually consistent by the quality table; a combination outside the
/// table cannot be constructed.
#[derive(Clone, Copy, Debug, PartialEq, Eq, Structural)]
pub struct Interval {
    pub degree: u8,
    pub semitones: i16,
    pub quality: Quality,
}

/// The magnitude of a signed count.
pub open spec fn abs_spec(x: int) -> int {
    if x < 0 {
        -x
    } else {
        x
    }
}

impl Interval {
    /// The degree reduced into one octave: unison and octave are class 0,
    /// seconds and ninths class 1, and so on.
    pub open spec fn degree_class(degree: int) -> int {
        (degree - 1) % 7
    }

    /// How many whole octaves the degree spans beyond its class.
    pub open spec fn degree_octaves(degree: int) -> int {
        (degree - 1) / 7
    }

    /// Whether a degree class takes perfect rather than major/minor qualities:
    /// unisons, fourths and fifths do.
    pub open spec fn is_perfect_class(dc: int) -> bool {
        dc == 0 || dc == 3 || dc == 4
    }

    /// The semitone span of the major or perfect interval at a degree class.
    pub open spec fn class_base_semitones(dc: int) -> int {
        if dc == 0 {
            0
        } else if dc == 1 {
            2
        } else if dc == 2 {
            4
        } else if dc == 3 {
            5
        } else if dc == 4 {
            7
        } else if dc == 5 {
            9
        } else {
            11
        }
    }

    /// The diatonic quality table, covering unison through thirteenth: the
    /// quality, if any, that spells `semis` semitones (a magnitude) as the
    /// given degree. Perfect degrees admit perfect/augmented/diminished;
    /// the rest admit major/minor/augmented/diminished.
    pub open spec fn quality_for(degree: int, semis: int) -> Option<Quality> {
        if degree < 1 || degree > 13 {
            None
        } else {
            let dc = Interval::degree_class(degree);
            let expected = Interval::class_base_semitones(dc) + 12 * Interval::degree_octaves(
                degree,
            );
            let diff = semis - expected;
            if Interval::is_perfect_class(dc) {
                if diff == 0 {
                    Some(Quality::Perfect)
                } else if diff == 1 {
                    Some(Quality::Augmented)
                } else if diff == -1 {
                    Some(Quality::Diminished)
                } else {
                    None
                }
            } else {
                if diff == 0 {
                    Some(Quality::Major)
                } else if diff == -1 {
                    Some(Quality::Minor)
                } else if diff == 1 {
                    Some(Quality::Augmented)
                } else if diff == -2 {
                    Some(Quality::Diminished)
                } else {
                    None
                }
            }
        }
    }

    /// Internal consistency: the degree is in range, the quality is what the
    /// table gives for the degree and semitone magnitude, and the magnitude is
    /// bounded by the table's widest entry.
    pub open spec fn wf(self) -> bool {
        &&& 1 <= self.degree <= 13
        &&& Interval::quality_for(self.degree as int, abs_spec(self.semitones as int)) == Some(
            self.quality,
        )
        &&& abs_spec(self.semitones as int) <= 22
    }

    /// What construction from a degree and a signed semitone count yields.
    pub open spec fn new_spec(degree: int, semitones: int) -> Result<Interval, TheoryError> {
        match Interval::quality_for(degree, abs_spec(semitones)) {
            Some(q) => Ok(
                Interval { degree: degree as u8, semitones: semitones as i16, quality: q },
            ),
            None => Err(TheoryError::UnrecognizedInterval),
        }
    }

    /// Builds the interval spelling `semitones` semitones as `degree`, or
    /// reports the pair as unrecognized when the table has no quality for it.
    pub fn new(degree: u8, semitones: i16) -> (r: Result<Interval, TheoryError>)
        ensures
            r == Interval::new_spec(degree as int, semitones as int),
            r matches Ok(i) ==> i.wf() && i.degree == degree && i.semitones == semitones,
    {
        if degree < 1 || degree > 13 {
            return Err(TheoryError::UnrecognizedInterval);
        }
        let semis_abs: i32 = if semitones < 0 {
            -(semitones as i32)
        } else {
            semitones as i32
        };
        let dc: u8 = (degree - 1) % 7;
        let octs: u8 = (degree - 1) / 7;
        let expected: i32 = match dc {
            0 => 0,
            1 => 2,
            2 => 4,
            3 => 5,
            4 => 7,
            5 => 9,
            _ => 11,
        } + 12 * (octs as i32);
        let diff: i32 = semis_abs - expected;
        let perfect = dc == 0 || dc == 3 || dc == 4;
        let quality: Quality = if perfect {
            if diff == 0 {
                Quality::Perfect
            } else if diff == 1 {
                Quality::Augmented
            } else if diff == -1 {
                Quality::Diminished
            } else {
                return Err(TheoryError::UnrecognizedInterval);
            }
        } else {
            if diff == 0 {
                Quality::Major
            } else if diff == -1 {
                Quality::Minor
            } else if diff == 1 {
                Quality::Augmented
            } else if diff == -2 {
                Quality::Diminished
            } else {
                return Err(TheoryError::UnrecognizedInterval);
            }
        };
        Ok(Interval { degree, semitones, quality })
    }

    /// What addition of two intervals yields: semitone counts add directly,
    /// and degree counts add modulo the seven-letter cycle with carry into the
    /// octave count, the sum respelled through the table.
    pub open spec fn add_spec(self, other: Interval) -> Result<Interval, TheoryError> {
        Interval::new_spec(
            (self.degree - 1) + (other.degree - 1) + 1,
            self.semitones + other.semitones,
        )
    }

    /// Adds two intervals; a sum outside the diatonic table is unrecognized.
    pub fn add(self, other: Interval) -> (r: Result<Interval, TheoryError>)
        requires
            self.wf(),
            other.wf(),
        ensures
            r == self.add_spec(other),
            r matches Ok(i) ==> i.wf(),
    {
        let degree: u8 = (self.degree - 1) + (other.degree - 1) + 1;
        let semitones: i16 = self.semitones + other.semitones;
        Interval::new(degree, semitones)
    }

    /// What subtraction of two intervals yields: semitone counts subtract
    /// directly and degree counts subtract; a difference below a unison or
    /// outside the table is unrecognized.
    pub open spec fn sub_spec(self, other: Interval) -> Result<Interval, TheoryError> {
        if (self.degree - 1) - (other.degree - 1) < 0 {
            Err(TheoryError::UnrecognizedInterval)
        } else {
            Interval::new_spec(
                (self.degree - 1) - (other.degree - 1) + 1,
                self.semitones - other.semitones,
            )
        }
    }

    /// Subtracts one interval from another.
    pub fn sub(self, other: Interval) -> (r: Result<Interval, TheoryError>)
        requires
            self.wf(),
            other.wf(),
        ensures
            r == self.sub_spec(other),
            r matches Ok(i) ==> i.wf(),
    {
        if other.degree > self.degree {
            return Err(TheoryError::UnrecognizedInterval);
        }
        let degree: u8 = self.degree - other.degree + 1;
        let semitones: i16 = self.semitones - other.semitones;
        Interval::new(degree, semitones)
    }

    /// What construction from two spelled pitches yields: the ascending
    /// interval from `a` to `b` within one octave, whose degree is the letter
    /// distance and whose semitone count is the class distance.
    pub open spec fn between_pitches_spec(a: Pitch, b: Pitch) -> Result<Interval, TheoryError> {
        Interval::new_spec(
            (b.natural.ordinal() - a.natural.ordinal()) % 7 + 1,
            (b.class_spec() - a.class_spec()) % 12,
        )
    }

    /// The ascending interval from `a` to `b` within one octave. The degree
    /// comes from the letters alone and the semitone count from the classes;
    /// a pair the diatonic table cannot spell is unrecognized.
    #[verifier::rlimit(30)]
    pub fn between_pitches(a: Pitch, b: Pitch) -> (r: Result<Interval, TheoryError>)
        ensures
            r == Interval::between_pitches_spec(a, b),
            r matches Ok(i) ==> i.wf(),
    {
        let steps: u8 = (b.natural.to_index() + 7 - a.natural.to_index()) % 7;
        let semis: u8 = (b.class() + 12 - a.class()) % 12;
        proof {
            vstd::arithmetic::div_mod::lemma_mod_multiples_vanish(
                1,
                b.natural.ordinal() - a.natural.ordinal(),
                7,
            );
            vstd::arithmetic::div_mod::lemma_mod_multiples_vanish(
                1,
                b.class_spec() - a.class_spec(),
                12,
            );
            assert(steps as int == (b.natural.ordinal() - a.natural.ordinal()) % 7);
            assert(semis as int == (b.class_spec() - a.class_spec()) % 12);
        }
        Interval::new(steps + 1, semis as i16)
    }

    /// The perfect unison.
    pub fn unison() -> (r: Interval)
        ensures
            r == (Interval { degree: 1, semitones: 0, quality: Quality::Perfect }),
            r.wf(),
    {
        Interval { degree: 1, semitones: 0, quality: Quality::Perfect }
    }

    /// The minor second: one semitone, one letter step.
    pub fn minor_second() -> (r: Interval)
        ensures
            r == (Interval { degree: 2, semitones: 1, quality: Quality::Minor }),
            r.wf(),
    {
        Interval { degree: 2, semitones: 1, quality: Quality::Minor }
    }

    /// The major second: two semitones, one letter step.
    pub fn major_second() -> (r: Interval)
        ensures
            r == (Interval { degree: 2, semitones: 2, quality: Quality::Major }),
            r.wf(),
    {
        Interval { degree: 2, semitones: 2, quality: Quality::Major }
    }

    /// The minor third.
    pub fn minor_third() -> (r: Interval)
        ensures
            r == (Interval { degree: 3, semitones: 3, quality: Quality::Minor }),
            r.wf(),
    {
        Interval { degree: 3, semitones: 3, quality: Quality::Minor }
    }

    /// The major third.
    pub fn major_third() -> (r: Interval)
        ensures
            r == (Interval { degree: 3, semitones: 4, quality: Quality::Major }),
            r.wf(),
    {
        Interval { degree: 3, semitones: 4, quality: Quality::Major }
    }

    /// The perfect fourth.
    pub fn perfect_fourth() -> (r: Interval)
        ensures
            r == (Interval { degree: 4, semitones: 5, quality: Quality::Perfect }),
            r.wf(),
    {
        Interval { degree: 4, semitones: 5, quality: Quality::Perfect }
    }

    /// The perfect fifth.
    pub fn perfect_fifth() -> (r: Interval)
        ensures
            r == (Interval { degree: 5, semitones: 7, quality: Quality::Perfect }),
            r.wf(),
    {
        Interval { degree: 5, semitones: 7, quality: Quality::Perfect }
    }

    /// The minor sixth.
    pub fn minor_sixth() -> (r: Interval)
        ensures
            r == (Interval { degree: 6, semitones: 8, quality: Quality::Minor }),
            r.wf(),
    {
        Interval { degree: 6, semitones: 8, quality: Quality::Minor }
    }

    /// The major sixth.
    pub fn major_sixth() -> (r: Interval)
        ensures
            r == (Interval { degree: 6, semitones: 9, quality: Quality::Major }),
            r.wf(),
    {
        Interval { degree: 6, semitones: 9, quality: Quality::Major }
    }

    /// The minor seventh.
    pub fn minor_seventh() -> (r: Interval)
        ensures
            r == (Interval { degree: 7, semitones: 10, quality: Quality::Minor }),
            r.wf(),
    {
        Interval { degree: 7, semitones: 10, quality: Quality::Minor }
    }

    /// The major seventh.
    pub fn major_seventh() -> (r: Interval)
        ensures
            r == (Interval { degree: 7, semitones: 11, quality: Quality::Major }),
            r.wf(),
    {
        Interval { degree: 7, semitones: 11, quality: Quality::Major }
    }

    /// The perfect octave.
    pub fn octave() -> (r: Interval)
        ensures
            r == (Interval { degree: 8, semitones: 12, quality: Quality::Perfect }),
            r.wf(),
    {
        Interval { degree: 8, semitones: 12, quality: Quality::Perfect }
    }
}

} // verus!
