use vstd::prelude::*;

use crate::error::TheoryError;
use crate::natural::Natural;

verus! {

/// An accidental: how far a spelling is raised or lowered from its letter,
/// between two semitones down (double flat) and two up (double sharp).
#[derive(Clone, Copy, Debug, PartialEq, Eq, Structural)]
pub enum Accidental {
    DoubleFlat,
    Flat,
    Natural,
    Sharp,
    DoubleSharp,
}

impl Accidental {
    /// The signed semitone offset the accidental applies to its letter.
    pub open spec fn offset(self) -> int {
        match self {
            Accidental::DoubleFlat => -2,
            Accidental::Flat => -1,
            Accidental::Natural => 0,
            Accidental::Sharp => 1,
            Accidental::DoubleSharp => 2,
        }
    }

    /// The characters the accidental displays as.
    pub open spec fn symbol_seq(self) -> Seq<char> {
        match self {
            Accidental::DoubleFlat => seq!['b', 'b'],
            Accidental::Flat => seq!['b'],
            Accidental::Natural => Seq::<char>::empty(),
            Accidental::Sharp => seq!['#'],
            Accidental::DoubleSharp => seq!['#', '#'],
        }
    }

    /// The accidental standing for a semitone offset within two of the letter.
    pub open spec fn from_offset_spec(offset: int) -> Accidental {
        if offset == -2 {
            Accidental::DoubleFlat
        } else if offset == -1 {
            Accidental::Flat
        } else if offset == 0 {
            Accidental::Natural
        } else if offset == 1 {
            Accidental::Sharp
        } else {
            Accidental::DoubleSharp
        }
    }

    /// The offset as a machine integer.
    pub fn to_offset(self) -> (o: i8)
        ensures
            o as int == self.offset(),
    {
        match self {
            Accidental::DoubleFlat => -2,
            Accidental::Flat => -1,
            Accidental::Natural => 0,
            Accidental::Sharp => 1,
            Accidental::DoubleSharp => 2,
        }
    }

    /// The accidental for an offset in `-2..=2`.
    pub fn from_offset(offset: i8) -> (r: Result<Accidental, TheoryError>)
        ensures
            -2 <= offset <= 2 ==> r == Ok::<Accidental, TheoryError>(
                Accidental::from_offset_spec(offset as int),
            ),
            !(-2 <= offset <= 2) ==> r == Err::<Accidental, TheoryError>(
                TheoryError::InvalidAccidentalCombination,
            ),
    {
        match offset {
            -2 => Ok(Accidental::DoubleFlat),
            -1 => Ok(Accidental::Flat),
            0 => Ok(Accidental::Natural),
            1 => Ok(Accidental::Sharp),
            2 => Ok(Accidental::DoubleSharp),
            _ => Err(TheoryError::InvalidAccidentalCombination),
        }
    }
}

/// A pitch class with its spelling: a letter plus an accidental. The spelling
/// is preserved even when the semitone class is shared with another spelling
/// (enharmonic equivalence).
#[derive(Clone, Copy, Debug, PartialEq, Eq, Structural)]
pub struct Pitch {
    pub natural: Natural,
    pub accidental: Accidental,
}

impl Pitch {
    /// The semitone class of a bare letter, with C at zero as MIDI numbering has it.
    pub open spec fn base_semitone(n: Natural) -> int {
        match n {
            Natural::C => 0,
            Natural::D => 2,
            Natural::E => 4,
            Natural::F => 5,
            Natural::G => 7,
            Natural::A => 9,
            Natural::B => 11,
        }
    }

    /// The canonical semitone class in `0..12`: the letter's base plus the
    /// accidental's offset, wrapped into one octave.
    pub open spec fn class_spec(self) -> int {
        let x = Pitch::base_semitone(self.natural) + self.accidental.offset();
        if x < 0 {
            x + 12
        } else if x >= 12 {
            x - 12
        } else {
            x
        }
    }

    /// The characters the pitch displays as: the letter, then the accidental.
    pub open spec fn display_spec(self) -> Seq<char> {
        seq![self.natural.char_spec()] + self.accidental.symbol_seq()
    }

    pub fn new(natural: Natural, accidental: Accidental) -> (r: Pitch)
        ensures
            r == (Pitch { natural, accidental }),
    {
        Pitch { natural, accidental }
    }

    /// The plain spelling of a letter, with no accidental.
    pub fn from_natural(natural: Natural) -> (r: Pitch)
        ensures
            r == (Pitch { natural, accidental: Accidental::Natural }),
    {
        Pitch { natural, accidental: Accidental::Natural }
    }

    /// Construction from a letter and a raw semitone offset; offsets beyond
    /// two semitones either way have no accidental and are rejected.
    pub fn from_offset(natural: Natural, offset: i8) -> (r: Result<Pitch, TheoryError>)
        ensures
            -2 <= offset <= 2 ==> r == Ok::<Pitch, TheoryError>(
                Pitch { natural, accidental: Accidental::from_offset_spec(offset as int) },
            ),
            !(-2 <= offset <= 2) ==> r == Err::<Pitch, TheoryError>(
                TheoryError::InvalidAccidentalCombination,
            ),
    {
        match Accidental::from_offset(offset) {
            Ok(accidental) => Ok(Pitch { natural, accidental }),
            Err(e) => Err(e),
        }
    }

    /// The canonical semitone class `0..12` that every downstream numeric
    /// computation uses.
    pub fn class(&self) -> (c: u8)
        ensures
            c as int == self.class_spec(),
            c < 12,
    {
        let base: i8 = match self.natural {
            Natural::C => 0,
            Natural::D => 2,
            Natural::E => 4,
            Natural::F => 5,
            Natural::G => 7,
            Natural::A => 9,
            Natural::B => 11,
        };
        let x: i8 = base + self.accidental.to_offset();
        if x < 0 {
            (x + 12) as u8
        } else if x >= 12 {
            (x - 12) as u8
        } else {
            x as u8
        }
    }

    /// Numeric equality: whether two spellings share one semitone class.
    /// Distinct from `==`, which compares the spellings themselves.
    pub fn is_enharmonic(&self, other: &Pitch) -> (b: bool)
        ensures
            b == (self.class_spec() == other.class_spec()),
    {
        self.class() == other.class()
    }

    /// What parsing a spelling yields: exactly the inverse of the display
    /// grammar. Empty input and a first character outside the letters are
    /// reported as such; anything but a recognized accidental tail is an
    /// invalid combination.
    pub open spec fn parse_spec(s: Seq<char>) -> Result<Pitch, TheoryError> {
        if s.len() == 0 {
            Err(TheoryError::EmptyInput)
        } else if !Natural::is_letter_char(s[0]) {
            Err(TheoryError::InvalidLetter(s[0]))
        } else {
            let natural = Natural::of_char_spec(s[0]);
            if s.len() == 1 {
                Ok(Pitch { natural, accidental: Accidental::Natural })
            } else if s.len() == 2 && s[1] == '#' {
                Ok(Pitch { natural, accidental: Accidental::Sharp })
            } else if s.len() == 2 && s[1] == 'b' {
                Ok(Pitch { natural, accidental: Accidental::Flat })
            } else if s.len() == 3 && s[1] == '#' && s[2] == '#' {
                Ok(Pitch { natural, accidental: Accidental::DoubleSharp })
            } else if s.len() == 3 && s[1] == 'b' && s[2] == 'b' {
                Ok(Pitch { natural, accidental: Accidental::DoubleFlat })
            } else {
                Err(TheoryError::InvalidAccidentalCombination)
            }
        }
    }

    /// Parses a spelling such as `C`, `Eb` or `F##`: exactly the inverse of
    /// `to_string`, failing on any other input.
    pub fn from_str(s: &str) -> (r: Result<Pitch, TheoryError>)
        ensures
            r == Pitch::parse_spec(s@),
    {
        let len = s.unicode_len();
        if len == 0 {
            return Err(TheoryError::EmptyInput);
        }
        let c0 = s.get_char(0);
        let natural = match Natural::try_from(c0) {
            Ok(n) => n,
            Err(c) => {
                return Err(TheoryError::InvalidLetter(c));
            },
        };
        if len == 1 {
            return Ok(Pitch { natural, accidental: Accidental::Natural });
        }
        let c1 = s.get_char(1);
        if len == 2 {
            if c1 == '#' {
                Ok(Pitch { natural, accidental: Accidental::Sharp })
            } else if c1 == 'b' {
                Ok(Pitch { natural, accidental: Accidental::Flat })
            } else {
                Err(TheoryError::InvalidAccidentalCombination)
            }
        } else if len == 3 {
            let c2 = s.get_char(2);
            if c1 == '#' && c2 == '#' {
                Ok(Pitch { natural, accidental: Accidental::DoubleSharp })
            } else if c1 == 'b' && c2 == 'b' {
                Ok(Pitch { natural, accidental: Accidental::DoubleFlat })
            } else {
                Err(TheoryError::InvalidAccidentalCombination)
            }
        } else {
            Err(TheoryError::InvalidAccidentalCombination)
        }
    }

    /// The display form: letter plus accidental symbols, as in `C`, `Eb`, `F##`.
    pub fn to_string(&self) -> (r: String)
        ensures
            r@ == self.display_spec(),
    {
        let mut s = letter_string(self.natural);
        match self.accidental {
            Accidental::DoubleFlat => {
                s.append("bb");
                proof {
                    reveal_strlit("bb");
                    assert(s@ =~= self.display_spec());
                }
            },
            Accidental::Flat => {
                s.append("b");
                proof {
                    reveal_strlit("b");
                    assert(s@ =~= self.display_spec());
                }
            },
            Accidental::Natural => {
                proof {
                    assert(s@ =~= self.display_spec());
                }
            },
            Accidental::Sharp => {
                s.append("#");
                proof {
                    reveal_strlit("#");
                    assert(s@ =~= self.display_spec());
                }
            },
            Accidental::DoubleSharp => {
                s.append("##");
                proof {
                    reveal_strlit("##");
                    assert(s@ =~= self.display_spec());
                }
            },
        }
        s
    }
}

/// Displaying a pitch and parsing the text back yields the same spelling:
/// the parse grammar is exactly the inverse of the display form.
pub proof fn lemma_pitch_display_roundtrip(p: Pitch)
    ensures
        Pitch::parse_spec(p.display_spec()) == Ok::<Pitch, TheoryError>(p),
{
    let s = p.display_spec();
    assert(s[0] == p.natural.char_spec());
    assert(Natural::is_letter_char(s[0]));
    assert(Natural::of_char_spec(s[0]) == p.natural);
    match p.accidental {
        Accidental::Natural => {
            assert(s.len() == 1);
        },
        Accidental::Sharp => {
            assert(s.len() == 2 && s[1] == '#');
        },
        Accidental::Flat => {
            assert(s.len() == 2 && s[1] == 'b');
        },
        Accidental::DoubleSharp => {
            assert(s.len() == 3 && s[1] == '#' && s[2] == '#');
        },
        Accidental::DoubleFlat => {
            assert(s.len() == 3 && s[1] == 'b' && s[2] == 'b');
        },
    }
}

/// A one-character string holding the letter's display character.
fn letter_string(n: Natural) -> (r: String)
    ensures
        r@ == seq![n.char_spec()],
{
    match n {
        Natural::A => {
            let r = String::from_str("A");
            proof {
                reveal_strlit("A");
                assert(r@ =~= seq!['A']);
            }
            r
        },
        Natural::B => {
            let r = String::from_str("B");
            proof {
                reveal_strlit("B");
                assert(r@ =~= seq!['B']);
            }
            r
        },
        Natural::C => {
            let r = String::from_str("C");
            proof {
                reveal_strlit("C");
                assert(r@ =~= seq!['C']);
            }
            r
        },
        Natural::D => {
            let r = String::from_str("D");
            proof {
                reveal_strlit("D");
                assert(r@ =~= seq!['D']);
            }
            r
        },
        Natural::E => {
            let r = String::from_str("E");
            proof {
                reveal_strlit("E");
                assert(r@ =~= seq!['E']);
            }
            r
        },
        Natural::F => {
            let r = String::from_str("F");
            proof {
                reveal_strlit("F");
                assert(r@ =~= seq!['F']);
            }
            r
        },
        Natural::G => {
            let r = String::from_str("G");
            proof {
                reveal_strlit("G");
                assert(r@ =~= seq!['G']);
            }
            r
        },
    }
}

} // verus!
