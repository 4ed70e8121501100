use vstd::prelude::*;

use crate::error::TheoryError;

verus! {

/// One of the seven letter pitch classes, in cyclic order `A..=G`.
#[derive(Clone, Copy, Debug, PartialEq, Eq, Structural)]
pub enum Natural {
    A,
    B,
    C,
    D,
    E,
    F,
    G,
}

impl Natural {
    /// The position of the letter in the cycle: `A` is 0, `G` is 6.
    pub open spec fn ordinal(self) -> int {
        match self {
            Natural::A => 0,
            Natural::B => 1,
            Natural::C => 2,
            Natural::D => 3,
            Natural::E => 4,
            Natural::F => 5,
            Natural::G => 6,
        }
    }

    /// The letter at a given cycle position; positions outside `0..7` map to `G`.
    pub open spec fn from_ordinal(n: int) -> Natural {
        if n == 0 {
            Natural::A
        } else if n == 1 {
            Natural::B
        } else if n == 2 {
            Natural::C
        } else if n == 3 {
            Natural::D
        } else if n == 4 {
            Natural::E
        } else if n == 5 {
            Natural::F
        } else {
            Natural::G
        }
    }

    /// What conversion from a byte yields: the byte reduced into the cycle.
    pub open spec fn from_byte_spec(byte: u8) -> Natural {
        Natural::from_ordinal(byte as int % 7)
    }

    /// The uppercase letter this class displays as.
    pub open spec fn char_spec(self) -> char {
        match self {
            Natural::A => 'A',
            Natural::B => 'B',
            Natural::C => 'C',
            Natural::D => 'D',
            Natural::E => 'E',
            Natural::F => 'F',
            Natural::G => 'G',
        }
    }

    /// Whether a character names a letter class.
    pub open spec fn is_letter_char(c: char) -> bool {
        c == 'A' || c == 'B' || c == 'C' || c == 'D' || c == 'E' || c == 'F' || c == 'G'
    }

    /// The letter class a valid character names.
    pub open spec fn of_char_spec(c: char) -> Natural {
        if c == 'A' {
            Natural::A
        } else if c == 'B' {
            Natural::B
        } else if c == 'C' {
            Natural::C
        } else if c == 'D' {
            Natural::D
        } else if c == 'E' {
            Natural::E
        } else if c == 'F' {
            Natural::F
        } else {
            Natural::G
        }
    }

    /// The cycle position as a machine integer.
    pub fn to_index(self) -> (n: u8)
        ensures
            n == self.ordinal(),
    {
        match self {
            Natural::A => 0,
            Natural::B => 1,
            Natural::C => 2,
            Natural::D => 3,
            Natural::E => 4,
            Natural::F => 5,
            Natural::G => 6,
        }
    }

    /// The letter standing at a cycle position below 7.
    pub fn from_index(n: u8) -> (r: Natural)
        requires
            n < 7,
        ensures
            r == Natural::from_ordinal(n as int),
    {
        match n {
            0 => Natural::A,
            1 => Natural::B,
            2 => Natural::C,
            3 => Natural::D,
            4 => Natural::E,
            5 => Natural::F,
            _ => Natural::G,
        }
    }

    pub fn to_char(self) -> (c: char)
        ensures
            c == self.char_spec(),
    {
        match self {
            Natural::A => 'A',
            Natural::B => 'B',
            Natural::C => 'C',
            Natural::D => 'D',
            Natural::E => 'E',
            Natural::F => 'F',
            Natural::G => 'G',
        }
    }

    /// Accepts exactly the uppercase letters `'A'..='G'`, echoing any other
    /// character back as the error.
    pub fn try_from(value: char) -> (r: Result<Natural, char>)
        ensures
            Natural::is_letter_char(value) ==> r == Ok::<Natural, char>(
                Natural::of_char_spec(value),
            ),
            !Natural::is_letter_char(value) ==> r == Err::<Natural, char>(value),
    {
        match value {
            'A' => Ok(Natural::A),
            'B' => Ok(Natural::B),
            'C' => Ok(Natural::C),
            'D' => Ok(Natural::D),
            'E' => Ok(Natural::E),
            'F' => Ok(Natural::F),
            'G' => Ok(Natural::G),
            _ => Err(value),
        }
    }

    /// Cyclic successor arithmetic: stepping `rhs` letters forward wraps
    /// around the seven-letter cycle as often as needed.
    pub fn add(self, rhs: u8) -> (r: Natural)
        ensures
            r == Natural::from_ordinal((self.ordinal() + rhs) % 7),
    {
        let base: u16 = self.to_index() as u16;
        let step: u16 = rhs as u16;
        let idx: u16 = (base + step) % 7;
        Natural::from_index(idx as u8)
    }

    /// Parses the first character of `s` as a letter class: empty input is
    /// rejected as such, and a first character outside `'A'..='G'` is echoed
    /// in the error.
    pub fn from_str(s: &str) -> (r: Result<Natural, TheoryError>)
        ensures
            s@.len() == 0 ==> r == Err::<Natural, TheoryError>(TheoryError::EmptyInput),
            s@.len() > 0 && Natural::is_letter_char(s@[0]) ==> r == Ok::<Natural, TheoryError>(
                Natural::of_char_spec(s@[0]),
            ),
            s@.len() > 0 && !Natural::is_letter_char(s@[0]) ==> r == Err::<Natural, TheoryError>(
                TheoryError::InvalidLetter(s@[0]),
            ),
    {
        if s.unicode_len() == 0 {
            return Err(TheoryError::EmptyInput);
        }
        let c = s.get_char(0);
        match Natural::try_from(c) {
            Ok(n) => Ok(n),
            Err(bad) => Err(TheoryError::InvalidLetter(bad)),
        }
    }
}

impl From<u8> for Natural {
    /// Total conversion: the byte is reduced modulo the seven-letter cycle by
    /// an explicit table, never by reinterpreting the enumeration's layout.
    fn from(byte: u8) -> (r: Natural) {
        Natural::from_index(byte % 7)
    }
}

impl vstd::std_specs::convert::FromSpecImpl<u8> for Natural {
    open spec fn obeys_from_spec() -> bool {
        true
    }

    open spec fn from_spec(v: u8) -> Natural {
        Natural::from_byte_spec(v)
    }
}

/// Conversion from a byte is cyclically closed: a byte and its remainder
/// modulo seven name the same letter class.
pub proof fn lemma_from_byte_cyclic(b: u8)
    ensures
        Natural::from_byte_spec(b) == Natural::from_byte_spec(b % 7),
{
}

/// Additive inverse closure on the cycle: stepping `k` letters forward and
/// then `7 - (k % 7)` further returns to the letter one started from.
pub proof fn lemma_add_inverse(n: Natural, k: u8)
    ensures
        Natural::from_ordinal(
            (Natural::from_ordinal((n.ordinal() + k) % 7).ordinal() + (7 - (k % 7))) % 7,
        ) == n,
{
    let stepped = Natural::from_ordinal((n.ordinal() + k) % 7);
    assert(stepped.ordinal() == (n.ordinal() + k) % 7);
    assert((stepped.ordinal() + (7 - (k % 7))) % 7 == n.ordinal()) by {
        assert((n.ordinal() + k) % 7 == (n.ordinal() + (k % 7)) % 7) by (nonlinear_arith);
        assert(((n.ordinal() + (k % 7)) % 7 + (7 - (k % 7))) % 7 == (n.ordinal() + (k % 7) + (7
            - (k % 7))) % 7) by (nonlinear_arith);
        assert((n.ordinal() + 7) % 7 == n.ordinal() % 7) by (nonlinear_arith);
        assert(n.ordinal() % 7 == n.ordinal());
    }
    assert(Natural::from_ordinal(n.ordinal()) == n);
}

} // verus!
