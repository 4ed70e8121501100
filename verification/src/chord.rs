use vstd::prelude::*;

use crate::error::TheoryError;
use crate::midi::MidiNote;
use crate::natural::Natural;
use crate::pitch::Accidental;
use crate::pitch::Pitch;

verus! {

/// The recognized chord qualities. A note set matching none of the known
/// interval patterns is `Unidentified`: not an error, since a chord must
/// always be printable and iterable whatever notes it holds.
#[derive(Clone, Copy, Debug, PartialEq, Eq, Structural)]
pub enum ChordQuality {
    Major,
    Minor,
    Diminished,
    Augmented,
    Dominant7,
    Major7,
    Minor7,
    HalfDiminished7,
    Diminished7,
    Unidentified,
}

impl ChordQuality {
    /// The semitone offsets from the root, within one octave, that a
    /// recognized quality names; `Unidentified` names none.
    pub open spec fn offsets_spec(self) -> Option<Seq<int>> {
        match self {
            ChordQuality::Major => Some(seq![0, 4, 7]),
            ChordQuality::Minor => Some(seq![0, 3, 7]),
            ChordQuality::Diminished => Some(seq![0, 3, 6]),
            ChordQuality::Augmented => Some(seq![0, 4, 8]),
            ChordQuality::Dominant7 => Some(seq![0, 4, 7, 10]),
            ChordQuality::Major7 => Some(seq![0, 4, 7, 11]),
            ChordQuality::Minor7 => Some(seq![0, 3, 7, 10]),
            ChordQuality::HalfDiminished7 => Some(seq![0, 3, 6, 10]),
            ChordQuality::Diminished7 => Some(seq![0, 3, 6, 9]),
            ChordQuality::Unidentified => None,
        }
    }

    /// The semitone offsets of a recognized quality as machine integers.
    pub fn class_offsets(self) -> (r: Option<Vec<u8>>)
        ensures
            match r {
                Some(v) => {
                    &&& self.offsets_spec() matches Some(s)
                    &&& v@.len() == s.len()
                    &&& forall|i: int| 0 <= i < s.len() ==> v@[i] as int == s[i]
                    &&& forall|i: int| 0 <= i < v@.len() ==> v@[i] < 12
                },
                None => self.offsets_spec() is None,
            },
    {
        let mut v: Vec<u8> = Vec::new();
        match self {
            ChordQuality::Major => {
                v.push(0);
                v.push(4);
                v.push(7);
            },
            ChordQuality::Minor => {
                v.push(0);
                v.push(3);
                v.push(7);
            },
            ChordQuality::Diminished => {
                v.push(0);
                v.push(3);
                v.push(6);
            },
            ChordQuality::Augmented => {
                v.push(0);
                v.push(4);
                v.push(8);
            },
            ChordQuality::Dominant7 => {
                v.push(0);
                v.push(4);
                v.push(7);
                v.push(10);
            },
            ChordQuality::Major7 => {
                v.push(0);
                v.push(4);
                v.push(7);
                v.push(11);
            },
            ChordQuality::Minor7 => {
                v.push(0);
                v.push(3);
                v.push(7);
                v.push(10);
            },
            ChordQuality::HalfDiminished7 => {
                v.push(0);
                v.push(3);
                v.push(6);
                v.push(10);
            },
            ChordQuality::Diminished7 => {
                v.push(0);
                v.push(3);
                v.push(6);
                v.push(9);
            },
            ChordQuality::Unidentified => {
                return None;
            },
        }
        Some(v)
    }

    /// The characters the quality appends to the root symbol. An
    /// unidentified chord is marked `?`, since it has no standard name.
    pub open spec fn suffix_seq(self) -> Seq<char> {
        match self {
            ChordQuality::Major => Seq::<char>::empty(),
            ChordQuality::Minor => seq!['m'],
            ChordQuality::Diminished => seq!['d', 'i', 'm'],
            ChordQuality::Augmented => seq!['a', 'u', 'g'],
            ChordQuality::Dominant7 => seq!['7'],
            ChordQuality::Major7 => seq!['m', 'a', 'j', '7'],
            ChordQuality::Minor7 => seq!['m', '7'],
            ChordQuality::HalfDiminished7 => seq!['m', '7', 'b', '5'],
            ChordQuality::Diminished7 => seq!['d', 'i', 'm', '7'],
            ChordQuality::Unidentified => seq!['?'],
        }
    }
}

/// Whether a character can spell an accidental after a letter.
pub open spec fn is_accidental_char(c: char) -> bool {
    c == '#' || c == 'b'
}

/// The length of the leading accidental run of a spelling tail: up to two of
/// the same accidental character.
pub open spec fn acc_run_spec(s: Seq<char>) -> int {
    if s.len() >= 2 && is_accidental_char(s[0]) && s[1] == s[0] {
        2
    } else if s.len() >= 1 && is_accidental_char(s[0]) {
        1
    } else {
        0
    }
}

/// The position of the first `/` in a sequence, or its length when none
/// occurs.
pub open spec fn first_slash(s: Seq<char>) -> int
    decreases s.len(),
{
    if s.len() == 0 {
        0
    } else if s[0] == '/' {
        0
    } else {
        1 + first_slash(s.subrange(1, s.len() as int))
    }
}

/// A position left of which no `/` stands, and which holds one or ends the
/// sequence, is where the first `/` is found.
pub proof fn lemma_first_slash_at(s: Seq<char>, k: int)
    requires
        0 <= k <= s.len(),
        forall|j: int| 0 <= j < k ==> s[j] != '/',
        k < s.len() ==> s[k] == '/',
        k == s.len() ==> (forall|j: int| 0 <= j < s.len() ==> s[j] != '/'),
    ensures
        first_slash(s) == k,
    decreases s.len(),
{
    if s.len() == 0 {
    } else if s[0] == '/' {
        assert(k == 0);
    } else {
        let rest = s.subrange(1, s.len() as int);
        assert(forall|j: int| 0 <= j < rest.len() ==> rest[j] == s[j + 1]);
        lemma_first_slash_at(rest, k - 1);
    }
}

/// The quality a suffix names: exactly the inverse of `suffix_seq`.
pub open spec fn quality_of_suffix(s: Seq<char>) -> Option<ChordQuality> {
    if s.len() == 0 {
        Some(ChordQuality::Major)
    } else if s.len() == 1 && s[0] == 'm' {
        Some(ChordQuality::Minor)
    } else if s.len() == 1 && s[0] == '7' {
        Some(ChordQuality::Dominant7)
    } else if s.len() == 1 && s[0] == '?' {
        Some(ChordQuality::Unidentified)
    } else if s.len() == 2 && s[0] == 'm' && s[1] == '7' {
        Some(ChordQuality::Minor7)
    } else if s.len() == 3 && s[0] == 'd' && s[1] == 'i' && s[2] == 'm' {
        Some(ChordQuality::Diminished)
    } else if s.len() == 3 && s[0] == 'a' && s[1] == 'u' && s[2] == 'g' {
        Some(ChordQuality::Augmented)
    } else if s.len() == 4 && s[0] == 'm' && s[1] == 'a' && s[2] == 'j' && s[3] == '7' {
        Some(ChordQuality::Major7)
    } else if s.len() == 4 && s[0] == 'm' && s[1] == '7' && s[2] == 'b' && s[3] == '5' {
        Some(ChordQuality::HalfDiminished7)
    } else if s.len() == 4 && s[0] == 'd' && s[1] == 'i' && s[2] == 'm' && s[3] == '7' {
        Some(ChordQuality::Diminished7)
    } else {
        None
    }
}

/// A set of simultaneous notes with a distinguished root. The notes keep the
/// order they were supplied in (the voicing); the root need not be the lowest
/// note, which is how inversions are represented.
#[derive(Clone, Debug)]
pub struct Chord {
    pub root: Pitch,
    pub notes: Vec<MidiNote>,
}

impl Chord {
    /// Validity: at least one note, every note valid.
    pub open spec fn wf(self) -> bool {
        &&& self.notes@.len() >= 1
        &&& forall|i: int| 0 <= i < self.notes@.len() ==> self.notes@[i].wf()
    }

    /// The semitone class of a note relative to a root, ignoring octaves.
    pub open spec fn rel_class(root: Pitch, n: MidiNote) -> int {
        (n.pitch.class_spec() - root.class_spec()) % 12
    }

    /// Whether some note of the chord lies `c` semitone classes above the
    /// root.
    pub open spec fn has_class(self, c: int) -> bool {
        exists|i: int|
            0 <= i < self.notes@.len() && #[trigger] Chord::rel_class(self.root, self.notes@[i])
                == c
    }

    /// Classification by the set of classes present relative to the root,
    /// matched against the known triad and seventh patterns; any other set is
    /// `Unidentified`.
    pub open spec fn quality_spec(self) -> ChordQuality {
        let h0 = self.has_class(0);
        let h1 = self.has_class(1);
        let h2 = self.has_class(2);
        let h3 = self.has_class(3);
        let h4 = self.has_class(4);
        let h5 = self.has_class(5);
        let h6 = self.has_class(6);
        let h7 = self.has_class(7);
        let h8 = self.has_class(8);
        let h9 = self.has_class(9);
        let h10 = self.has_class(10);
        let h11 = self.has_class(11);
        if h0 && !h1 && !h2 && !h3 && h4 && !h5 && !h6 && h7 && !h8 && !h9 && !h10 && !h11 {
            ChordQuality::Major
        } else if h0 && !h1 && !h2 && h3 && !h4 && !h5 && !h6 && h7 && !h8 && !h9 && !h10 && !h11 {
            ChordQuality::Minor
        } else if h0 && !h1 && !h2 && h3 && !h4 && !h5 && h6 && !h7 && !h8 && !h9 && !h10 && !h11 {
            ChordQuality::Diminished
        } else if h0 && !h1 && !h2 && !h3 && h4 && !h5 && !h6 && !h7 && h8 && !h9 && !h10 && !h11 {
            ChordQuality::Augmented
        } else if h0 && !h1 && !h2 && !h3 && h4 && !h5 && !h6 && h7 && !h8 && !h9 && h10 && !h11 {
            ChordQuality::Dominant7
        } else if h0 && !h1 && !h2 && !h3 && h4 && !h5 && !h6 && h7 && !h8 && !h9 && !h10 && h11 {
            ChordQuality::Major7
        } else if h0 && !h1 && !h2 && h3 && !h4 && !h5 && !h6 && h7 && !h8 && !h9 && h10 && !h11 {
            ChordQuality::Minor7
        } else if h0 && !h1 && !h2 && h3 && !h4 && !h5 && h6 && !h7 && !h8 && !h9 && h10 && !h11 {
            ChordQuality::HalfDiminished7
        } else if h0 && !h1 && !h2 && h3 && !h4 && !h5 && h6 && !h7 && !h8 && h9 && !h10 && !h11 {
            ChordQuality::Diminished7
        } else {
            ChordQuality::Unidentified
        }
    }

    /// Builds a chord from a root note and the voiced notes, in supplied
    /// order. Only the root's pitch class matters to classification; its
    /// octave is dropped.
    pub fn from_midi(root: MidiNote, notes: Vec<MidiNote>) -> (r: Chord)
        requires
            notes@.len() >= 1,
            forall|i: int| 0 <= i < notes@.len() ==> notes@[i].wf(),
        ensures
            r == (Chord { root: root.pitch, notes }),
            r.wf(),
    {
        Chord { root: root.pitch, notes }
    }

    pub fn root(&self) -> (p: Pitch)
        ensures
            p == self.root,
    {
        self.root
    }

    /// The notes in the order they were supplied.
    pub fn notes(&self) -> (v: &Vec<MidiNote>)
        ensures
            v@ == self.notes@,
    {
        &self.notes
    }

    /// The pitches of the notes, in the order the notes were supplied: the
    /// original voicing order, never re-sorted.
    pub fn pitches(&self) -> (r: Vec<Pitch>)
        ensures
            r@.len() == self.notes@.len(),
            forall|i: int| 0 <= i < r@.len() ==> r@[i] == self.notes@[i].pitch,
    {
        let mut r: Vec<Pitch> = Vec::new();
        let mut i: usize = 0;
        while i < self.notes.len()
            invariant
                0 <= i <= self.notes@.len(),
                r@.len() == i,
                forall|j: int| 0 <= j < i ==> r@[j] == self.notes@[j].pitch,
            decreases self.notes@.len() - i,
        {
            r.push(self.notes[i].pitch);
            i += 1;
        }
        r
    }

    /// What parsing a chord symbol yields: the root spelling, the quality the
    /// suffix names, and the bass spelling after a `/` when one is present.
    /// Exactly the inverse of the display grammar, failing on anything else.
    pub open spec fn parse_symbol_spec(s: Seq<char>) -> Result<
        (Pitch, ChordQuality, Option<Pitch>),
        TheoryError,
    > {
        let k = first_slash(s);
        if k == 0 {
            Err(TheoryError::EmptyInput)
        } else if !Natural::is_letter_char(s[0]) {
            Err(TheoryError::InvalidLetter(s[0]))
        } else {
            let head = s.subrange(0, k);
            let run = acc_run_spec(head.subrange(1, k));
            match Pitch::parse_spec(head.subrange(0, 1 + run)) {
                Err(e) => Err(e),
                Ok(root) => match quality_of_suffix(head.subrange(1 + run, k)) {
                    None => Err(TheoryError::UnrecognizedInterval),
                    Some(quality) => {
                        if k == s.len() {
                            Ok((root, quality, None))
                        } else {
                            match Pitch::parse_spec(s.subrange(k + 1, s.len() as int)) {
                                Ok(bass) => Ok((root, quality, Some(bass))),
                                Err(e) => Err(e),
                            }
                        }
                    },
                },
            }
        }
    }

    /// Parses a chord symbol such as `C`, `Cm7` or `C/E` back into its root,
    /// quality and optional bass: the inverse of `to_string`.
    pub fn from_symbol(s: &str) -> (r: Result<(Pitch, ChordQuality, Option<Pitch>), TheoryError>)
        ensures
            r == Chord::parse_symbol_spec(s@),
    {
        let len = s.unicode_len();
        let mut k: usize = 0;
        while k < len && s.get_char(k) != '/'
            invariant
                len == s@.len(),
                0 <= k <= len,
                forall|j: int| 0 <= j < k ==> s@[j] != '/',
            decreases len - k,
        {
            k += 1;
        }
        proof {
            lemma_first_slash_at(s@, k as int);
        }
        if k == 0 {
            return Err(TheoryError::EmptyInput);
        }
        let head = s.substring_char(0, k);
        let run: usize = if k >= 3 && is_acc(head.get_char(1)) && head.get_char(2) == head.get_char(
            1,
        ) {
            2
        } else if k >= 2 && is_acc(head.get_char(1)) {
            1
        } else {
            0
        };
        proof {
            let tail = head@.subrange(1, k as int);
            assert(tail.len() == k - 1);
            assert(k >= 2 ==> tail[0] == head@[1]);
            assert(k >= 3 ==> tail[1] == head@[2]);
            assert(run as int == acc_run_spec(tail));
        }
        let root = match Pitch::from_str(head.substring_char(0, run + 1)) {
            Ok(p) => p,
            Err(e) => {
                return Err(e);
            },
        };
        let suffix = head.substring_char(run + 1, k);
        let quality = match suffix_quality(suffix) {
            Some(q) => q,
            None => {
                return Err(TheoryError::UnrecognizedInterval);
            },
        };
        if k == len {
            return Ok((root, quality, None));
        }
        match Pitch::from_str(s.substring_char(k + 1, len)) {
            Ok(bass) => Ok((root, quality, Some(bass))),
            Err(e) => Err(e),
        }
    }

    /// Rebuilds a note set from a root and a recognized quality: one note per
    /// named offset, canonically spelled, in the root's octave span. The
    /// result classifies back to the same quality. An unidentified quality
    /// names no offsets and cannot be rebuilt; a root too high for some
    /// offset leaves the MIDI range.
    #[verifier::rlimit(60)]
    pub fn from_parts(root: MidiNote, quality: ChordQuality) -> (r: Result<Chord, TheoryError>)
        requires
            root.wf(),
        ensures
            quality == ChordQuality::Unidentified ==> r == Err::<Chord, TheoryError>(
                TheoryError::UnrecognizedInterval,
            ),
            r matches Ok(c) ==> {
                &&& c.wf()
                &&& c.root == root.pitch
                &&& c.quality_spec() == quality
                &&& c.notes@.len() == quality.offsets_spec()->Some_0.len()
                &&& forall|i: int|
                    0 <= i < c.notes@.len() ==> c.notes@[i].value_spec() == root.value_spec()
                        + quality.offsets_spec()->Some_0[i]
            },
            quality != ChordQuality::Unidentified ==> ((r is Ok) <==> (forall|i: int|
                0 <= i < quality.offsets_spec()->Some_0.len() ==> root.value_spec()
                    + #[trigger] quality.offsets_spec()->Some_0[i] <= 127)),
            r is Err ==> r == Err::<Chord, TheoryError>(TheoryError::UnrecognizedInterval) || r
                == Err::<Chord, TheoryError>(TheoryError::MidiRangeExceeded),
    {
        let offsets: Vec<u8> = match quality.class_offsets() {
            Some(v) => v,
            None => {
                return Err(TheoryError::UnrecognizedInterval);
            },
        };
        let ghost offs = quality.offsets_spec()->Some_0;
        proof {
            assert(quality != ChordQuality::Unidentified);
        }
        let rv: u8 = root.into_byte();
        let mut notes: Vec<MidiNote> = Vec::new();
        let mut i: usize = 0;
        while i < offsets.len()
            invariant
                root.wf(),
                rv as int == root.value_spec(),
                quality != ChordQuality::Unidentified,
                quality.offsets_spec() == Some(offs),
                offsets@.len() == offs.len(),
                forall|j: int| 0 <= j < offs.len() ==> offsets@[j] as int == offs[j],
                forall|j: int| 0 <= j < offs.len() ==> 0 <= #[trigger] offs[j] < 12,
                0 <= i <= offs.len(),
                notes@.len() == i,
                forall|j: int| 0 <= j < i ==> (#[trigger] notes@[j]).wf(),
                forall|j: int|
                    0 <= j < i ==> (#[trigger] notes@[j]).value_spec() == root.value_spec()
                        + offs[j],
                forall|j: int| 0 <= j < i ==> root.value_spec() + #[trigger] offs[j] <= 127,
            decreases offs.len() - i,
        {
            let off: u8 = offsets[i];
            let v: u16 = rv as u16 + off as u16;
            if v > 127 {
                proof {
                    assert(root.value_spec() + quality.offsets_spec()->Some_0[i as int] > 127);
                }
                return Err(TheoryError::MidiRangeExceeded);
            }
            notes.push(MidiNote::from_byte(v as u8));
            i += 1;
        }
        let c = Chord { root: root.pitch, notes };
        proof {
            lemma_rebuilt_class_set(c, root, offs);
            match quality {
                ChordQuality::Major => {
                    assert forall|x: int| 0 <= x < 12 implies (#[trigger] c.has_class(x) <==> (x
                        == 0 || x == 4 || x == 7)) by { lemma_seq3_contains(0, 4, 7, x) }
                },
                ChordQuality::Minor => {
                    assert forall|x: int| 0 <= x < 12 implies (#[trigger] c.has_class(x) <==> (x
                        == 0 || x == 3 || x == 7)) by { lemma_seq3_contains(0, 3, 7, x) }
                },
                ChordQuality::Diminished => {
                    assert forall|x: int| 0 <= x < 12 implies (#[trigger] c.has_class(x) <==> (x
                        == 0 || x == 3 || x == 6)) by { lemma_seq3_contains(0, 3, 6, x) }
                },
                ChordQuality::Augmented => {
                    assert forall|x: int| 0 <= x < 12 implies (#[trigger] c.has_class(x) <==> (x
                        == 0 || x == 4 || x == 8)) by { lemma_seq3_contains(0, 4, 8, x) }
                },
                ChordQuality::Dominant7 => {
                    assert forall|x: int| 0 <= x < 12 implies (#[trigger] c.has_class(x) <==> (x
                        == 0 || x == 4 || x == 7 || x == 10)) by {
                        lemma_seq4_contains(0, 4, 7, 10, x)
                    }
                },
                ChordQuality::Major7 => {
                    assert forall|x: int| 0 <= x < 12 implies (#[trigger] c.has_class(x) <==> (x
                        == 0 || x == 4 || x == 7 || x == 11)) by {
                        lemma_seq4_contains(0, 4, 7, 11, x)
                    }
                },
                ChordQuality::Minor7 => {
                    assert forall|x: int| 0 <= x < 12 implies (#[trigger] c.has_class(x) <==> (x
                        == 0 || x == 3 || x == 7 || x == 10)) by {
                        lemma_seq4_contains(0, 3, 7, 10, x)
                    }
                },
                ChordQuality::HalfDiminished7 => {
                    assert forall|x: int| 0 <= x < 12 implies (#[trigger] c.has_class(x) <==> (x
                        == 0 || x == 3 || x == 6 || x == 10)) by {
                        lemma_seq4_contains(0, 3, 6, 10, x)
                    }
                },
                ChordQuality::Diminished7 => {
                    assert forall|x: int| 0 <= x < 12 implies (#[trigger] c.has_class(x) <==> (x
                        == 0 || x == 3 || x == 6 || x == 9)) by {
                        lemma_seq4_contains(0, 3, 6, 9, x)
                    }
                },
                ChordQuality::Unidentified => (),
            }
            assert(c.quality_spec() == quality);
        }
        Ok(c)
    }

    /// Whether position `i` holds the bass: the first note whose encoded
    /// value is lowest.
    pub open spec fn is_bass_at(self, i: int) -> bool {
        &&& 0 <= i < self.notes@.len()
        &&& forall|j: int|
            0 <= j < self.notes@.len() ==> #[trigger] self.notes@[j].value_spec()
                >= self.notes@[i].value_spec()
        &&& forall|j: int|
            0 <= j < i ==> #[trigger] self.notes@[j].value_spec() > self.notes@[i].value_spec()
    }

    /// The position of the bass note.
    pub open spec fn bass_idx(self) -> int {
        choose|i: int| self.is_bass_at(i)
    }

    /// The bass: the lowest-sounding note, ties resolved to the earliest.
    pub open spec fn bass_spec(self) -> MidiNote {
        self.notes@[self.bass_idx()]
    }

    /// Whether the chord is voiced as an inversion: the bass differs from the
    /// root by pitch class (octaves ignored, enharmonic spellings equal).
    pub open spec fn is_inversion_spec(self) -> bool {
        self.bass_spec().pitch.class_spec() != self.root.class_spec()
    }

    /// The lowest-sounding note, which determines the inversion label. Among
    /// equal-valued notes the earliest supplied one is the bass.
    pub fn bass(&self) -> (b: MidiNote)
        requires
            self.wf(),
        ensures
            b == self.bass_spec(),
            self.is_bass_at(self.bass_idx()),
    {
        let mut best: MidiNote = self.notes[0];
        let mut best_i: usize = 0;
        let mut i: usize = 1;
        while i < self.notes.len()
            invariant
                self.wf(),
                0 <= best_i < i <= self.notes@.len(),
                best == self.notes@[best_i as int],
                forall|j: int|
                    0 <= j < i ==> #[trigger] self.notes@[j].value_spec() >= best.value_spec(),
                forall|j: int|
                    0 <= j < best_i ==> #[trigger] self.notes@[j].value_spec() > best.value_spec(),
            decreases self.notes@.len() - i,
        {
            let n = self.notes[i];
            if n.into_byte() < best.into_byte() {
                best = n;
                best_i = i;
            }
            i += 1;
        }
        proof {
            assert(self.is_bass_at(best_i as int));
            lemma_bass_at_unique(*self, best_i as int, self.bass_idx());
        }
        best
    }

    /// Whether the chord is an inversion: the bass and the root lie in
    /// different pitch classes.
    pub fn is_inversion(&self) -> (b: bool)
        requires
            self.wf(),
        ensures
            b == self.is_inversion_spec(),
    {
        let bass = self.bass();
        bass.pitch.class() != self.root.class()
    }

    /// The displayed symbol: the root's spelling, then the quality's suffix,
    /// then `/` and the bass pitch when the chord is an inversion.
    pub open spec fn display_spec(self) -> Seq<char> {
        let sym = self.root.display_spec() + self.quality_spec().suffix_seq();
        if self.is_inversion_spec() {
            sym + seq!['/'] + self.bass_spec().pitch.display_spec()
        } else {
            sym
        }
    }

    /// The standard symbol of the chord, a pure function of the root, the
    /// derived quality and the bass, as in `C`, `Cm7`, `C/E`.
    pub fn to_string(&self) -> (r: String)
        requires
            self.wf(),
        ensures
            r@ == self.display_spec(),
    {
        let mut s = self.root.to_string();
        let q = self.quality();
        match q {
            ChordQuality::Major => {},
            ChordQuality::Minor => {
                s.append("m");
                proof {
                    reveal_strlit("m");
                }
            },
            ChordQuality::Diminished => {
                s.append("dim");
                proof {
                    reveal_strlit("dim");
                }
            },
            ChordQuality::Augmented => {
                s.append("aug");
                proof {
                    reveal_strlit("aug");
                }
            },
            ChordQuality::Dominant7 => {
                s.append("7");
                proof {
                    reveal_strlit("7");
                }
            },
            ChordQuality::Major7 => {
                s.append("maj7");
                proof {
                    reveal_strlit("maj7");
                }
            },
            ChordQuality::Minor7 => {
                s.append("m7");
                proof {
                    reveal_strlit("m7");
                }
            },
            ChordQuality::HalfDiminished7 => {
                s.append("m7b5");
                proof {
                    reveal_strlit("m7b5");
                }
            },
            ChordQuality::Diminished7 => {
                s.append("dim7");
                proof {
                    reveal_strlit("dim7");
                }
            },
            ChordQuality::Unidentified => {
                s.append("?");
                proof {
                    reveal_strlit("?");
                }
            },
        }
        proof {
            assert(s@ =~= self.root.display_spec() + self.quality_spec().suffix_seq());
        }
        let bass = self.bass();
        if bass.pitch.class() != self.root.class() {
            s.append("/");
            let bs = bass.pitch.to_string();
            s.append(bs.as_str());
            proof {
                reveal_strlit("/");
                assert(s@ =~= self.display_spec());
            }
        }
        s
    }

    /// The characters of the raw note listing: the pitches in voicing order,
    /// separated by spaces.
    pub open spec fn pitches_display_spec(notes: Seq<MidiNote>) -> Seq<char>
        decreases notes.len(),
    {
        if notes.len() == 0 {
            Seq::<char>::empty()
        } else if notes.len() == 1 {
            notes[0].pitch.display_spec()
        } else {
            Chord::pitches_display_spec(notes.drop_last()) + seq![' ']
                + notes.last().pitch.display_spec()
        }
    }

    /// The raw notes as text, in the order they were supplied: how a chord
    /// with no recognized name can still be shown.
    pub fn notes_string(&self) -> (r: String)
        requires
            self.wf(),
        ensures
            r@ == Chord::pitches_display_spec(self.notes@),
    {
        let mut s = self.notes[0].pitch.to_string();
        proof {
            assert(self.notes@.subrange(0, 1) =~= seq![self.notes@[0]]);
            assert(s@ == Chord::pitches_display_spec(self.notes@.subrange(0, 1)));
        }
        let mut i: usize = 1;
        while i < self.notes.len()
            invariant
                self.wf(),
                1 <= i <= self.notes@.len(),
                s@ == Chord::pitches_display_spec(self.notes@.subrange(0, i as int)),
            decreases self.notes@.len() - i,
        {
            s.append(" ");
            let ps = self.notes[i].pitch.to_string();
            s.append(ps.as_str());
            proof {
                reveal_strlit(" ");
                let upto = self.notes@.subrange(0, i + 1);
                assert(upto.drop_last() =~= self.notes@.subrange(0, i as int));
                assert(upto.last() == self.notes@[i as int]);
                assert(s@ == Chord::pitches_display_spec(upto));
            }
            i += 1;
        }
        proof {
            assert(self.notes@.subrange(0, self.notes@.len() as int) =~= self.notes@);
        }
        s
    }

    /// Derives the quality from the interval of every note to the root,
    /// modulo the octave.
    pub fn quality(&self) -> (q: ChordQuality)
        requires
            self.wf(),
        ensures
            q == self.quality_spec(),
    {
        let rc: u8 = self.root.class();
        let mut flags: Vec<bool> = Vec::new();
        let mut c: usize = 0;
        while c < 12
            invariant
                flags@.len() == c,
                c <= 12,
                forall|j: int| 0 <= j < c ==> !flags@[j],
            decreases 12 - c,
        {
            flags.push(false);
            c += 1;
        }
        let mut idx: usize = 0;
        while idx < self.notes.len()
            invariant
                self.wf(),
                rc as int == self.root.class_spec(),
                0 <= idx <= self.notes@.len(),
                flags@.len() == 12,
                forall|c2: int|
                    0 <= c2 < 12 ==> #[trigger] flags@[c2] == exists|i: int|
                        0 <= i < idx && Chord::rel_class(self.root, self.notes@[i]) == c2,
            decreases self.notes@.len() - idx,
        {
            let n = self.notes[idx];
            let cl: u8 = (n.pitch.class() + 12 - rc) % 12;
            proof {
                vstd::arithmetic::div_mod::lemma_mod_multiples_vanish(
                    1,
                    n.pitch.class_spec() - self.root.class_spec(),
                    12,
                );
                assert(cl as int == Chord::rel_class(self.root, n));
            }
            let ghost old_flags = flags@;
            flags.set(cl as usize, true);
            proof {
                assert forall|c2: int| 0 <= c2 < 12 implies #[trigger] flags@[c2] == exists|i: int|
                    0 <= i < idx + 1 && Chord::rel_class(self.root, self.notes@[i]) == c2 by {
                    if c2 == cl as int {
                        assert(Chord::rel_class(self.root, self.notes@[idx as int]) == c2);
                    } else {
                        assert(flags@[c2] == old_flags[c2]);
                        if exists|i: int|
                            0 <= i < idx + 1 && Chord::rel_class(self.root, self.notes@[i]) == c2 {
                            let i = choose|i: int|
                                0 <= i < idx + 1 && Chord::rel_class(self.root, self.notes@[i])
                                    == c2;
                            assert(i < idx);
                        }
                    }
                }
            }
            idx += 1;
        }
        let h0 = flags[0];
        let h1 = flags[1];
        let h2 = flags[2];
        let h3 = flags[3];
        let h4 = flags[4];
        let h5 = flags[5];
        let h6 = flags[6];
        let h7 = flags[7];
        let h8 = flags[8];
        let h9 = flags[9];
        let h10 = flags[10];
        let h11 = flags[11];
        if h0 && !h1 && !h2 && !h3 && h4 && !h5 && !h6 && h7 && !h8 && !h9 && !h10 && !h11 {
            ChordQuality::Major
        } else if h0 && !h1 && !h2 && h3 && !h4 && !h5 && !h6 && h7 && !h8 && !h9 && !h10 && !h11 {
            ChordQuality::Minor
        } else if h0 && !h1 && !h2 && h3 && !h4 && !h5 && h6 && !h7 && !h8 && !h9 && !h10 && !h11 {
            ChordQuality::Diminished
        } else if h0 && !h1 && !h2 && !h3 && h4 && !h5 && !h6 && !h7 && h8 && !h9 && !h10 && !h11 {
            ChordQuality::Augmented
        } else if h0 && !h1 && !h2 && !h3 && h4 && !h5 && !h6 && h7 && !h8 && !h9 && h10 && !h11 {
            ChordQuality::Dominant7
        } else if h0 && !h1 && !h2 && !h3 && h4 && !h5 && !h6 && h7 && !h8 && !h9 && !h10 && h11 {
            ChordQuality::Major7
        } else if h0 && !h1 && !h2 && h3 && !h4 && !h5 && !h6 && h7 && !h8 && !h9 && h10 && !h11 {
            ChordQuality::Minor7
        } else if h0 && !h1 && !h2 && h3 && !h4 && !h5 && h6 && !h7 && !h8 && !h9 && h10 && !h11 {
            ChordQuality::HalfDiminished7
        } else if h0 && !h1 && !h2 && h3 && !h4 && !h5 && h6 && !h7 && !h8 && h9 && !h10 && !h11 {
            ChordQuality::Diminished7
        } else {
            ChordQuality::Unidentified
        }
    }
}

/// Whether a character spells an accidental.
fn is_acc(c: char) -> (b: bool)
    ensures
        b == is_accidental_char(c),
{
    c == '#' || c == 'b'
}

/// The quality a suffix names, if any: the inverse of the suffix table.
fn suffix_quality(s: &str) -> (r: Option<ChordQuality>)
    ensures
        r == quality_of_suffix(s@),
{
    let len = s.unicode_len();
    if len == 0 {
        return Some(ChordQuality::Major);
    }
    let c0 = s.get_char(0);
    if len == 1 {
        if c0 == 'm' {
            Some(ChordQuality::Minor)
        } else if c0 == '7' {
            Some(ChordQuality::Dominant7)
        } else if c0 == '?' {
            Some(ChordQuality::Unidentified)
        } else {
            None
        }
    } else if len == 2 {
        let c1 = s.get_char(1);
        if c0 == 'm' && c1 == '7' {
            Some(ChordQuality::Minor7)
        } else {
            None
        }
    } else if len == 3 {
        let c1 = s.get_char(1);
        let c2 = s.get_char(2);
        if c0 == 'd' && c1 == 'i' && c2 == 'm' {
            Some(ChordQuality::Diminished)
        } else if c0 == 'a' && c1 == 'u' && c2 == 'g' {
            Some(ChordQuality::Augmented)
        } else {
            None
        }
    } else if len == 4 {
        let c1 = s.get_char(1);
        let c2 = s.get_char(2);
        let c3 = s.get_char(3);
        if c0 == 'm' && c1 == 'a' && c2 == 'j' && c3 == '7' {
            Some(ChordQuality::Major7)
        } else if c0 == 'm' && c1 == '7' && c2 == 'b' && c3 == '5' {
            Some(ChordQuality::HalfDiminished7)
        } else if c0 == 'd' && c1 == 'i' && c2 == 'm' && c3 == '7' {
            Some(ChordQuality::Diminished7)
        } else {
            None
        }
    } else {
        None
    }
}

/// A note's pitch class is its encoded value reduced modulo the octave.
proof fn lemma_class_of_value(m: MidiNote)
    ensures
        m.pitch.class_spec() == m.value_spec() % 12,
{
    vstd::arithmetic::div_mod::lemma_mod_multiples_vanish(
        m.octave.index + 1,
        m.pitch.class_spec(),
        12,
    );
    assert(m.pitch.class_spec() % 12 == m.pitch.class_spec()) by (nonlinear_arith)
        requires
            0 <= m.pitch.class_spec() < 12,
    ;
}

/// A note set built one note per offset above a root shows exactly those
/// offsets as its class set.
proof fn lemma_rebuilt_class_set(c: Chord, root: MidiNote, offs: Seq<int>)
    requires
        c.root == root.pitch,
        c.notes@.len() == offs.len(),
        forall|j: int|
            0 <= j < offs.len() ==> (#[trigger] c.notes@[j]).value_spec() == root.value_spec()
                + offs[j],
        forall|j: int| 0 <= j < offs.len() ==> 0 <= #[trigger] offs[j] < 12,
    ensures
        forall|x: int| 0 <= x < 12 ==> (#[trigger] c.has_class(x) <==> offs.contains(x)),
{
    let rv = root.value_spec();
    lemma_class_of_value(root);
    assert forall|j: int| 0 <= j < offs.len() implies #[trigger] Chord::rel_class(
        c.root,
        c.notes@[j],
    ) == offs[j] by {
        lemma_class_of_value(c.notes@[j]);
        vstd::arithmetic::div_mod::lemma_sub_mod_noop(rv + offs[j], rv, 12);
        assert(offs[j] % 12 == offs[j]) by (nonlinear_arith)
            requires
                0 <= offs[j] < 12,
        ;
    }
    assert forall|x: int| 0 <= x < 12 implies (#[trigger] c.has_class(x) <==> offs.contains(
        x,
    )) by {
        if c.has_class(x) {
            let i = choose|i: int|
                0 <= i < c.notes@.len() && #[trigger] Chord::rel_class(c.root, c.notes@[i]) == x;
            assert(offs[i] == x);
            assert(offs.contains(x));
        }
        if offs.contains(x) {
            let i = choose|i: int| 0 <= i < offs.len() && offs[i] == x;
            assert(Chord::rel_class(c.root, c.notes@[i]) == x);
            assert(c.has_class(x));
        }
    }
}

/// Membership in a three-element sequence is membership among its elements.
proof fn lemma_seq3_contains(a: int, b: int, c: int, x: int)
    ensures
        seq![a, b, c].contains(x) <==> (x == a || x == b || x == c),
{
    let s = seq![a, b, c];
    if x == a || x == b || x == c {
        assert(s[0] == a && s[1] == b && s[2] == c);
        assert(s.contains(x));
    }
}

/// Membership in a four-element sequence is membership among its elements.
proof fn lemma_seq4_contains(a: int, b: int, c: int, d: int, x: int)
    ensures
        seq![a, b, c, d].contains(x) <==> (x == a || x == b || x == c || x == d),
{
    let s = seq![a, b, c, d];
    if x == a || x == b || x == c || x == d {
        assert(s[0] == a && s[1] == b && s[2] == c && s[3] == d);
        assert(s.contains(x));
    }
}

/// The displayed quality of a recognized chord determines its interval
/// structure exactly: the pitch classes present relative to the root are
/// precisely the offsets the quality names, so re-deriving a note set from
/// the displayed symbol reproduces the same class set, octaves aside.
pub proof fn lemma_quality_determines_class_set(c: Chord)
    requires
        c.quality_spec() != ChordQuality::Unidentified,
    ensures
        c.quality_spec().offsets_spec() is Some,
        forall|x: int|
            0 <= x < 12 ==> (#[trigger] c.has_class(x)
                <==> c.quality_spec().offsets_spec()->Some_0.contains(x)),
{
    let q = c.quality_spec();
    let offs = q.offsets_spec()->Some_0;
    assert forall|x: int| 0 <= x < 12 implies (#[trigger] c.has_class(x) <==> offs.contains(
        x,
    )) by {
        match q {
            ChordQuality::Major => lemma_seq3_contains(0, 4, 7, x),
            ChordQuality::Minor => lemma_seq3_contains(0, 3, 7, x),
            ChordQuality::Diminished => lemma_seq3_contains(0, 3, 6, x),
            ChordQuality::Augmented => lemma_seq3_contains(0, 4, 8, x),
            ChordQuality::Dominant7 => lemma_seq4_contains(0, 4, 7, 10, x),
            ChordQuality::Major7 => lemma_seq4_contains(0, 4, 7, 11, x),
            ChordQuality::Minor7 => lemma_seq4_contains(0, 3, 7, 10, x),
            ChordQuality::HalfDiminished7 => lemma_seq4_contains(0, 3, 6, 10, x),
            ChordQuality::Diminished7 => lemma_seq4_contains(0, 3, 6, 9, x),
            ChordQuality::Unidentified => (),
        }
    }
}

/// Classification reads nothing but the class set: two chords showing the
/// same classes relative to their roots classify alike.
pub proof fn lemma_class_set_determines_quality(a: Chord, b: Chord)
    requires
        forall|x: int| 0 <= x < 12 ==> (#[trigger] a.has_class(x) == #[trigger] b.has_class(x)),
    ensures
        a.quality_spec() == b.quality_spec(),
{
}

/// A pitch spelling starts with its letter and holds no `/` and nothing but
/// the letter and accidental characters.
proof fn lemma_pitch_display_shape(p: Pitch)
    ensures
        1 <= p.display_spec().len() <= 3,
        Natural::is_letter_char(p.display_spec()[0]),
        forall|i: int| 0 <= i < p.display_spec().len() ==> p.display_spec()[i] != '/',
{
    let s = p.display_spec();
    assert(s[0] == p.natural.char_spec());
    assert forall|i: int| 0 <= i < s.len() implies s[i] != '/' by {
        if i >= 1 {
            assert(s[i] == p.accidental.symbol_seq()[i - 1]);
        }
    }
}

/// A quality suffix holds no `/` and never starts with an accidental
/// character, so it cannot be mistaken for part of the root's spelling.
proof fn lemma_suffix_shape(q: ChordQuality)
    ensures
        forall|i: int| 0 <= i < q.suffix_seq().len() ==> q.suffix_seq()[i] != '/',
        q.suffix_seq().len() >= 1 ==> !is_accidental_char(q.suffix_seq()[0]),
{
}

/// Every suffix parses back to the quality it displays.
proof fn lemma_suffix_roundtrip(q: ChordQuality)
    ensures
        quality_of_suffix(q.suffix_seq()) == Some(q),
{
}

/// Displaying a chord and parsing the symbol back yields the root spelling,
/// the derived quality, and the bass spelling exactly when the chord is an
/// inversion: the symbol grammar is the inverse of the display form. With
/// the quality's named offsets this re-derives the chord's interval
/// structure, octaves aside.
pub proof fn lemma_symbol_roundtrip(c: Chord)
    requires
        c.wf(),
    ensures
        Chord::parse_symbol_spec(c.display_spec()) == Ok::<
            (Pitch, ChordQuality, Option<Pitch>),
            TheoryError,
        >(
            (
                c.root,
                c.quality_spec(),
                if c.is_inversion_spec() {
                    Some(c.bass_spec().pitch)
                } else {
                    None
                },
            ),
        ),
{
    let s = c.display_spec();
    let q = c.quality_spec();
    let rd = c.root.display_spec();
    let sf = q.suffix_seq();
    let head_len = rd.len() + sf.len() as int;
    lemma_pitch_display_shape(c.root);
    lemma_suffix_shape(q);
    if c.is_inversion_spec() {
        let bd = c.bass_spec().pitch.display_spec();
        lemma_pitch_display_shape(c.bass_spec().pitch);
        assert(s == rd + sf + seq!['/'] + bd);
        assert forall|j: int| 0 <= j < head_len implies s[j] != '/' by {
            if j < rd.len() {
                assert(s[j] == rd[j]);
            } else {
                assert(s[j] == sf[j - rd.len()]);
            }
        }
        assert(s[head_len] == '/');
        lemma_first_slash_at(s, head_len);
    } else {
        assert(s == rd + sf);
        assert forall|j: int| 0 <= j < s.len() implies s[j] != '/' by {
            if j < rd.len() {
                assert(s[j] == rd[j]);
            } else {
                assert(s[j] == sf[j - rd.len()]);
            }
        }
        lemma_first_slash_at(s, s.len() as int);
    }
    let k = first_slash(s);
    assert(k == head_len);
    assert(s[0] == rd[0]);
    let head = s.subrange(0, k);
    assert(head =~= rd + sf);
    let tail = head.subrange(1, k);
    assert(tail =~= rd.subrange(1, rd.len() as int) + sf);
    assert(acc_run_spec(tail) == rd.len() - 1) by {
        match c.root.accidental {
            Accidental::Natural => {
                assert(tail =~= sf);
            },
            Accidental::Sharp => {
                assert(tail[0] == '#');
                if tail.len() >= 2 {
                    assert(tail[1] == sf[0]);
                }
            },
            Accidental::Flat => {
                assert(tail[0] == 'b');
                if tail.len() >= 2 {
                    assert(tail[1] == sf[0]);
                }
            },
            Accidental::DoubleSharp => {
                assert(tail[0] == '#' && tail[1] == '#');
            },
            Accidental::DoubleFlat => {
                assert(tail[0] == 'b' && tail[1] == 'b');
            },
        }
    }
    let run = acc_run_spec(tail);
    assert(head.subrange(0, 1 + run) =~= rd);
    crate::pitch::lemma_pitch_display_roundtrip(c.root);
    assert(head.subrange(1 + run, k) =~= sf);
    lemma_suffix_roundtrip(q);
    if c.is_inversion_spec() {
        let bd = c.bass_spec().pitch.display_spec();
        assert(s.subrange(k + 1, s.len() as int) =~= bd);
        crate::pitch::lemma_pitch_display_roundtrip(c.bass_spec().pitch);
        assert(k != s.len());
    }
}

/// Only one position can hold the bass: a first-lowest position is unique.
pub proof fn lemma_bass_at_unique(c: Chord, i1: int, i2: int)
    requires
        c.is_bass_at(i1),
        c.is_bass_at(i2),
    ensures
        i1 == i2,
{
    if i1 < i2 {
        assert(c.notes@[i1].value_spec() > c.notes@[i2].value_spec());
        assert(c.notes@[i1].value_spec() >= c.notes@[i2].value_spec());
    }
    if i2 < i1 {
        assert(c.notes@[i2].value_spec() > c.notes@[i1].value_spec());
    }
}

} // verus!
