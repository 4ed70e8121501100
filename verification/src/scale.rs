use vstd::prelude::*;

use crate::error::TheoryError;
use crate::interval::Interval;
use crate::interval::Quality;
use crate::midi::MidiNote;

verus! {

/// A generative scale: a root note and an ordered interval formula applied
/// cumulatively. The produced sequence is computed note by note and can be
/// restarted or indexed at will; past the end of the formula it wraps into
/// the next octave, failing only where the MIDI range would be left.
#[derive(Clone, Debug)]
pub struct Scale {
    pub root: MidiNote,
    pub formula: Vec<Interval>,
}

impl Scale {
    /// Validity: a valid root and a nonempty formula of valid intervals.
    pub open spec fn wf(self) -> bool {
        &&& self.root.wf()
        &&& self.formula@.len() >= 1
        &&& forall|i: int| 0 <= i < self.formula@.len() ==> self.formula@[i].wf()
    }

    /// The note the scale produces at position `k`: the root at 0, and each
    /// later note one formula step (cycling through the formula) above its
    /// predecessor. A step that fails carries its error forward.
    pub open spec fn note_spec(self, k: nat) -> Result<MidiNote, TheoryError>
        decreases k,
    {
        if k == 0 {
            Ok(self.root)
        } else {
            match self.note_spec((k - 1) as nat) {
                Ok(m) => m.add_interval_spec(
                    self.formula@[((k - 1) as int) % (self.formula@.len() as int)],
                ),
                Err(e) => Err(e),
            }
        }
    }

    /// Behavioral equality: two scales agree up to `n` when they produce the
    /// same outcome, note or error, at every position below `n`.
    pub open spec fn behaviorally_eq_spec(self, other: Scale, n: nat) -> bool {
        forall|k: nat| k < n ==> self.note_spec(k) == other.note_spec(k)
    }

    /// The whole-step/half-step major formula, as intervals.
    pub open spec fn major_formula_spec() -> Seq<Interval> {
        seq![
            Interval { degree: 2, semitones: 2, quality: Quality::Major },
            Interval { degree: 2, semitones: 2, quality: Quality::Major },
            Interval { degree: 2, semitones: 1, quality: Quality::Minor },
            Interval { degree: 2, semitones: 2, quality: Quality::Major },
            Interval { degree: 2, semitones: 2, quality: Quality::Major },
            Interval { degree: 2, semitones: 2, quality: Quality::Major },
            Interval { degree: 2, semitones: 1, quality: Quality::Minor },
        ]
    }

    /// The natural minor formula, as intervals.
    pub open spec fn natural_minor_formula_spec() -> Seq<Interval> {
        seq![
            Interval { degree: 2, semitones: 2, quality: Quality::Major },
            Interval { degree: 2, semitones: 1, quality: Quality::Minor },
            Interval { degree: 2, semitones: 2, quality: Quality::Major },
            Interval { degree: 2, semitones: 2, quality: Quality::Major },
            Interval { degree: 2, semitones: 1, quality: Quality::Minor },
            Interval { degree: 2, semitones: 2, quality: Quality::Major },
            Interval { degree: 2, semitones: 2, quality: Quality::Major },
        ]
    }

    /// A scale from a root and an arbitrary formula of valid intervals.
    pub fn new(root: MidiNote, formula: Vec<Interval>) -> (r: Scale)
        requires
            root.wf(),
            formula@.len() >= 1,
            forall|i: int| 0 <= i < formula@.len() ==> formula@[i].wf(),
        ensures
            r == (Scale { root, formula }),
            r.wf(),
    {
        Scale { root, formula }
    }

    /// The major scale on a root: whole, whole, half, whole, whole, whole,
    /// half.
    pub fn major(root: MidiNote) -> (r: Scale)
        requires
            root.wf(),
        ensures
            r.root == root,
            r.formula@ == Scale::major_formula_spec(),
            r.wf(),
    {
        let mut formula: Vec<Interval> = Vec::new();
        formula.push(Interval::major_second());
        formula.push(Interval::major_second());
        formula.push(Interval::minor_second());
        formula.push(Interval::major_second());
        formula.push(Interval::major_second());
        formula.push(Interval::major_second());
        formula.push(Interval::minor_second());
        proof {
            assert(formula@ =~= Scale::major_formula_spec());
        }
        Scale { root, formula }
    }

    /// The natural minor scale on a root: whole, half, whole, whole, half,
    /// whole, whole.
    pub fn natural_minor(root: MidiNote) -> (r: Scale)
        requires
            root.wf(),
        ensures
            r.root == root,
            r.formula@ == Scale::natural_minor_formula_spec(),
            r.wf(),
    {
        let mut formula: Vec<Interval> = Vec::new();
        formula.push(Interval::major_second());
        formula.push(Interval::minor_second());
        formula.push(Interval::major_second());
        formula.push(Interval::major_second());
        formula.push(Interval::minor_second());
        formula.push(Interval::major_second());
        formula.push(Interval::major_second());
        proof {
            assert(formula@ =~= Scale::natural_minor_formula_spec());
        }
        Scale { root, formula }
    }

    /// The note at one position of the sequence, computed afresh: the
    /// sequence is restartable because nothing is consumed.
    pub fn nth_note(&self, k: usize) -> (r: Result<MidiNote, TheoryError>)
        requires
            self.wf(),
        ensures
            r == self.note_spec(k as nat),
    {
        let mut cur: MidiNote = self.root;
        let mut i: usize = 0;
        while i < k
            invariant
                self.wf(),
                0 <= i <= k,
                cur.wf(),
                self.note_spec(i as nat) == Ok::<MidiNote, TheoryError>(cur),
            decreases k - i,
        {
            let iv = self.formula[i % self.formula.len()];
            match cur.add_interval(iv) {
                Ok(m) => {
                    cur = m;
                },
                Err(e) => {
                    proof {
                        assert(self.note_spec((i + 1) as nat) == Err::<MidiNote, TheoryError>(e));
                        lemma_error_sticks(*self, (i + 1) as nat, k as nat);
                    }
                    return Err(e);
                },
            }
            i += 1;
        }
        Ok(cur)
    }

    /// The first `count` notes of the sequence, or the first error met while
    /// producing them.
    #[verifier::rlimit(80)]
    pub fn notes(&self, count: usize) -> (r: Result<Vec<MidiNote>, TheoryError>)
        requires
            self.wf(),
        ensures
            r matches Ok(v) ==> v@.len() == count && forall|k: int|
                0 <= k < count ==> self.note_spec(k as nat) == Ok::<MidiNote, TheoryError>(v@[k]),
            r matches Err(e) ==> exists|k: int|
                0 <= k < count && #[trigger] self.note_spec(k as nat) == Err::<
                    MidiNote,
                    TheoryError,
                >(e) && (forall|j: int| 0 <= j < k ==> #[trigger] self.note_spec(j as nat) is Ok),
    {
        let mut v: Vec<MidiNote> = Vec::new();
        if count == 0 {
            return Ok(v);
        }
        let mut cur: MidiNote = self.root;
        v.push(cur);
        let mut i: usize = 1;
        while i < count
            invariant
                self.wf(),
                1 <= i <= count,
                v@.len() == i,
                cur.wf(),
                self.note_spec((i - 1) as nat) == Ok::<MidiNote, TheoryError>(cur),
                forall|k: int|
                    0 <= k < i ==> #[trigger] self.note_spec(k as nat) == Ok::<
                        MidiNote,
                        TheoryError,
                    >(v@[k]),
            decreases count - i,
        {
            let iv = self.formula[(i - 1) % self.formula.len()];
            match cur.add_interval(iv) {
                Ok(m) => {
                    cur = m;
                    v.push(m);
                    proof {
                        assert(self.note_spec(i as nat) == Ok::<MidiNote, TheoryError>(m));
                    }
                },
                Err(e) => {
                    proof {
                        let w: int = i as int;
                        assert(self.note_spec(w as nat) == Err::<MidiNote, TheoryError>(e));
                        assert(forall|j: int|
                            0 <= j < w ==> #[trigger] self.note_spec(j as nat) is Ok);
                    }
                    return Err(e);
                },
            }
            i += 1;
        }
        Ok(v)
    }

    /// Whether this scale and another produce the same sequence, outcome by
    /// outcome, for the first `count` positions.
    pub fn sequence_eq(&self, other: &Scale, count: usize) -> (b: bool)
        requires
            self.wf(),
            other.wf(),
        ensures
            b == self.behaviorally_eq_spec(*other, count as nat),
    {
        let mut k: usize = 0;
        while k < count
            invariant
                self.wf(),
                other.wf(),
                0 <= k <= count,
                forall|j: nat| j < k ==> self.note_spec(j) == other.note_spec(j),
            decreases count - k,
        {
            let a = self.nth_note(k);
            let b = other.nth_note(k);
            let same = match (a, b) {
                (Ok(x), Ok(y)) => x == y,
                (Err(x), Err(y)) => x == y,
                _ => false,
            };
            if !same {
                proof {
                    assert(self.note_spec(k as nat) != other.note_spec(k as nat));
                }
                return false;
            }
            k += 1;
        }
        true
    }
}

/// Once a position of a scale's sequence fails, every later position reports
/// the same error: failures are carried forward, never skipped.
pub proof fn lemma_error_sticks(s: Scale, j: nat, k: nat)
    requires
        j <= k,
        s.note_spec(j) is Err,
    ensures
        s.note_spec(k) == s.note_spec(j),
    decreases k - j,
{
    if k > j {
        lemma_error_sticks(s, j, (k - 1) as nat);
    }
}

} // verus!
