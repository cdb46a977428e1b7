use crate::partition::lemma_pow_nonnegative;
use crate::sequences::{
    in_base, lemma_all_highest, lemma_all_zero, lemma_carry, lemma_digits_of_value,
    lemma_value_bound, melody_at, value,
};
use vstd::arithmetic::power::*;
use vstd::prelude::*;

verus! {

/// Number of melodies of length `melody_length` over `num_notes` notes.
pub open spec fn num_melodies(num_notes: nat, melody_length: nat) -> nat {
    pow(num_notes as int, melody_length) as nat
}

/// `base` raised to `exp`, or `None` when the power does not fit in a `u64`.
pub fn checked_pow(base: u64, exp: u32) -> (r: Option<u64>)
    ensures
        r matches Some(v) ==> v == pow(base as int, exp as nat),
        r is None <==> pow(base as int, exp as nat) > u64::MAX,
{
    let mut acc: u64 = 1;
    let mut i: u32 = 0;
    proof {
        lemma_pow0(base as int);
    }
    while i < exp
        invariant
            i <= exp,
            acc == pow(base as int, i as nat),
        decreases exp - i,
    {
        proof {
            lemma_pow_adds(base as int, 1, i as nat);
            lemma_pow1(base as int);
            assert(pow(base as int, (i + 1) as nat) == acc * base) by {
                assert(base * acc == acc * base) by (nonlinear_arith);
            }
        }
        match acc.checked_mul(base) {
            Some(next) => {
                acc = next;
            },
            None => {
                proof {
                    // acc * base overflows, and the power only grows from here on
                    assert(base >= 2) by (nonlinear_arith)
                        requires
                            acc * base > u64::MAX,
                            acc <= u64::MAX,
                            base >= 0,
                            acc >= 0,
                    ;
                    lemma_pow_increases(base as nat, (i + 1) as nat, exp as nat);
                    assert(pow(base as int, exp as nat) > u64::MAX);
                }
                return None;
            },
        }
        i = i + 1;
    }
    Some(acc)
}

/// Total number of melodies: `num_notes` to the power `melody_length`.
pub fn gen_num_melodies(num_notes: u32, melody_length: u32) -> (n: u64)
    requires
        num_melodies(num_notes as nat, melody_length as nat) <= u64::MAX,
    ensures
        n == num_melodies(num_notes as nat, melody_length as nat),
{
    proof {
        lemma_pow_nonnegative(num_notes as nat, melody_length as nat);
    }
    match checked_pow(num_notes as u64, melody_length) {
        Some(n) => n,
        None => 0,
    }
}

/// All melodies of one length over a sequence of notes, one after the
/// other, in lexicographic order of the notes' places in the sequence.
pub struct MelodySequence {
    /// Notes to draw from
    notes: Vec<u8>,
    /// Place in `notes` of each note of the melody that comes next
    counters: Vec<usize>,
    /// Whether every melody has been handed out
    exhausted: bool,
    /// Number of melodies handed out
    position: Ghost<nat>,
}

impl MelodySequence {
    /// The notes that the melodies are made of.
    pub closed spec fn notes(&self) -> Seq<u8> {
        self.notes@
    }

    /// Length of the melodies.
    pub closed spec fn length(&self) -> nat {
        self.counters@.len()
    }

    /// Number of melodies handed out so far.
    pub closed spec fn position(&self) -> nat {
        self.position@
    }

    /// Number of melodies in all.
    pub open spec fn total(&self) -> nat {
        num_melodies(self.notes().len(), self.length())
    }

    /// The counters stand for the position.
    pub closed spec fn valid(&self) -> bool {
        if self.exhausted {
            self.position@ == num_melodies(self.notes@.len(), self.counters@.len())
        } else {
            &&& in_base(self.notes@.len(), self.counters@)
            &&& self.position@ == value(self.notes@.len(), self.counters@)
        }
    }

    /// The melody that comes next, or `None` when all have been handed out.
    #[verifier::loop_isolation(false)]
    pub fn next(&mut self) -> (r: Option<Vec<u8>>)
        requires
            old(self).valid(),
        ensures
            final(self).valid(),
            final(self).notes() == old(self).notes(),
            final(self).length() == old(self).length(),
            old(self).position() <= old(self).total(),
            match r {
                Some(melody) => old(self).position() < old(self).total() && melody@ == melody_at(
                    old(self).notes(),
                    old(self).length(),
                    old(self).position(),
                ) && final(self).position() == old(self).position() + 1,
                None => old(self).position() == old(self).total() && final(self).position()
                    == old(self).position(),
            },
    {
        let ghost k = self.notes@.len();
        let ghost before = self.counters@;
        let length = self.counters.len();
        let num_notes = self.notes.len();
        proof {
            lemma_pow_nonnegative(k, before.len());
            if !self.exhausted {
                lemma_value_bound(k, before);
            }
        }
        if self.exhausted {
            return None;
        }
        // Copy the notes that the counters point at
        let mut melody: Vec<u8> = Vec::new();
        let mut i: usize = 0;
        while i < length
            invariant
                i <= length,
                length == self.counters@.len(),
                self.counters@ == before,
                k == self.notes@.len(),
                in_base(k, before),
                melody@.len() == i,
                forall|j: int| 0 <= j < i ==> melody@[j] == self.notes@[before[j] as int],
            decreases length - i,
        {
            melody.push(self.notes[self.counters[i]]);
            i = i + 1;
        }
        proof {
            if length > 0 {
                assert(before[0] < k);
                lemma_digits_of_value(k, before);
            }
            assert(melody@ =~= melody_at(self.notes@, before.len(), self.position@));
        }
        // Step the counters, last place first
        let mut j: usize = length;
        let mut carried = true;
        while j > 0 && carried
            invariant
                j <= length,
                length == self.counters@.len(),
                before.len() == length,
                k == self.notes@.len(),
                k == num_notes,
                in_base(k, before),
                self.notes@ == old(self).notes@,
                self.position@ == old(self).position@,
                !self.exhausted,
                carried ==> forall|i: int|
                    0 <= i < j ==> #[trigger] self.counters@[i] == before[i],
                carried ==> forall|i: int| j <= i < length ==> #[trigger] before[i] == k - 1,
                carried ==> forall|i: int| j <= i < length ==> #[trigger] self.counters@[i] == 0,
                !carried ==> in_base(k, self.counters@) && value(k, self.counters@) == value(
                    k,
                    before,
                ) + 1,
            decreases j,
        {
            j = j - 1;
            let place = self.counters[j];
            assert(place == before[j as int] && before[j as int] < k);
            let ghost mid = self.counters@;
            if place + 1 < num_notes {
                self.counters.set(j, place + 1);
                carried = false;
                proof {
                    let after = self.counters@;
                    assert(after == mid.update(j as int, (place + 1) as usize));
                    lemma_carry(k, before, after, j as int);
                    assert forall|i: int| 0 <= i < after.len() implies after[i] < k by {
                        if i < j {
                            assert(mid[i] == before[i]);
                            assert(before[i] < k);
                        } else if i > j {
                            assert(mid[i] == 0);
                        }
                    }
                }
            } else {
                self.counters.set(j, 0);
                assert(self.counters@ == mid.update(j as int, 0usize));
                assert(before[j as int] == k - 1);
            }
        }
        if carried {
            self.exhausted = true;
            proof {
                if length > 0 {
                    assert(before[0] < k);
                    assert forall|i: int| 0 <= i < before.len() implies before[i] == k - 1 by {
                        assert(j <= i < length);
                    }
                    lemma_all_highest(k, before);
                } else {
                    lemma_pow0(k as int);
                }
            }
        }
        self.position = Ghost(self.position@ + 1);
        Some(melody)
    }
}

/// Generate melodies of length `length` containing the notes in `notes`:
/// the cartesian product of `notes` with itself `length` times.
pub fn gen_sequences(notes: &Vec<u8>, length: u32) -> (melodies: MelodySequence)
    ensures
        melodies.valid(),
        melodies.notes() == notes@,
        melodies.length() == length,
        melodies.position() == 0,
{
    let ghost old_notes = notes@;
    let mut counters: Vec<usize> = Vec::new();
    let mut i: u32 = 0;
    while i < length
        invariant
            i <= length,
            counters@.len() == i,
            forall|j: int| 0 <= j < i ==> counters@[j] == 0,
        decreases length - i,
    {
        counters.push(0);
        i = i + 1;
    }
    let exhausted = notes.len() == 0 && length > 0;
    proof {
        lemma_all_zero(notes@.len(), counters@);
        if exhausted {
            lemma0_pow(length as nat);
        }
    }
    let notes = notes.clone();
    assert(notes@ =~= old_notes);
    MelodySequence { notes, counters, exhausted, position: Ghost(0) }
}

} // verus!
