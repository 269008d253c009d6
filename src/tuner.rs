use crate::arith::pow_two;
use crate::midi::MidiNote;
use vstd::arithmetic::div_mod::*;
use vstd::arithmetic::power2::*;
use vstd::prelude::*;

verus! {

/// Frequency of the reference note, in millihertz, before any octave shift.
pub const A4_MILLIHERTZ: u64 = 440000;

/// The reference note of the tuning (A4).
pub const A4_NOTE: u8 = 69;

/// Largest number of octaves by which the reference pitch can be moved.
pub const OCTAVE_SHIFT_MAX: i8 = 10;

/// Number of fractional bits of the semitone ratios.
pub const RATIO_BITS: u32 = 16;

/// `2^(s/12)` scaled by `2^16` and rounded, for a semitone `s` of an octave.
pub open spec fn semitone_ratio(s: int) -> int {
    if s == 0 {
        65536
    } else if s == 1 {
        69433
    } else if s == 2 {
        73562
    } else if s == 3 {
        77936
    } else if s == 4 {
        82570
    } else if s == 5 {
        87480
    } else if s == 6 {
        92682
    } else if s == 7 {
        98193
    } else if s == 8 {
        104032
    } else if s == 9 {
        110218
    } else if s == 10 {
        116772
    } else {
        123715
    }
}

/// Power of two applied to the reference-scaled semitone ratio of `note`,
/// when the reference pitch is moved by `shift` octaves.
pub open spec fn pitch_exponent(shift: int, note: int) -> int {
    (note - A4_NOTE) / 12 + shift - RATIO_BITS
}

/// Equal-tempered frequency of `note` in millihertz, rounded down, with the
/// reference pitch `440 Hz * 2^shift`: `440 Hz * 2^shift * 2^((note - 69) / 12)`.
pub open spec fn note_frequency(shift: int, note: int) -> int {
    let x = A4_MILLIHERTZ * semitone_ratio((note - A4_NOTE) % 12);
    let e = pitch_exponent(shift, note);
    if e >= 0 {
        x * pow2(e as nat)
    } else {
        x / pow2((-e) as nat) as int
    }
}

/// Maps notes to frequencies; the reference pitch is `440 Hz * 2^octave_shift`.
#[derive(Copy, Clone, Debug, PartialEq, Eq, Structural)]
pub struct Tuner {
    pub octave_shift: i8,
}

fn ratio_of(s: u64) -> (r: u64)
    requires
        s < 12,
    ensures
        r as int == semitone_ratio(s as int),
{
    if s == 0 {
        65536
    } else if s == 1 {
        69433
    } else if s == 2 {
        73562
    } else if s == 3 {
        77936
    } else if s == 4 {
        82570
    } else if s == 5 {
        87480
    } else if s == 6 {
        92682
    } else if s == 7 {
        98193
    } else if s == 8 {
        104032
    } else if s == 9 {
        110218
    } else if s == 10 {
        116772
    } else {
        123715
    }
}

impl Tuner {
    pub open spec fn wf(&self) -> bool {
        -OCTAVE_SHIFT_MAX <= self.octave_shift <= OCTAVE_SHIFT_MAX
    }

    pub open spec fn shifted_up(&self) -> Tuner {
        if self.octave_shift < OCTAVE_SHIFT_MAX {
            Tuner { octave_shift: (self.octave_shift + 1) as i8 }
        } else {
            *self
        }
    }

    pub open spec fn shifted_down(&self) -> Tuner {
        if self.octave_shift > -OCTAVE_SHIFT_MAX {
            Tuner { octave_shift: (self.octave_shift - 1) as i8 }
        } else {
            *self
        }
    }

    pub open spec fn frequency_spec(&self, note: MidiNote) -> int {
        note_frequency(self.octave_shift as int, note.note as int)
    }

    /// The standard tuning: A4 at 440 Hz.
    pub fn default() -> (r: Self)
        ensures
            r.wf(),
            r.octave_shift == 0,
    {
        Tuner { octave_shift: 0 }
    }

    /// Frequency of `note` in millihertz.
    pub fn frequency_of(&self, note: MidiNote) -> (r: u64)
        requires
            self.wf(),
        ensures
            r as int == self.frequency_spec(note),
    {
        let k: u64 = note.note as u64 + 3;
        let s: u64 = k % 12;
        let oct: i64 = (k / 12) as i64 - 6;
        proof {
            let d = note.note as int - A4_NOTE as int;
            lemma_fundamental_div_mod(k as int, 12);
            lemma_fundamental_div_mod_converse(d, 12, (k / 12) as int - 6, (k % 12) as int);
        }
        let ratio: u64 = ratio_of(s);
        let x: u64 = A4_MILLIHERTZ * ratio;
        let e: i64 = oct + self.octave_shift as i64 - 16;
        if e >= 0 {
            let p: u64 = pow_two(e as u32);
            proof {
                lemma2_to64();
                if e < 9 {
                    lemma_pow2_strictly_increases(e as nat, 9);
                }
                assert(x * p <= x * 512) by (nonlinear_arith)
                    requires p <= 512;
            }
            x * p
        } else {
            let p: u64 = pow_two((-e) as u32);
            proof {
                lemma_pow2_pos((-e) as nat);
            }
            x / p
        }
    }

    pub fn octave_up(&mut self)
        requires
            old(self).wf(),
        ensures
            *final(self) == old(self).shifted_up(),
            final(self).wf(),
    {
        if self.octave_shift < OCTAVE_SHIFT_MAX {
            self.octave_shift = self.octave_shift + 1;
        }
    }

    pub fn octave_down(&mut self)
        requires
            old(self).wf(),
        ensures
            *final(self) == old(self).shifted_down(),
            final(self).wf(),
    {
        if self.octave_shift > -OCTAVE_SHIFT_MAX {
            self.octave_shift = self.octave_shift - 1;
        }
    }
}

/// Moving the reference pitch up an octave doubles the frequency of every
/// note; where the frequency was rounded down, the doubled value may exceed
/// twice the old one by the one millihertz that rounding dropped.
pub proof fn lemma_octave_up_doubles(t: Tuner, note: MidiNote)
    requires
        t.wf(),
        t.octave_shift < OCTAVE_SHIFT_MAX,
    ensures
        t.shifted_up().frequency_spec(note) == 2 * t.frequency_spec(note)
            || t.shifted_up().frequency_spec(note) == 2 * t.frequency_spec(note) + 1,
        pitch_exponent(t.octave_shift as int, note.note as int) >= 0
            ==> t.shifted_up().frequency_spec(note) == 2 * t.frequency_spec(note),
{
    let n = note.note as int;
    let x = A4_MILLIHERTZ * semitone_ratio((n - A4_NOTE) % 12);
    let e = pitch_exponent(t.octave_shift as int, n);
    let f = t.frequency_spec(note);
    let g = t.shifted_up().frequency_spec(note);
    assert(t.shifted_up().octave_shift == t.octave_shift + 1);
    assert(pitch_exponent(t.octave_shift + 1, n) == e + 1);
    if e >= 0 {
        lemma_pow2_unfold((e + 1) as nat);
        assert(x * pow2((e + 1) as nat) == 2 * (x * pow2(e as nat))) by (nonlinear_arith)
            requires pow2((e + 1) as nat) == 2 * pow2(e as nat);
        assert(f == x * pow2(e as nat));
        assert(g == x * pow2((e + 1) as nat));
    } else if e == -1 {
        lemma2_to64();
        assert(f == x / 2);
        assert(g == x * pow2(0));
        lemma_fundamental_div_mod(x, 2);
        lemma_mod_bound(x, 2);
    } else {
        let m = (-e - 1) as nat;
        lemma_pow2_unfold((-e) as nat);
        lemma_pow2_pos(m);
        assert(pow2((-e) as nat) == pow2(m) * 2);
        lemma_div_denominator(x, pow2(m) as int, 2);
        let y = x / pow2(m) as int;
        assert(g == y);
        assert(f == x / (pow2(m) * 2) as int);
        assert(f == y / 2);
        lemma_fundamental_div_mod(y, 2);
        lemma_mod_bound(y, 2);
    }
}

} // verus!
