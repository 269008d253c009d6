use vstd::prelude::*;

verus! {

/// Full envelope level: the fixed-point value of 1.0.
pub const LEVEL_ONE: u64 = 1073741824;

/// Sustain level of the default envelope (0.7 of full level).
pub const DEFAULT_SUSTAIN: u64 = 751619277;

/// Per-sample change of level that covers `span` level units in `ms`
/// milliseconds at `sample_rate` samples per second, rounded down and never
/// below one unit, so that every ramp ends.
pub open spec fn ramp_rate(span: int, ms: int, sample_rate: int) -> int {
    let r = span * 1000 / (sample_rate * ms);
    if r < 1 {
        1
    } else {
        r
    }
}

/// A ramp never moves by more than a thousand full levels per sample.
pub proof fn lemma_ramp_rate_bound(span: int, ms: int, sample_rate: int)
    requires
        0 <= span <= LEVEL_ONE,
        ms >= 1,
        sample_rate >= 1,
    ensures
        1 <= ramp_rate(span, ms, sample_rate) <= LEVEL_ONE * 1000,
{
    let d = sample_rate * ms;
    assert(d >= 1) by (nonlinear_arith)
        requires sample_rate >= 1, ms >= 1, d == sample_rate * ms;
    assert(span * 1000 <= LEVEL_ONE * 1000);
    vstd::arithmetic::div_mod::lemma_div_is_ordered(span * 1000, LEVEL_ONE * 1000, d);
    vstd::arithmetic::div_mod::lemma_div_is_ordered_by_denominator(LEVEL_ONE * 1000, 1, d);
    assert((LEVEL_ONE * 1000) / 1 == LEVEL_ONE * 1000);
}

/// A duration setting kept positive: 0 ms becomes 1 ms.
pub open spec fn positive_ms(ms: u16) -> u16 {
    if ms == 0 {
        1
    } else {
        ms
    }
}

/// A level kept within full level.
pub open spec fn capped_level(level: u64) -> u64 {
    if level > LEVEL_ONE {
        LEVEL_ONE
    } else {
        level
    }
}

/// ADSR parameters; the sustain level is in units of `1 / LEVEL_ONE`.
#[derive(Copy, Clone, Debug, PartialEq, Eq, Structural)]
pub struct Envelope {
    pub attack_ms: u16,
    pub decay_ms: u16,
    pub sustain: u64,
    pub release_ms: u16,
}

fn ramp(span: u64, ms: u16, sample_rate: u32) -> (r: u64)
    requires
        span <= LEVEL_ONE,
        ms > 0,
        sample_rate > 0,
    ensures
        r as int == ramp_rate(span as int, ms as int, sample_rate as int),
{
    proof {
        assert(sample_rate * ms <= 0xffffffff * 0xffff) by (nonlinear_arith)
            requires sample_rate <= 0xffffffff, ms <= 0xffff;
        assert(sample_rate * ms > 0) by (nonlinear_arith)
            requires sample_rate > 0, ms > 0;
    }
    let r: u64 = span * 1000 / ((sample_rate as u64) * (ms as u64));
    if r < 1 {
        1
    } else {
        r
    }
}

impl Envelope {
    pub open spec fn wf(&self) -> bool {
        &&& self.attack_ms > 0
        &&& self.decay_ms > 0
        &&& self.release_ms > 0
        &&& self.sustain <= LEVEL_ONE
    }

    pub open spec fn attack_rate(&self, sample_rate: int) -> int {
        ramp_rate(LEVEL_ONE as int, self.attack_ms as int, sample_rate)
    }

    pub open spec fn decay_rate(&self, sample_rate: int) -> int {
        ramp_rate(LEVEL_ONE - self.sustain, self.decay_ms as int, sample_rate)
    }

    pub open spec fn release_rate(&self, sample_rate: int) -> int {
        ramp_rate(LEVEL_ONE as int, self.release_ms as int, sample_rate)
    }

    /// An envelope with its settings brought into range: durations of at
    /// least 1 ms, a sustain level of at most full level.
    pub fn new(attack_ms: u16, decay_ms: u16, sustain: u64, release_ms: u16) -> (r: Self)
        ensures
            r.wf(),
            r.attack_ms == positive_ms(attack_ms),
            r.decay_ms == positive_ms(decay_ms),
            r.sustain == capped_level(sustain),
            r.release_ms == positive_ms(release_ms),
    {
        Envelope {
            attack_ms: if attack_ms == 0 {
                1
            } else {
                attack_ms
            },
            decay_ms: if decay_ms == 0 {
                1
            } else {
                decay_ms
            },
            sustain: if sustain > LEVEL_ONE {
                LEVEL_ONE
            } else {
                sustain
            },
            release_ms: if release_ms == 0 {
                1
            } else {
                release_ms
            },
        }
    }

    /// Attack 5 ms, decay 100 ms, sustain 0.7, release 150 ms.
    pub fn default() -> (r: Self)
        ensures
            r.wf(),
            r == (Envelope {
                attack_ms: 5,
                decay_ms: 100,
                sustain: DEFAULT_SUSTAIN,
                release_ms: 150,
            }),
    {
        Envelope::new(5, 100, DEFAULT_SUSTAIN, 150)
    }

    /// Per-sample rise during the attack: full level in `attack_ms`.
    pub fn attack_increment(&self, sample_rate: u32) -> (r: u64)
        requires
            self.wf(),
            sample_rate > 0,
        ensures
            r as int == self.attack_rate(sample_rate as int),
    {
        ramp(LEVEL_ONE, self.attack_ms, sample_rate)
    }

    /// Per-sample fall during the decay: from full level to the sustain level
    /// in `decay_ms`.
    pub fn decay_increment(&self, sample_rate: u32) -> (r: u64)
        requires
            self.wf(),
            sample_rate > 0,
        ensures
            r as int == self.decay_rate(sample_rate as int),
    {
        ramp(LEVEL_ONE - self.sustain, self.decay_ms, sample_rate)
    }

    /// Per-sample fall during the release: full level in `release_ms`,
    /// whatever the level at which the release begins.
    pub fn release_decrement(&self, sample_rate: u32) -> (r: u64)
        requires
            self.wf(),
            sample_rate > 0,
        ensures
            r as int == self.release_rate(sample_rate as int),
    {
        ramp(LEVEL_ONE, self.release_ms, sample_rate)
    }
}

} // verus!
