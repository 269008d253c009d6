use crate::arith::floor_div;
use crate::envelope::{capped_level, lemma_ramp_rate_bound, positive_ms, Envelope, LEVEL_ONE};
use crate::event::ControlMessage;
use crate::midi::MidiNote;
use crate::tuner::Tuner;
use crate::wavetable::{
    lookup, table_wf, Wavetable, WavetableBank, WavetableKind, PHASE_PERIOD, SAMPLE_ONE,
};
use vstd::arithmetic::div_mod::*;
use vstd::prelude::*;

verus! {

/// Full master gain: the fixed-point value of 1.0.
pub const GAIN_ONE: u64 = 65536;

/// Master gain of a new voice (0.7 of full gain).
pub const DEFAULT_GAIN: u64 = 45875;

/// Number of samples between two envelope updates.
pub const UPDATE_PERIOD: u64 = 5;

/// Millihertz per hertz.
pub const MILLIHERTZ_PER_HERTZ: u64 = 1000;

/// The stage of the amplitude envelope, with the note that sounds.
#[derive(Copy, Clone, Debug, PartialEq, Eq, Structural)]
pub enum VoiceState {
    Idle,
    Attacking(MidiNote),
    Decaying(MidiNote),
    Sustaining(MidiNote),
    Releasing(MidiNote),
}

impl VoiceState {
    pub open spec fn note_spec(&self) -> Option<MidiNote> {
        match *self {
            VoiceState::Idle => None,
            VoiceState::Attacking(note) => Some(note),
            VoiceState::Decaying(note) => Some(note),
            VoiceState::Sustaining(note) => Some(note),
            VoiceState::Releasing(note) => Some(note),
        }
    }

    /// The note that sounds, if any.
    pub fn get_note(&self) -> (r: Option<MidiNote>)
        ensures
            r == self.note_spec(),
    {
        match self {
            VoiceState::Idle => None,
            VoiceState::Attacking(note) => Some(*note),
            VoiceState::Decaying(note) => Some(*note),
            VoiceState::Sustaining(note) => Some(*note),
            VoiceState::Releasing(note) => Some(*note),
        }
    }
}

/// Phase advance per sample, modulo one period, for a frequency in millihertz:
/// `2π * frequency / sample_rate`, rounded down.
pub open spec fn phase_increment(frequency: int, sample_rate: int) -> int {
    (frequency * PHASE_PERIOD / (sample_rate * MILLIHERTZ_PER_HERTZ)) % (PHASE_PERIOD as int)
}

/// An amplitude scaled by an envelope level and a master gain, rounded down.
pub open spec fn scaled(amplitude: int, level: int, gain: int) -> int {
    (amplitude * level * gain) / (LEVEL_ONE * GAIN_ONE)
}

/// Everything that the render thread keeps between two buffers.
#[derive(Copy, Clone, Debug, PartialEq, Eq, Structural)]
pub struct RenderState {
    pub voice: VoiceState,
    /// Envelope level, in units of `1 / LEVEL_ONE`.
    pub level: u64,
    /// Oscillator phase, in units of `2π / PHASE_PERIOD`.
    pub phase: u64,
    pub oscillator: WavetableKind,
    /// Master gain, in units of `1 / GAIN_ONE`.
    pub master_gain: u64,
    /// Samples since the last envelope update.
    pub update_timer: u64,
    pub envelope: Envelope,
    pub tuner: Tuner,
}

impl RenderState {
    pub open spec fn wf(&self) -> bool {
        &&& self.level <= LEVEL_ONE
        &&& self.phase < PHASE_PERIOD
        &&& self.master_gain <= GAIN_ONE
        &&& self.update_timer < UPDATE_PERIOD
        &&& self.envelope.wf()
        &&& self.tuner.wf()
        &&& self.voice == VoiceState::Idle ==> self.level == 0
    }

    /// The state after one control message.
    pub open spec fn applied(self, m: ControlMessage) -> RenderState {
        match m {
            ControlMessage::NoteOn(n) => RenderState { voice: VoiceState::Attacking(n), ..self },
            ControlMessage::NoteOff(n) => {
                if self.voice.note_spec() == Some(n) {
                    RenderState { voice: VoiceState::Releasing(n), ..self }
                } else {
                    self
                }
            },
            ControlMessage::TuneOctaveUp => RenderState { tuner: self.tuner.shifted_up(), ..self },
            ControlMessage::TuneOctaveDown => RenderState {
                tuner: self.tuner.shifted_down(),
                ..self
            },
            ControlMessage::SelectOscillator(kind) => RenderState { oscillator: kind, ..self },
            ControlMessage::SetMasterGain(g) => RenderState {
                master_gain: if g > GAIN_ONE {
                    GAIN_ONE
                } else {
                    g
                },
                ..self
            },
            ControlMessage::SetAttackMs(ms) => RenderState {
                envelope: Envelope { attack_ms: positive_ms(ms), ..self.envelope },
                ..self
            },
            ControlMessage::SetDecayMs(ms) => RenderState {
                envelope: Envelope { decay_ms: positive_ms(ms), ..self.envelope },
                ..self
            },
            ControlMessage::SetSustain(level) => RenderState {
                envelope: Envelope { sustain: capped_level(level), ..self.envelope },
                ..self
            },
            ControlMessage::SetReleaseMs(ms) => RenderState {
                envelope: Envelope { release_ms: positive_ms(ms), ..self.envelope },
                ..self
            },
        }
    }

    /// One envelope update: the level moves by `UPDATE_PERIOD` samples' worth
    /// of the stage's rate, and a stage whose target is reached gives way to
    /// the next one.
    pub open spec fn ticked(self, sample_rate: int) -> RenderState {
        match self.voice {
            VoiceState::Attacking(n) => {
                if self.level >= LEVEL_ONE {
                    RenderState { level: LEVEL_ONE, voice: VoiceState::Decaying(n), ..self }
                } else {
                    let l = self.level + UPDATE_PERIOD * self.envelope.attack_rate(sample_rate);
                    RenderState {
                        level: if l > LEVEL_ONE {
                            LEVEL_ONE
                        } else {
                            l as u64
                        },
                        ..self
                    }
                }
            },
            VoiceState::Decaying(n) => {
                if self.level <= self.envelope.sustain {
                    RenderState {
                        level: self.envelope.sustain,
                        voice: VoiceState::Sustaining(n),
                        ..self
                    }
                } else {
                    let l = self.level - UPDATE_PERIOD * self.envelope.decay_rate(sample_rate);
                    RenderState {
                        level: if l < self.envelope.sustain {
                            self.envelope.sustain
                        } else {
                            l as u64
                        },
                        ..self
                    }
                }
            },
            VoiceState::Releasing(n) => {
                if self.level == 0 {
                    RenderState { level: 0, voice: VoiceState::Idle, phase: 0, ..self }
                } else {
                    let l = self.level - UPDATE_PERIOD * self.envelope.release_rate(sample_rate);
                    RenderState {
                        level: if l < 0 {
                            0
                        } else {
                            l as u64
                        },
                        ..self
                    }
                }
            },
            _ => self,
        }
    }

    /// The state after one output sample: the phase advances by `increment`,
    /// and every `UPDATE_PERIOD` samples the envelope is updated.
    pub open spec fn stepped(self, increment: int, sample_rate: int) -> RenderState {
        let moved = RenderState {
            phase: ((self.phase + increment) % (PHASE_PERIOD as int)) as u64,
            ..self
        };
        if self.update_timer + 1 >= UPDATE_PERIOD {
            RenderState { update_timer: 0, ..moved }.ticked(sample_rate)
        } else {
            RenderState { update_timer: (self.update_timer + 1) as u64, ..moved }
        }
    }

    /// The state after `n` output samples.
    pub open spec fn after(self, increment: int, sample_rate: int, n: nat) -> RenderState
        decreases n,
    {
        if n == 0 {
            self
        } else {
            self.after(increment, sample_rate, (n - 1) as nat).stepped(increment, sample_rate)
        }
    }

    /// The output sample for this state, read from `table`.
    pub open spec fn output(self, table: Seq<i32>) -> int {
        scaled(lookup(table, self.phase as int), self.level as int, self.master_gain as int)
    }

    /// The first `n` output samples from this state.
    pub open spec fn rendered(
        self,
        table: Seq<i32>,
        increment: int,
        sample_rate: int,
        n: nat,
    ) -> Seq<i32>
        decreases n,
    {
        if n == 0 {
            Seq::empty()
        } else {
            self.rendered(table, increment, sample_rate, (n - 1) as nat).push(
                self.after(increment, sample_rate, (n - 1) as nat).output(table) as i32,
            )
        }
    }

    /// Phase advance per sample for the note that sounds.
    pub open spec fn increment(self, sample_rate: int) -> int {
        match self.voice.note_spec() {
            Some(n) => phase_increment(self.tuner.frequency_spec(n), sample_rate),
            None => 0,
        }
    }

    /// A silent voice: no note, phase 0, triangle oscillator, master gain 0.7,
    /// the default envelope and the standard tuning.
    pub fn new() -> (r: Self)
        ensures
            r.wf(),
            r.voice == VoiceState::Idle,
            r.level == 0,
            r.phase == 0,
            r.oscillator == WavetableKind::Triangle,
            r.master_gain == DEFAULT_GAIN,
            r.update_timer == 0,
            r.envelope == (Envelope {
                attack_ms: 5,
                decay_ms: 100,
                sustain: crate::envelope::DEFAULT_SUSTAIN,
                release_ms: 150,
            }),
            r.tuner.octave_shift == 0,
    {
        RenderState {
            voice: VoiceState::Idle,
            level: 0,
            phase: 0,
            oscillator: WavetableKind::Triangle,
            master_gain: DEFAULT_GAIN,
            update_timer: 0,
            envelope: Envelope::default(),
            tuner: Tuner::default(),
        }
    }
}

impl RenderState {
    /// Applies one control message.
    pub fn apply(&mut self, m: ControlMessage)
        requires
            old(self).wf(),
        ensures
            *final(self) == old(self).applied(m),
            final(self).wf(),
    {
        match m {
            ControlMessage::NoteOn(n) => {
                self.voice = VoiceState::Attacking(n);
            },
            ControlMessage::NoteOff(n) => {
                let current = self.voice.get_note();
                if current == Some(n) {
                    self.voice = VoiceState::Releasing(n);
                }
            },
            ControlMessage::TuneOctaveUp => {
                self.tuner.octave_up();
            },
            ControlMessage::TuneOctaveDown => {
                self.tuner.octave_down();
            },
            ControlMessage::SelectOscillator(kind) => {
                self.oscillator = kind;
            },
            ControlMessage::SetMasterGain(g) => {
                self.master_gain = if g > GAIN_ONE {
                    GAIN_ONE
                } else {
                    g
                };
            },
            ControlMessage::SetAttackMs(ms) => {
                self.envelope.attack_ms = if ms == 0 {
                    1
                } else {
                    ms
                };
            },
            ControlMessage::SetDecayMs(ms) => {
                self.envelope.decay_ms = if ms == 0 {
                    1
                } else {
                    ms
                };
            },
            ControlMessage::SetSustain(level) => {
                self.envelope.sustain = if level > LEVEL_ONE {
                    LEVEL_ONE
                } else {
                    level
                };
            },
            ControlMessage::SetReleaseMs(ms) => {
                self.envelope.release_ms = if ms == 0 {
                    1
                } else {
                    ms
                };
            },
        }
    }

    /// Advances by one output sample, with the envelope's rates at this
    /// sample rate already worked out.
    fn step(&mut self, increment: u64, sample_rate: u32, attack: u64, decay: u64, release: u64)
        requires
            old(self).wf(),
            sample_rate > 0,
            increment < PHASE_PERIOD,
            attack as int == old(self).envelope.attack_rate(sample_rate as int),
            decay as int == old(self).envelope.decay_rate(sample_rate as int),
            release as int == old(self).envelope.release_rate(sample_rate as int),
        ensures
            *final(self) == old(self).stepped(increment as int, sample_rate as int),
            final(self).wf(),
            final(self).envelope == old(self).envelope,
            final(self).tuner == old(self).tuner,
            final(self).oscillator == old(self).oscillator,
            final(self).master_gain == old(self).master_gain,
    {
        self.phase = (self.phase + increment) % PHASE_PERIOD;
        if self.update_timer + 1 < UPDATE_PERIOD {
            self.update_timer = self.update_timer + 1;
            return;
        }
        self.update_timer = 0;
        proof {
            let e = self.envelope;
            let sr = sample_rate as int;
            lemma_ramp_rate_bound(LEVEL_ONE as int, e.attack_ms as int, sr);
            lemma_ramp_rate_bound(LEVEL_ONE - e.sustain, e.decay_ms as int, sr);
            lemma_ramp_rate_bound(LEVEL_ONE as int, e.release_ms as int, sr);
        }
        match self.voice {
            VoiceState::Attacking(n) => {
                if self.level >= LEVEL_ONE {
                    self.level = LEVEL_ONE;
                    self.voice = VoiceState::Decaying(n);
                } else {
                    let l: u64 = self.level + UPDATE_PERIOD * attack;
                    self.level = if l > LEVEL_ONE {
                        LEVEL_ONE
                    } else {
                        l
                    };
                }
            },
            VoiceState::Decaying(n) => {
                if self.level <= self.envelope.sustain {
                    self.level = self.envelope.sustain;
                    self.voice = VoiceState::Sustaining(n);
                } else {
                    let fall: u64 = UPDATE_PERIOD * decay;
                    self.level = if self.level - self.envelope.sustain <= fall {
                        self.envelope.sustain
                    } else {
                        self.level - fall
                    };
                }
            },
            VoiceState::Releasing(_) => {
                if self.level == 0 {
                    self.voice = VoiceState::Idle;
                    self.phase = 0;
                } else {
                    let fall: u64 = UPDATE_PERIOD * release;
                    self.level = if self.level <= fall {
                        0
                    } else {
                        self.level - fall
                    };
                }
            },
            _ => {},
        }
    }

    /// Fills `output` with the next samples of the voice, in units of
    /// `1 / SAMPLE_ONE`, at `sample_rate` samples per second. A silent voice
    /// writes zeros and keeps its level at 0; otherwise the frequency of the
    /// sounding note is worked out once, and every sample is the selected
    /// table read at the current phase, scaled by the envelope level and the
    /// master gain.
    pub fn render(&mut self, bank: &WavetableBank, output: &mut Vec<i32>, sample_rate: u32)
        requires
            old(self).wf(),
            bank.wf(),
            sample_rate > 0,
        ensures
            final(self).wf(),
            final(output)@.len() == old(output)@.len(),
            forall|i: int|
                0 <= i < final(output)@.len() ==> -SAMPLE_ONE <= #[trigger] final(output)@[i]
                    <= SAMPLE_ONE,
            old(self).voice == VoiceState::Idle ==> {
                &&& final(output)@ == Seq::new(old(output)@.len(), |i: int| 0i32)
                &&& *final(self) == *old(self)
            },
            old(self).voice != VoiceState::Idle ==> {
                let table = bank.table(old(self).oscillator)@;
                let inc = old(self).increment(sample_rate as int);
                let n = old(output)@.len();
                &&& final(output)@ == old(self).rendered(table, inc, sample_rate as int, n)
                &&& *final(self) == old(self).after(inc, sample_rate as int, n)
            },
    {
        let len: usize = output.len();
        if self.voice == VoiceState::Idle {
            let mut i: usize = 0;
            while i < len
                invariant
                    i <= len == output@.len(),
                    forall|j: int| 0 <= j < i ==> #[trigger] output@[j] == 0i32,
                decreases len - i,
            {
                output[i] = 0;
                i = i + 1;
            }
            self.level = 0;
            proof {
                assert(output@ =~= Seq::new(len as nat, |i: int| 0i32));
            }
            return;
        }
        let note: MidiNote = self.voice.get_note().unwrap();
        let frequency: u64 = self.tuner.frequency_of(note);
        let rate: u128 = (sample_rate as u128) * (MILLIHERTZ_PER_HERTZ as u128);
        let increment: u64 = (((frequency as u128) * (PHASE_PERIOD as u128) / rate) % (
        PHASE_PERIOD as u128)) as u64;
        let attack: u64 = self.envelope.attack_increment(sample_rate);
        let decay: u64 = self.envelope.decay_increment(sample_rate);
        let release: u64 = self.envelope.release_decrement(sample_rate);
        let table: &Wavetable = bank.get(self.oscillator);
        let ghost start: RenderState = *self;
        let ghost t: Seq<i32> = table@;
        proof {
            assert(increment == start.increment(sample_rate as int));
            assert(bank.table(start.oscillator).wf());
        }
        let mut i: usize = 0;
        while i < len
            invariant
                i <= len == output@.len(),
                table_wf(t),
                t == table@,
                t == bank.table(start.oscillator)@,
                start.wf(),
                sample_rate > 0,
                increment < PHASE_PERIOD,
                increment == start.increment(sample_rate as int),
                *self == start.after(increment as int, sample_rate as int, i as nat),
                self.wf(),
                self.envelope == start.envelope,
                self.oscillator == start.oscillator,
                attack as int == start.envelope.attack_rate(sample_rate as int),
                decay as int == start.envelope.decay_rate(sample_rate as int),
                release as int == start.envelope.release_rate(sample_rate as int),
                forall|j: int|
                    0 <= j < i ==> #[trigger] output@[j] == start.rendered(
                        t,
                        increment as int,
                        sample_rate as int,
                        i as nat,
                    )[j],
                start.rendered(t, increment as int, sample_rate as int, i as nat).len() == i,
                forall|j: int| 0 <= j < i ==> -SAMPLE_ONE <= #[trigger] output@[j] <= SAMPLE_ONE,
            decreases len - i,
        {
            let value: i32 = table.at(self.phase);
            let sample: i32 = scale(value, self.level, self.master_gain);
            output[i] = sample;
            self.step(increment, sample_rate, attack, decay, release);
            proof {
                let r0 = start.rendered(t, increment as int, sample_rate as int, i as nat);
                let r1 = start.rendered(t, increment as int, sample_rate as int, (i + 1) as nat);
                assert(r1 == r0.push(sample));
            }
            i = i + 1;
        }
        proof {
            assert(output@ =~= start.rendered(t, increment as int, sample_rate as int, len as nat));
        }
    }
}

/// An amplitude scaled by an envelope level and a master gain.
fn scale(amplitude: i32, level: u64, gain: u64) -> (r: i32)
    requires
        -SAMPLE_ONE <= amplitude <= SAMPLE_ONE,
        level <= LEVEL_ONE,
        gain <= GAIN_ONE,
    ensures
        r as int == scaled(amplitude as int, level as int, gain as int),
        -SAMPLE_ONE <= r <= SAMPLE_ONE,
{
    let a: i128 = amplitude as i128;
    let l: i128 = level as i128;
    let g: i128 = gain as i128;
    let one: i128 = (LEVEL_ONE as i128) * (GAIN_ONE as i128);
    proof {
        let h = SAMPLE_ONE as int;
        assert(0 <= l * g <= one) by (nonlinear_arith)
            requires 0 <= l <= LEVEL_ONE, 0 <= g <= GAIN_ONE, one == LEVEL_ONE * GAIN_ONE;
        assert(-h * one <= a * (l * g) <= h * one) by (nonlinear_arith)
            requires -h <= a <= h, 0 <= l * g <= one, h > 0;
        assert(a * l * g == a * (l * g)) by (nonlinear_arith);
        lemma_div_is_ordered(-h * one, a * l * g, one as int);
        lemma_div_is_ordered(a * l * g, h * one, one as int);
        assert(-h * one == one * (-h) && h * one == one * h) by (nonlinear_arith);
        lemma_div_multiples_vanish(-h, one as int);
        lemma_div_multiples_vanish(h, one as int);
    }
    let r: i128 = floor_div(a * (l * g), one);
    r as i32
}

/// One output sample keeps a well-formed state well-formed.
pub proof fn lemma_stepped_wf(s: RenderState, increment: int, sample_rate: int)
    requires
        s.wf(),
        sample_rate > 0,
    ensures
        s.stepped(increment, sample_rate).wf(),
{
    let p = PHASE_PERIOD as int;
    lemma_mod_bound(s.phase + increment, p);
}

/// Any number of output samples keeps a well-formed state well-formed.
pub proof fn lemma_after_wf(s: RenderState, increment: int, sample_rate: int, n: nat)
    requires
        s.wf(),
        sample_rate > 0,
    ensures
        s.after(increment, sample_rate, n).wf(),
    decreases n,
{
    if n > 0 {
        lemma_after_wf(s, increment, sample_rate, (n - 1) as nat);
        lemma_stepped_wf(s.after(increment, sample_rate, (n - 1) as nat), increment, sample_rate);
    }
}

/// While a note is in its attack, no output sample lowers the envelope level.
pub proof fn lemma_attack_never_falls(s: RenderState, increment: int, sample_rate: int)
    requires
        s.wf(),
        sample_rate > 0,
        s.voice is Attacking,
    ensures
        s.stepped(increment, sample_rate).level >= s.level,
{
}

/// From a key press on, the envelope level does not fall for as long as the
/// attack lasts: between any two sample counts within the attack, the later
/// level is at least the earlier one.
pub proof fn lemma_attack_rises(
    s: RenderState,
    note: MidiNote,
    increment: int,
    sample_rate: int,
    i: nat,
    j: nat,
)
    requires
        s.wf(),
        sample_rate > 0,
        i <= j,
        forall|k: nat|
            i <= k < j ==> #[trigger] s.applied(ControlMessage::NoteOn(note)).after(
                increment,
                sample_rate,
                k,
            ).voice is Attacking,
    ensures
        s.applied(ControlMessage::NoteOn(note)).after(increment, sample_rate, i).level
            <= s.applied(ControlMessage::NoteOn(note)).after(increment, sample_rate, j).level,
    decreases j - i,
{
    let start = s.applied(ControlMessage::NoteOn(note));
    if i < j {
        lemma_attack_rises(s, note, increment, sample_rate, i, (j - 1) as nat);
        let prev = start.after(increment, sample_rate, (j - 1) as nat);
        lemma_after_wf(start, increment, sample_rate, (j - 1) as nat);
        assert(prev.voice is Attacking);
        lemma_attack_never_falls(prev, increment, sample_rate);
    }
}

/// During a release, each output sample leaves the level where it was or
/// lowers it, and the voice either stays in its release or falls silent,
/// which happens only once the level is 0.
pub proof fn lemma_release_step(s: RenderState, note: MidiNote, increment: int, sample_rate: int)
    requires
        s.wf(),
        sample_rate > 0,
        s.voice == VoiceState::Releasing(note),
    ensures
        s.stepped(increment, sample_rate).level <= s.level,
        s.stepped(increment, sample_rate).voice == VoiceState::Releasing(note) || (s.stepped(
            increment,
            sample_rate,
        ).voice == VoiceState::Idle && s.level == 0),
{
}

/// Releasing a sustained note: from the key's release on, the envelope level
/// never rises, and the voice stays in its release until it falls silent with
/// the level at 0.
pub proof fn lemma_release_falls(
    s: RenderState,
    note: MidiNote,
    increment: int,
    sample_rate: int,
    i: nat,
    j: nat,
)
    requires
        s.wf(),
        sample_rate > 0,
        s.voice == VoiceState::Sustaining(note),
        i <= j,
    ensures
        s.applied(ControlMessage::NoteOff(note)).after(increment, sample_rate, j).level
            <= s.applied(ControlMessage::NoteOff(note)).after(increment, sample_rate, i).level,
        s.applied(ControlMessage::NoteOff(note)).after(increment, sample_rate, j).voice
            == VoiceState::Releasing(note) || (s.applied(ControlMessage::NoteOff(note)).after(
            increment,
            sample_rate,
            j,
        ).voice == VoiceState::Idle && s.applied(ControlMessage::NoteOff(note)).after(
            increment,
            sample_rate,
            j,
        ).level == 0),
    decreases j,
{
    let start = s.applied(ControlMessage::NoteOff(note));
    assert(start.voice == VoiceState::Releasing(note));
    if j > 0 {
        let jm = (j - 1) as nat;
        let prev = start.after(increment, sample_rate, jm);
        lemma_after_wf(start, increment, sample_rate, jm);
        if i < j {
            lemma_release_falls(s, note, increment, sample_rate, i, jm);
        } else {
            lemma_release_falls(s, note, increment, sample_rate, jm, jm);
        }
        if prev.voice == VoiceState::Releasing(note) {
            lemma_release_step(prev, note, increment, sample_rate);
        }
    }
}

/// `n + 1` samples from a state are `n` samples from its successor.
proof fn lemma_after_succ(s: RenderState, increment: int, sample_rate: int, n: nat)
    ensures
        s.after(increment, sample_rate, n + 1) == s.stepped(increment, sample_rate).after(
            increment,
            sample_rate,
            n,
        ),
    decreases n,
{
    let t = s.stepped(increment, sample_rate);
    assert(s.after(increment, sample_rate, n + 1) == s.after(increment, sample_rate, n).stepped(
        increment,
        sample_rate,
    ));
    if n > 0 {
        lemma_after_succ(s, increment, sample_rate, (n - 1) as nat);
        assert(t.after(increment, sample_rate, n) == t.after(
            increment,
            sample_rate,
            (n - 1) as nat,
        ).stepped(increment, sample_rate));
    } else {
        assert(s.after(increment, sample_rate, 0) == s);
        assert(t.after(increment, sample_rate, 0) == t);
    }
}

/// Every release ends: after some number `k` of output samples the voice is
/// silent.
pub proof fn lemma_release_ends(
    s: RenderState,
    note: MidiNote,
    increment: int,
    sample_rate: int,
) -> (k: nat)
    requires
        s.wf(),
        sample_rate > 0,
        s.voice == VoiceState::Releasing(note),
    ensures
        s.after(increment, sample_rate, k).voice == VoiceState::Idle,
    decreases (s.level + 1) * UPDATE_PERIOD + (UPDATE_PERIOD - 1 - s.update_timer),
{
    let t = s.stepped(increment, sample_rate);
    lemma_stepped_wf(s, increment, sample_rate);
    lemma_release_step(s, note, increment, sample_rate);
    lemma_after_succ(s, increment, sample_rate, 0);
    if t.voice == VoiceState::Idle {
        1
    } else {
        assert(s.envelope.release_rate(sample_rate) >= 1);
        let k = lemma_release_ends(t, note, increment, sample_rate);
        lemma_after_succ(s, increment, sample_rate, k);
        k + 1
    }
}

/// A key release for a note other than the one that sounds changes nothing:
/// a stale release cannot cut off a newer note.
pub proof fn lemma_stale_note_off(s: RenderState, note: MidiNote)
    requires
        s.voice.note_spec() != Some(note),
    ensures
        s.applied(ControlMessage::NoteOff(note)) == s,
{
}

/// A key press while a note is held starts the attack of the new note from
/// the current level, without dropping it to 0.
pub proof fn lemma_retrigger_keeps_level(s: RenderState, held: MidiNote, note: MidiNote)
    requires
        s.voice == VoiceState::Sustaining(held),
    ensures
        s.applied(ControlMessage::NoteOn(note)).voice == VoiceState::Attacking(note),
        s.applied(ControlMessage::NoteOn(note)).level == s.level,
{
}

} // verus!
