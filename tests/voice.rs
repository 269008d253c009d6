use std::f64::consts::TAU;

use wavevoice::envelope::{DEFAULT_SUSTAIN, LEVEL_ONE};
use wavevoice::event::{ControlMessage, Event, EventKind};
use wavevoice::midi::MidiNote;
use wavevoice::voice::{RenderState, VoiceState, DEFAULT_GAIN, GAIN_ONE, UPDATE_PERIOD};
use wavevoice::wavetable::{Wavetable, WavetableBank, WavetableKind, PHASE_PERIOD, SAMPLE_ONE};

const RATE: u32 = 48_000;

fn sine_table(size: usize) -> Wavetable {
    let samples: Vec<i32> = (0..size)
        .map(|i| ((TAU * i as f64 / size as f64).sin() * SAMPLE_ONE as f64).round() as i32)
        .collect();
    Wavetable::new(samples).unwrap()
}

fn sine_bank() -> WavetableBank {
    WavetableBank::new(
        sine_table(256),
        sine_table(256),
        sine_table(256),
        sine_table(256),
        sine_table(256),
        sine_table(256),
    )
}

fn a4() -> MidiNote {
    MidiNote::new(69)
}

fn render(state: &mut RenderState, bank: &WavetableBank, n: usize) -> Vec<i32> {
    let mut out = vec![7; n];
    state.render(bank, &mut out, RATE);
    out
}

#[test]
fn new_voice_is_silent() {
    let s = RenderState::new();
    assert_eq!(s.voice, VoiceState::Idle);
    assert_eq!(s.level, 0);
    assert_eq!(s.master_gain, DEFAULT_GAIN);
    assert_eq!(s.oscillator, WavetableKind::Triangle);
}

#[test]
fn idle_voice_writes_silence() {
    let bank = sine_bank();
    let mut s = RenderState::new();
    let out = render(&mut s, &bank, 64);
    assert_eq!(out, vec![0; 64]);
    assert_eq!(s, RenderState::new());
}

#[test]
fn get_note_of_each_state() {
    assert_eq!(VoiceState::Idle.get_note(), None);
    assert_eq!(VoiceState::Attacking(a4()).get_note(), Some(a4()));
    assert_eq!(VoiceState::Decaying(a4()).get_note(), Some(a4()));
    assert_eq!(VoiceState::Sustaining(a4()).get_note(), Some(a4()));
    assert_eq!(VoiceState::Releasing(a4()).get_note(), Some(a4()));
}

#[test]
fn events_become_messages() {
    let on = Event::note_on(a4());
    assert_eq!(on.kind, EventKind::NoteOn);
    assert_eq!(on.message(), ControlMessage::NoteOn(a4()));
    let off = Event::note_off(a4());
    assert_eq!(off.message(), ControlMessage::NoteOff(a4()));
    let e = Event::new(MidiNote::new(3), EventKind::NoteOff);
    assert_eq!(e.note, MidiNote::new(3));
    assert_eq!(e.message(), ControlMessage::NoteOff(MidiNote::new(3)));
}

#[test]
fn settings_messages_are_clamped() {
    let mut s = RenderState::new();
    s.apply(ControlMessage::SetMasterGain(GAIN_ONE * 4));
    assert_eq!(s.master_gain, GAIN_ONE);
    s.apply(ControlMessage::SetAttackMs(0));
    assert_eq!(s.envelope.attack_ms, 1);
    s.apply(ControlMessage::SetDecayMs(250));
    assert_eq!(s.envelope.decay_ms, 250);
    s.apply(ControlMessage::SetReleaseMs(0));
    assert_eq!(s.envelope.release_ms, 1);
    s.apply(ControlMessage::SetSustain(LEVEL_ONE + 1));
    assert_eq!(s.envelope.sustain, LEVEL_ONE);
    s.apply(ControlMessage::SelectOscillator(WavetableKind::Square));
    assert_eq!(s.oscillator, WavetableKind::Square);
    s.apply(ControlMessage::TuneOctaveUp);
    assert_eq!(s.tuner.octave_shift, 1);
    s.apply(ControlMessage::TuneOctaveDown);
    s.apply(ControlMessage::TuneOctaveDown);
    assert_eq!(s.tuner.octave_shift, -1);
}

#[test]
fn stale_note_off_is_ignored() {
    let mut s = RenderState::new();
    s.apply(ControlMessage::NoteOn(a4()));
    let before = s;
    s.apply(ControlMessage::NoteOff(MidiNote::new(70)));
    assert_eq!(s, before);
    assert_eq!(s.voice, VoiceState::Attacking(a4()));
}

#[test]
fn note_off_when_idle_is_ignored() {
    let mut s = RenderState::new();
    s.apply(ControlMessage::NoteOff(a4()));
    assert_eq!(s, RenderState::new());
}

#[test]
fn retrigger_keeps_level() {
    let bank = sine_bank();
    let mut s = RenderState::new();
    s.apply(ControlMessage::NoteOn(a4()));
    render(&mut s, &bank, 9_600);
    assert_eq!(s.voice, VoiceState::Sustaining(a4()));
    let level = s.level;
    assert_eq!(level, DEFAULT_SUSTAIN);
    s.apply(ControlMessage::NoteOn(MidiNote::new(72)));
    assert_eq!(s.voice, VoiceState::Attacking(MidiNote::new(72)));
    assert_eq!(s.level, level);
    render(&mut s, &bank, UPDATE_PERIOD as usize);
    assert!(s.level > level);
}

#[test]
fn attack_never_lowers_level() {
    let bank = sine_bank();
    let mut s = RenderState::new();
    s.apply(ControlMessage::NoteOn(a4()));
    let mut last = s.level;
    let mut samples = 0;
    while matches!(s.voice, VoiceState::Attacking(_)) {
        render(&mut s, &bank, 1);
        samples += 1;
        assert!(s.level >= last);
        last = s.level;
        assert!(samples < 1_000);
    }
    assert_eq!(s.voice, VoiceState::Decaying(a4()));
    assert_eq!(s.level, LEVEL_ONE);
    // 5 ms at 48 kHz is 240 samples, plus one update to notice the top.
    assert!((240..=250).contains(&samples), "{samples}");
}

#[test]
fn release_only_lowers_level_then_idles() {
    let bank = sine_bank();
    let mut s = RenderState::new();
    s.apply(ControlMessage::NoteOn(a4()));
    render(&mut s, &bank, 9_600);
    s.apply(ControlMessage::NoteOff(a4()));
    assert_eq!(s.voice, VoiceState::Releasing(a4()));
    let mut last = s.level;
    while s.voice != VoiceState::Idle {
        render(&mut s, &bank, 1);
        assert!(s.level <= last);
        last = s.level;
    }
    assert_eq!(s.level, 0);
    assert_eq!(s.phase, 0);
}

#[test]
fn end_to_end_a4() {
    let bank = sine_bank();
    let mut s = RenderState::new();
    s.apply(ControlMessage::SelectOscillator(WavetableKind::Saw));
    s.apply(ControlMessage::NoteOn(a4()));

    // Attack (5 ms) and decay (100 ms) fit in 200 ms.
    for _ in 0..20 {
        render(&mut s, &bank, 480);
    }
    assert_eq!(s.voice, VoiceState::Sustaining(a4()));
    assert_eq!(s.level, DEFAULT_SUSTAIN);

    // A 440 Hz sine at 0.7 times the master gain.
    let phase0 = s.phase;
    let out = render(&mut s, &bank, 480);
    let increment: u64 = 39_370_533;
    assert_eq!(s.phase, (phase0 + 480 * increment) % PHASE_PERIOD);
    assert!((increment as f64 * RATE as f64 / PHASE_PERIOD as f64 - 440.0).abs() < 0.001);
    let amplitude = 0.7 * (DEFAULT_GAIN as f64 / GAIN_ONE as f64) * SAMPLE_ONE as f64;
    for (i, &v) in out.iter().enumerate() {
        let p = (phase0 + i as u64 * increment) % PHASE_PERIOD;
        let expected = (TAU * p as f64 / PHASE_PERIOD as f64).sin() * amplitude;
        assert!((v as f64 - expected).abs() < 0.001 * SAMPLE_ONE as f64, "sample {i}");
    }
    let peak = out.iter().map(|v| v.abs()).max().unwrap() as f64;
    assert!((peak - amplitude).abs() < 0.002 * SAMPLE_ONE as f64);

    // Release: a straight fall to 0, then silence.
    s.apply(ControlMessage::NoteOff(a4()));
    let start = s.level;
    let mut samples: u64 = 0;
    while s.voice != VoiceState::Idle {
        render(&mut s, &bank, UPDATE_PERIOD as usize);
        samples += UPDATE_PERIOD;
        if s.voice != VoiceState::Idle && s.level > 0 {
            let expected = start as f64 - samples as f64 * LEVEL_ONE as f64 / (0.150 * RATE as f64);
            assert!((s.level as f64 - expected).abs() < 0.01 * LEVEL_ONE as f64);
        }
        assert!(samples < 10_000);
    }
    // The release covers 0.7 of full level at the rate of 150 ms per full level.
    let ms = samples as f64 * 1000.0 / RATE as f64;
    assert!((ms - 105.0).abs() < 2.0, "{ms}");
    assert_eq!(render(&mut s, &bank, 480), vec![0; 480]);

    // A second release of the same note changes nothing.
    let before = s;
    s.apply(ControlMessage::NoteOff(a4()));
    assert_eq!(s, before);
}

#[test]
fn octave_up_doubles_the_rendered_pitch() {
    let bank = sine_bank();
    let mut plain = RenderState::new();
    plain.apply(ControlMessage::NoteOn(a4()));
    let mut shifted = RenderState::new();
    shifted.apply(ControlMessage::TuneOctaveUp);
    shifted.apply(ControlMessage::NoteOn(a4()));
    render(&mut plain, &bank, 1);
    render(&mut shifted, &bank, 1);
    assert_eq!(plain.phase, 39_370_533);
    assert_eq!(shifted.phase, 78_741_067);
}
