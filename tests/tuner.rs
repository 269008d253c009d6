use wavevoice::midi::MidiNote;
use wavevoice::tuner::{Tuner, OCTAVE_SHIFT_MAX};

#[test]
fn default_tuning_is_a440() {
    let t = Tuner::default();
    assert_eq!(t.octave_shift, 0);
    assert_eq!(t.frequency_of(MidiNote::new(69)), 440_000);
}

#[test]
fn octave_up_doubles_every_note() {
    let base = Tuner::default();
    let mut up = Tuner::default();
    up.octave_up();
    for n in 0..=127u8 {
        let f = base.frequency_of(MidiNote::new(n));
        let g = up.frequency_of(MidiNote::new(n));
        assert!(g == 2 * f || g == 2 * f + 1, "note {n}: {f} then {g}");
    }
    assert_eq!(up.frequency_of(MidiNote::new(69)), 880_000);
    assert_eq!(up.frequency_of(MidiNote::new(60)), 523_251);
}

#[test]
fn octave_down_halves() {
    let mut t = Tuner::default();
    t.octave_down();
    assert_eq!(t.frequency_of(MidiNote::new(69)), 220_000);
    assert_eq!(t.frequency_of(MidiNote::new(60)), 130_812);
}

#[test]
fn octave_shift_stops_at_its_bounds() {
    let mut t = Tuner::default();
    for _ in 0..40 {
        t.octave_up();
    }
    assert_eq!(t.octave_shift, OCTAVE_SHIFT_MAX);
    for _ in 0..80 {
        t.octave_down();
    }
    assert_eq!(t.octave_shift, -OCTAVE_SHIFT_MAX);
}

#[test]
fn extreme_notes_and_shifts_stay_representable() {
    let mut t = Tuner::default();
    for _ in 0..OCTAVE_SHIFT_MAX {
        t.octave_up();
    }
    assert_eq!(t.frequency_of(MidiNote::new(69)), 440_000 * 1024);
    assert_eq!(Tuner::default().frequency_of(MidiNote::new(255)), 20_390_040_000);
}
