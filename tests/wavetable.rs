use std::f64::consts::TAU;
use std::io::Cursor;

use wavevoice::math::{lerp, FRACTION_ONE};
use wavevoice::wavetable::{
    wrapped_increment, Wavetable, WavetableBank, WavetableKind, HEADROOM, PHASE_PERIOD,
    SAMPLE_ONE,
};

fn sine_table(size: usize) -> Wavetable {
    let samples: Vec<i32> = (0..size)
        .map(|i| ((TAU * i as f64 / size as f64).sin() * SAMPLE_ONE as f64).round() as i32)
        .collect();
    Wavetable::new(samples).unwrap()
}

fn table_of(samples: &[i32]) -> Wavetable {
    Wavetable::new(samples.to_vec()).unwrap()
}

fn samples_of(t: &Wavetable) -> Vec<i32> {
    (0..t.len()).map(|i| t.sample(i)).collect()
}

#[test]
fn wrapped_increment_wraps_at_max() {
    assert_eq!(wrapped_increment(3, 7), 4);
    assert_eq!(wrapped_increment(7, 7), 0);
    assert_eq!(wrapped_increment(0, 0), 0);
}

#[test]
fn lerp_endpoints_and_middle() {
    assert_eq!(lerp(0, -100, 300), -100);
    assert_eq!(lerp(FRACTION_ONE, -100, 300), 300);
    assert_eq!(lerp(FRACTION_ONE / 2, -100, 300), 100);
    assert_eq!(lerp(FRACTION_ONE / 4, 0, -3), -1);
}

#[test]
fn lookup_at_zero_is_first_sample() {
    let t = table_of(&[123, -456, 789]);
    assert_eq!(t.at(0), 123);
    let s = sine_table(256);
    assert_eq!(s.at(0), 0);
}

#[test]
fn lookup_is_periodic() {
    let t = sine_table(256);
    for p in [0u64, 1, 12_345, PHASE_PERIOD / 3, PHASE_PERIOD - 1] {
        for k in [1u64, 2, 7, 1000] {
            assert_eq!(t.at(p), t.at(p + k * PHASE_PERIOD));
        }
    }
}

#[test]
fn lookup_wraps_toward_first_sample() {
    let t = table_of(&[1000, 0, 0, -1000]);
    // Index 3.5: halfway from the last sample back to the first.
    assert_eq!(t.at(PHASE_PERIOD / 8 * 7), 0);
    // Index 3.75.
    assert_eq!(t.at(PHASE_PERIOD / 16 * 15), 500);
    // Index 1.5: between two inner samples.
    assert_eq!(t.at(PHASE_PERIOD / 8 * 3), 0);
    assert_eq!(t.at(PHASE_PERIOD / 4 * 3), -1000);
}

#[test]
fn sine_lookup_follows_sine() {
    let t = sine_table(256);
    for k in 0..1000u64 {
        let p = k * (PHASE_PERIOD / 1000);
        let expected = (TAU * p as f64 / PHASE_PERIOD as f64).sin() * SAMPLE_ONE as f64;
        let got = t.at(p) as f64;
        assert!((got - expected).abs() < 0.001 * SAMPLE_ONE as f64, "phase {p}");
    }
}

#[test]
fn new_rejects_short_or_loud_tables() {
    assert!(Wavetable::new(vec![5]).is_none());
    assert!(Wavetable::new(vec![]).is_none());
    assert!(Wavetable::new(vec![0, SAMPLE_ONE + 1]).is_none());
    assert!(Wavetable::new(vec![-SAMPLE_ONE, SAMPLE_ONE]).is_some());
}

#[test]
fn normalization_brings_peak_to_headroom() {
    let t = Wavetable::from_samples(vec![100, -200, 50, 0]);
    assert_eq!(samples_of(&t), vec![HEADROOM / 2, -HEADROOM, 2_936_012, 0]);
}

#[test]
fn normalization_of_normalized_table_changes_nothing() {
    let raw = vec![HEADROOM, -12, 0, -HEADROOM, 777_777];
    let t = Wavetable::from_samples(raw.clone());
    assert_eq!(samples_of(&t), raw);
    let again = Wavetable::from_samples(samples_of(&t));
    assert_eq!(samples_of(&again), raw);
}

#[test]
fn normalization_keeps_silence() {
    let t = Wavetable::from_samples(vec![0, 0, 0]);
    assert_eq!(samples_of(&t), vec![0, 0, 0]);
}

#[test]
fn normalization_of_extreme_integers() {
    let t = Wavetable::from_samples(vec![i32::MIN, i32::MAX, 0]);
    assert_eq!(samples_of(&t), vec![-HEADROOM, HEADROOM - 1, 0]);
}

fn wav_image(samples: &[i32], bits: u16) -> Vec<u8> {
    let spec = hound::WavSpec {
        channels: 1,
        sample_rate: 48_000,
        bits_per_sample: bits,
        sample_format: hound::SampleFormat::Int,
    };
    let mut cursor = Cursor::new(Vec::new());
    {
        let mut writer = hound::WavWriter::new(&mut cursor, spec).unwrap();
        for &s in samples {
            writer.write_sample(s).unwrap();
        }
        writer.finalize().unwrap();
    }
    cursor.into_inner()
}

#[test]
fn wav_image_is_decoded_and_normalized() {
    let bytes = wav_image(&[1000, -2000, 500, 0], 16);
    let t = Wavetable::from_wav(&bytes).unwrap();
    assert_eq!(samples_of(&t), vec![HEADROOM / 2, -HEADROOM, 2_936_012, 0]);
}

#[test]
fn wav_image_of_one_sample_is_refused() {
    let bytes = wav_image(&[1000], 16);
    assert!(Wavetable::from_wav(&bytes).is_none());
}

#[test]
fn bytes_that_are_not_wav_are_refused() {
    assert!(Wavetable::from_wav(&[1, 2, 3, 4, 5, 6, 7, 8]).is_none());
    assert!(Wavetable::from_wav(&[]).is_none());
}

#[test]
fn float_wav_is_not_read_as_integers() {
    let spec = hound::WavSpec {
        channels: 1,
        sample_rate: 48_000,
        bits_per_sample: 32,
        sample_format: hound::SampleFormat::Float,
    };
    let mut cursor = Cursor::new(Vec::new());
    {
        let mut writer = hound::WavWriter::new(&mut cursor, spec).unwrap();
        writer.write_sample(0.5f32).unwrap();
        writer.write_sample(-0.5f32).unwrap();
        writer.finalize().unwrap();
    }
    assert!(Wavetable::from_wav(&cursor.into_inner()).is_none());
}

#[test]
fn bank_returns_the_table_of_each_kind() {
    let bank = WavetableBank::new(
        table_of(&[1, 0]),
        table_of(&[2, 0]),
        table_of(&[3, 0]),
        table_of(&[4, 0]),
        table_of(&[5, 0]),
        table_of(&[6, 0]),
    );
    let kinds = [
        WavetableKind::Triangle,
        WavetableKind::TriangleSaw,
        WavetableKind::Saw,
        WavetableKind::Square,
        WavetableKind::PulseWide,
        WavetableKind::PulseNarrow,
    ];
    for (i, k) in kinds.iter().enumerate() {
        assert_eq!(bank.get(*k).sample(0), i as i32 + 1);
    }
}

#[test]
fn kind_names_and_paths() {
    assert_eq!(WavetableKind::PulseWide.name(), "PWM Wide");
    assert_eq!(WavetableKind::Triangle.name(), "Triangle");
    assert_eq!(
        WavetableKind::Saw.path(),
        "./assets/wavetables/mini_saw_wavetable.wav"
    );
}
