use crate::arith::floor_div;
use crate::math::{lerp, lerp_spec, FRACTION_ONE};
use vstd::arithmetic::div_mod::*;
use vstd::prelude::*;

verus! {

/// Full-scale amplitude: the fixed-point value of 1.0.
pub const SAMPLE_ONE: i32 = 16777216;

/// Peak amplitude of a normalized table (0.7 of full scale), which leaves
/// margin against clipping.
pub const HEADROOM: i32 = 11744051;

/// One period of the oscillator phase: the fixed-point value of 2π.
pub const PHASE_PERIOD: u64 = 4294967296;

/// Absolute value.
pub open spec fn magnitude(x: int) -> int {
    if x < 0 {
        -x
    } else {
        x
    }
}

/// Infinite norm of a sequence of samples: the largest magnitude, 0 when empty.
pub open spec fn peak(s: Seq<i32>) -> int
    decreases s.len(),
{
    if s.len() == 0 {
        0
    } else {
        let p = peak(s.drop_last());
        let m = magnitude(s.last() as int);
        if m > p {
            m
        } else {
            p
        }
    }
}

/// A sample rescaled from infinite norm `norm` to `HEADROOM`, rounded down.
pub open spec fn rescale(x: int, norm: int) -> int {
    (HEADROOM * x) / norm
}

/// The table with its peak brought to `HEADROOM`; a silent table is kept as it is.
pub open spec fn normalized(s: Seq<i32>) -> Seq<i32> {
    let n = peak(s);
    if n > 0 {
        Seq::new(s.len(), |i: int| rescale(s[i] as int, n) as i32)
    } else {
        s
    }
}

/// A usable table: at least two samples, none beyond full scale.
pub open spec fn table_wf(s: Seq<i32>) -> bool {
    &&& s.len() >= 2
    &&& forall|i: int| 0 <= i < s.len() ==> -SAMPLE_ONE <= #[trigger] s[i] <= SAMPLE_ONE
}

/// Position of `phase` in table-index space, in units of `1 / PHASE_PERIOD`
/// of a sample: `len * (phase mod 2π) / 2π`.
pub open spec fn table_position(len: int, phase: int) -> int {
    (phase % (PHASE_PERIOD as int)) * len
}

/// Index of the sample at or before `phase`.
pub open spec fn lower_index(len: int, phase: int) -> int {
    table_position(len, phase) / (PHASE_PERIOD as int)
}

/// Fraction of the way from the lower sample to the next one.
pub open spec fn index_fraction(len: int, phase: int) -> int {
    table_position(len, phase) % (PHASE_PERIOD as int)
}

/// The table read at a phase of period `PHASE_PERIOD`, interpolated linearly
/// between the sample at or before it and the next one, wrapping at the end.
pub open spec fn lookup(s: Seq<i32>, phase: int) -> int {
    let lower = lower_index(s.len() as int, phase);
    let upper = (lower + 1) % (s.len() as int);
    lerp_spec(index_fraction(s.len() as int, phase), s[lower] as int, s[upper] as int)
}

/// The index after `n`, wrapping to 0 after `max`.
pub fn wrapped_increment(n: usize, max: usize) -> (r: usize)
    requires
        n <= max,
    ensures
        r == (if n == max {
            0
        } else {
            n + 1
        }),
{
    if n == max {
        0
    } else {
        n + 1
    }
}

proof fn lemma_peak_bounds(s: Seq<i32>)
    ensures
        peak(s) >= 0,
        forall|i: int| 0 <= i < s.len() ==> magnitude(#[trigger] s[i] as int) <= peak(s),
    decreases s.len(),
{
    if s.len() > 0 {
        lemma_peak_bounds(s.drop_last());
        assert forall|i: int| 0 <= i < s.len() implies magnitude(#[trigger] s[i] as int) <= peak(
            s,
        ) by {
            if i < s.len() - 1 {
                assert(s[i] == s.drop_last()[i]);
            }
        }
    }
}

proof fn lemma_rescale_bounds(x: int, n: int)
    requires
        0 < n,
        magnitude(x) <= n,
    ensures
        -HEADROOM <= rescale(x, n) <= HEADROOM,
{
    let h = HEADROOM as int;
    assert(-h * n <= h * x <= h * n) by (nonlinear_arith)
        requires -n <= x <= n, h > 0;
    lemma_div_is_ordered(-h * n, h * x, n);
    lemma_div_is_ordered(h * x, h * n, n);
    assert(-h * n == n * (-h) && h * n == n * h) by (nonlinear_arith);
    lemma_div_multiples_vanish(-h, n);
    lemma_div_multiples_vanish(h, n);
}

/// The integer samples, channels interleaved, that a WAV image holds; none
/// where the image is not a WAV image of integer samples.
pub uninterp spec fn wav_int_samples(bytes: Seq<u8>) -> Option<Seq<i32>>;

/// Relies on hound's `WavReader::new` and `into_samples::<i32>`: the image is
/// decoded from memory, and any error of either makes the result `None`.
#[verifier::external_body]
fn decode_int_samples(bytes: &[u8]) -> (r: Option<Vec<i32>>)
    ensures
        wav_int_samples(bytes@) == (match r {
            Some(v) => Some(v@),
            None => None,
        }),
{
    let reader = hound::WavReader::new(std::io::Cursor::new(bytes)).ok()?;
    reader.into_samples::<i32>().collect::<Result<Vec<i32>, hound::Error>>().ok()
}

/// A cyclic table of amplitudes, read with linear interpolation.
#[derive(Clone, Debug)]
pub struct Wavetable {
    samples: Vec<i32>,
}

impl View for Wavetable {
    type V = Seq<i32>;

    closed spec fn view(&self) -> Seq<i32> {
        self.samples@
    }
}

impl Wavetable {
    pub open spec fn wf(&self) -> bool {
        table_wf(self@)
    }

    /// Takes samples as they are: `None` where there are fewer than two or
    /// one lies beyond full scale.
    pub fn new(samples: Vec<i32>) -> (r: Option<Wavetable>)
        ensures
            r is Some <==> table_wf(samples@),
            r is Some ==> r->0@ == samples@,
    {
        if samples.len() < 2 {
            return None;
        }
        let mut i: usize = 0;
        while i < samples.len()
            invariant
                i <= samples@.len(),
                forall|j: int| 0 <= j < i ==> -SAMPLE_ONE <= #[trigger] samples@[j] <= SAMPLE_ONE,
            decreases samples@.len() - i,
        {
            if samples[i] < -SAMPLE_ONE || samples[i] > SAMPLE_ONE {
                return None;
            }
            i = i + 1;
        }
        Some(Wavetable { samples })
    }

    /// Builds a table from raw samples, rescaled so that its peak is `HEADROOM`.
    pub fn from_samples(raw: Vec<i32>) -> (t: Wavetable)
        requires
            raw@.len() >= 2,
        ensures
            t@ == normalized(raw@),
            t.wf(),
    {
        let mut norm: i64 = 0;
        let mut i: usize = 0;
        while i < raw.len()
            invariant
                i <= raw@.len(),
                norm as int == peak(raw@.subrange(0, i as int)),
                0 <= norm <= 0x80000000,
            decreases raw@.len() - i,
        {
            let v: i64 = raw[i] as i64;
            let m: i64 = if v < 0 {
                -v
            } else {
                v
            };
            proof {
                assert(raw@.subrange(0, i + 1).drop_last() =~= raw@.subrange(0, i as int));
            }
            if m > norm {
                norm = m;
            }
            i = i + 1;
        }
        proof {
            assert(raw@.subrange(0, raw@.len() as int) =~= raw@);
            lemma_peak_bounds(raw@);
        }
        if norm == 0 {
            proof {
                assert forall|j: int| 0 <= j < raw@.len() implies -SAMPLE_ONE <= #[trigger] raw@[j]
                    <= SAMPLE_ONE by {
                    assert(magnitude(raw@[j] as int) <= 0);
                }
            }
            return Wavetable { samples: raw };
        }
        let mut out: Vec<i32> = Vec::new();
        let mut j: usize = 0;
        while j < raw.len()
            invariant
                j <= raw@.len(),
                norm as int == peak(raw@),
                norm > 0,
                out@.len() == j,
                forall|k: int|
                    0 <= k < j ==> #[trigger] out@[k] as int == rescale(
                        raw@[k] as int,
                        norm as int,
                    ),
                forall|k: int|
                    0 <= k < raw@.len() ==> magnitude(#[trigger] raw@[k] as int) <= peak(raw@),
            decreases raw@.len() - j,
        {
            let v: i128 = raw[j] as i128;
            proof {
                assert(magnitude(raw@[j as int] as int) <= norm);
                lemma_rescale_bounds(v as int, norm as int);
                let h = HEADROOM as int;
                assert(-0x80000000 * h <= h * v <= 0x80000000 * h) by (nonlinear_arith)
                    requires -0x80000000 <= v <= 0x80000000, h > 0;
            }
            let r: i128 = floor_div((HEADROOM as i128) * v, norm as i128);
            out.push(r as i32);
            j = j + 1;
        }
        let t = Wavetable { samples: out };
        proof {
            assert(t@ =~= normalized(raw@));
            assert forall|k: int| 0 <= k < t@.len() implies -SAMPLE_ONE <= #[trigger] t@[k]
                <= SAMPLE_ONE by {
                lemma_rescale_bounds(raw@[k] as int, norm as int);
            }
        }
        t
    }

    /// Builds a table from a WAV image of integer samples: `None` where the
    /// image cannot be decoded so or holds fewer than two samples.
    pub fn from_wav(bytes: &[u8]) -> (r: Option<Wavetable>)
        ensures
            r is Some <==> (wav_int_samples(bytes@) is Some && wav_int_samples(bytes@)->0.len()
                >= 2),
            r is Some ==> r->0@ == normalized(wav_int_samples(bytes@)->0) && r->0.wf(),
    {
        match decode_int_samples(bytes) {
            Some(samples) => {
                if samples.len() >= 2 {
                    Some(Wavetable::from_samples(samples))
                } else {
                    None
                }
            },
            None => None,
        }
    }

    /// Number of samples in the table.
    pub fn len(&self) -> (r: usize)
        ensures
            r == self@.len(),
    {
        self.samples.len()
    }

    /// The sample at `i`.
    pub fn sample(&self, i: usize) -> (r: i32)
        requires
            i < self@.len(),
        ensures
            r == self@[i as int],
    {
        self.samples[i]
    }

    /// Amplitude at `phase`, taken modulo `PHASE_PERIOD`.
    pub fn at(&self, phase: u64) -> (r: i32)
        requires
            self.wf(),
        ensures
            r as int == lookup(self@, phase as int),
            -SAMPLE_ONE <= r <= SAMPLE_ONE,
    {
        let size: usize = self.samples.len();
        let pm: u64 = phase % PHASE_PERIOD;
        proof {
            assert(pm * size < PHASE_PERIOD * size) by (nonlinear_arith)
                requires pm < PHASE_PERIOD, size > 0;
            assert(pm * size <= 0x100000000 * 0xffffffffffffffff) by (nonlinear_arith)
                requires pm < PHASE_PERIOD, size <= 0xffffffffffffffff;
        }
        let pos: u128 = (pm as u128) * (size as u128);
        let lower: u128 = pos / (PHASE_PERIOD as u128);
        let frac: u128 = pos % (PHASE_PERIOD as u128);
        proof {
            lemma_fundamental_div_mod(pos as int, PHASE_PERIOD as int);
            assert(lower < size) by (nonlinear_arith)
                requires
                    pos == PHASE_PERIOD * lower + frac,
                    0 <= frac,
                    pos < PHASE_PERIOD * size,
                    PHASE_PERIOD > 0,
            ;
        }
        let lower: usize = lower as usize;
        let upper: usize = wrapped_increment(lower, size - 1);
        proof {
            if lower == size - 1 {
                lemma_mod_self_0(size as int);
            } else {
                lemma_small_mod((lower + 1) as nat, size as nat);
            }
        }
        let a: i32 = self.samples[lower];
        let b: i32 = self.samples[upper];
        lerp(frac as u64, a, b)
    }
}

/// Reading the table is periodic: whole periods added to the phase change nothing.
pub proof fn lemma_lookup_periodic(s: Seq<i32>, phase: int, k: int)
    requires
        table_wf(s),
    ensures
        lookup(s, phase + k * PHASE_PERIOD) == lookup(s, phase),
{
    lemma_mod_multiples_vanish(k, phase, PHASE_PERIOD as int);
    assert(k * PHASE_PERIOD + phase == PHASE_PERIOD * k + phase) by (nonlinear_arith);
}

/// At phase 0 the table gives its first sample; in the last interval before
/// the wrap it interpolates from the last sample toward the first one.
pub proof fn lemma_lookup_boundary(s: Seq<i32>, phase: int)
    requires
        table_wf(s),
    ensures
        lookup(s, 0) == s[0],
        lower_index(s.len() as int, phase) == s.len() - 1 ==> lookup(s, phase) == lerp_spec(
            index_fraction(s.len() as int, phase),
            s[s.len() - 1] as int,
            s[0] as int,
        ),
        0 <= lower_index(s.len() as int, phase) < s.len(),
{
    let len = s.len() as int;
    let p = PHASE_PERIOD as int;
    assert(0int % p == 0);
    assert(table_position(len, 0) == 0);
    assert(index_fraction(len, 0) == 0);
    assert(lower_index(len, 0) == 0);
    lemma_small_mod(1, len as nat);
    assert(lerp_spec(0, s[0] as int, s[1] as int) == s[0]) by {
        assert((0 * (s[1] as int) + (FRACTION_ONE - 0) * (s[0] as int)) == p * s[0])
            by (nonlinear_arith)
            requires p == FRACTION_ONE;
        lemma_div_multiples_vanish(s[0] as int, p);
    }
    lemma_mod_self_0(len);
    let pm = phase % p;
    lemma_mod_bound(phase, p);
    assert(0 <= pm * len < p * len) by (nonlinear_arith)
        requires 0 <= pm < p, len > 0;
    lemma_div_pos_is_pos(pm * len, p);
    lemma_fundamental_div_mod(pm * len, p);
    lemma_mod_bound(pm * len, p);
    let lo = (pm * len) / p;
    assert(lo < len) by (nonlinear_arith)
        requires
            pm * len == p * lo + (pm * len) % p,
            0 <= (pm * len) % p,
            pm * len < p * len,
            p > 0,
    ;
}

/// Idempotence of normalization: a table whose peak already is `HEADROOM`
/// is left as it is.
pub proof fn lemma_normalized_at_headroom(s: Seq<i32>)
    requires
        peak(s) == HEADROOM,
    ensures
        normalized(s) == s,
{
    assert forall|i: int| 0 <= i < s.len() implies #[trigger] normalized(s)[i] == s[i] by {
        let x = s[i] as int;
        lemma_div_multiples_vanish(x, HEADROOM as int);
    }
    assert(normalized(s) =~= s);
}

proof fn lemma_peak_attained(s: Seq<i32>) -> (i: int)
    requires
        s.len() > 0,
    ensures
        0 <= i < s.len(),
        magnitude(s[i] as int) == peak(s),
    decreases s.len(),
{
    let p = peak(s.drop_last());
    let m = magnitude(s.last() as int);
    if s.len() == 1 {
        assert(s.drop_last().len() == 0);
        0
    } else if m > p {
        s.len() - 1
    } else {
        lemma_peak_bounds(s.drop_last());
        if p == 0 {
            lemma_peak_bounds(s);
            s.len() - 1
        } else {
            let j = lemma_peak_attained(s.drop_last());
            assert(s[j] == s.drop_last()[j]);
            j
        }
    }
}

/// Normalizing twice is normalizing once: the peak of a normalized table
/// that is not silent is exactly `HEADROOM`.
pub proof fn lemma_normalize_idempotent(s: Seq<i32>)
    ensures
        normalized(normalized(s)) == normalized(s),
        peak(s) > 0 ==> peak(normalized(s)) == HEADROOM,
{
    let n = peak(s);
    if n > 0 {
        let t = normalized(s);
        let h = HEADROOM as int;
        lemma_peak_bounds(s);
        let i = lemma_peak_attained(s);
        assert(t[i] == rescale(s[i] as int, n) as i32);
        assert(h * n == n * h && h * (-n) == n * (-h)) by (nonlinear_arith);
        lemma_div_multiples_vanish(h, n);
        lemma_div_multiples_vanish(-h, n);
        assert(magnitude(t[i] as int) == h);
        lemma_peak_bounds(t);
        let j = lemma_peak_attained(t);
        lemma_rescale_bounds(s[j] as int, n);
        assert(t[j] == rescale(s[j] as int, n) as i32);
        assert(peak(t) == h);
        lemma_normalized_at_headroom(t);
    }
}

/// The oscillator shapes that a bank holds.
#[derive(Copy, Clone, Debug, PartialEq, Eq, Structural)]
pub enum WavetableKind {
    Triangle,
    TriangleSaw,
    Saw,
    Square,
    PulseWide,
    PulseNarrow,
}

impl WavetableKind {
    /// Where the table of this kind is stored.
    pub fn path(&self) -> &'static str {
        match self {
            WavetableKind::Triangle => "./assets/wavetables/mini_triangle_wavetable.wav",
            WavetableKind::TriangleSaw => "./assets/wavetables/mini_triangle_saw_wavetable.wav",
            WavetableKind::Saw => "./assets/wavetables/mini_saw_wavetable.wav",
            WavetableKind::Square => "./assets/wavetables/mini_square_wavetable.wav",
            WavetableKind::PulseWide => "./assets/wavetables/mini_pwm_wide_wavetable.wav",
            WavetableKind::PulseNarrow => "./assets/wavetables/mini_pwm_narrow_wavetable.wav",
        }
    }

    /// Display name of the kind.
    pub fn name(&self) -> (r: &'static str) {
        match self {
            WavetableKind::Triangle => "Triangle",
            WavetableKind::TriangleSaw => "TriangleSaw",
            WavetableKind::Saw => "Saw",
            WavetableKind::Square => "Square",
            WavetableKind::PulseWide => "PWM Wide",
            WavetableKind::PulseNarrow => "PWM Narrow",
        }
    }
}

/// One table for each oscillator kind, fixed at construction.
pub struct WavetableBank {
    triangle: Wavetable,
    triangle_saw: Wavetable,
    saw: Wavetable,
    square: Wavetable,
    pwm_wide: Wavetable,
    pwm_narrow: Wavetable,
}

impl WavetableBank {
    /// The table that the bank holds for `kind`.
    pub closed spec fn table(&self, kind: WavetableKind) -> Wavetable {
        match kind {
            WavetableKind::Triangle => self.triangle,
            WavetableKind::TriangleSaw => self.triangle_saw,
            WavetableKind::Saw => self.saw,
            WavetableKind::Square => self.square,
            WavetableKind::PulseWide => self.pwm_wide,
            WavetableKind::PulseNarrow => self.pwm_narrow,
        }
    }

    pub open spec fn wf(&self) -> bool {
        forall|k: WavetableKind| #[trigger] self.table(k).wf()
    }

    pub fn new(
        triangle: Wavetable,
        triangle_saw: Wavetable,
        saw: Wavetable,
        square: Wavetable,
        pwm_wide: Wavetable,
        pwm_narrow: Wavetable,
    ) -> (r: Self)
        requires
            triangle.wf(),
            triangle_saw.wf(),
            saw.wf(),
            square.wf(),
            pwm_wide.wf(),
            pwm_narrow.wf(),
        ensures
            r.wf(),
            r.table(WavetableKind::Triangle) == triangle,
            r.table(WavetableKind::TriangleSaw) == triangle_saw,
            r.table(WavetableKind::Saw) == saw,
            r.table(WavetableKind::Square) == square,
            r.table(WavetableKind::PulseWide) == pwm_wide,
            r.table(WavetableKind::PulseNarrow) == pwm_narrow,
    {
        WavetableBank { triangle, triangle_saw, saw, square, pwm_wide, pwm_narrow }
    }

    pub fn get(&self, kind: WavetableKind) -> (r: &Wavetable)
        ensures
            *r == self.table(kind),
    {
        match kind {
            WavetableKind::Triangle => &self.triangle,
            WavetableKind::TriangleSaw => &self.triangle_saw,
            WavetableKind::Saw => &self.saw,
            WavetableKind::Square => &self.square,
            WavetableKind::PulseWide => &self.pwm_wide,
            WavetableKind::PulseNarrow => &self.pwm_narrow,
        }
    }
}

} // verus!
