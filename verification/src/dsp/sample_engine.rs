//! One channel's sample player: a quantized buffer, a fractional playback
//! position, and the lo-fi stages (12-bit quantization and sample-and-hold
//! rate reduction) that colour what it reads.

use crate::fixed::{
    clamp, lemma_round_div_bound, lemma_round_div_error, lemma_round_div_exact, round_div,
    rounded_quotient, POSITION_ONE, SAMPLE_ONE,
};
use vstd::prelude::*;

verus! {

/// Size of one 12-bit step in raw sample units (`SAMPLE_ONE / 2048`).
pub const QUANT_STEP: i32 = 8192;

/// Lowest 12-bit code.
pub const QUANT_MIN: i32 = -2048;

/// Highest 12-bit code.
pub const QUANT_MAX: i32 = 2047;

/// The 12-bit code of a sample: the sample scaled by 2048, rounded to the
/// nearest integer and limited to the converter's range.
pub open spec fn quantize_code(sample: int) -> int {
    clamp(round_div(sample, QUANT_STEP as int), QUANT_MIN as int, QUANT_MAX as int)
}

/// The sample value that a 12-bit converter reproduces for `sample`.
pub open spec fn quantized(sample: int) -> int {
    quantize_code(sample) * QUANT_STEP
}

/// Passes a sample through the 12-bit converter model.
pub fn apply_12bit_quantization(sample: i32) -> (out: i32)
    ensures
        out == quantized(sample as int),
{
    let code: i128 = rounded_quotient(sample as i128, QUANT_STEP as i128);
    let limited: i128 = if code < QUANT_MIN as i128 {
        QUANT_MIN as i128
    } else if code > QUANT_MAX as i128 {
        QUANT_MAX as i128
    } else {
        code
    };
    (limited * (QUANT_STEP as i128)) as i32
}

/// Quantizing twice is the same as quantizing once.
pub proof fn quantization_is_idempotent(sample: int)
    ensures
        quantized(quantized(sample)) == quantized(sample),
{
    let code = quantize_code(sample);
    lemma_round_div_exact(code, QUANT_STEP as int);
}

/// Inside full scale the converter is never off by more than one step.
pub proof fn quantization_error_within_one_step(sample: int)
    requires
        -SAMPLE_ONE <= sample <= SAMPLE_ONE,
    ensures
        -QUANT_STEP <= quantized(sample) - sample <= QUANT_STEP,
{
    lemma_round_div_error(sample, QUANT_STEP as int);
    lemma_round_div_bound(sample, QUANT_STEP as int, 2048);
}

/// Whether `ticks` calls fill the hold period `1 + 63 * srr / 127` of the
/// rate reducer, compared exactly.
pub open spec fn srr_period_reached(srr: int, ticks: int) -> bool {
    127 * ticks >= 127 + 63 * srr
}

/// Number of calls in one hold cycle: the hold period rounded up.
pub open spec fn srr_hold_period(srr: int) -> int {
    (253 + 63 * srr) / 127
}

/// What the rate reducer returns: the input itself when the reduction is
/// off or a new hold cycle starts, the held sample otherwise.
pub open spec fn srr_output(sample: int, srr: int, counter: int, hold: int) -> int {
    if srr == 0 || counter == 0 {
        sample
    } else {
        hold
    }
}

/// The held sample after one call of the rate reducer.
pub open spec fn srr_hold_after(sample: int, srr: int, counter: int, hold: int) -> int {
    if srr != 0 && counter == 0 {
        sample
    } else {
        hold
    }
}

/// The call counter after one call of the rate reducer.
pub open spec fn srr_counter_after(srr: int, counter: int) -> int {
    if srr == 0 {
        counter
    } else if srr_period_reached(srr, counter + 1) {
        0
    } else {
        counter + 1
    }
}

/// Sample-and-hold rate reduction. With `srr == 0` the sample passes through
/// and the state is untouched. Otherwise a call that finds the counter at
/// zero captures the sample; every call returns the captured sample and
/// advances the counter, which wraps to zero once the hold period is full.
pub fn apply_sample_rate_reduction(
    sample: i32,
    srr: i32,
    counter: &mut u32,
    hold_sample: &mut i32,
) -> (out: i32)
    ensures
        out == srr_output(sample as int, srr as int, *old(counter) as int, *old(hold_sample) as int),
        *final(hold_sample) == srr_hold_after(
            sample as int,
            srr as int,
            *old(counter) as int,
            *old(hold_sample) as int,
        ),
        *final(counter) == srr_counter_after(srr as int, *old(counter) as int),
        srr == 0 ==> out == sample && *final(counter) == *old(counter) && *final(hold_sample) == *old(
            hold_sample,
        ),
{
    if srr == 0 {
        return sample;
    }
    if *counter == 0 {
        *hold_sample = sample;
    }
    let ticks: i64 = *counter as i64 + 1;
    if 127 * ticks >= 127 + 63 * (srr as i64) {
        *counter = 0;
    } else {
        *counter = ticks as u32;
    }
    *hold_sample
}

/// The reducer's `(counter, hold)` state after the first `n` of `inputs`
/// have gone through it, starting from `(counter, hold)`.
pub open spec fn srr_state_after(inputs: Seq<int>, srr: int, counter: int, hold: int, n: nat) -> (int, int)
    decreases n,
{
    if n == 0 {
        (counter, hold)
    } else {
        let before = srr_state_after(inputs, srr, counter, hold, (n - 1) as nat);
        (
            srr_counter_after(srr, before.0),
            srr_hold_after(inputs[n - 1], srr, before.0, before.1),
        )
    }
}

/// The reducer's output for `inputs[i]` when the whole sequence is fed
/// through it in order, starting from `(counter, hold)`.
pub open spec fn srr_output_at(inputs: Seq<int>, srr: int, counter: int, hold: int, i: nat) -> int {
    let before = srr_state_after(inputs, srr, counter, hold, i);
    srr_output(inputs[i as int], srr, before.0, before.1)
}

/// Inside the first hold cycle after a reset the counter counts the calls
/// and the held sample is the first input.
proof fn lemma_srr_first_cycle(inputs: Seq<int>, srr: int, hold: int, n: nat)
    requires
        srr >= 1,
        1 <= n <= srr_hold_period(srr),
    ensures
        srr_state_after(inputs, srr, 0, hold, n).1 == inputs[0],
        srr_state_after(inputs, srr, 0, hold, n).0 == if n == srr_hold_period(srr) {
            0
        } else {
            n as int
        },
    decreases n,
{
    if n > 1 {
        lemma_srr_first_cycle(inputs, srr, hold, (n - 1) as nat);
    } else {
        assert(srr_state_after(inputs, srr, 0, hold, 0) == (0int, hold));
    }
}

/// A reset reducer holds its first input for one whole hold period and
/// captures afresh on the call after it. With `srr == 127` the period is 64
/// calls: outputs 0 to 63 repeat `inputs[0]`, output 64 is `inputs[64]`.
pub proof fn srr_holds_for_one_period(inputs: Seq<int>, srr: int, hold: int)
    requires
        srr >= 1,
        inputs.len() > srr_hold_period(srr),
    ensures
        srr_hold_period(127) == 64,
        forall|i: nat|
            i < srr_hold_period(srr) ==> #[trigger] srr_output_at(inputs, srr, 0, hold, i)
                == inputs[0],
        srr_output_at(inputs, srr, 0, hold, srr_hold_period(srr) as nat) == inputs[srr_hold_period(srr)],
{
    let period = srr_hold_period(srr);
    assert forall|i: nat| i < period implies #[trigger] srr_output_at(inputs, srr, 0, hold, i)
        == inputs[0] by {
        if i > 0 {
            lemma_srr_first_cycle(inputs, srr, hold, i);
        }
    }
    lemma_srr_first_cycle(inputs, srr, hold, period as nat);
}

/// The speed ratio of `k` semitones above unison, `0 <= k < 12`, in units of
/// 2^-32: the twelfth root of two to the power `k`, rounded down.
pub open spec fn semitone_ratio(k: int) -> int {
    if k == 0 {
        4294967296
    } else if k == 1 {
        4550359341
    } else if k == 2 {
        4820937788
    } else if k == 3 {
        5107605667
    } else if k == 4 {
        5411319704
    } else if k == 5 {
        5733093519
    } else if k == 6 {
        6074000999
    } else if k == 7 {
        6435179894
    } else if k == 8 {
        6817835603
    } else if k == 9 {
        7223245205
    } else if k == 10 {
        7652761716
    } else {
        8107818609
    }
}

/// `x` doubled `n` times.
pub open spec fn doubled(x: int, n: nat) -> int
    decreases n,
{
    if n == 0 {
        x
    } else {
        2 * doubled(x, (n - 1) as nat)
    }
}

/// `x` halved `n` times, each halving rounding down.
pub open spec fn halved(x: int, n: nat) -> int
    decreases n,
{
    if n == 0 {
        x
    } else {
        halved(x, (n - 1) as nat) / 2
    }
}

/// Playback speed for a pitch parameter, in units of 2^-32: two to the power
/// `(pitch - 64) / 12` in equal temperament. The semitone within the octave
/// comes from [`semitone_ratio`], whole octaves double or halve it, and a
/// ratio too large for 64 bits saturates.
pub open spec fn pitch_ratio(pitch: int) -> int {
    let octave = (pitch - 64) / 12;
    let semitone = (pitch - 64) % 12;
    if octave > 31 {
        u64::MAX as int
    } else if octave >= 0 {
        doubled(semitone_ratio(semitone), octave as nat)
    } else {
        halved(semitone_ratio(semitone), (-octave) as nat)
    }
}

fn semitone_table(k: u8) -> (r: u64)
    requires
        k < 12,
    ensures
        r == semitone_ratio(k as int),
{
    if k == 0 {
        4294967296
    } else if k == 1 {
        4550359341
    } else if k == 2 {
        4820937788
    } else if k == 3 {
        5107605667
    } else if k == 4 {
        5411319704
    } else if k == 5 {
        5733093519
    } else if k == 6 {
        6074000999
    } else if k == 7 {
        6435179894
    } else if k == 8 {
        6817835603
    } else if k == 9 {
        7223245205
    } else if k == 10 {
        7652761716
    } else {
        8107818609
    }
}

proof fn lemma_doubled_shift(x: int, n: nat)
    ensures
        doubled(2 * x, n) == doubled(x, n + 1),
    decreases n,
{
    assert(doubled(x, n + 1) == 2 * doubled(x, n));
    if n > 0 {
        lemma_doubled_shift(x, (n - 1) as nat);
    }
}

proof fn lemma_doubled_grows(x: int, y: int, n: nat)
    requires
        0 <= x <= y,
    ensures
        x <= doubled(x, n) <= doubled(y, n),
    decreases n,
{
    if n > 0 {
        lemma_doubled_grows(x, y, (n - 1) as nat);
    }
}

proof fn lemma_doubled_fits(base: int)
    requires
        0 <= base <= 8107818609,
    ensures
        doubled(base, 31) < 0x1_0000_0000_0000_0000,
{
    lemma_doubled_grows(base, 8107818609, 31);
    assert(doubled(8107818609, 31) < 0x1_0000_0000_0000_0000) by {
        reveal_with_fuel(doubled, 32);
    }
}

proof fn lemma_halved_zero_stays(x: int, m: nat, n: nat)
    requires
        m <= n,
        halved(x, m) == 0,
    ensures
        halved(x, n) == 0,
    decreases n,
{
    if m < n {
        lemma_halved_zero_stays(x, m, (n - 1) as nat);
    }
}

/// Converts a pitch parameter (centre 64, one step per semitone) to the
/// playback speed ratio in units of 2^-32.
pub fn pitch_to_ratio(pitch: i32) -> (ratio: u64)
    ensures
        ratio == pitch_ratio(pitch as int),
{
    let offset: i64 = pitch as i64 - 64;
    let mut octave: i64 = 0;
    let mut semitone: i64 = 0;
    if offset >= 0 {
        octave = offset / 12;
        semitone = offset % 12;
    } else {
        let below: i64 = (11 - offset) / 12;
        octave = -below;
        semitone = offset + 12 * below;
    }
    let base: u64 = semitone_table(semitone as u8);
    if octave > 31 {
        return u64::MAX;
    }
    let mut ratio: u64 = base;
    if octave >= 0 {
        let mut done: i64 = 0;
        proof {
            lemma_doubled_fits(base as int);
        }
        while done < octave
            invariant
                0 <= done <= octave <= 31,
                ratio == doubled(base as int, done as nat),
                doubled(ratio as int, (31 - done) as nat) < 0x1_0000_0000_0000_0000,
            decreases octave - done,
        {
            proof {
                lemma_doubled_grows(ratio as int, ratio as int, (30 - done) as nat);
                lemma_doubled_shift(ratio as int, (30 - done) as nat);
            }
            ratio = 2 * ratio;
            done = done + 1;
        }
    } else {
        let steps: i64 = -octave;
        let mut done: i64 = 0;
        while done < steps && ratio > 0
            invariant
                0 <= done <= steps,
                ratio == halved(base as int, done as nat),
            decreases steps - done,
        {
            ratio = ratio / 2;
            done = done + 1;
        }
        proof {
            if done < steps {
                lemma_halved_zero_stays(base as int, done as nat, steps as nat);
            }
        }
    }
    ratio
}

/// `x` to the power twelve.
pub open spec fn twelfth_power(x: int) -> int {
    let square = x * x;
    let fourth = square * square;
    fourth * fourth * fourth
}

/// The twelfth power of 2^32, the raw value of the ratio one.
pub open spec fn unison_twelfth_power() -> int {
    0x1_0000_0000_0000_0000_0000_0000_0000_0000_0000_0000_0000_0000_0000_0000_0000_0000_0000_0000_0000_0000_0000_0000_0000_0000int
}

/// Every entry of the semitone table is the twelfth root of two to the power
/// `k`, scaled by 2^32 and rounded down: its twelfth power does not exceed
/// `2^k` times that of 2^32, and the next integer's does.
pub proof fn semitone_table_is_equal_tempered(k: int)
    requires
        0 <= k < 12,
    ensures
        twelfth_power(semitone_ratio(k)) <= doubled(unison_twelfth_power(), k as nat)
            < twelfth_power(semitone_ratio(k) + 1),
{
    let unit = unison_twelfth_power();
    reveal_with_fuel(doubled, 12);
    if k == 0 {
        assert(twelfth_power(4294967296) <= 1 * unit < twelfth_power(4294967297)) by (nonlinear_arith)
            requires
                unit == 0x1_0000_0000_0000_0000_0000_0000_0000_0000_0000_0000_0000_0000_0000_0000_0000_0000_0000_0000_0000_0000_0000_0000_0000_0000int,
        ;
    }
    if k == 1 {
        assert(twelfth_power(4550359341) <= 2 * unit < twelfth_power(4550359342)) by (nonlinear_arith)
            requires
                unit == 0x1_0000_0000_0000_0000_0000_0000_0000_0000_0000_0000_0000_0000_0000_0000_0000_0000_0000_0000_0000_0000_0000_0000_0000_0000int,
        ;
    }
    if k == 2 {
        assert(twelfth_power(4820937788) <= 4 * unit < twelfth_power(4820937789)) by (nonlinear_arith)
            requires
                unit == 0x1_0000_0000_0000_0000_0000_0000_0000_0000_0000_0000_0000_0000_0000_0000_0000_0000_0000_0000_0000_0000_0000_0000_0000_0000int,
        ;
    }
    if k == 3 {
        assert(twelfth_power(5107605667) <= 8 * unit < twelfth_power(5107605668)) by (nonlinear_arith)
            requires
                unit == 0x1_0000_0000_0000_0000_0000_0000_0000_0000_0000_0000_0000_0000_0000_0000_0000_0000_0000_0000_0000_0000_0000_0000_0000_0000int,
        ;
    }
    if k == 4 {
        assert(twelfth_power(5411319704) <= 16 * unit < twelfth_power(5411319705)) by (nonlinear_arith)
            requires
                unit == 0x1_0000_0000_0000_0000_0000_0000_0000_0000_0000_0000_0000_0000_0000_0000_0000_0000_0000_0000_0000_0000_0000_0000_0000_0000int,
        ;
    }
    if k == 5 {
        assert(twelfth_power(5733093519) <= 32 * unit < twelfth_power(5733093520)) by (nonlinear_arith)
            requires
                unit == 0x1_0000_0000_0000_0000_0000_0000_0000_0000_0000_0000_0000_0000_0000_0000_0000_0000_0000_0000_0000_0000_0000_0000_0000_0000int,
        ;
    }
    if k == 6 {
        assert(twelfth_power(6074000999) <= 64 * unit < twelfth_power(6074001000)) by (nonlinear_arith)
            requires
                unit == 0x1_0000_0000_0000_0000_0000_0000_0000_0000_0000_0000_0000_0000_0000_0000_0000_0000_0000_0000_0000_0000_0000_0000_0000_0000int,
        ;
    }
    if k == 7 {
        assert(twelfth_power(6435179894) <= 128 * unit < twelfth_power(6435179895)) by (nonlinear_arith)
            requires
                unit == 0x1_0000_0000_0000_0000_0000_0000_0000_0000_0000_0000_0000_0000_0000_0000_0000_0000_0000_0000_0000_0000_0000_0000_0000_0000int,
        ;
    }
    if k == 8 {
        assert(twelfth_power(6817835603) <= 256 * unit < twelfth_power(6817835604)) by (nonlinear_arith)
            requires
                unit == 0x1_0000_0000_0000_0000_0000_0000_0000_0000_0000_0000_0000_0000_0000_0000_0000_0000_0000_0000_0000_0000_0000_0000_0000_0000int,
        ;
    }
    if k == 9 {
        assert(twelfth_power(7223245205) <= 512 * unit < twelfth_power(7223245206)) by (nonlinear_arith)
            requires
                unit == 0x1_0000_0000_0000_0000_0000_0000_0000_0000_0000_0000_0000_0000_0000_0000_0000_0000_0000_0000_0000_0000_0000_0000_0000_0000int,
        ;
    }
    if k == 10 {
        assert(twelfth_power(7652761716) <= 1024 * unit < twelfth_power(7652761717)) by (nonlinear_arith)
            requires
                unit == 0x1_0000_0000_0000_0000_0000_0000_0000_0000_0000_0000_0000_0000_0000_0000_0000_0000_0000_0000_0000_0000_0000_0000_0000_0000int,
        ;
    }
    if k == 11 {
        assert(twelfth_power(8107818609) <= 2048 * unit < twelfth_power(8107818610)) by (nonlinear_arith)
            requires
                unit == 0x1_0000_0000_0000_0000_0000_0000_0000_0000_0000_0000_0000_0000_0000_0000_0000_0000_0000_0000_0000_0000_0000_0000_0000_0000int,
        ;
    }
}

/// An octave up doubles the speed exactly, from the centre pitch upwards.
pub proof fn pitch_octave_up_doubles(pitch: int)
    requires
        64 <= pitch,
        pitch + 12 <= 447,
    ensures
        pitch_ratio(pitch + 12) == 2 * pitch_ratio(pitch),
        pitch_ratio(64) == POSITION_ONE,
{
}

/// The centre pitch plays at unison, twelve steps up at double speed and
/// twelve steps down at half speed.
pub proof fn pitch_ratio_landmarks()
    ensures
        pitch_ratio(64) == POSITION_ONE,
        pitch_ratio(76) == 2 * POSITION_ONE,
        pitch_ratio(52) == POSITION_ONE / 2,
{
    reveal_with_fuel(doubled, 2);
    reveal_with_fuel(halved, 2);
}

/// Converts a control parameter to its fraction of full scale in raw
/// sample units: `value / 127`, rounded to the nearest unit.
pub open spec fn normalized(value: int) -> int {
    round_div(value * SAMPLE_ONE, 127)
}

/// Converts a control parameter to the fraction `value / 127` in raw sample
/// units, so 127 gives `SAMPLE_ONE` and 0 gives 0.
pub fn param_to_normalized(value: i32) -> (n: i64)
    ensures
        n == normalized(value as int),
{
    let scaled: i128 = (value as i128) * 16777216;
    let n: i128 = rounded_quotient(scaled, 127);
    proof {
        lemma_round_div_bound(scaled as int, 127, 0x80_0000_0000_0000);
    }
    n as i64
}

/// Plays one buffer of 16-bit storage samples (32768 stands for 1.0) from a
/// fractional position, with linear interpolation and the lo-fi stages.
pub struct SampleEngine {
    buffer: Vec<i16>,
    position: u128,
    sample_rate: u32,
    srr_counter: u32,
    srr_hold_sample: i32,
}

/// The mathematical content of a [`SampleEngine`].
#[verifier::ext_equal]
pub struct EngineState {
    /// The stored samples.
    pub buffer: Seq<i16>,
    /// The playback position in units of 2^-32 of a buffer slot.
    pub position: nat,
    /// The sample rate in hertz.
    pub sample_rate: nat,
    /// Calls since the rate reducer last captured a sample.
    pub srr_counter: nat,
    /// The sample that the rate reducer holds.
    pub srr_hold: int,
}

impl EngineState {
    /// Validity: the held sample lies inside full scale, as every converter
    /// output does.
    pub open spec fn wf(self) -> bool {
        -SAMPLE_ONE <= self.srr_hold <= SAMPLE_ONE
    }

    /// The position just past the last sample.
    pub open spec fn end(self) -> nat {
        self.buffer.len() * 4294967296
    }

    /// The buffer slot that the position lies in.
    pub open spec fn slot(self) -> nat {
        self.position / 4294967296
    }

    /// How far the position lies into its slot, in units of 2^-32.
    pub open spec fn fraction(self) -> nat {
        self.position % 4294967296
    }

    /// Whether a sample can be read: the position lies before the last
    /// sample, so two samples bracket it.
    pub open spec fn readable(self) -> bool {
        self.slot() + 1 < self.buffer.len()
    }

    /// The value at the position: the two bracketing samples, each divided
    /// by 32768, blended linearly by the fraction and rounded to the nearest
    /// raw sample unit.
    pub open spec fn interpolated(self) -> int {
        let before = self.buffer[self.slot() as int] as int;
        let after = self.buffer[self.slot() as int + 1] as int;
        round_div(before * 4294967296 + (after - before) * self.fraction(), 8388608)
    }

    /// Whether playback has reached `end_position` or the end of the buffer.
    pub open spec fn finished(self, end_position: nat) -> bool {
        self.position >= end_position || self.position >= self.end()
    }

    /// The state after a trigger at `start_position`: the position is the
    /// start limited to the buffer, and the rate reducer is reset.
    pub open spec fn triggered(self, start_position: nat) -> EngineState {
        EngineState {
            position: if start_position <= self.end() {
                start_position
            } else {
                self.end()
            },
            srr_counter: 0,
            srr_hold: 0,
            ..self
        }
    }

    /// The state after one interpolated read at speed `ratio`: the position
    /// moves on by the ratio if a sample could be read and stays otherwise.
    pub open spec fn after_read(self, ratio: nat) -> EngineState {
        if self.readable() {
            EngineState { position: self.position + ratio, ..self }
        } else {
            self
        }
    }

    /// The value of one interpolated read: silence where nothing can be read.
    pub open spec fn read_value(self) -> int {
        if self.readable() {
            self.interpolated()
        } else {
            0
        }
    }

    /// The state after one read through the lo-fi stages.
    pub open spec fn after_lofi_read(self, ratio: nat, srr: int) -> EngineState {
        let moved = self.after_read(ratio);
        let level = quantized(self.read_value());
        EngineState {
            srr_counter: srr_counter_after(srr, self.srr_counter as int) as nat,
            srr_hold: srr_hold_after(level, srr, self.srr_counter as int, self.srr_hold),
            ..moved
        }
    }

    /// The value of one read through the lo-fi stages: the interpolated
    /// sample, quantized to 12 bits and passed through the rate reducer.
    pub open spec fn lofi_value(self, srr: int) -> int {
        srr_output(quantized(self.read_value()), srr, self.srr_counter as int, self.srr_hold)
    }
}

impl View for SampleEngine {
    type V = EngineState;

    closed spec fn view(&self) -> EngineState {
        EngineState {
            buffer: self.buffer@,
            position: self.position as nat,
            sample_rate: self.sample_rate as nat,
            srr_counter: self.srr_counter as nat,
            srr_hold: self.srr_hold_sample as int,
        }
    }
}

/// An interpolated value never leaves full scale.
pub proof fn lemma_interpolated_in_range(state: EngineState)
    requires
        state.readable(),
    ensures
        -SAMPLE_ONE <= state.interpolated() <= SAMPLE_ONE,
{
    let before = state.buffer[state.slot() as int] as int;
    let after = state.buffer[state.slot() as int + 1] as int;
    let frac = state.fraction() as int;
    let numer = before * 4294967296 + (after - before) * frac;
    assert(-(32768 * 4294967296) <= numer <= 32768 * 4294967296) by (nonlinear_arith)
        requires
            -32768 <= before <= 32767,
            -32768 <= after <= 32767,
            0 <= frac < 4294967296,
            numer == before * 4294967296 + (after - before) * frac,
    ;
    lemma_round_div_bound(numer, 8388608, 16777216);
}

/// Reading never moves the position back: only a trigger does.
pub proof fn position_never_moves_back(state: EngineState, ratio: nat, srr: int)
    ensures
        state.after_read(ratio).position >= state.position,
        state.after_lofi_read(ratio, srr).position >= state.position,
{
}

impl SampleEngine {
    /// An engine with an empty buffer at position zero.
    pub fn new(sample_rate: u32) -> (engine: Self)
        ensures
            engine@ == (EngineState {
                buffer: Seq::empty(),
                position: 0,
                sample_rate: sample_rate as nat,
                srr_counter: 0,
                srr_hold: 0,
            }),
    {
        Self { buffer: Vec::new(), position: 0, sample_rate, srr_counter: 0, srr_hold_sample: 0 }
    }

    /// Records a new sample rate; nothing else changes.
    pub fn set_sample_rate(&mut self, sample_rate: u32)
        ensures
            final(self)@ == (EngineState { sample_rate: sample_rate as nat, ..old(self)@ }),
    {
        self.sample_rate = sample_rate;
    }

    /// Takes `samples` as the buffer and rewinds to position zero.
    pub fn load_buffer(&mut self, samples: Vec<i16>)
        ensures
            final(self)@ == (EngineState { buffer: samples@, position: 0, ..old(self)@ }),
    {
        self.buffer = samples;
        self.position = 0;
    }

    /// Empties the buffer and resets position and rate reducer.
    pub fn clear(&mut self)
        ensures
            final(self)@ == (EngineState {
                buffer: Seq::empty(),
                position: 0,
                srr_counter: 0,
                srr_hold: 0,
                ..old(self)@
            }),
    {
        self.buffer.clear();
        self.position = 0;
        self.srr_counter = 0;
        self.srr_hold_sample = 0;
    }

    /// Starts playback at `start_position`, limited to the buffer, and
    /// resets the rate reducer.
    pub fn trigger(&mut self, start_position: u128)
        ensures
            final(self)@ == old(self)@.triggered(start_position as nat),
    {
        let end: u128 = (self.buffer.len() as u128) * 4294967296;
        self.position = if start_position <= end {
            start_position
        } else {
            end
        };
        self.srr_counter = 0;
        self.srr_hold_sample = 0;
    }

    /// Reads the linearly interpolated sample at the position and moves on by
    /// `pitch_ratio`. Returns silence, and does not move, on an empty buffer
    /// or once the position has reached the last sample.
    pub fn read_sample_linear(&mut self, pitch_ratio: u64) -> (out: i32)
        ensures
            out == old(self)@.read_value(),
            final(self)@ == old(self)@.after_read(pitch_ratio as nat),
            -SAMPLE_ONE <= out <= SAMPLE_ONE,
    {
        let len: usize = self.buffer.len();
        let slot: u128 = self.position / 4294967296;
        if slot + 1 >= len as u128 {
            return 0;
        }
        let index: usize = slot as usize;
        let fraction: i128 = (self.position % 4294967296) as i128;
        let before: i128 = self.buffer[index] as i128;
        let after: i128 = self.buffer[index + 1] as i128;
        proof {
            lemma_interpolated_in_range(self@);
        }
        assert(-(65536 * 4294967296) <= (after - before) * fraction <= 65536 * 4294967296)
            by (nonlinear_arith)
            requires
                -32768 <= before <= 32767,
                -32768 <= after <= 32767,
                0 <= fraction < 4294967296,
        ;
        let value: i128 = rounded_quotient(before * 4294967296 + (after - before) * fraction, 8388608);
        self.position = self.position + pitch_ratio as u128;
        value as i32
    }

    /// Reads one sample through the lo-fi chain: interpolation, 12-bit
    /// quantization and sample-rate reduction, in that order.
    pub fn read_sample_with_processing(&mut self, pitch_ratio: u64, srr: i32) -> (out: i32)
        requires
            old(self)@.wf(),
        ensures
            out == old(self)@.lofi_value(srr as int),
            final(self)@ == old(self)@.after_lofi_read(pitch_ratio as nat, srr as int),
            final(self)@.wf(),
            -SAMPLE_ONE <= out <= SAMPLE_ONE,
    {
        let raw: i32 = self.read_sample_linear(pitch_ratio);
        let level: i32 = apply_12bit_quantization(raw);
        apply_sample_rate_reduction(level, srr, &mut self.srr_counter, &mut self.srr_hold_sample)
    }

    /// Whether playback has reached `end_position` or the end of the buffer.
    pub fn is_finished(&self, end_position: u128) -> (done: bool)
        ensures
            done == self@.finished(end_position as nat),
    {
        self.position >= end_position || self.position >= (self.buffer.len() as u128) * 4294967296
    }

    /// Number of samples in the buffer.
    pub fn buffer_len(&self) -> (len: usize)
        ensures
            len == self@.buffer.len(),
    {
        self.buffer.len()
    }

    /// The playback position in units of 2^-32 of a buffer slot.
    pub fn position(&self) -> (position: u128)
        ensures
            position == self@.position,
    {
        self.position
    }

    /// The stored samples.
    pub fn buffer(&self) -> (samples: &[i16])
        ensures
            samples@ == self@.buffer,
    {
        self.buffer.as_slice()
    }
}

} // verus!
