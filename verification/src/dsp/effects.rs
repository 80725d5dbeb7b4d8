//! Stand-alone lo-fi effects: a sample-and-hold rate reducer with a free
//! reduction factor, the control side of the drive stage, and the 12-bit
//! converter model.

use crate::dsp::sample_engine::{apply_12bit_quantization, quantized};
use crate::fixed::{clamp, SAMPLE_ONE};
use vstd::prelude::*;

verus! {

/// Holds every sample for `reduction_factor` calls, the factor counted in
/// raw sample units so that it may be fractional.
pub struct SampleRateReducer {
    hold_sample: i32,
    counter: u64,
    reduction_factor: i64,
}

/// The mathematical content of a [`SampleRateReducer`].
pub struct ReducerState {
    /// The sample that is held.
    pub hold: int,
    /// Calls since the last capture.
    pub counter: nat,
    /// The reduction factor in raw sample units, at least `SAMPLE_ONE`.
    pub factor: int,
}

impl ReducerState {
    /// Whether the next call captures its input: with it the calls since
    /// the last capture reach the reduction factor.
    pub open spec fn captures(self) -> bool {
        (self.counter + 1) * 16777216 >= self.factor
    }

    /// The state after one call with `input`.
    pub open spec fn processed(self, input: int) -> ReducerState {
        if self.captures() {
            ReducerState { hold: input, counter: 0, ..self }
        } else {
            ReducerState { counter: self.counter + 1, ..self }
        }
    }

    /// What one call with `input` returns: the input if it is captured, the
    /// held sample otherwise.
    pub open spec fn output(self, input: int) -> int {
        self.processed(input).hold
    }
}

impl View for SampleRateReducer {
    type V = ReducerState;

    closed spec fn view(&self) -> ReducerState {
        ReducerState {
            hold: self.hold_sample as int,
            counter: self.counter as nat,
            factor: self.reduction_factor as int,
        }
    }
}

impl SampleRateReducer {
    /// A reducer with factor one, which passes every sample.
    pub fn new() -> (reducer: Self)
        ensures
            reducer@ == (ReducerState { hold: 0, counter: 0, factor: SAMPLE_ONE as int }),
    {
        Self { hold_sample: 0, counter: 0, reduction_factor: 16777216 }
    }

    /// Sets the reduction factor; a factor below one counts as one.
    pub fn set_reduction(&mut self, factor: i64)
        ensures
            final(self)@ == (ReducerState {
                factor: if factor < SAMPLE_ONE {
                    SAMPLE_ONE as int
                } else {
                    factor as int
                },
                ..old(self)@
            }),
    {
        self.reduction_factor = if factor < 16777216 {
            16777216
        } else {
            factor
        };
    }

    /// Counts one call and returns the held sample, capturing `input` first
    /// if the count has reached the reduction factor.
    pub fn process(&mut self, input: i32) -> (out: i32)
        ensures
            final(self)@ == old(self)@.processed(input as int),
            out == old(self)@.output(input as int),
    {
        let ticks: i128 = self.counter as i128 + 1;
        if ticks * 16777216 >= self.reduction_factor as i128 {
            self.counter = 0;
            self.hold_sample = input;
        } else {
            self.counter = ticks as u64;
        }
        self.hold_sample
    }

    /// Forgets the held sample and the count; the factor stays.
    pub fn reset(&mut self)
        ensures
            final(self)@ == (ReducerState { hold: 0, counter: 0, ..old(self)@ }),
    {
        self.hold_sample = 0;
        self.counter = 0;
    }
}

impl Default for SampleRateReducer {
    fn default() -> (reducer: Self)
        ensures
            reducer@ == (ReducerState { hold: 0, counter: 0, factor: SAMPLE_ONE as int }),
    {
        Self::new()
    }
}

/// The control side of the drive stage. The stage itself shapes a sample `x`
/// to `tanh(gain * x) / tanh(gain)`; what is decided here is whether the
/// stage is in the path at all and with which gain.
pub struct Distortion {
    drive: i32,
}

/// The gain for a drive amount, both in raw sample units: `1 + 20 * drive`.
pub open spec fn drive_gain(drive: int) -> int {
    16777216 + 20 * drive
}

impl Distortion {
    /// The drive amount in raw sample units, between zero and `SAMPLE_ONE`.
    pub closed spec fn drive(&self) -> int {
        self.drive as int
    }

    /// Validity: the drive lies between zero and one.
    pub open spec fn wf(&self) -> bool {
        0 <= self.drive() <= SAMPLE_ONE
    }

    /// A stage with no drive, which passes every sample.
    pub fn new() -> (stage: Self)
        ensures
            stage.drive() == 0,
            stage.wf(),
    {
        Self { drive: 0 }
    }

    /// Sets the drive, limited to the range from zero to one.
    pub fn set_drive(&mut self, drive: i32)
        ensures
            final(self).drive() == clamp(drive as int, 0, SAMPLE_ONE as int),
            final(self).wf(),
    {
        self.drive = if drive < 0 {
            0
        } else if drive > 16777216 {
            16777216
        } else {
            drive
        };
    }

    /// The gain of the stage in raw sample units, or `None` where the drive
    /// is zero and the stage passes its input unchanged.
    pub fn gain(&self) -> (gain: Option<i64>)
        ensures
            self.drive() <= 0 ==> gain.is_none(),
            self.drive() > 0 ==> gain == Some(drive_gain(self.drive()) as i64),
    {
        if self.drive <= 0 {
            None
        } else {
            Some(16777216 + 20 * (self.drive as i64))
        }
    }
}

impl Default for Distortion {
    fn default() -> (stage: Self)
        ensures
            stage.drive() == 0,
            stage.wf(),
    {
        Self::new()
    }
}

/// Passes a sample through the 12-bit converter model: scaled by 2048,
/// rounded to the nearest integer, limited to the codes from -2048 to 2047,
/// and scaled back.
pub fn quantize_12bit(sample: i32) -> (out: i32)
    ensures
        out == quantized(sample as int),
{
    apply_12bit_quantization(sample)
}

} // verus!
