//! The control side of the stereo resonant filter: which response shape a
//! panel value selects, and which design (shape, cutoff, quality factor) a
//! request leads to. Turning a design into coefficients and running the two
//! second-order sections is left to the caller's floating-point code.
//!
//! Cutoff frequencies are in millihertz; resonance and quality factor are in
//! raw sample units (2^-24).

use crate::fixed::{clamp, lemma_round_div_bound, round_div, rounded_quotient};
use vstd::prelude::*;

verus! {

/// Lowest cutoff: 20 Hz.
pub const MIN_CUTOFF: u64 = 20000;

/// Cutoff of the safe design: 1 kHz.
pub const FALLBACK_CUTOFF: u64 = 1000000;

/// Quality factor of the safe design: one over the square root of two.
pub const BUTTERWORTH_Q: i64 = 11863283;

/// Response shape of the filter.
#[derive(Debug, Clone, Copy, PartialEq, Eq, Structural)]
pub enum FilterMode {
    /// Passes what lies below the cutoff.
    LowPass,
    /// Passes a band around the cutoff.
    BandPass,
    /// Passes what lies above the cutoff.
    HighPass,
}

impl FilterMode {
    /// The shape for a panel value: 0 to 42 low-pass, 43 to 84 band-pass,
    /// 85 to 127 high-pass, and low-pass for anything off the panel.
    pub open spec fn for_param(value: int) -> FilterMode {
        if 43 <= value <= 84 {
            FilterMode::BandPass
        } else if 85 <= value <= 127 {
            FilterMode::HighPass
        } else {
            FilterMode::LowPass
        }
    }

    /// Selects the response shape for a panel value.
    pub fn from_param(value: i32) -> (mode: Self)
        ensures
            mode == Self::for_param(value as int),
            0 <= value <= 42 ==> mode == FilterMode::LowPass,
            43 <= value <= 84 ==> mode == FilterMode::BandPass,
            85 <= value <= 127 ==> mode == FilterMode::HighPass,
    {
        if 43 <= value && value <= 84 {
            FilterMode::BandPass
        } else if 85 <= value && value <= 127 {
            FilterMode::HighPass
        } else {
            FilterMode::LowPass
        }
    }
}

/// What the coefficients of the filter are derived from.
#[derive(Debug, Clone, Copy, PartialEq, Eq, Structural)]
pub struct FilterDesign {
    /// Response shape.
    pub mode: FilterMode,
    /// Sample rate in hertz.
    pub sample_rate: u32,
    /// Cutoff frequency in millihertz.
    pub cutoff: u64,
    /// Quality factor in raw sample units.
    pub q: i64,
}

impl FilterDesign {
    /// Whether coefficients can be derived: the rates are positive, the
    /// cutoff does not exceed half the sample rate, and the quality factor
    /// is not negative.
    pub open spec fn realizable(self) -> bool {
        &&& self.sample_rate > 0
        &&& self.cutoff > 0
        &&& 2 * self.cutoff <= 1000 * self.sample_rate
        &&& self.q >= 0
    }

    /// Whether coefficients can be derived from this design.
    pub fn is_realizable(&self) -> (ok: bool)
        ensures
            ok == self.realizable(),
    {
        self.sample_rate > 0 && self.cutoff > 0 && 2 * (self.cutoff as u128) <= 1000 * (
        self.sample_rate as u128) && self.q >= 0
    }
}

/// The highest cutoff at a sample rate: 0.45 of the rate, below half the
/// rate with headroom.
pub open spec fn max_cutoff(sample_rate: int) -> int {
    450 * sample_rate
}

/// The quality factor for a resonance: `0.5 + 10 * resonance`.
pub open spec fn q_for_resonance(resonance: int) -> int {
    8388608 + 10 * resonance
}

/// The safe design: a low-pass at 1 kHz with the Butterworth quality factor.
pub open spec fn fallback_design(sample_rate: u32) -> FilterDesign {
    FilterDesign {
        mode: FilterMode::LowPass,
        sample_rate,
        cutoff: FALLBACK_CUTOFF,
        q: BUTTERWORTH_Q,
    }
}

/// The design that a request leads to. The cutoff is limited to the range
/// from 20 Hz to 0.45 of the sample rate. Where that leaves nothing to derive
/// coefficients from (the range is empty, or the quality factor is negative)
/// the safe design stands in.
pub open spec fn design_for(sample_rate: u32, cutoff: u64, q: i64, mode: FilterMode) -> FilterDesign {
    let wanted = FilterDesign {
        mode,
        sample_rate,
        cutoff: clamp(cutoff as int, MIN_CUTOFF as int, max_cutoff(sample_rate as int)) as u64,
        q,
    };
    if MIN_CUTOFF <= max_cutoff(sample_rate as int) && q >= 0 {
        wanted
    } else {
        fallback_design(sample_rate)
    }
}

/// A design that was not replaced by the safe one can always be realized,
/// and its cutoff lies in the range from 20 Hz to 0.45 of the sample rate
/// whatever cutoff was asked for.
pub proof fn cutoff_is_always_clamped(sample_rate: u32, cutoff: u64, q: i64, mode: FilterMode)
    requires
        MIN_CUTOFF <= max_cutoff(sample_rate as int),
        q >= 0,
    ensures
        MIN_CUTOFF <= design_for(sample_rate, cutoff, q, mode).cutoff <= max_cutoff(sample_rate as int),
        design_for(sample_rate, cutoff, q, mode).realizable(),
        design_for(sample_rate, cutoff, q, mode).mode == mode,
        design_for(sample_rate, cutoff, q, mode).q == q,
{
}

/// Works out the design for a request.
pub fn make_design(sample_rate: u32, cutoff: u64, q: i64, mode: FilterMode) -> (design: FilterDesign)
    ensures
        design == design_for(sample_rate, cutoff, q, mode),
{
    let upper: u64 = 450 * (sample_rate as u64);
    if MIN_CUTOFF <= upper && q >= 0 {
        let limited: u64 = if cutoff < MIN_CUTOFF {
            MIN_CUTOFF
        } else if cutoff > upper {
            upper
        } else {
            cutoff
        };
        FilterDesign { mode, sample_rate, cutoff: limited, q }
    } else {
        FilterDesign { mode: FilterMode::LowPass, sample_rate, cutoff: FALLBACK_CUTOFF, q: BUTTERWORTH_Q }
    }
}

/// The cutoff in millihertz that a panel value asks for at a sample rate:
/// `20 Hz + (param / 127) * (0.45 * sample_rate - 20 Hz)`, rounded to the
/// nearest millihertz and kept inside the cutoff's type.
pub open spec fn cutoff_for(param: int, sample_rate: int) -> int {
    clamp(20000 + round_div(param * (450 * sample_rate - 20000), 127), 0, u64::MAX as int)
}

/// Maps the panel's filter frequency value to a cutoff in millihertz.
pub fn cutoff_for_param(param: i32, sample_rate: u32) -> (cutoff: u64)
    ensures
        cutoff == cutoff_for(param as int, sample_rate as int),
{
    let span: i128 = 450 * (sample_rate as i128) - 20000;
    assert(-(0x8000_0000 * 0x1_0000_0000_0000) <= param * span <= 0x8000_0000 * 0x1_0000_0000_0000)
        by (nonlinear_arith)
        requires
            -0x8000_0000 <= param <= 0x7fff_ffff,
            -0x1_0000_0000_0000 <= span <= 0x1_0000_0000_0000,
    ;
    let scaled: i128 = (param as i128) * span;
    let part: i128 = rounded_quotient(scaled, 127);
    proof {
        lemma_round_div_bound(scaled as int, 127, 0x8000_0000_0000_0000_0000int);
    }
    let asked: i128 = 20000 + part;
    if asked < 0 {
        0
    } else if asked > u64::MAX as i128 {
        u64::MAX
    } else {
        asked as u64
    }
}

/// What the caller does to its filter sections after a control change.
#[derive(Debug, Clone, Copy, PartialEq, Eq, Structural)]
pub struct FilterAction {
    /// The design to derive the shared coefficient set from.
    pub design: FilterDesign,
    /// Whether the delay memory of both sections is cleared as well.
    pub clear_state: bool,
}

/// The control state of the stereo filter.
pub struct ResonantFilter {
    sample_rate: u32,
    mode: FilterMode,
    design: FilterDesign,
}

/// The mathematical content of a [`ResonantFilter`].
pub struct FilterState {
    /// Sample rate in hertz.
    pub sample_rate: u32,
    /// The response shape that was last asked for.
    pub mode: FilterMode,
    /// The design in force.
    pub design: FilterDesign,
}

impl View for ResonantFilter {
    type V = FilterState;

    closed spec fn view(&self) -> FilterState {
        FilterState { sample_rate: self.sample_rate, mode: self.mode, design: self.design }
    }
}

impl FilterState {
    /// The state that a filter starts in and that a reset returns to, for a
    /// sample rate and a response shape: the design is for 1 kHz and the
    /// Butterworth quality factor.
    pub open spec fn initial(sample_rate: u32, mode: FilterMode) -> FilterState {
        FilterState {
            sample_rate,
            mode,
            design: design_for(sample_rate, FALLBACK_CUTOFF, BUTTERWORTH_Q, mode),
        }
    }
}

impl ResonantFilter {
    /// A low-pass filter at 1 kHz.
    pub fn new(sample_rate: u32) -> (filter: Self)
        ensures
            filter@ == FilterState::initial(sample_rate, FilterMode::LowPass),
    {
        let mode: FilterMode = FilterMode::LowPass;
        Self { sample_rate, mode, design: make_design(sample_rate, FALLBACK_CUTOFF, BUTTERWORTH_Q, mode) }
    }

    /// Changes the sample rate. The filter starts over at the new rate with
    /// its response shape: the caller clears the delay memory.
    pub fn set_sample_rate(&mut self, sample_rate: u32) -> (action: FilterAction)
        ensures
            final(self)@ == FilterState::initial(sample_rate, old(self)@.mode),
            action == (FilterAction { design: final(self)@.design, clear_state: true }),
    {
        self.sample_rate = sample_rate;
        self.reset()
    }

    /// Sets cutoff (millihertz), resonance (raw sample units, nominally zero
    /// to `SAMPLE_ONE`) and response shape. The delay memory is kept.
    pub fn set_params(&mut self, cutoff: u64, resonance: i32, mode: FilterMode) -> (action: FilterAction)
        ensures
            final(self)@ == (FilterState {
                sample_rate: old(self)@.sample_rate,
                mode,
                design: design_for(
                    old(self)@.sample_rate,
                    cutoff,
                    q_for_resonance(resonance as int) as i64,
                    mode,
                ),
            }),
            action == (FilterAction { design: final(self)@.design, clear_state: false }),
            MIN_CUTOFF <= max_cutoff(old(self)@.sample_rate as int) && resonance >= 0 ==> MIN_CUTOFF
                <= action.design.cutoff <= max_cutoff(old(self)@.sample_rate as int),
    {
        let q: i64 = 8388608 + 10 * (resonance as i64);
        self.mode = mode;
        self.design = make_design(self.sample_rate, cutoff, q, mode);
        FilterAction { design: self.design, clear_state: false }
    }

    /// Starts over at 1 kHz with the Butterworth quality factor and the
    /// current response shape: the caller clears the delay memory.
    pub fn reset(&mut self) -> (action: FilterAction)
        ensures
            final(self)@ == FilterState::initial(old(self)@.sample_rate, old(self)@.mode),
            action == (FilterAction { design: final(self)@.design, clear_state: true }),
    {
        self.design = make_design(self.sample_rate, FALLBACK_CUTOFF, BUTTERWORTH_Q, self.mode);
        FilterAction { design: self.design, clear_state: true }
    }

    /// The design in force.
    pub fn design(&self) -> (design: FilterDesign)
        ensures
            design == self@.design,
    {
        self.design
    }

    /// The response shape that was last asked for.
    pub fn mode(&self) -> (mode: FilterMode)
        ensures
            mode == self@.mode,
    {
        self.mode
    }

    /// The sample rate in hertz.
    pub fn sample_rate(&self) -> (sample_rate: u32)
        ensures
            sample_rate == self@.sample_rate,
    {
        self.sample_rate
    }
}

} // verus!
