//! RAM PLAY: eight independent playback voices. Each voice owns a sample
//! engine, a hold-and-decay amplitude envelope and a retrigger scheduler, and
//! plays from the parameter snapshot taken when it was triggered.

use crate::dsp::sample_engine::{pitch_ratio, pitch_to_ratio, EngineState, SampleEngine};
use crate::fixed::{
    clamp, lemma_div_below_multiple, lemma_div_mod_successor, lemma_round_div_exact,
    lemma_round_div_monotonic, round_div, rounded_quotient, whole_div, whole_quotient, SAMPLE_ONE,
};
use crate::machines::{channel_index, clamped_channel};
use vstd::prelude::*;

verus! {

/// Envelope units that one decaying sample takes away.
pub const DECAY_STEP: u128 = 127;

/// Upper bound of any envelope span (2^65).
pub const MAX_SPAN: u128 = 0x2_0000_0000_0000_0000;

/// The playback parameters of one trigger, each on the panel scale 0 to 127.
#[derive(Clone, Copy, Debug, PartialEq, Eq)]
pub struct RamPlayParams {
    /// Start point as a fraction of the buffer.
    pub strt: i32,
    /// End point as a fraction of the buffer.
    pub end: i32,
    /// Pitch in semitones around the centre 64.
    pub pitch: i32,
    /// Hold time as a fraction of two seconds.
    pub hold: i32,
    /// Decay time as a fraction of four seconds.
    pub dec: i32,
    /// Number of automatic retriggers.
    pub rtrg: i32,
    /// Retrigger interval as a fraction of half a second.
    pub rtim: i32,
    /// Amount of sample-rate reduction.
    pub srr: i32,
    /// Output volume.
    pub vol: i32,
}

impl Default for RamPlayParams {
    /// The whole buffer at its recorded pitch, no hold, no decay time, no
    /// retrigger, no rate reduction, volume 100.
    fn default() -> (params: Self)
        ensures
            params == (RamPlayParams {
                strt: 0,
                end: 127,
                pitch: 64,
                hold: 0,
                dec: 0,
                rtrg: 0,
                rtim: 0,
                srr: 0,
                vol: 100,
            }),
    {
        Self { strt: 0, end: 127, pitch: 64, hold: 0, dec: 0, rtrg: 0, rtim: 0, srr: 0, vol: 100 }
    }
}

/// The position that lies the fraction `param / 127` into a buffer of `len`
/// samples, in units of 2^-32 of a slot, rounded down; zero for a negative
/// parameter.
pub open spec fn buffer_fraction(param: int, len: int) -> int {
    whole_div(param * len * 4294967296, 127)
}

/// The envelope span for a decay parameter: the decay lasts the fraction
/// `dec / 127` of four seconds, and the envelope counts in units of which
/// each sample removes 127, so the span is `4 * dec * sample_rate`. A decay
/// of zero length ends within one sample.
pub open spec fn envelope_span(dec: int, sample_rate: int) -> int {
    if dec > 0 && sample_rate > 0 {
        4 * (dec * sample_rate)
    } else {
        127
    }
}

/// The hold time in samples: the fraction `hold / 127` of two seconds.
pub open spec fn hold_samples(hold: int, sample_rate: int) -> int {
    whole_div(2 * (hold * sample_rate), 127)
}

/// The retrigger interval in samples: the fraction `rtim / 127` of 500
/// milliseconds.
pub open spec fn retrig_interval_samples(rtim: int, sample_rate: int) -> int {
    whole_div(rtim * sample_rate, 254)
}

/// A lo-fi sample scaled by the envelope `level / span` and by the volume
/// `vol / 127`, rounded to the nearest raw unit and kept inside the sample
/// type.
pub open spec fn scaled_output(sample: int, level: int, span: int, vol: int) -> int {
    clamp(round_div(sample * level * vol, span * 127), i32::MIN as int, i32::MAX as int)
}

fn position_at_fraction(param: i32, len: usize) -> (position: u128)
    ensures
        position == buffer_fraction(param as int, len as int),
{
    if param <= 0 {
        assert(param * len * 4294967296 <= 0) by (nonlinear_arith)
            requires
                param <= 0,
                len >= 0,
        ;
        return 0;
    }
    assert(0 <= param * len <= 0x7fff_ffff * 0xffff_ffff_ffff_ffff) by (nonlinear_arith)
        requires
            0 < param <= 0x7fff_ffff,
            0 <= len <= 0xffff_ffff_ffff_ffff,
    ;
    let scaled: i128 = (param as i128) * (len as i128) * 4294967296;
    whole_quotient(scaled, 127) as u128
}

fn span_for_decay(dec: i32, sample_rate: u32) -> (span: u128)
    ensures
        span == envelope_span(dec as int, sample_rate as int),
        0 < span <= MAX_SPAN,
{
    if dec > 0 && sample_rate > 0 {
        assert(0 < dec * sample_rate <= 0x7fff_ffff * 0xffff_ffff) by (nonlinear_arith)
            requires
                0 < dec <= 0x7fff_ffff,
                0 < sample_rate <= 0xffff_ffff,
        ;
        4 * ((dec as u128) * (sample_rate as u128))
    } else {
        127
    }
}

fn samples_in_hold(hold: i32, sample_rate: u32) -> (samples: u64)
    ensures
        samples == hold_samples(hold as int, sample_rate as int),
{
    assert(-(0x8000_0000 * 0xffff_ffff) <= hold * sample_rate <= 0x7fff_ffff * 0xffff_ffff)
        by (nonlinear_arith)
        requires
            -0x8000_0000 <= hold <= 0x7fff_ffff,
            0 <= sample_rate <= 0xffff_ffff,
    ;
    let scaled: i128 = 2 * ((hold as i128) * (sample_rate as i128));
    whole_quotient(scaled, 127) as u64
}

fn samples_between_retriggers(rtim: i32, sample_rate: u32) -> (samples: u64)
    ensures
        samples == retrig_interval_samples(rtim as int, sample_rate as int),
{
    assert(-(0x8000_0000 * 0xffff_ffff) <= rtim * sample_rate <= 0x7fff_ffff * 0xffff_ffff)
        by (nonlinear_arith)
        requires
            -0x8000_0000 <= rtim <= 0x7fff_ffff,
            0 <= sample_rate <= 0xffff_ffff,
    ;
    let scaled: i128 = (rtim as i128) * (sample_rate as i128);
    whole_quotient(scaled, 254) as u64
}

fn scale_output(sample: i32, level: u128, span: u128, vol: i32) -> (out: i32)
    requires
        -SAMPLE_ONE <= sample <= SAMPLE_ONE,
        level <= span,
        0 < span <= MAX_SPAN,
    ensures
        out == scaled_output(sample as int, level as int, span as int, vol as int),
{
    assert(-(0x100_0000 * 0x2_0000_0000_0000_0000) <= sample * level <= 0x100_0000
        * 0x2_0000_0000_0000_0000) by (nonlinear_arith)
        requires
            -0x100_0000 <= sample <= 0x100_0000,
            0 <= level <= 0x2_0000_0000_0000_0000,
    ;
    let weighted: i128 = (sample as i128) * (level as i128);
    assert(-(0x200_0000_0000_0000_0000_0000 * 0x8000_0000) <= weighted * vol
        <= 0x200_0000_0000_0000_0000_0000 * 0x8000_0000) by (nonlinear_arith)
        requires
            -0x200_0000_0000_0000_0000_0000 <= weighted <= 0x200_0000_0000_0000_0000_0000,
            -0x8000_0000 <= vol <= 0x7fff_ffff,
    ;
    let numer: i128 = weighted * (vol as i128);
    let denom: i128 = (span as i128) * 127;
    let exact: i128 = rounded_quotient(numer, denom);
    if exact < i32::MIN as i128 {
        i32::MIN
    } else if exact > i32::MAX as i128 {
        i32::MAX
    } else {
        exact as i32
    }
}

/// The mathematical content of one playback voice.
#[verifier::ext_equal]
pub struct VoiceState {
    /// The voice's sample engine.
    pub engine: EngineState,
    /// Envelope level, as a count of units of which `span` make 1.0.
    pub level: nat,
    /// Envelope units that make the level 1.0.
    pub span: nat,
    /// Whether the envelope is running.
    pub active: bool,
    /// Length of the hold window in samples.
    pub hold_time: nat,
    /// Samples of the hold window that have passed.
    pub hold_counter: nat,
    /// Samples since the last (re)trigger of the scheduler.
    pub retrig_counter: nat,
    /// Samples between two retriggers.
    pub retrig_interval: nat,
    /// Retriggers that are still to come.
    pub retrigs_remaining: nat,
    /// The parameters that were in force at the last trigger.
    pub params: RamPlayParams,
}

impl VoiceState {
    /// Validity: the engine is valid and the envelope level lies between
    /// zero and its span.
    pub open spec fn wf(self) -> bool {
        &&& self.engine.wf()
        &&& 0 < self.span <= MAX_SPAN
        &&& self.level <= self.span
    }

    /// Whether the voice counts as playing: its envelope is running or
    /// retriggers are still scheduled.
    pub open spec fn playing(self) -> bool {
        self.active || self.retrigs_remaining > 0
    }

    /// The voice after a (re)start from its snapshot at `sample_rate`: the
    /// engine is triggered at the start fraction, the envelope is full, and
    /// hold and decay are taken from the snapshot. The scheduler is untouched.
    pub open spec fn restarted(self, sample_rate: nat) -> VoiceState {
        VoiceState {
            engine: self.engine.triggered(
                buffer_fraction(self.params.strt as int, self.engine.buffer.len() as int) as nat,
            ),
            level: envelope_span(self.params.dec as int, sample_rate as int) as nat,
            span: envelope_span(self.params.dec as int, sample_rate as int) as nat,
            active: true,
            hold_time: hold_samples(self.params.hold as int, sample_rate as int) as nat,
            hold_counter: 0,
            ..self
        }
    }

    /// The voice after a trigger with `params`: the snapshot is replaced, the
    /// voice restarts, and the scheduler is armed if `rtrg` is positive and
    /// disarmed otherwise.
    pub open spec fn triggered(self, params: RamPlayParams, sample_rate: nat) -> VoiceState {
        let started = (VoiceState { params, ..self }).restarted(sample_rate);
        if params.rtrg > 0 {
            VoiceState {
                retrigs_remaining: params.rtrg as nat,
                retrig_interval: retrig_interval_samples(params.rtim as int, sample_rate as int) as nat,
                retrig_counter: 0,
                ..started
            }
        } else {
            VoiceState { retrigs_remaining: 0, ..started }
        }
    }

    /// The voice after a stop: silent, inactive, and nothing scheduled.
    pub open spec fn stopped(self) -> VoiceState {
        VoiceState { active: false, level: 0, retrigs_remaining: 0, ..self }
    }

    /// The scheduler's part of one sample: while retriggers remain the
    /// counter advances, and when it reaches the interval it returns to zero,
    /// one retrigger is used up and the voice restarts.
    pub open spec fn scheduled(self, sample_rate: nat) -> VoiceState {
        if self.retrigs_remaining == 0 {
            self
        } else if self.retrig_counter + 1 >= self.retrig_interval {
            (VoiceState {
                retrig_counter: 0,
                retrigs_remaining: (self.retrigs_remaining - 1) as nat,
                ..self
            }).restarted(sample_rate)
        } else {
            VoiceState { retrig_counter: self.retrig_counter + 1, ..self }
        }
    }

    /// Whether playback has reached the end fraction or the end of the buffer.
    pub open spec fn at_end(self) -> bool {
        self.engine.finished(
            buffer_fraction(self.params.end as int, self.engine.buffer.len() as int) as nat,
        )
    }

    /// Whether the voice renders a sample: it is active and not at its end.
    pub open spec fn sounding(self) -> bool {
        self.active && !self.at_end()
    }

    /// Whether the hold window is still open.
    pub open spec fn holding(self) -> bool {
        self.hold_counter < self.hold_time
    }

    /// The envelope level after one rendered sample: unchanged inside the
    /// hold window, one decay step lower after it, never below zero.
    pub open spec fn level_after(self) -> nat {
        if self.holding() {
            self.level
        } else if self.level > DECAY_STEP {
            (self.level - DECAY_STEP) as nat
        } else {
            0
        }
    }

    /// The rendering part of one sample. An inactive voice is unchanged; an
    /// active voice at its end becomes inactive; otherwise the engine reads
    /// one lo-fi sample at the snapshot's pitch and rate reduction, the
    /// envelope advances, and the voice becomes inactive once the level is
    /// zero.
    pub open spec fn rendered(self) -> VoiceState {
        if !self.active {
            self
        } else if self.at_end() {
            VoiceState { active: false, ..self }
        } else {
            VoiceState {
                engine: self.engine.after_lofi_read(
                    pitch_ratio(self.params.pitch as int) as nat,
                    self.params.srr as int,
                ),
                hold_counter: if self.holding() {
                    self.hold_counter + 1
                } else {
                    self.hold_counter
                },
                level: self.level_after(),
                active: self.holding() || self.level_after() > 0,
                ..self
            }
        }
    }

    /// The sample that the rendering part returns: silence unless the voice
    /// sounds, else the lo-fi sample scaled by the advanced envelope and by
    /// the snapshot's volume.
    pub open spec fn rendered_output(self) -> int {
        if self.sounding() {
            scaled_output(
                self.engine.lofi_value(self.params.srr as int),
                self.level_after() as int,
                self.span as int,
                self.params.vol as int,
            )
        } else {
            0
        }
    }

    /// The voice after one whole sample: scheduler first, rendering second.
    pub open spec fn processed(self, sample_rate: nat) -> VoiceState {
        self.scheduled(sample_rate).rendered()
    }

    /// The sample that one whole processing step returns.
    pub open spec fn output(self, sample_rate: nat) -> int {
        self.scheduled(sample_rate).rendered_output()
    }
}

/// Rendering only ever lowers the envelope, and a valid voice stays valid
/// through every step: the level rises to its span only on a (re)start.
pub proof fn envelope_only_falls(voice: VoiceState, sample_rate: nat)
    requires
        voice.wf(),
    ensures
        voice.rendered().level <= voice.level,
        voice.rendered().span == voice.span,
        voice.rendered().wf(),
        voice.restarted(sample_rate).level == voice.restarted(sample_rate).span,
{
}

/// The voice after `n` processing steps at `sample_rate`.
pub open spec fn after_steps(voice: VoiceState, sample_rate: nat, n: nat) -> VoiceState
    decreases n,
{
    if n == 0 {
        voice
    } else {
        after_steps(voice, sample_rate, (n - 1) as nat).processed(sample_rate)
    }
}

/// Steps from one retrigger to the next: the interval, and one step where
/// the interval is shorter than a sample.
pub open spec fn retrig_period(interval: nat) -> nat {
    if interval < 1 {
        1
    } else {
        interval
    }
}

proof fn lemma_schedule(voice: VoiceState, sample_rate: nat, n: nat)
    requires
        voice.retrig_counter == 0,
    ensures
        ({
            let later = after_steps(voice, sample_rate, n);
            let period = retrig_period(voice.retrig_interval);
            let full = voice.retrigs_remaining * period;
            &&& later.retrig_interval == voice.retrig_interval
            &&& n <= full ==> later.retrigs_remaining == voice.retrigs_remaining - n / period
                && later.retrig_counter == n % period
            &&& n > full ==> later.retrigs_remaining == 0 && later.retrig_counter == 0
        }),
    decreases n,
{
    let period = retrig_period(voice.retrig_interval) as int;
    let count = voice.retrigs_remaining as int;
    if n == 0 {
        lemma_div_below_multiple(0, period, 0);
        assert(count * period >= 0) by (nonlinear_arith)
            requires
                count >= 0,
                period >= 1,
        ;
    } else {
        let before = (n - 1) as nat;
        lemma_schedule(voice, sample_rate, before);
        lemma_div_mod_successor(before as int, period);
        lemma_div_below_multiple(before as int, period, count);
        lemma_div_below_multiple(n as int, period, count);
        assert(count * period == period * count) by (nonlinear_arith);
    }
}

/// From a trigger on, a voice armed with `k` retriggers restarts once per
/// retrigger period until all `k` are used up, and never again: after `n`
/// samples `k - n / period` retriggers remain, or none once that is
/// negative.
pub proof fn retriggers_fire_once_per_period(voice: VoiceState, sample_rate: nat, n: nat)
    requires
        voice.retrig_counter == 0,
    ensures
        after_steps(voice, sample_rate, n).retrigs_remaining == if n / retrig_period(
            voice.retrig_interval,
        ) >= voice.retrigs_remaining {
            0
        } else {
            voice.retrigs_remaining - n / retrig_period(voice.retrig_interval)
        },
{
    let period = retrig_period(voice.retrig_interval) as int;
    let count = voice.retrigs_remaining as int;
    lemma_schedule(voice, sample_rate, n);
    lemma_div_below_multiple(n as int, period, count);
    assert(count * period == period * count) by (nonlinear_arith);
}

struct Voice {
    engine: SampleEngine,
    level: u128,
    span: u128,
    active: bool,
    hold_time: u64,
    hold_counter: u64,
    retrig_counter: u64,
    retrig_interval: u64,
    retrigs_remaining: u64,
    params: RamPlayParams,
}

impl View for Voice {
    type V = VoiceState;

    closed spec fn view(&self) -> VoiceState {
        VoiceState {
            engine: self.engine@,
            level: self.level as nat,
            span: self.span as nat,
            active: self.active,
            hold_time: self.hold_time as nat,
            hold_counter: self.hold_counter as nat,
            retrig_counter: self.retrig_counter as nat,
            retrig_interval: self.retrig_interval as nat,
            retrigs_remaining: self.retrigs_remaining as nat,
            params: self.params,
        }
    }
}

impl Voice {
    fn new(sample_rate: u32) -> (voice: Self)
        ensures
            voice@ == idle_voice(sample_rate as nat),
            voice@.wf(),
    {
        Self {
            engine: SampleEngine::new(sample_rate),
            level: 0,
            span: 127,
            active: false,
            hold_time: 0,
            hold_counter: 0,
            retrig_counter: 0,
            retrig_interval: 0,
            retrigs_remaining: 0,
            params: RamPlayParams::default(),
        }
    }

    fn restart(&mut self, sample_rate: u32)
        requires
            old(self)@.wf(),
        ensures
            final(self)@ == old(self)@.restarted(sample_rate as nat),
            final(self)@.wf(),
    {
        let start: u128 = position_at_fraction(self.params.strt, self.engine.buffer_len());
        self.engine.trigger(start);
        let span: u128 = span_for_decay(self.params.dec, sample_rate);
        self.level = span;
        self.span = span;
        self.active = true;
        self.hold_time = samples_in_hold(self.params.hold, sample_rate);
        self.hold_counter = 0;
    }

    fn trigger(&mut self, params: &RamPlayParams, sample_rate: u32)
        requires
            old(self)@.wf(),
        ensures
            final(self)@ == old(self)@.triggered(*params, sample_rate as nat),
            final(self)@.wf(),
    {
        self.params = *params;
        self.restart(sample_rate);
        if params.rtrg > 0 {
            self.retrigs_remaining = params.rtrg as u64;
            self.retrig_interval = samples_between_retriggers(params.rtim, sample_rate);
            self.retrig_counter = 0;
        } else {
            self.retrigs_remaining = 0;
        }
    }

    fn stop(&mut self)
        requires
            old(self)@.wf(),
        ensures
            final(self)@ == old(self)@.stopped(),
            final(self)@.wf(),
    {
        self.active = false;
        self.level = 0;
        self.retrigs_remaining = 0;
    }

    fn process(&mut self, sample_rate: u32) -> (out: i32)
        requires
            old(self)@.wf(),
        ensures
            final(self)@ == old(self)@.processed(sample_rate as nat),
            out == old(self)@.output(sample_rate as nat),
            final(self)@.wf(),
    {
        if self.retrigs_remaining > 0 {
            if self.retrig_interval <= 1 || self.retrig_counter >= self.retrig_interval - 1 {
                self.retrig_counter = 0;
                self.retrigs_remaining = self.retrigs_remaining - 1;
                self.restart(sample_rate);
            } else {
                self.retrig_counter = self.retrig_counter + 1;
            }
        }
        if !self.active {
            return 0;
        }
        let end: u128 = position_at_fraction(self.params.end, self.engine.buffer_len());
        if self.engine.is_finished(end) {
            self.active = false;
            return 0;
        }
        let ratio: u64 = pitch_to_ratio(self.params.pitch);
        let sample: i32 = self.engine.read_sample_with_processing(ratio, self.params.srr);
        if self.hold_counter < self.hold_time {
            self.hold_counter = self.hold_counter + 1;
        } else {
            self.level = if self.level > DECAY_STEP {
                self.level - DECAY_STEP
            } else {
                0
            };
            if self.level == 0 {
                self.active = false;
            }
        }
        scale_output(sample, self.level, self.span, self.params.vol)
    }

    fn is_playing(&self) -> (playing: bool)
        ensures
            playing == self@.playing(),
    {
        self.active || self.retrigs_remaining > 0
    }
}

/// A voice that has never been triggered: empty engine, silent envelope,
/// nothing scheduled, default snapshot.
pub open spec fn idle_voice(sample_rate: nat) -> VoiceState {
    VoiceState {
        engine: EngineState {
            buffer: Seq::empty(),
            position: 0,
            sample_rate,
            srr_counter: 0,
            srr_hold: 0,
        },
        level: 0,
        span: 127,
        active: false,
        hold_time: 0,
        hold_counter: 0,
        retrig_counter: 0,
        retrig_interval: 0,
        retrigs_remaining: 0,
        params: RamPlayParams {
            strt: 0,
            end: 127,
            pitch: 64,
            hold: 0,
            dec: 0,
            rtrg: 0,
            rtim: 0,
            srr: 0,
            vol: 100,
        },
    }
}

/// The sum of what the first `n` voices put out in one processing step.
pub open spec fn mix_sum(voices: Seq<VoiceState>, sample_rate: nat, n: nat) -> int
    decreases n,
{
    if n == 0 {
        0
    } else {
        mix_sum(voices, sample_rate, (n - 1) as nat) + voices[n - 1].output(sample_rate)
    }
}

/// The RAM PLAY machine: eight voices and the sample rate they run at.
pub struct RamPlay {
    voices: [Voice; 8],
    sample_rate: u32,
}

impl RamPlay {
    /// The state of voice `channel`, `0 <= channel < 8`.
    pub closed spec fn voice(&self, channel: int) -> VoiceState {
        self.voices[channel]@
    }

    /// The states of all eight voices in channel order.
    pub open spec fn voices(&self) -> Seq<VoiceState> {
        Seq::new(8, |c: int| self.voice(c))
    }

    /// The sample rate in hertz that triggers take their timing from.
    pub closed spec fn rate(&self) -> nat {
        self.sample_rate as nat
    }

    /// Validity: every voice is valid.
    pub open spec fn wf(&self) -> bool {
        forall|c: int| 0 <= c < 8 ==> (#[trigger] self.voice(c)).wf()
    }

    /// A machine of eight idle voices.
    pub fn new(sample_rate: u32) -> (machine: Self)
        ensures
            machine.wf(),
            machine.rate() == sample_rate,
            forall|c: int| 0 <= c < 8 ==> #[trigger] machine.voice(c) == idle_voice(sample_rate as nat),
    {
        Self {
            voices: [
                Voice::new(sample_rate),
                Voice::new(sample_rate),
                Voice::new(sample_rate),
                Voice::new(sample_rate),
                Voice::new(sample_rate),
                Voice::new(sample_rate),
                Voice::new(sample_rate),
                Voice::new(sample_rate),
            ],
            sample_rate,
        }
    }

    /// Sets the sample rate of the machine and of every engine. Running
    /// envelopes keep the timing they were triggered with.
    pub fn set_sample_rate(&mut self, sample_rate: u32)
        requires
            old(self).wf(),
        ensures
            final(self).wf(),
            final(self).rate() == sample_rate,
            forall|c: int|
                0 <= c < 8 ==> #[trigger] final(self).voice(c) == (VoiceState {
                    engine: EngineState {
                        sample_rate: sample_rate as nat,
                        ..old(self).voice(c).engine
                    },
                    ..old(self).voice(c)
                }),
    {
        self.sample_rate = sample_rate;
        let mut channel: usize = 0;
        while channel < 8
            invariant
                0 <= channel <= 8,
                self.sample_rate == sample_rate,
                old(self).wf(),
                forall|c: int|
                    0 <= c < channel ==> (#[trigger] self.voices[c])@ == (VoiceState {
                        engine: EngineState {
                            sample_rate: sample_rate as nat,
                            ..old(self).voices[c]@.engine
                        },
                        ..old(self).voices[c]@
                    }),
                forall|c: int| channel <= c < 8 ==> (#[trigger] self.voices[c]) == old(self).voices[c],
            decreases 8 - channel,
        {
            self.voices[channel].engine.set_sample_rate(sample_rate);
            channel = channel + 1;
        }
        assert forall|c: int| 0 <= c < 8 implies (#[trigger] self.voice(c)).wf() by {
            assert(old(self).voice(c).wf());
        }
    }

    /// Gives voice `channel` a new buffer and rewinds its engine.
    pub fn load_buffer(&mut self, samples: Vec<i16>, channel: usize)
        requires
            old(self).wf(),
        ensures
            final(self).wf(),
            final(self).rate() == old(self).rate(),
            final(self).voice(channel_index(channel)) == (VoiceState {
                engine: EngineState {
                    buffer: samples@,
                    position: 0,
                    ..old(self).voice(channel_index(channel)).engine
                },
                ..old(self).voice(channel_index(channel))
            }),
            forall|c: int|
                0 <= c < 8 && c != channel_index(channel) ==> #[trigger] final(self).voice(c) == old(
                    self,
                ).voice(c),
    {
        let channel: usize = clamped_channel(channel);
        self.voices[channel].engine.load_buffer(samples);
        assert forall|c: int| 0 <= c < 8 implies (#[trigger] self.voice(c)).wf() by {
            assert(old(self).voice(c).wf());
        }
    }

    /// Gives every voice a copy of its buffer in `buffers`.
    pub fn load_all_buffers(&mut self, buffers: &[Vec<i16>; 8])
        requires
            old(self).wf(),
        ensures
            final(self).wf(),
            final(self).rate() == old(self).rate(),
            forall|c: int|
                0 <= c < 8 ==> #[trigger] final(self).voice(c) == (VoiceState {
                    engine: EngineState {
                        buffer: buffers@[c]@,
                        position: 0,
                        ..old(self).voice(c).engine
                    },
                    ..old(self).voice(c)
                }),
    {
        let mut channel: usize = 0;
        while channel < 8
            invariant
                0 <= channel <= 8,
                self.sample_rate == old(self).sample_rate,
                old(self).wf(),
                forall|c: int|
                    0 <= c < channel ==> (#[trigger] self.voices[c])@ == (VoiceState {
                        engine: EngineState {
                            buffer: buffers@[c]@,
                            position: 0,
                            ..old(self).voices[c]@.engine
                        },
                        ..old(self).voices[c]@
                    }),
                forall|c: int| channel <= c < 8 ==> (#[trigger] self.voices[c]) == old(self).voices[c],
            decreases 8 - channel,
        {
            let copy: Vec<i16> = buffers[channel].clone();
            self.voices[channel].engine.load_buffer(copy);
            channel = channel + 1;
        }
        assert forall|c: int| 0 <= c < 8 implies (#[trigger] self.voice(c)).wf() by {
            assert(old(self).voice(c).wf());
        }
    }

    /// Triggers voice `channel` with a snapshot of `params`.
    pub fn trigger(&mut self, params: &RamPlayParams, channel: usize)
        requires
            old(self).wf(),
        ensures
            final(self).wf(),
            final(self).rate() == old(self).rate(),
            final(self).voice(channel_index(channel)) == old(self).voice(
                channel_index(channel),
            ).triggered(*params, old(self).rate()),
            forall|c: int|
                0 <= c < 8 && c != channel_index(channel) ==> #[trigger] final(self).voice(c) == old(
                    self,
                ).voice(c),
    {
        let channel: usize = clamped_channel(channel);
        assert(self.voice(channel as int).wf());
        self.voices[channel].trigger(params, self.sample_rate);
        assert forall|c: int| 0 <= c < 8 implies (#[trigger] self.voice(c)).wf() by {
            assert(old(self).voice(c).wf());
        }
    }

    /// Stops voice `channel` at once and cancels its retriggers.
    pub fn stop(&mut self, channel: usize)
        requires
            old(self).wf(),
        ensures
            final(self).wf(),
            final(self).rate() == old(self).rate(),
            final(self).voice(channel_index(channel)) == old(self).voice(
                channel_index(channel),
            ).stopped(),
            forall|c: int|
                0 <= c < 8 && c != channel_index(channel) ==> #[trigger] final(self).voice(c) == old(
                    self,
                ).voice(c),
    {
        let channel: usize = clamped_channel(channel);
        assert(self.voice(channel as int).wf());
        self.voices[channel].stop();
        assert forall|c: int| 0 <= c < 8 implies (#[trigger] self.voice(c)).wf() by {
            assert(old(self).voice(c).wf());
        }
    }

    /// Stops every voice.
    pub fn stop_all(&mut self)
        requires
            old(self).wf(),
        ensures
            final(self).wf(),
            final(self).rate() == old(self).rate(),
            forall|c: int| 0 <= c < 8 ==> #[trigger] final(self).voice(c) == old(self).voice(c).stopped(),
    {
        let mut channel: usize = 0;
        while channel < 8
            invariant
                0 <= channel <= 8,
                self.sample_rate == old(self).sample_rate,
                old(self).wf(),
                forall|c: int|
                    0 <= c < channel ==> (#[trigger] self.voices[c])@ == old(self).voices[c]@.stopped(),
                forall|c: int| channel <= c < 8 ==> (#[trigger] self.voices[c]) == old(self).voices[c],
            decreases 8 - channel,
        {
            assert(old(self).voice(channel as int).wf());
            self.voices[channel].stop();
            channel = channel + 1;
        }
        assert forall|c: int| 0 <= c < 8 implies (#[trigger] self.voice(c)).wf() by {
            assert(old(self).voice(c).wf());
        }
    }

    /// Advances voice `channel` by one sample and returns what it puts out:
    /// the retrigger scheduler runs first, the voice renders second.
    pub fn process(&mut self, channel: usize) -> (out: i32)
        requires
            old(self).wf(),
        ensures
            final(self).wf(),
            final(self).rate() == old(self).rate(),
            out == old(self).voice(channel_index(channel)).output(old(self).rate()),
            final(self).voice(channel_index(channel)) == old(self).voice(
                channel_index(channel),
            ).processed(old(self).rate()),
            forall|c: int|
                0 <= c < 8 && c != channel_index(channel) ==> #[trigger] final(self).voice(c) == old(
                    self,
                ).voice(c),
    {
        let channel: usize = clamped_channel(channel);
        assert(self.voice(channel as int).wf());
        let out: i32 = self.voices[channel].process(self.sample_rate);
        assert forall|c: int| 0 <= c < 8 implies (#[trigger] self.voice(c)).wf() by {
            assert(old(self).voice(c).wf());
        }
        out
    }

    /// Advances every voice by one sample and returns the average of the
    /// eight outputs, rounded to the nearest raw unit.
    pub fn process_mix(&mut self) -> (out: i32)
        requires
            old(self).wf(),
        ensures
            final(self).wf(),
            final(self).rate() == old(self).rate(),
            out == round_div(mix_sum(old(self).voices(), old(self).rate(), 8), 8),
            forall|c: int|
                0 <= c < 8 ==> #[trigger] final(self).voice(c) == old(self).voice(c).processed(
                    old(self).rate(),
                ),
    {
        let mut mix: i64 = 0;
        let mut channel: usize = 0;
        while channel < 8
            invariant
                0 <= channel <= 8,
                self.sample_rate == old(self).sample_rate,
                old(self).wf(),
                mix == mix_sum(old(self).voices(), old(self).rate(), channel as nat),
                -0x8000_0000 * channel <= mix <= 0x7fff_ffff * channel,
                forall|c: int|
                    0 <= c < channel ==> (#[trigger] self.voices[c])@ == old(self).voices[c]@.processed(
                        old(self).rate(),
                    ),
                forall|c: int| 0 <= c < channel ==> (#[trigger] self.voices[c])@.wf(),
                forall|c: int| channel <= c < 8 ==> (#[trigger] self.voices[c]) == old(self).voices[c],
            decreases 8 - channel,
        {
            assert(old(self).voice(channel as int).wf());
            let out: i32 = self.voices[channel].process(self.sample_rate);
            mix = mix + out as i64;
            channel = channel + 1;
        }
        let average: i128 = rounded_quotient(mix as i128, 8);
        proof {
            lemma_round_div_monotonic(mix as int, 0x7fff_ffffint * 8, 8);
            lemma_round_div_monotonic(-0x8000_0000int * 8, mix as int, 8);
            lemma_round_div_exact(0x7fff_ffff, 8);
            lemma_round_div_exact(-0x8000_0000, 8);
        }
        average as i32
    }

    /// Whether voice `channel` is playing or has retriggers scheduled.
    pub fn is_playing(&self, channel: usize) -> (playing: bool)
        ensures
            playing == self.voice(channel_index(channel)).playing(),
    {
        let channel: usize = clamped_channel(channel);
        self.voices[channel].is_playing()
    }

    /// Whether any voice is playing.
    pub fn is_any_playing(&self) -> (any: bool)
        ensures
            any == exists|c: int| 0 <= c < 8 && (#[trigger] self.voice(c)).playing(),
    {
        let mut channel: usize = 0;
        while channel < 8
            invariant
                0 <= channel <= 8,
                forall|c: int| 0 <= c < channel ==> !(#[trigger] self.voices[c])@.playing(),
            decreases 8 - channel,
        {
            if self.voices[channel].is_playing() {
                assert(self.voice(channel as int).playing());
                return true;
            }
            channel = channel + 1;
        }
        false
    }

    /// Number of samples in the buffer of voice `channel`.
    pub fn buffer_len(&self, channel: usize) -> (len: usize)
        ensures
            len == self.voice(channel_index(channel)).engine.buffer.len(),
    {
        let channel: usize = clamped_channel(channel);
        self.voices[channel].engine.buffer_len()
    }

    /// Retriggers that voice `channel` still has scheduled.
    pub fn retrigs_remaining(&self, channel: usize) -> (count: u64)
        ensures
            count == self.voice(channel_index(channel)).retrigs_remaining,
    {
        let channel: usize = clamped_channel(channel);
        self.voices[channel].retrigs_remaining
    }

    /// Samples between two retriggers of voice `channel`.
    pub fn retrig_interval(&self, channel: usize) -> (samples: u64)
        ensures
            samples == self.voice(channel_index(channel)).retrig_interval,
    {
        let channel: usize = clamped_channel(channel);
        self.voices[channel].retrig_interval
    }
}

} // verus!
