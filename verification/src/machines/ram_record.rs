//! RAM RECORD: eight independent recording channels. Each channel mixes two
//! stereo sources, thins the write rate, quantizes to 12 bits and fills a
//! linear buffer up to a target length fixed when the recording starts.

use crate::dsp::sample_engine::{quantize_code, QUANT_MAX, QUANT_MIN, QUANT_STEP};
use crate::fixed::{
    clamp, lemma_div_below_multiple, lemma_div_mod_successor, lemma_round_div_bound, round_div,
    rounded_quotient, whole_div, whole_quotient, SAMPLE_ONE,
};
use crate::machines::{channel_index, clamped_channel};
use vstd::prelude::*;

verus! {

/// No buffer ever grows past this many samples: ten seconds at the highest
/// sample rate that fits the rate's type.
pub const MAX_BUFFER_LEN: u64 = 42949672950;

/// The recording parameters, each on the panel scale 0 to 127.
#[derive(Clone, Copy, Debug, PartialEq, Eq)]
pub struct RamRecordParams {
    /// Level of the main source.
    pub mlev: i32,
    /// Balance of the main source: 0 is left only, 127 is right only.
    pub mbal: i32,
    /// Level of the input source.
    pub ilev: i32,
    /// Balance of the input source.
    pub ibal: i32,
    /// Recording length as a fraction of ten seconds.
    pub rec_len: i32,
    /// Recording rate: 127 records every sample, 0 every sixteenth.
    pub rec_rate: i32,
}

impl Default for RamRecordParams {
    /// Both sources at level 64 and centred, length 64, full rate.
    fn default() -> (params: Self)
        ensures
            params == (RamRecordParams {
                mlev: 64,
                mbal: 64,
                ilev: 64,
                ibal: 64,
                rec_len: 64,
                rec_rate: 127,
            }),
    {
        Self { mlev: 64, mbal: 64, ilev: 64, ibal: 64, rec_len: 64, rec_rate: 127 }
    }
}

/// The longest buffer at a sample rate: ten seconds of samples.
pub open spec fn max_record_length(sample_rate: int) -> int {
    10 * sample_rate
}

/// The target length of a recording: the fraction `rec_len / 127` of ten
/// seconds in samples, rounded down, at most `max_length` and at least 1.
pub open spec fn target_length_for(rec_len: int, sample_rate: int, max_length: int) -> int {
    let wanted = whole_div(10 * (rec_len * sample_rate), 127);
    let limited = if wanted < max_length {
        wanted
    } else {
        max_length
    };
    if limited < 1 {
        1
    } else {
        limited
    }
}

/// The decimation divisor in whole ticks: `1 + (1 - rec_rate / 127) * 15`
/// rounded up, since a sample is written on the first tick that reaches the
/// divisor. Rate 127 gives 1, rate 0 gives 16.
pub open spec fn decimation_divisor(rec_rate: int) -> int {
    if 2032 - 15 * rec_rate <= 127 {
        1
    } else {
        (2158 - 15 * rec_rate) / 127
    }
}

/// The gain of the left side of a source, in 127ths: `1 - balance`, never
/// above unity.
pub open spec fn left_gain(balance: int) -> int {
    if balance < 0 {
        127
    } else {
        127 - balance
    }
}

/// The gain of the right side of a source, in 127ths: `balance`, never above
/// unity.
pub open spec fn right_gain(balance: int) -> int {
    if balance > 127 {
        127
    } else {
        balance
    }
}

/// One stereo source folded to mono by its balance and scaled by its level,
/// in units of 1/16129 of a raw sample unit.
pub open spec fn source_mix(left: int, right: int, balance: int, level: int) -> int {
    (left * left_gain(balance) + right * right_gain(balance)) * level
}

/// The sample that is recorded: both sources mixed and summed, rounded to
/// the nearest raw unit and limited to full scale.
pub open spec fn mixed_sample(
    main_l: int,
    main_r: int,
    input_l: int,
    input_r: int,
    params: RamRecordParams,
) -> int {
    clamp(
        round_div(
            source_mix(main_l, main_r, params.mbal as int, params.mlev as int) + source_mix(
                input_l,
                input_r,
                params.ibal as int,
                params.ilev as int,
            ),
            16129,
        ),
        -SAMPLE_ONE as int,
        SAMPLE_ONE as int,
    )
}

/// The 12-bit code that is stored for one frame of input.
pub open spec fn recorded_code(
    main_l: int,
    main_r: int,
    input_l: int,
    input_r: int,
    params: RamRecordParams,
) -> int {
    quantize_code(mixed_sample(main_l, main_r, input_l, input_r, params))
}

/// The mathematical content of one recording channel.
#[verifier::ext_equal]
pub struct ChannelState {
    /// The recorded 12-bit codes.
    pub buffer: Seq<i16>,
    /// Where the next code is written.
    pub write_position: nat,
    /// The write position at which the recording ends.
    pub target_length: nat,
    /// Ticks per written code.
    pub divisor: nat,
    /// Ticks since the last written code.
    pub counter: nat,
    /// Whether the channel records.
    pub recording: bool,
}

impl ChannelState {
    /// Validity: the write position lies inside or just past the buffer, the
    /// buffer is bounded, and the tick counter stays below the divisor.
    pub open spec fn wf(self) -> bool {
        &&& self.write_position <= self.buffer.len() <= MAX_BUFFER_LEN
        &&& self.target_length <= MAX_BUFFER_LEN
        &&& self.counter < self.divisor
    }

    /// The channel after a start: optionally emptied, with target length and
    /// divisor fixed for this pass, the tick counter at zero, recording.
    pub open spec fn started(
        self,
        params: RamRecordParams,
        clear: bool,
        sample_rate: int,
        max_length: int,
    ) -> ChannelState {
        ChannelState {
            buffer: if clear {
                Seq::empty()
            } else {
                self.buffer
            },
            write_position: if clear {
                0
            } else {
                self.write_position
            },
            target_length: target_length_for(params.rec_len as int, sample_rate, max_length) as nat,
            divisor: decimation_divisor(params.rec_rate as int) as nat,
            counter: 0,
            recording: true,
        }
    }

    /// Whether the next tick writes a code: the channel records, the target
    /// is not reached, and the tick completes the divisor.
    pub open spec fn accepts(self) -> bool {
        self.recording && self.write_position < self.target_length && self.counter + 1
            >= self.divisor
    }

    /// The channel after one tick that offers `code`. A channel that does not
    /// record is unchanged; one that has reached its target stops; otherwise
    /// the tick is counted, and the tick that completes the divisor writes
    /// the code at the write position and moves the position on.
    pub open spec fn ticked(self, code: i16) -> ChannelState {
        if !self.recording {
            self
        } else if self.write_position >= self.target_length {
            ChannelState { recording: false, ..self }
        } else if self.counter + 1 < self.divisor {
            ChannelState { counter: self.counter + 1, ..self }
        } else {
            ChannelState {
                counter: 0,
                buffer: if self.write_position < self.buffer.len() {
                    self.buffer.update(self.write_position as int, code)
                } else {
                    self.buffer.push(code)
                },
                write_position: self.write_position + 1,
                ..self
            }
        }
    }

    /// The channel after a clear: empty, rewound, counter at zero, stopped.
    pub open spec fn cleared(self) -> ChannelState {
        ChannelState {
            buffer: Seq::empty(),
            write_position: 0,
            counter: 0,
            recording: false,
            ..self
        }
    }
}

/// The channel after the first `n` of `codes` have been offered, one tick
/// each.
pub open spec fn after_ticks(start: ChannelState, codes: Seq<i16>, n: nat) -> ChannelState
    decreases n,
{
    if n == 0 {
        start
    } else {
        after_ticks(start, codes, (n - 1) as nat).ticked(codes[n - 1])
    }
}

proof fn lemma_ticks_count(start: ChannelState, codes: Seq<i16>, n: nat)
    requires
        start.recording,
        start.write_position == 0,
        start.buffer.len() == 0,
        start.counter == 0,
        start.divisor >= 1,
    ensures
        ({
            let state = after_ticks(start, codes, n);
            let full = start.divisor * start.target_length;
            &&& state.divisor == start.divisor
            &&& state.target_length == start.target_length
            &&& state.write_position == state.buffer.len()
            &&& n <= full ==> state.recording && state.write_position == n / start.divisor
                && state.counter == n % start.divisor
            &&& n > full ==> !state.recording && state.write_position == start.target_length
        }),
    decreases n,
{
    let d = start.divisor as int;
    let t = start.target_length as int;
    if n == 0 {
        lemma_div_below_multiple(0, d, 0);
        assert(d * t >= 0) by (nonlinear_arith)
            requires
                d >= 1,
                t >= 0,
        ;
    } else {
        let before = (n - 1) as nat;
        lemma_ticks_count(start, codes, before);
        lemma_div_mod_successor(before as int, d);
        lemma_div_below_multiple(before as int, d, t);
        lemma_div_below_multiple(n as int, d, t);
    }
}

/// A recording ends by itself: no tick moves the write position past the
/// target length, and target length and divisor stay as the start fixed
/// them.
pub proof fn recording_never_overruns_target(state: ChannelState, code: i16)
    requires
        state.write_position <= state.target_length,
    ensures
        state.ticked(code).write_position <= state.target_length,
        state.ticked(code).target_length == state.target_length,
        state.ticked(code).divisor == state.divisor,
{
}

/// From a fresh start a channel writes one code per `divisor` ticks until
/// its target length is reached: after `n` ticks the buffer holds `n /
/// divisor` codes (rounded down), and never more than the target length.
pub proof fn recorded_length_after_ticks(start: ChannelState, codes: Seq<i16>, n: nat)
    requires
        start.recording,
        start.write_position == 0,
        start.buffer.len() == 0,
        start.counter == 0,
        start.divisor >= 1,
    ensures
        after_ticks(start, codes, n).buffer.len() == if n / start.divisor <= start.target_length {
            n / start.divisor
        } else {
            start.target_length
        },
        decimation_divisor(127) == 1,
        decimation_divisor(0) == 16,
{
    lemma_ticks_count(start, codes, n);
    lemma_div_below_multiple(n as int, start.divisor as int, start.target_length as int);
}

fn divisor_for_rate(rec_rate: i32) -> (divisor: u32)
    ensures
        divisor == decimation_divisor(rec_rate as int),
        divisor >= 1,
{
    let excess: i64 = 2032 - 15 * (rec_rate as i64);
    if excess <= 127 {
        1
    } else {
        ((excess + 126) / 127) as u32
    }
}

fn length_for_target(rec_len: i32, sample_rate: u32, max_length: u64) -> (target: u64)
    ensures
        target == target_length_for(rec_len as int, sample_rate as int, max_length as int),
        target >= 1,
{
    assert(-(0x8000_0000 * 0xffff_ffff) <= rec_len * sample_rate <= 0x7fff_ffff * 0xffff_ffff)
        by (nonlinear_arith)
        requires
            -0x8000_0000 <= rec_len <= 0x7fff_ffff,
            0 <= sample_rate <= 0xffff_ffff,
    ;
    let scaled: i128 = 10 * ((rec_len as i128) * (sample_rate as i128));
    let wanted: i128 = whole_quotient(scaled, 127);
    let limited: i128 = if wanted < max_length as i128 {
        wanted
    } else {
        max_length as i128
    };
    if limited < 1 {
        1
    } else {
        limited as u64
    }
}

fn mix_source(left: i32, right: i32, balance: i32, level: i32) -> (mix: i128)
    ensures
        mix == source_mix(left as int, right as int, balance as int, level as int),
        -0x8000_0000_0000_0000_0000_0000 <= mix <= 0x8000_0000_0000_0000_0000_0000,
{
    let left_gain: i128 = if balance < 0 {
        127
    } else {
        127 - balance as i128
    };
    let right_gain: i128 = if balance > 127 {
        127
    } else {
        balance as i128
    };
    assert(-(0x8000_0000 * 0x8000_0000) <= left * left_gain <= 0x8000_0000 * 0x8000_0000)
        by (nonlinear_arith)
        requires
            -0x8000_0000 <= left <= 0x7fff_ffff,
            -0x8000_0000 <= left_gain <= 0x8000_0000,
    ;
    assert(-(0x8000_0000 * 0x8000_0000) <= right * right_gain <= 0x8000_0000 * 0x8000_0000)
        by (nonlinear_arith)
        requires
            -0x8000_0000 <= right <= 0x7fff_ffff,
            -0x8000_0000 <= right_gain <= 0x8000_0000,
    ;
    let folded: i128 = (left as i128) * left_gain + (right as i128) * right_gain;
    assert(-(0x8000_0000_0000_0000 * 0x8000_0000) <= folded * level <= 0x8000_0000_0000_0000
        * 0x8000_0000) by (nonlinear_arith)
        requires
            -0x8000_0000_0000_0000 <= folded <= 0x8000_0000_0000_0000,
            -0x8000_0000 <= level <= 0x7fff_ffff,
    ;
    folded * (level as i128)
}

/// Computes the 12-bit code that a frame of input is recorded as.
pub fn code_for_frame(
    main_l: i32,
    main_r: i32,
    input_l: i32,
    input_r: i32,
    params: &RamRecordParams,
) -> (code: i16)
    ensures
        code == recorded_code(main_l as int, main_r as int, input_l as int, input_r as int, *params),
        QUANT_MIN <= code <= QUANT_MAX,
{
    let main_mix: i128 = mix_source(main_l, main_r, params.mbal, params.mlev);
    let input_mix: i128 = mix_source(input_l, input_r, params.ibal, params.ilev);
    let combined: i128 = rounded_quotient(main_mix + input_mix, 16129);
    let limited: i128 = if combined < -(SAMPLE_ONE as i128) {
        -(SAMPLE_ONE as i128)
    } else if combined > SAMPLE_ONE as i128 {
        SAMPLE_ONE as i128
    } else {
        combined
    };
    let code: i128 = rounded_quotient(limited, QUANT_STEP as i128);
    if code < QUANT_MIN as i128 {
        QUANT_MIN as i16
    } else if code > QUANT_MAX as i128 {
        QUANT_MAX as i16
    } else {
        code as i16
    }
}

/// The RAM RECORD machine: eight buffers with their channel controls.
pub struct RamRecord {
    buffers: [Vec<i16>; 8],
    write_positions: [usize; 8],
    target_lengths: [u64; 8],
    divisors: [u32; 8],
    counters: [u32; 8],
    is_recording: [bool; 8],
    max_length: u64,
    sample_rate: u32,
}

impl RamRecord {
    /// The state of channel `channel`, `0 <= channel < 8`.
    pub closed spec fn channel(&self, channel: int) -> ChannelState {
        ChannelState {
            buffer: self.buffers[channel]@,
            write_position: self.write_positions[channel] as nat,
            target_length: self.target_lengths[channel] as nat,
            divisor: self.divisors[channel] as nat,
            counter: self.counters[channel] as nat,
            recording: self.is_recording[channel],
        }
    }

    /// The sample rate in hertz.
    pub closed spec fn rate(&self) -> nat {
        self.sample_rate as nat
    }

    /// The longest buffer that a recording may fill.
    pub closed spec fn max_length(&self) -> nat {
        self.max_length as nat
    }

    /// Validity: every channel is valid and the longest buffer is ten
    /// seconds at the sample rate.
    pub open spec fn wf(&self) -> bool {
        &&& self.max_length() == max_record_length(self.rate() as int)
        &&& forall|c: int| 0 <= c < 8 ==> (#[trigger] self.channel(c)).wf()
    }

    /// A machine of eight empty, stopped channels.
    pub fn new(sample_rate: u32) -> (machine: Self)
        ensures
            machine.wf(),
            machine.rate() == sample_rate,
            machine.max_length() == max_record_length(sample_rate as int),
            forall|c: int|
                0 <= c < 8 ==> #[trigger] machine.channel(c) == (ChannelState {
                    buffer: Seq::empty(),
                    write_position: 0,
                    target_length: max_record_length(sample_rate as int) as nat,
                    divisor: 1,
                    counter: 0,
                    recording: false,
                }),
    {
        let max_length: u64 = 10 * (sample_rate as u64);
        Self {
            buffers: [
                Vec::new(),
                Vec::new(),
                Vec::new(),
                Vec::new(),
                Vec::new(),
                Vec::new(),
                Vec::new(),
                Vec::new(),
            ],
            write_positions: [0; 8],
            target_lengths: [max_length; 8],
            divisors: [1; 8],
            counters: [0; 8],
            is_recording: [false; 8],
            max_length,
            sample_rate,
        }
    }

    /// Sets the sample rate and the longest buffer that goes with it.
    /// Recordings under way keep their target length.
    pub fn set_sample_rate(&mut self, sample_rate: u32)
        requires
            old(self).wf(),
        ensures
            final(self).wf(),
            final(self).rate() == sample_rate,
            final(self).max_length() == max_record_length(sample_rate as int),
            forall|c: int| 0 <= c < 8 ==> #[trigger] final(self).channel(c) == old(self).channel(c),
    {
        self.sample_rate = sample_rate;
        self.max_length = 10 * (sample_rate as u64);
        assert forall|c: int| 0 <= c < 8 implies (#[trigger] self.channel(c)).wf() by {
            assert(old(self).channel(c).wf());
        }
    }

    /// Starts a recording pass on `channel`, emptying the channel first if
    /// `clear` is set. Target length and divisor are fixed here for the pass.
    pub fn start_recording(&mut self, params: &RamRecordParams, clear: bool, channel: usize)
        requires
            old(self).wf(),
        ensures
            final(self).wf(),
            final(self).rate() == old(self).rate(),
            final(self).max_length() == old(self).max_length(),
            final(self).channel(channel_index(channel)) == old(self).channel(
                channel_index(channel),
            ).started(*params, clear, old(self).rate() as int, old(self).max_length() as int),
            forall|c: int|
                0 <= c < 8 && c != channel_index(channel) ==> #[trigger] final(self).channel(c)
                    == old(self).channel(c),
    {
        let channel: usize = clamped_channel(channel);
        if clear {
            self.buffers[channel].clear();
            self.write_positions[channel] = 0;
        }
        self.target_lengths[channel] = length_for_target(
            params.rec_len,
            self.sample_rate,
            self.max_length,
        );
        self.divisors[channel] = divisor_for_rate(params.rec_rate);
        self.counters[channel] = 0;
        self.is_recording[channel] = true;
        assert forall|c: int| 0 <= c < 8 implies (#[trigger] self.channel(c)).wf() by {
            assert(old(self).channel(c).wf());
        }
    }

    /// Stops the recording on `channel`.
    pub fn stop_recording(&mut self, channel: usize)
        requires
            old(self).wf(),
        ensures
            final(self).wf(),
            final(self).rate() == old(self).rate(),
            final(self).max_length() == old(self).max_length(),
            final(self).channel(channel_index(channel)) == (ChannelState {
                recording: false,
                ..old(self).channel(channel_index(channel))
            }),
            forall|c: int|
                0 <= c < 8 && c != channel_index(channel) ==> #[trigger] final(self).channel(c)
                    == old(self).channel(c),
    {
        let channel: usize = clamped_channel(channel);
        self.is_recording[channel] = false;
        assert forall|c: int| 0 <= c < 8 implies (#[trigger] self.channel(c)).wf() by {
            assert(old(self).channel(c).wf());
        }
    }

    /// Stops the recording on every channel.
    pub fn stop_all_recording(&mut self)
        requires
            old(self).wf(),
        ensures
            final(self).wf(),
            final(self).rate() == old(self).rate(),
            final(self).max_length() == old(self).max_length(),
            forall|c: int|
                0 <= c < 8 ==> #[trigger] final(self).channel(c) == (ChannelState {
                    recording: false,
                    ..old(self).channel(c)
                }),
    {
        self.is_recording = [false; 8];
        assert forall|c: int| 0 <= c < 8 implies (#[trigger] self.channel(c)).wf() by {
            assert(old(self).channel(c).wf());
        }
    }

    /// Whether `channel` records.
    pub fn is_recording(&self, channel: usize) -> (recording: bool)
        ensures
            recording == self.channel(channel_index(channel)).recording,
    {
        let channel: usize = clamped_channel(channel);
        self.is_recording[channel]
    }

    /// Whether any channel records.
    pub fn is_any_recording(&self) -> (any: bool)
        ensures
            any == exists|c: int| 0 <= c < 8 && (#[trigger] self.channel(c)).recording,
    {
        let mut channel: usize = 0;
        while channel < 8
            invariant
                0 <= channel <= 8,
                forall|c: int| 0 <= c < channel ==> !(#[trigger] self.is_recording[c]),
            decreases 8 - channel,
        {
            if self.is_recording[channel] {
                assert(self.channel(channel as int).recording);
                return true;
            }
            channel = channel + 1;
        }
        false
    }

    /// Offers one frame of input to `channel`: the main and the input source,
    /// left and right. The frame is mixed and quantized to a 12-bit code, and
    /// the channel takes one tick with it.
    pub fn record_sample(
        &mut self,
        main_l: i32,
        main_r: i32,
        input_l: i32,
        input_r: i32,
        params: &RamRecordParams,
        channel: usize,
    )
        requires
            old(self).wf(),
        ensures
            final(self).wf(),
            final(self).rate() == old(self).rate(),
            final(self).max_length() == old(self).max_length(),
            final(self).channel(channel_index(channel)) == old(self).channel(
                channel_index(channel),
            ).ticked(
                recorded_code(main_l as int, main_r as int, input_l as int, input_r as int, *params) as i16,
            ),
            forall|c: int|
                0 <= c < 8 && c != channel_index(channel) ==> #[trigger] final(self).channel(c)
                    == old(self).channel(c),
    {
        let channel: usize = clamped_channel(channel);
        if !self.is_recording[channel] {
            return;
        }
        if self.write_positions[channel] as u64 >= self.target_lengths[channel] {
            self.is_recording[channel] = false;
            assert forall|c: int| 0 <= c < 8 implies (#[trigger] self.channel(c)).wf() by {
                assert(old(self).channel(c).wf());
            }
            return;
        }
        if self.counters[channel] + 1 < self.divisors[channel] {
            self.counters[channel] = self.counters[channel] + 1;
            assert forall|c: int| 0 <= c < 8 implies (#[trigger] self.channel(c)).wf() by {
                assert(old(self).channel(c).wf());
            }
            return;
        }
        self.counters[channel] = 0;
        let code: i16 = code_for_frame(main_l, main_r, input_l, input_r, params);
        let at: usize = self.write_positions[channel];
        if at < self.buffers[channel].len() {
            self.buffers[channel][at] = code;
            self.write_positions[channel] = at + 1;
        } else {
            self.buffers[channel].push(code);
            self.write_positions[channel] = self.buffers[channel].len();
        }
        assert forall|c: int| 0 <= c < 8 implies (#[trigger] self.channel(c)).wf() by {
            assert(old(self).channel(c).wf());
        }
    }

    /// A copy of the buffer of `channel`.
    pub fn get_buffer(&self, channel: usize) -> (samples: Vec<i16>)
        ensures
            samples@ == self.channel(channel_index(channel)).buffer,
    {
        let channel: usize = clamped_channel(channel);
        let copy: Vec<i16> = self.buffers[channel].clone();
        copy
    }

    /// All eight buffers in channel order.
    pub fn get_all_buffers(&self) -> (buffers: &[Vec<i16>; 8])
        ensures
            forall|c: int| 0 <= c < 8 ==> (#[trigger] buffers@[c])@ == self.channel(c).buffer,
    {
        &self.buffers
    }

    /// Number of samples in the buffer of `channel`.
    pub fn buffer_len(&self, channel: usize) -> (len: usize)
        ensures
            len == self.channel(channel_index(channel)).buffer.len(),
    {
        let channel: usize = clamped_channel(channel);
        self.buffers[channel].len()
    }

    /// Empties `channel`, rewinds it and stops its recording.
    pub fn clear(&mut self, channel: usize)
        requires
            old(self).wf(),
        ensures
            final(self).wf(),
            final(self).rate() == old(self).rate(),
            final(self).max_length() == old(self).max_length(),
            final(self).channel(channel_index(channel)) == old(self).channel(
                channel_index(channel),
            ).cleared(),
            forall|c: int|
                0 <= c < 8 && c != channel_index(channel) ==> #[trigger] final(self).channel(c)
                    == old(self).channel(c),
    {
        let channel: usize = clamped_channel(channel);
        self.buffers[channel].clear();
        self.write_positions[channel] = 0;
        self.is_recording[channel] = false;
        self.counters[channel] = 0;
        assert forall|c: int| 0 <= c < 8 implies (#[trigger] self.channel(c)).wf() by {
            assert(old(self).channel(c).wf());
        }
    }

    /// Empties and stops every channel.
    pub fn clear_all(&mut self)
        requires
            old(self).wf(),
        ensures
            final(self).wf(),
            final(self).rate() == old(self).rate(),
            final(self).max_length() == old(self).max_length(),
            forall|c: int| 0 <= c < 8 ==> #[trigger] final(self).channel(c) == old(self).channel(c).cleared(),
    {
        let mut channel: usize = 0;
        while channel < 8
            invariant
                0 <= channel <= 8,
                self.sample_rate == old(self).sample_rate,
                self.max_length == old(self).max_length,
                self.target_lengths == old(self).target_lengths,
                self.divisors == old(self).divisors,
                old(self).wf(),
                forall|c: int| 0 <= c < channel ==> (#[trigger] self.buffers[c])@ == Seq::<i16>::empty(),
                forall|c: int| 0 <= c < channel ==> (#[trigger] self.write_positions[c]) == 0,
                forall|c: int| 0 <= c < channel ==> (#[trigger] self.counters[c]) == 0,
                forall|c: int| 0 <= c < channel ==> !(#[trigger] self.is_recording[c]),
                forall|c: int| channel <= c < 8 ==> (#[trigger] self.buffers[c]) == old(self).buffers[c],
                forall|c: int|
                    channel <= c < 8 ==> (#[trigger] self.write_positions[c]) == old(
                        self,
                    ).write_positions[c],
                forall|c: int| channel <= c < 8 ==> (#[trigger] self.counters[c]) == old(self).counters[c],
                forall|c: int|
                    channel <= c < 8 ==> (#[trigger] self.is_recording[c]) == old(self).is_recording[c],
            decreases 8 - channel,
        {
            self.buffers[channel].clear();
            self.write_positions[channel] = 0;
            self.is_recording[channel] = false;
            self.counters[channel] = 0;
            channel = channel + 1;
        }
        assert forall|c: int| 0 <= c < 8 implies #[trigger] self.channel(c) == old(self).channel(
            c,
        ).cleared() by {
        }
    }

    /// How far the recording on `channel` has come: the write position as a
    /// fraction of the target length, in raw sample units, so `SAMPLE_ONE`
    /// means complete. Zero if the target length is zero.
    pub fn recording_progress(&self, channel: usize) -> (progress: i64)
        requires
            self.wf(),
        ensures
            progress == progress_fraction(
                self.channel(channel_index(channel)).write_position as int,
                self.channel(channel_index(channel)).target_length as int,
            ),
    {
        let channel: usize = clamped_channel(channel);
        let target: u64 = self.target_lengths[channel];
        if target == 0 {
            return 0;
        }
        let done: i128 = (self.write_positions[channel] as i128) * 16777216;
        let progress: i128 = rounded_quotient(done, target as i128);
        proof {
            assert(done * target >= done) by (nonlinear_arith)
                requires
                    done >= 0,
                    target >= 1,
            ;
            lemma_round_div_bound(done as int, target as int, done as int);
        }
        progress as i64
    }
}

/// The fraction `done / target` in raw sample units, rounded to the nearest
/// unit; zero for a target of zero.
pub open spec fn progress_fraction(done: int, target: int) -> int {
    if target == 0 {
        0
    } else {
        round_div(done * 16777216, target)
    }
}

} // verus!
