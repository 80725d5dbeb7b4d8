use ultrawave::dsp::sample_engine::{apply_12bit_quantization, apply_sample_rate_reduction};
use ultrawave::fixed::SAMPLE_ONE;
use ultrawave::machines::ram_play::{RamPlay, RamPlayParams};
use ultrawave::machines::ram_record::{code_for_frame, RamRecord, RamRecordParams};

// A floating-point model of the same machines, to hold the fixed-point
// engine against.

fn model_sample(raw: i32) -> f32 {
    (raw as f64 / SAMPLE_ONE as f64) as f32
}

fn model_raw(value: f32) -> i32 {
    (value as f64 * SAMPLE_ONE as f64).round() as i32
}

fn model_normalized(value: i32) -> f32 {
    value as f32 / 127.0
}

fn model_quantize(sample: f32) -> f32 {
    (sample * 2048.0).round().clamp(-2048.0, 2047.0) / 2048.0
}

fn model_reduce(sample: f32, srr: i32, counter: &mut f32, hold: &mut f32) -> f32 {
    if srr == 0 {
        return sample;
    }
    let period: f32 = 1.0 + model_normalized(srr) * 63.0;
    if *counter == 0.0 {
        *hold = sample;
    }
    *counter += 1.0;
    if *counter >= period {
        *counter = 0.0;
    }
    *hold
}

struct ModelVoice {
    buffer: Vec<i16>,
    position: f64,
    srr_counter: f32,
    srr_hold: f32,
    envelope: f32,
    playing: bool,
    hold_time: usize,
    hold_counter: usize,
    decay_rate: f32,
    retrig_counter: usize,
    retrig_interval: usize,
    retrigs_remaining: usize,
    params: RamPlayParams,
    sample_rate: f32,
}

impl ModelVoice {
    fn new(sample_rate: f32, buffer: Vec<i16>) -> Self {
        Self {
            buffer,
            position: 0.0,
            srr_counter: 0.0,
            srr_hold: 0.0,
            envelope: 0.0,
            playing: false,
            hold_time: 0,
            hold_counter: 0,
            decay_rate: 0.0,
            retrig_counter: 0,
            retrig_interval: 0,
            retrigs_remaining: 0,
            params: RamPlayParams::default(),
            sample_rate,
        }
    }

    fn restart(&mut self) {
        let len: f64 = self.buffer.len() as f64;
        let start: f64 = model_normalized(self.params.strt) as f64 * len;
        self.position = start.clamp(0.0, len);
        self.srr_counter = 0.0;
        self.srr_hold = 0.0;
        self.envelope = 1.0;
        self.playing = true;
        self.hold_time = (model_normalized(self.params.hold) * 2.0 * self.sample_rate) as usize;
        self.hold_counter = 0;
        let decay_seconds: f32 = model_normalized(self.params.dec) * 4.0;
        self.decay_rate = if decay_seconds > 0.0 {
            1.0 / (decay_seconds * self.sample_rate)
        } else {
            1.0
        };
    }

    fn trigger(&mut self, params: &RamPlayParams) {
        self.params = *params;
        self.restart();
        if params.rtrg > 0 {
            self.retrigs_remaining = params.rtrg as usize;
            let milliseconds: f32 = model_normalized(params.rtim) * 500.0;
            self.retrig_interval = (milliseconds * self.sample_rate / 1000.0) as usize;
            self.retrig_counter = 0;
        } else {
            self.retrigs_remaining = 0;
        }
    }

    fn read(&mut self, ratio: f64) -> f32 {
        if self.buffer.is_empty() {
            return 0.0;
        }
        let index: usize = self.position as usize;
        if index >= self.buffer.len() - 1 {
            return 0.0;
        }
        let fraction: f32 = (self.position - index as f64) as f32;
        let before: f32 = self.buffer[index] as f32 / 32768.0;
        let after: f32 = self.buffer[index + 1] as f32 / 32768.0;
        self.position += ratio;
        before + (after - before) * fraction
    }

    fn process(&mut self) -> f32 {
        if self.retrigs_remaining > 0 {
            self.retrig_counter += 1;
            if self.retrig_counter >= self.retrig_interval {
                self.retrig_counter = 0;
                self.retrigs_remaining -= 1;
                self.restart();
            }
        }
        if !self.playing {
            return 0.0;
        }
        let len: f64 = self.buffer.len() as f64;
        let end: f64 = model_normalized(self.params.end) as f64 * len;
        if self.position >= end || self.position >= len {
            self.playing = false;
            return 0.0;
        }
        let ratio: f64 = 2.0_f64.powf((self.params.pitch - 64) as f64 / 12.0);
        let raw: f32 = self.read(ratio);
        let level: f32 = model_quantize(raw);
        let srr: i32 = self.params.srr;
        let sample: f32 = model_reduce(level, srr, &mut self.srr_counter, &mut self.srr_hold);
        if self.hold_counter < self.hold_time {
            self.hold_counter += 1;
        } else {
            self.envelope = (self.envelope - self.decay_rate).max(0.0);
            if self.envelope <= 0.0 {
                self.playing = false;
            }
        }
        sample * self.envelope * model_normalized(self.params.vol)
    }

    fn is_playing(&self) -> bool {
        self.playing || self.retrigs_remaining > 0
    }
}

fn model_buffer(len: usize) -> Vec<i16> {
    (0..len)
        .map(|i: usize| ((i as f64 * 0.37).sin() * 30000.0) as i16)
        .collect()
}

fn compare_voice(params: RamPlayParams, sample_rate: u32, len: usize, steps: usize) {
    let mut machine = RamPlay::new(sample_rate);
    machine.load_buffer(model_buffer(len), 3);
    machine.trigger(&params, 3);
    let mut model = ModelVoice::new(sample_rate as f32, model_buffer(len));
    model.trigger(&params);
    assert_eq!(machine.is_playing(3), model.is_playing());
    assert_eq!(machine.retrigs_remaining(3) as usize, model.retrigs_remaining);
    let mut step: usize = 0;
    while step < steps {
        let got: f32 = model_sample(machine.process(3));
        let expected: f32 = model.process();
        assert!(
            (got - expected).abs() <= 1.2 / 2048.0,
            "step {}: {} against {}",
            step,
            got,
            expected
        );
        // Single-precision subtraction lets the model's envelope miss zero by
        // a hair, so the last instant of a decay may differ by a sample.
        if machine.is_playing(3) != model.is_playing() {
            assert!(model.envelope < 0.001, "step {}", step);
        }
        assert_eq!(machine.retrigs_remaining(3) as usize, model.retrigs_remaining);
        step += 1;
    }
}

#[test]
fn quantization_agrees_with_float_model() {
    let mut raw: i32 = -SAMPLE_ONE - 100000;
    while raw <= SAMPLE_ONE + 100000 {
        let got: f32 = model_sample(apply_12bit_quantization(raw));
        let expected: f32 = model_quantize(model_sample(raw));
        assert!((got - expected).abs() <= 1.0 / 2048.0);
        raw += 7919;
    }
}

#[test]
fn rate_reduction_agrees_with_float_model() {
    let mut srr: i32 = 0;
    while srr <= 127 {
        let mut counter: u32 = 0;
        let mut hold: i32 = 0;
        let mut model_counter: f32 = 0.0;
        let mut model_hold: f32 = 0.0;
        let mut call: i32 = 0;
        while call < 300 {
            let input: i32 = (call + 1) * 8192;
            let got: i32 = apply_sample_rate_reduction(input, srr, &mut counter, &mut hold);
            let expected: f32 =
                model_reduce(model_sample(input), srr, &mut model_counter, &mut model_hold);
            assert_eq!(got, model_raw(expected), "srr {} call {}", srr, call);
            call += 1;
        }
        srr += 1;
    }
}

#[test]
fn voice_agrees_with_float_model_at_unison() {
    let params = RamPlayParams {
        hold: 3,
        dec: 5,
        vol: 127,
        ..Default::default()
    };
    compare_voice(params, 44100, 20000, 12000);
}

#[test]
fn voice_agrees_with_float_model_with_pitch_and_reduction() {
    let params = RamPlayParams {
        strt: 10,
        end: 100,
        pitch: 76,
        hold: 1,
        dec: 2,
        srr: 40,
        vol: 90,
        ..Default::default()
    };
    compare_voice(params, 48000, 30000, 9000);
    let params = RamPlayParams {
        strt: 0,
        end: 127,
        pitch: 52,
        hold: 0,
        dec: 3,
        srr: 127,
        vol: 64,
        ..Default::default()
    };
    compare_voice(params, 44100, 4000, 6000);
}

#[test]
fn voice_agrees_with_float_model_with_retrigger() {
    let params = RamPlayParams {
        dec: 1,
        rtrg: 3,
        rtim: 5,
        vol: 100,
        ..Default::default()
    };
    compare_voice(params, 44100, 5000, 5000);
    let params = RamPlayParams {
        hold: 1,
        rtrg: 2,
        rtim: 10,
        ..Default::default()
    };
    compare_voice(params, 44100, 1000, 6000);
}

#[test]
fn frame_codes_agree_with_float_model() {
    let mut seed: u32 = 12345;
    let mut next = move || -> u32 {
        seed = seed.wrapping_mul(1664525).wrapping_add(1013904223);
        seed >> 8
    };
    let mut round: u32 = 0;
    while round < 5000 {
        let params = RamRecordParams {
            mlev: (next() % 128) as i32,
            mbal: (next() % 128) as i32,
            ilev: (next() % 128) as i32,
            ibal: (next() % 128) as i32,
            rec_len: 127,
            rec_rate: 127,
        };
        let inputs: [f32; 4] = [
            (next() % 2001) as f32 / 1000.0 - 1.0,
            (next() % 2001) as f32 / 1000.0 - 1.0,
            (next() % 2001) as f32 / 1000.0 - 1.0,
            (next() % 2001) as f32 / 1000.0 - 1.0,
        ];
        let mlev: f32 = model_normalized(params.mlev);
        let ilev: f32 = model_normalized(params.ilev);
        let mbal: f32 = model_normalized(params.mbal);
        let ibal: f32 = model_normalized(params.ibal);
        let main_mix: f32 =
            (inputs[0] * (1.0 - mbal).min(1.0) + inputs[1] * mbal.min(1.0)) * mlev;
        let input_mix: f32 =
            (inputs[2] * (1.0 - ibal).min(1.0) + inputs[3] * ibal.min(1.0)) * ilev;
        let combined: f32 = (main_mix + input_mix).clamp(-1.0, 1.0);
        let expected: i16 = (combined * 2048.0).round().clamp(-2048.0, 2047.0) as i16;
        let got: i16 = code_for_frame(
            model_raw(inputs[0]),
            model_raw(inputs[1]),
            model_raw(inputs[2]),
            model_raw(inputs[3]),
            &params,
        );
        assert!((got as i32 - expected as i32).abs() <= 1);
        round += 1;
    }
}

#[test]
fn decimation_agrees_with_float_model() {
    let mut rate: i32 = 0;
    while rate <= 127 {
        let params = RamRecordParams {
            rec_len: 127,
            rec_rate: rate,
            ..Default::default()
        };
        let mut machine = RamRecord::new(44100);
        machine.start_recording(&params, true, 0);
        let divisor: f32 = 1.0 + (1.0 - model_normalized(rate)) * 15.0;
        let mut counter: f32 = 0.0;
        let mut written: usize = 0;
        let mut tick: u32 = 0;
        while tick < 500 {
            machine.record_sample(0, 0, 0, 0, &params, 0);
            counter += 1.0;
            if counter >= divisor {
                counter = 0.0;
                written += 1;
            }
            assert_eq!(machine.buffer_len(0), written, "rate {} tick {}", rate, tick);
            tick += 1;
        }
        rate += 1;
    }
}

#[test]
fn target_length_agrees_with_float_model() {
    let mut length: i32 = 0;
    while length <= 127 {
        let params = RamRecordParams {
            rec_len: length,
            rec_rate: 127,
            ..Default::default()
        };
        let mut machine = RamRecord::new(500);
        machine.start_recording(&params, true, 0);
        let mut tick: u32 = 0;
        while tick < 5100 {
            machine.record_sample(0, 0, 0, 0, &params, 0);
            tick += 1;
        }
        let expected: usize = ((model_normalized(length) * 10.0 * 500.0) as usize)
            .min(5000)
            .max(1);
        let got: usize = machine.buffer_len(0);
        assert!(got == expected || got + 1 == expected || got == expected + 1);
        assert!(!machine.is_recording(0));
        length += 1;
    }
}
