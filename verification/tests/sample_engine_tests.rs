use ultrawave::dsp::sample_engine::{
    apply_12bit_quantization, apply_sample_rate_reduction, param_to_normalized, pitch_to_ratio,
    SampleEngine,
};
use ultrawave::fixed::{POSITION_ONE, SAMPLE_ONE};

fn engine_sample(value: f64) -> i32 {
    (value * SAMPLE_ONE as f64).round() as i32
}

fn engine_level(sample: i32) -> f64 {
    sample as f64 / SAMPLE_ONE as f64
}

fn engine_ratio(ratio: u64) -> f64 {
    ratio as f64 / POSITION_ONE as f64
}

#[test]
fn test_12bit_quantization_clamps_properly() {
    assert!((engine_level(apply_12bit_quantization(engine_sample(0.0))) - 0.0).abs() < 0.001);
    assert!(
        (engine_level(apply_12bit_quantization(engine_sample(1.0))) - (2047.0 / 2048.0)).abs()
            < 0.001
    );
    assert!(
        (engine_level(apply_12bit_quantization(engine_sample(-1.0))) - (-2048.0 / 2048.0)).abs()
            < 0.001
    );
}

#[test]
fn test_12bit_quantization_reduces_precision() {
    let precise: f64 = 0.12345678;
    let quantized: f64 = engine_level(apply_12bit_quantization(engine_sample(precise)));
    let step_size: f64 = 1.0 / 2048.0;
    assert!((quantized - precise).abs() <= step_size);
}

#[test]
fn test_srr_zero_passes_through() {
    let mut counter: u32 = 0;
    let mut hold: i32 = 0;
    let result: i32 = apply_sample_rate_reduction(engine_sample(0.5), 0, &mut counter, &mut hold);
    assert!((engine_level(result) - 0.5).abs() < 0.001);
}

#[test]
fn test_srr_holds_sample() {
    let mut counter: u32 = 0;
    let mut hold: i32 = 0;
    let _ = apply_sample_rate_reduction(engine_sample(1.0), 127, &mut counter, &mut hold);
    let result: i32 = apply_sample_rate_reduction(engine_sample(0.5), 127, &mut counter, &mut hold);
    assert!((engine_level(result) - 1.0).abs() < 0.001);
}

#[test]
fn test_pitch_to_ratio_center() {
    let ratio: f64 = engine_ratio(pitch_to_ratio(64));
    assert!((ratio - 1.0).abs() < 0.001);
}

#[test]
fn test_pitch_to_ratio_octave_up() {
    let ratio: f64 = engine_ratio(pitch_to_ratio(64 + 12));
    assert!((ratio - 2.0).abs() < 0.01);
}

#[test]
fn test_pitch_to_ratio_octave_down() {
    let ratio: f64 = engine_ratio(pitch_to_ratio(64 - 12));
    assert!((ratio - 0.5).abs() < 0.01);
}

#[test]
fn test_linear_interpolation() {
    let mut engine = SampleEngine::new(44100);
    engine.load_buffer(vec![0, 16384, 32767]);
    engine.trigger(0);

    let s1: f64 = engine_level(engine.read_sample_linear(POSITION_ONE / 2));
    assert!(s1 >= 0.0 && s1 < 0.3);
}

#[test]
fn quantization_exact_codes() {
    assert_eq!(apply_12bit_quantization(0), 0);
    assert_eq!(apply_12bit_quantization(SAMPLE_ONE), 2047 * 8192);
    assert_eq!(apply_12bit_quantization(-SAMPLE_ONE), -2048 * 8192);
    assert_eq!(apply_12bit_quantization(4096), 8192);
    assert_eq!(apply_12bit_quantization(4095), 0);
    assert_eq!(apply_12bit_quantization(-4096), -8192);
    assert_eq!(apply_12bit_quantization(-4095), 0);
    assert_eq!(apply_12bit_quantization(i32::MAX), 2047 * 8192);
    assert_eq!(apply_12bit_quantization(i32::MIN), -2048 * 8192);
}

#[test]
fn quantization_is_idempotent_on_samples() {
    let mut sample: i32 = -SAMPLE_ONE - 5000;
    while sample <= SAMPLE_ONE + 5000 {
        let once: i32 = apply_12bit_quantization(sample);
        assert_eq!(apply_12bit_quantization(once), once);
        if sample >= -SAMPLE_ONE && sample <= SAMPLE_ONE {
            assert!((once - sample).abs() <= 8192);
        }
        sample += 1237;
    }
}

#[test]
fn srr_zero_leaves_state_alone() {
    let mut counter: u32 = 5;
    let mut hold: i32 = 77;
    let out: i32 = apply_sample_rate_reduction(1234, 0, &mut counter, &mut hold);
    assert_eq!(out, 1234);
    assert_eq!(counter, 5);
    assert_eq!(hold, 77);
}

#[test]
fn srr_full_amount_holds_sixty_four_calls() {
    let mut counter: u32 = 0;
    let mut hold: i32 = 0;
    let mut call: i32 = 0;
    while call < 64 {
        let out: i32 = apply_sample_rate_reduction(1000 + call, 127, &mut counter, &mut hold);
        assert_eq!(out, 1000);
        call += 1;
    }
    assert_eq!(counter, 0);
    let out: i32 = apply_sample_rate_reduction(1000 + 64, 127, &mut counter, &mut hold);
    assert_eq!(out, 1064);
    assert_eq!(hold, 1064);
    assert_eq!(counter, 1);
}

#[test]
fn srr_smallest_amount_holds_two_calls() {
    let mut counter: u32 = 0;
    let mut hold: i32 = 0;
    assert_eq!(apply_sample_rate_reduction(10, 1, &mut counter, &mut hold), 10);
    assert_eq!(apply_sample_rate_reduction(20, 1, &mut counter, &mut hold), 10);
    assert_eq!(apply_sample_rate_reduction(30, 1, &mut counter, &mut hold), 30);
}

#[test]
fn pitch_ratio_exact_values() {
    assert_eq!(pitch_to_ratio(64), POSITION_ONE);
    assert_eq!(pitch_to_ratio(76), 2 * POSITION_ONE);
    assert_eq!(pitch_to_ratio(52), POSITION_ONE / 2);
    assert_eq!(pitch_to_ratio(65), 4550359341);
    assert_eq!(pitch_to_ratio(63), 8107818609 / 2);
    assert_eq!(pitch_to_ratio(0), 6817835603 / 64);
    assert_eq!(pitch_to_ratio(127), 5107605667 * 32);
    assert_eq!(pitch_to_ratio(i32::MAX), u64::MAX);
    assert_eq!(pitch_to_ratio(i32::MIN), 0);
}

#[test]
fn pitch_ratio_follows_equal_temperament() {
    let mut pitch: i32 = 0;
    while pitch <= 127 {
        let expected: f64 = 2.0_f64.powf((pitch - 64) as f64 / 12.0);
        let got: f64 = engine_ratio(pitch_to_ratio(pitch));
        assert!((got - expected).abs() <= expected * 1e-8);
        pitch += 1;
    }
}

#[test]
fn normalized_parameter_values() {
    assert_eq!(param_to_normalized(0), 0);
    assert_eq!(param_to_normalized(127), SAMPLE_ONE as i64);
    assert_eq!(param_to_normalized(64), 8454660);
    assert_eq!(param_to_normalized(-127), -(SAMPLE_ONE as i64));
}

#[test]
fn engine_reads_interpolate_and_advance() {
    let mut engine = SampleEngine::new(44100);
    engine.load_buffer(vec![0, 16384, 32767]);
    engine.trigger(POSITION_ONE as u128 / 2);
    assert_eq!(engine.position(), POSITION_ONE as u128 / 2);
    let value: i32 = engine.read_sample_linear(POSITION_ONE);
    assert_eq!(value, SAMPLE_ONE / 4);
    assert_eq!(engine.position(), 3 * (POSITION_ONE as u128) / 2);
    let value: i32 = engine.read_sample_linear(POSITION_ONE);
    assert_eq!(value, ((16384.0 + 32767.0) / 2.0 / 32768.0 * SAMPLE_ONE as f64).round() as i32);
    assert_eq!(engine.position(), 5 * (POSITION_ONE as u128) / 2);
    let value: i32 = engine.read_sample_linear(POSITION_ONE);
    assert_eq!(value, 0);
    assert_eq!(engine.position(), 5 * (POSITION_ONE as u128) / 2);
}

#[test]
fn engine_is_silent_when_empty_or_at_last_sample() {
    let mut engine = SampleEngine::new(48000);
    assert_eq!(engine.read_sample_linear(POSITION_ONE), 0);
    assert_eq!(engine.position(), 0);
    assert!(engine.is_finished(0));
    engine.load_buffer(vec![100]);
    assert_eq!(engine.read_sample_linear(POSITION_ONE), 0);
    assert_eq!(engine.position(), 0);
}

#[test]
fn engine_trigger_clamps_to_buffer() {
    let mut engine = SampleEngine::new(44100);
    engine.load_buffer(vec![1, 2, 3, 4]);
    engine.trigger(u128::MAX);
    assert_eq!(engine.position(), 4 * POSITION_ONE as u128);
    assert!(engine.is_finished(u128::MAX));
    engine.trigger(POSITION_ONE as u128);
    assert!(!engine.is_finished(2 * POSITION_ONE as u128));
    assert!(engine.is_finished(POSITION_ONE as u128));
    assert_eq!(engine.buffer_len(), 4);
    assert_eq!(engine.buffer(), &[1, 2, 3, 4]);
    engine.clear();
    assert_eq!(engine.buffer_len(), 0);
    assert_eq!(engine.position(), 0);
}

#[test]
fn engine_position_never_moves_back() {
    let mut engine = SampleEngine::new(44100);
    engine.load_buffer(vec![0, 100, 200, 300, 400, 500]);
    engine.trigger(0);
    let mut last: u128 = engine.position();
    let mut step: u32 = 0;
    while step < 20 {
        let _ = engine.read_sample_with_processing(pitch_to_ratio(70), 3);
        assert!(engine.position() >= last);
        last = engine.position();
        step += 1;
    }
}

#[test]
fn engine_lofi_read_quantizes() {
    let mut engine = SampleEngine::new(44100);
    engine.load_buffer(vec![16385, 16385, 0]);
    engine.trigger(0);
    let value: i32 = engine.read_sample_with_processing(POSITION_ONE, 0);
    assert_eq!(value, 1024 * 8192);
}
