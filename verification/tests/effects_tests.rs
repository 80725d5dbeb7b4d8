use ultrawave::dsp::effects::{quantize_12bit, Distortion, SampleRateReducer};
use ultrawave::fixed::SAMPLE_ONE;

#[test]
fn reducer_with_factor_one_passes_input() {
    let mut reducer = SampleRateReducer::new();
    assert_eq!(reducer.process(11), 11);
    assert_eq!(reducer.process(22), 22);
    assert_eq!(reducer.process(33), 33);
}

#[test]
fn reducer_holds_for_whole_factor() {
    let mut reducer = SampleRateReducer::default();
    reducer.set_reduction(3 * SAMPLE_ONE as i64);
    assert_eq!(reducer.process(11), 0);
    assert_eq!(reducer.process(22), 0);
    assert_eq!(reducer.process(33), 33);
    assert_eq!(reducer.process(44), 33);
    assert_eq!(reducer.process(55), 33);
    assert_eq!(reducer.process(66), 66);
    reducer.reset();
    assert_eq!(reducer.process(77), 0);
}

#[test]
fn reducer_rounds_fractional_factor_up() {
    let mut reducer = SampleRateReducer::new();
    reducer.set_reduction(5 * SAMPLE_ONE as i64 / 2);
    assert_eq!(reducer.process(1), 0);
    assert_eq!(reducer.process(2), 0);
    assert_eq!(reducer.process(3), 3);
    reducer.set_reduction(0);
    assert_eq!(reducer.process(4), 4);
}

#[test]
fn distortion_gain_follows_drive() {
    let mut stage = Distortion::new();
    assert_eq!(stage.gain(), None);
    stage.set_drive(SAMPLE_ONE / 2);
    assert_eq!(stage.gain(), Some(11 * SAMPLE_ONE as i64));
    stage.set_drive(2 * SAMPLE_ONE);
    assert_eq!(stage.gain(), Some(21 * SAMPLE_ONE as i64));
    stage.set_drive(-5);
    assert_eq!(stage.gain(), None);
    assert_eq!(Distortion::default().gain(), None);
}

#[test]
fn quantize_matches_converter_codes() {
    assert_eq!(quantize_12bit(SAMPLE_ONE), 2047 * 8192);
    assert_eq!(quantize_12bit(-SAMPLE_ONE), -2048 * 8192);
    assert_eq!(quantize_12bit(12288), 16384);
    assert_eq!(quantize_12bit(12287), 8192);
}
