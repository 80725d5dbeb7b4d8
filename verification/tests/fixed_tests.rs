use ultrawave::fixed::{rounded_quotient, whole_quotient, POSITION_ONE, SAMPLE_ONE};

#[test]
fn formats_are_powers_of_two() {
    assert_eq!(SAMPLE_ONE, 1 << 24);
    assert_eq!(POSITION_ONE, 1 << 32);
}

#[test]
fn rounded_quotient_rounds_to_nearest() {
    assert_eq!(rounded_quotient(0, 3), 0);
    assert_eq!(rounded_quotient(7, 2), 4);
    assert_eq!(rounded_quotient(-7, 2), -4);
    assert_eq!(rounded_quotient(6, 4), 2);
    assert_eq!(rounded_quotient(-6, 4), -2);
    assert_eq!(rounded_quotient(5, 4), 1);
    assert_eq!(rounded_quotient(-5, 4), -1);
    assert_eq!(rounded_quotient(12, 4), 3);
    assert_eq!(rounded_quotient(1, 1000), 0);
    assert_eq!(rounded_quotient(-1, 1000), 0);
}

#[test]
fn whole_quotient_rounds_down_and_never_goes_negative() {
    assert_eq!(whole_quotient(5, 2), 2);
    assert_eq!(whole_quotient(4, 2), 2);
    assert_eq!(whole_quotient(1, 2), 0);
    assert_eq!(whole_quotient(0, 2), 0);
    assert_eq!(whole_quotient(-5, 2), 0);
}

#[test]
fn channel_numbers_are_limited_to_eight() {
    assert_eq!(ultrawave::machines::clamped_channel(0), 0);
    assert_eq!(ultrawave::machines::clamped_channel(6), 6);
    assert_eq!(ultrawave::machines::clamped_channel(7), 7);
    assert_eq!(ultrawave::machines::clamped_channel(8), 7);
    assert_eq!(ultrawave::machines::clamped_channel(usize::MAX), 7);
}
