use servent::validator::{decimal_text, validator, MASK, NANOS_PER_SECOND};

#[test]
fn decimal_of_small_numbers() {
    assert_eq!(decimal_text(0), "0");
    assert_eq!(decimal_text(7), "7");
    assert_eq!(decimal_text(10), "10");
    assert_eq!(decimal_text(1234567890), "1234567890");
}

#[test]
fn decimal_of_the_largest_number() {
    assert_eq!(decimal_text(u64::MAX), "18446744073709551615");
}

#[test]
fn decimal_agrees_with_std() {
    for n in [0u64, 1, 9, 10, 99, 100, 101, 4294967295, 4294967296, u64::MAX - 1] {
        assert_eq!(decimal_text(n), n.to_string());
    }
}

#[test]
fn mask_is_the_fixed_constant() {
    assert_eq!(MASK, 0xd3f40305c9f8e911);
    assert_eq!(NANOS_PER_SECOND, 1_000_000_000);
}

#[test]
fn validator_of_given_times() {
    assert_eq!(validator(0), "15272835559718447377");
    assert_eq!(validator(1), "15272835559718447376");
    assert_eq!(validator(1500000000), "15272835558755321361");
    assert_eq!(validator(u64::MAX), "3173908513991104238");
}

#[test]
fn validator_is_the_masked_time_in_decimal() {
    for seconds in [0u64, 1, 2, 1500000000, 1700000000, 999_999_999, u64::MAX] {
        assert_eq!(validator(seconds), (seconds ^ 0xd3f40305c9f8e911u64).to_string());
    }
}

#[test]
fn validator_is_the_same_for_the_same_time() {
    assert_eq!(validator(1700000000), validator(1700000000));
}

#[test]
fn validator_differs_for_different_times() {
    assert_ne!(validator(1700000000), validator(1700000001));
}
