use imnodes::value::{Value, FRACTION_ONE, PI_BITS};

fn as_f64(v: Value) -> f64 {
    v.to_bits() as f64 / FRACTION_ONE as f64
}

#[test]
fn whole_numbers_are_exact() {
    assert_eq!(Value::from_int(0).to_bits(), 0);
    assert_eq!(Value::from_int(1).to_bits(), 65536);
    assert_eq!(Value::from_int(-3).to_bits(), -3 * 65536);
    assert_eq!(Value::zero().to_bits(), 0);
    assert_eq!(Value::one().to_bits(), 65536);
}

#[test]
fn ratios_round_to_nearest() {
    assert_eq!(Value::from_ratio(1, 10).to_bits(), 6554);
    assert_eq!(Value::from_ratio(2, 10).to_bits(), 13107);
    assert_eq!(Value::from_ratio(3, 10).to_bits(), 19661);
    assert_eq!(Value::from_ratio(7, 10).to_bits(), 45875);
    assert_eq!(Value::from_ratio(-1, 2).to_bits(), -32768);
    assert_eq!(Value::from_ratio(2, 5).to_bits(), 26214);
}

#[test]
fn addition_is_exact_and_saturates() {
    let two = Value::from_int(2);
    let three = Value::from_int(3);
    assert_eq!(two.saturating_add(three).to_bits(), 5 * 65536);
    let tenth = Value::from_ratio(1, 10);
    let fifth = Value::from_ratio(2, 10);
    assert_eq!(tenth.saturating_add(fifth).to_bits(), Value::from_ratio(3, 10).to_bits());
    let huge = Value::from_bits(i32::MAX);
    assert_eq!(huge.saturating_add(huge).to_bits(), i32::MAX);
    let lowest = Value::from_bits(i32::MIN);
    assert_eq!(lowest.saturating_add(lowest).to_bits(), i32::MIN);
}

#[test]
fn multiplication_rounds_and_saturates() {
    let two = Value::from_int(2);
    let three = Value::from_int(3);
    assert_eq!(two.saturating_mul(three).to_bits(), 6 * 65536);
    assert_eq!(
        two.saturating_mul(Value::from_int(-3)).to_bits(),
        -6 * 65536
    );
    let big = Value::from_int(30000);
    assert_eq!(big.saturating_mul(big).to_bits(), i32::MAX);
    assert_eq!(big.saturating_mul(Value::from_int(-30000)).to_bits(), i32::MIN);
    // 0.5 * 0.5 = 0.25 exactly
    let half = Value::from_ratio(1, 2);
    assert_eq!(half.saturating_mul(half).to_bits(), 16384);
}

#[test]
fn sine_of_half_pi_is_near_one() {
    let half = Value::from_ratio(1, 2);
    let s = half.sin_times_pi();
    assert!((as_f64(s) - 1.0).abs() < 0.01, "sin(pi/2) computed {}", as_f64(s));
}

#[test]
fn sine_handles_period_and_sign() {
    // sin(0) == 0
    assert!(as_f64(Value::zero().sin_times_pi()).abs() < 0.01);
    // sin(1.5 * pi) == -1
    let v = Value::from_ratio(3, 2).sin_times_pi();
    assert!((as_f64(v) + 1.0).abs() < 0.01, "sin(1.5 pi) computed {}", as_f64(v));
    // sin((2 + 1/2) * pi) == 1: the period reduction folds the argument
    let w = Value::from_ratio(5, 2).sin_times_pi();
    assert!((as_f64(w) - 1.0).abs() < 0.01, "sin(2.5 pi) computed {}", as_f64(w));
}

#[test]
fn sine_differs_from_its_argument() {
    // the sine routine must actually compute, not hand its argument back
    let quarter = Value::from_ratio(1, 4);
    let s = quarter.sin_times_pi();
    assert!((as_f64(s) - 0.7071).abs() < 0.01, "sin(pi/4) computed {}", as_f64(s));
    assert_ne!(s.to_bits(), quarter.to_bits());
}

#[test]
fn time_value_formula_is_exact() {
    assert_eq!(Value::time_value_from_millis(0).to_bits(), 0);
    // 500 ms into the second: exactly one half
    assert_eq!(Value::time_value_from_millis(1500).to_bits(), 32768);
    // 999 ms: (999 * 65536 + 500) / 1000 == 65470
    assert_eq!(Value::time_value_from_millis(999).to_bits(), 65470);
    // the sample is always within [0, 1)
    for ms in [0u64, 1, 999, 1000, 123_456_789] {
        let bits = Value::time_value_from_millis(ms).to_bits();
        assert!(0 <= bits && bits < FRACTION_ONE);
    }
    let now = Value::time_sample().to_bits();
    assert!(0 <= now && now < FRACTION_ONE);
}

#[test]
fn pi_constant_matches() {
    assert_eq!(PI_BITS, 205887);
    assert!(((PI_BITS as f64 / 65536.0) - std::f64::consts::PI).abs() < 1e-5);
}
