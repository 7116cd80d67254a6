use filmgrain::exponent::{exp_neg, log10, log2, pow2_fraction, table_entry, LOG10_2, LOG2_E};
use filmgrain::fixed::ONE;

fn as_real(raw: u64) -> f64 {
    raw as f64 / ONE as f64
}

#[test]
fn table_runs_from_one_to_two() {
    assert_eq!(table_entry(0), ONE);
    assert_eq!(table_entry(16), 1_414_213_562);
    assert_eq!(table_entry(32), 2 * ONE);
}

#[test]
fn table_holds_the_powers_of_two() {
    for i in 0..=32usize {
        let exact = 2f64.powf(i as f64 / 32.0);
        assert!((as_real(table_entry(i)) - exact).abs() < 1e-9);
    }
}

#[test]
fn constants_are_the_logarithms() {
    assert!((as_real(LOG2_E) - std::f64::consts::LOG2_E).abs() < 1e-9);
    assert!((as_real(LOG10_2) - std::f64::consts::LOG10_2).abs() < 1e-9);
}

#[test]
fn pow2_fraction_at_the_ends() {
    assert_eq!(pow2_fraction(0), ONE);
    assert_eq!(pow2_fraction(ONE), 2 * ONE);
    assert_eq!(pow2_fraction(500_000_000), 1_414_213_562);
}

#[test]
fn pow2_fraction_is_close() {
    let mut g: u64 = 0;
    while g <= ONE {
        let exact = 2f64.powf(as_real(g));
        assert!((as_real(pow2_fraction(g)) - exact).abs() < 1e-4 * exact);
        g += 1_234_567;
    }
}

#[test]
fn exp_neg_of_zero_is_one() {
    assert_eq!(exp_neg(0), ONE);
}

#[test]
fn exp_neg_vanishes_far_out() {
    assert_eq!(exp_neg(31 * ONE), 0);
    assert_eq!(exp_neg(u64::MAX), 0);
}

#[test]
fn exp_neg_is_close() {
    let mut t: u64 = 0;
    while t < 25 * ONE {
        let exact = (-as_real(t)).exp();
        assert!((as_real(exp_neg(t)) - exact).abs() < 1e-4);
        t += 7_654_321;
    }
}

#[test]
fn exp_neg_of_one() {
    let e = as_real(exp_neg(ONE));
    assert!((e - 0.36787944).abs() < 1e-4);
}

#[test]
fn exp_neg_never_rises() {
    let mut t: u64 = 0;
    let mut last = exp_neg(0);
    while t < 25 * ONE {
        t += 3_333_333;
        let now = exp_neg(t);
        assert!(now <= last);
        last = now;
    }
}

#[test]
fn log_of_one_is_zero() {
    assert_eq!(log2(ONE), 0);
    assert_eq!(log10(ONE), 0);
}

#[test]
fn log_below_one_is_zero() {
    assert_eq!(log2(0), 0);
    assert_eq!(log10(999_999_999), 0);
}

#[test]
fn log2_of_powers_of_two() {
    assert_eq!(log2(2 * ONE), ONE);
    assert_eq!(log2(4 * ONE), 2 * ONE);
    assert_eq!(log2(1024 * ONE), 10 * ONE);
}

#[test]
fn log10_is_close() {
    let mut x: u64 = ONE;
    while x < 5_000 * ONE {
        let exact = as_real(x).log10();
        assert!((as_real(log10(x)) - exact).abs() < 1e-4);
        x += x / 97 + 1;
    }
}

#[test]
fn log10_of_ten() {
    assert!((as_real(log10(10 * ONE)) - 1.0).abs() < 1e-4);
    assert!((as_real(log10(6 * ONE)) - 0.77815125).abs() < 1e-4);
}

#[test]
fn log10_never_falls() {
    let mut x: u64 = ONE;
    let mut last = log10(x);
    while x < u64::MAX / 2 {
        x += x / 50 + 1;
        let now = log10(x);
        assert!(now >= last);
        last = now;
    }
    assert!(log10(u64::MAX) >= last);
}
