use ta::utils::{is_nan, is_nan_or_inf, key_of, sign, NAN_BITS};

fn b(x: f64) -> u64 {
    x.to_bits()
}

#[test]
fn classifies_invalid_samples() {
    assert!(is_nan_or_inf(b(f64::NAN)));
    assert!(is_nan_or_inf(b(f64::INFINITY)));
    assert!(is_nan_or_inf(b(f64::NEG_INFINITY)));
    assert!(is_nan_or_inf(NAN_BITS));
    assert!(!is_nan_or_inf(b(0.0)));
    assert!(!is_nan_or_inf(b(-1.5)));
    assert!(!is_nan_or_inf(b(f64::MAX)));
    assert!(!is_nan_or_inf(b(f64::MIN_POSITIVE / 2.0)));
}

#[test]
fn classifies_nan() {
    assert!(is_nan(b(f64::NAN)));
    assert!(is_nan(b(-f64::NAN)));
    assert!(!is_nan(b(f64::INFINITY)));
    assert!(!is_nan(b(1.0)));
}

#[test]
fn key_orders_like_floats() {
    let xs = [
        f64::NEG_INFINITY,
        f64::MIN,
        -3.5,
        -1.0,
        -f64::MIN_POSITIVE,
        -0.0,
        0.0,
        f64::MIN_POSITIVE / 4.0,
        1.0,
        2.0,
        1e300,
        f64::INFINITY,
    ];
    for x in xs.iter() {
        for y in xs.iter() {
            assert_eq!(key_of(b(*x)) < key_of(b(*y)), x < y, "{} {}", x, y);
            assert_eq!(key_of(b(*x)) == key_of(b(*y)), x == y, "{} {}", x, y);
        }
    }
}

#[test]
fn both_zeros_share_a_key() {
    assert_eq!(key_of(b(0.0)), key_of(b(-0.0)));
}

#[test]
fn sign_of_samples() {
    assert_eq!(sign(b(2.5)), 1);
    assert_eq!(sign(b(-0.001)), -1);
    assert_eq!(sign(b(0.0)), 0);
    assert_eq!(sign(b(-0.0)), 0);
    assert_eq!(sign(b(f64::INFINITY)), 1);
    assert_eq!(sign(b(f64::NEG_INFINITY)), -1);
    assert_eq!(sign(b(f64::NAN)), 0);
}
