use physarum::config::FP;
use physarum::trig::{cos_fixed, sin_fixed};

#[test]
fn sine_exact_points() {
    assert_eq!(sin_fixed(0), 0);
    assert_eq!(sin_fixed(30), (FP as i32) / 2);
    assert_eq!(sin_fixed(90), FP as i32);
    assert_eq!(sin_fixed(150), (FP as i32) / 2);
    assert_eq!(sin_fixed(180), 0);
    assert_eq!(sin_fixed(270), -(FP as i32));
}

#[test]
fn sine_formula_value() {
    // 4 * 45 * 135 * 1024 / (40500 - 45 * 135) = 24883200 / 34425 = 722.
    assert_eq!(sin_fixed(45), 722);
    assert_eq!(sin_fixed(135), 722);
    assert_eq!(sin_fixed(225), -722);
    assert_eq!(sin_fixed(315), -722);
}

#[test]
fn cosine_is_shifted_sine() {
    assert_eq!(cos_fixed(0), FP as i32);
    assert_eq!(cos_fixed(60), (FP as i32) / 2);
    assert_eq!(cos_fixed(90), 0);
    assert_eq!(cos_fixed(180), -(FP as i32));
    assert_eq!(cos_fixed(270), 0);
    for d in 0..360 {
        let c = cos_fixed(d);
        let s = sin_fixed(d);
        assert!(-(FP as i32) <= c && c <= FP as i32);
        assert!(-(FP as i32) <= s && s <= FP as i32);
    }
}
