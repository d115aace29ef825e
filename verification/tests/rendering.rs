use weather_station::reading::Reading;

fn shown(x: f64) -> String {
    Reading::from_bits(x.to_bits()).one_decimal()
}

#[test]
fn one_decimal_of_plain_values() {
    assert_eq!(shown(15.0), "15.0");
    assert_eq!(shown(60.0), "60.0");
    assert_eq!(shown(1012.0), "1012.0");
    assert_eq!(shown(3.2), "3.2");
    assert_eq!(shown(0.0), "0.0");
    assert_eq!(shown(-7.46), "-7.5");
    assert_eq!(shown(99.95), "100.0");
    assert_eq!(shown(9.94), "9.9");
}

#[test]
fn one_decimal_rounds_ties_to_even() {
    assert_eq!(shown(0.25), "0.2");
    assert_eq!(shown(0.75), "0.8");
    assert_eq!(shown(2.25), "2.2");
    assert_eq!(shown(2.75), "2.8");
    assert_eq!(shown(-0.25), "-0.2");
    assert_eq!(shown(0.05), "0.1");
    assert_eq!(shown(0.35), "0.3");
}

#[test]
fn one_decimal_keeps_the_sign_of_zero() {
    assert_eq!(shown(-0.0), "-0.0");
    assert_eq!(shown(-0.04), "-0.0");
    assert_eq!(shown(0.04), "0.0");
}

#[test]
fn one_decimal_of_what_is_not_finite() {
    assert_eq!(shown(f64::NAN), "NaN");
    assert_eq!(shown(-f64::NAN), "NaN");
    assert_eq!(shown(f64::INFINITY), "inf");
    assert_eq!(shown(f64::NEG_INFINITY), "-inf");
}

#[test]
fn one_decimal_of_extremes() {
    assert_eq!(shown(f64::MAX), format!("{:.1}", f64::MAX));
    assert_eq!(shown(f64::MIN), format!("{:.1}", f64::MIN));
    assert_eq!(shown(f64::MIN_POSITIVE), "0.0");
    assert_eq!(shown(f64::from_bits(1)), "0.0");
    assert_eq!(shown(4503599627370496.0), "4503599627370496.0");
    assert_eq!(shown(4503599627370495.5), "4503599627370495.5");
    assert_eq!(shown(9007199254740993.0), format!("{:.1}", 9007199254740993.0f64));
    assert_eq!(shown(1e22), "10000000000000000000000.0");
}

#[test]
fn one_decimal_agrees_with_std_on_a_grid() {
    let mut i: i64 = -200_000;
    while i <= 200_000 {
        let x: f64 = i as f64 / 1000.0;
        assert_eq!(shown(x), format!("{:.1}", x), "at {}", x);
        i += 1;
    }
}

#[test]
fn one_decimal_agrees_with_std_on_scattered_bits() {
    let mut state: u64 = 0x9e37_79b9_7f4a_7c15;
    let mut n: u32 = 0;
    while n < 3000 {
        state = state.wrapping_mul(6364136223846793005).wrapping_add(1442695040888963407);
        let bits: u64 = state ^ (state >> 29);
        let x: f64 = f64::from_bits(bits);
        assert_eq!(shown(x), format!("{:.1}", x), "at bits {:#x}", bits);
        n += 1;
    }
}

#[test]
fn one_decimal_agrees_with_std_near_one() {
    let mut state: u64 = 42;
    let mut n: u32 = 0;
    while n < 20000 {
        state = state.wrapping_mul(6364136223846793005).wrapping_add(1442695040888963407);
        let exponent: u64 = 1000 + (state >> 58);
        let bits: u64 = (state & 0x800f_ffff_ffff_ffff) | (exponent << 52);
        let x: f64 = f64::from_bits(bits);
        assert_eq!(shown(x), format!("{:.1}", x), "at bits {:#x}", bits);
        n += 1;
    }
}
