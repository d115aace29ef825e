use weather_station::decimal::{digit_text, Numeral};

#[test]
fn digit_text_is_the_digit() {
    let mut d: u8 = 0;
    while d < 10 {
        assert_eq!(digit_text(d), d.to_string());
        d += 1;
    }
}

#[test]
fn numeral_text_is_the_decimal_numeral() {
    assert_eq!(Numeral::from_u64(0).text(), "0");
    assert_eq!(Numeral::from_u64(9).text(), "9");
    assert_eq!(Numeral::from_u64(10).text(), "10");
    assert_eq!(Numeral::from_u64(1012).text(), "1012");
    assert_eq!(Numeral::from_u64(1_000_000).text(), "1000000");
    assert_eq!(Numeral::from_u64(u64::MAX).text(), "18446744073709551615");
}

#[test]
fn numeral_text_agrees_with_std() {
    let mut state: u64 = 7;
    let mut n: u32 = 0;
    while n < 5000 {
        state = state.wrapping_mul(6364136223846793005).wrapping_add(1442695040888963407);
        let value: u64 = state >> (state % 64);
        assert_eq!(Numeral::from_u64(value).text(), value.to_string());
        n += 1;
    }
}

#[test]
fn numeral_double_doubles() {
    let mut zero: Numeral = Numeral::from_u64(0);
    zero.double();
    assert_eq!(zero, Numeral::from_u64(0));
    let mut five: Numeral = Numeral::from_u64(5);
    five.double();
    assert_eq!(five, Numeral::from_u64(10));
    let mut nines: Numeral = Numeral::from_u64(4999);
    nines.double();
    assert_eq!(nines.text(), "9998");
    let mut greatest: Numeral = Numeral::from_u64(u64::MAX);
    greatest.double();
    assert_eq!(greatest.text(), "36893488147419103230");
}

#[test]
fn numeral_double_reaches_past_128_bits() {
    let mut power: Numeral = Numeral::from_u64(1);
    let mut n: u32 = 0;
    while n < 200 {
        power.double();
        n += 1;
    }
    assert_eq!(power.text(), "1606938044258990275541962092341162602522202993782792835301376");
}

#[test]
fn numeral_double_agrees_with_wide_integers() {
    let mut numeral: Numeral = Numeral::from_u64(0x1f_ffff_ffff_ffff);
    let mut wide: u128 = 0x1f_ffff_ffff_ffff;
    let mut n: u32 = 0;
    while n < 70 {
        numeral.double();
        wide *= 2;
        assert_eq!(numeral.text(), wide.to_string());
        n += 1;
    }
}
