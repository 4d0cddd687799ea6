use ethereum_trading_mcp::numeric::{
    apply_decimal_adjustment, divide, invert, multiply, normalize, oracle_price, pow10,
    price_in_pair, scale_down, slippage_floor, sqrt_price_x96_to_ratio, Dec, NumError, Uint160,
};

fn dec(negative: bool, mantissa: u128, scale: u32) -> Dec {
    Dec { negative, mantissa, scale }
}

fn u160(low: u128) -> Uint160 {
    Uint160 { high: 0, low }
}

fn parts(d: Dec) -> (bool, u128, u32) {
    (d.negative, d.mantissa, d.scale)
}

/// The value as a fraction `numerator / 10^scale` reduced to a common scale.
fn at_scale(d: Dec, scale: u32) -> i128 {
    assert!(d.scale <= scale);
    let m = d.mantissa as i128 * 10i128.pow(scale - d.scale);
    if d.negative {
        -m
    } else {
        m
    }
}

#[test]
fn scale_down_inserts_decimal_point_and_trims_zeros() {
    let v = scale_down(1_500_000_000_000_000_000, 18).unwrap();
    assert_eq!(parts(v), (false, 15, 1));
    let v = scale_down(1_234_567, 6).unwrap();
    assert_eq!(parts(v), (false, 1_234_567, 6));
    let v = scale_down(0, 18).unwrap();
    assert_eq!(parts(v), (false, 0, 0));
    let v = scale_down(42, 0).unwrap();
    assert_eq!(parts(v), (false, 42, 0));
}

#[test]
fn scale_down_errors() {
    assert_eq!(scale_down(1u128 << 96, 18).unwrap_err(), NumError::Overflow);
    assert_eq!(scale_down(5, 29).unwrap_err(), NumError::ScaleOutOfRange);
    assert!(scale_down((1u128 << 96) - 1, 28).is_ok());
}

#[test]
fn scale_down_round_trip_on_values() {
    for &raw in &[0u128, 1, 10, 1_000_000, 123_456_789_000, 79_228_162_514_264_337_593_543_950_335] {
        for d in 0u8..=28 {
            let v = scale_down(raw, d).unwrap();
            // rescale by 10^d and truncate
            let back = v.mantissa * 10u128.pow(d as u32 - v.scale);
            assert_eq!(back, raw);
        }
    }
}

#[test]
fn pow10_values() {
    assert_eq!(parts(pow10(0).unwrap()), (false, 1, 0));
    assert_eq!(parts(pow10(3).unwrap()), (false, 1000, 0));
    assert_eq!(parts(pow10(-3).unwrap()), (false, 1, 3));
    assert_eq!(parts(pow10(28).unwrap()), (false, 10u128.pow(28), 0));
    assert_eq!(pow10(29).unwrap_err(), NumError::ScaleOutOfRange);
    assert_eq!(pow10(-29).unwrap_err(), NumError::ScaleOutOfRange);
}

#[test]
fn pow10_reciprocal_product_is_one() {
    for e in -28i32..=28 {
        let p = multiply(pow10(e).unwrap(), pow10(-e).unwrap()).unwrap();
        let n = normalize(p);
        assert_eq!(parts(n), (false, 1, 0), "exponent {}", e);
    }
}

#[test]
fn sqrt_price_of_one_is_one() {
    let one = sqrt_price_x96_to_ratio(u160(1u128 << 96)).unwrap();
    assert_eq!(parts(normalize(one)), (false, 1, 0));
    let half = sqrt_price_x96_to_ratio(u160(1u128 << 95)).unwrap();
    // (1/2)^2 = 0.25
    assert_eq!(at_scale(half, 28), 2_500_000_000_000_000_000_000_000_000);
}

#[test]
fn sqrt_price_is_monotonic_on_samples() {
    let samples = [
        0u128,
        1 << 20,
        1 << 40,
        (1 << 40) + 1,
        1 << 64,
        (1 << 80) + 12345,
        1 << 94,
        (1 << 95) + 1,
        (1 << 96) - 1,
    ];
    let mut last: Option<i128> = None;
    for &s in &samples {
        let v = sqrt_price_x96_to_ratio(u160(s)).unwrap();
        let x = at_scale(v, 28);
        if let Some(p) = last {
            assert!(x >= p);
        }
        last = Some(x);
    }
}

#[test]
fn decimal_adjustment_values() {
    let r = apply_decimal_adjustment(dec(false, 25, 1), 6, 18).unwrap();
    // 2.5 * 10^-12
    assert_eq!(parts(normalize(r)), (false, 25, 13));
    let r = apply_decimal_adjustment(dec(false, 25, 1), 18, 6).unwrap();
    assert_eq!(parts(normalize(r)), (false, 25 * 10u128.pow(11), 0));
    assert_eq!(apply_decimal_adjustment(dec(false, 1, 0), 40, 0).unwrap_err(), NumError::ScaleOutOfRange);
}

#[test]
fn divide_and_invert() {
    assert_eq!(invert(dec(false, 0, 0)).unwrap_err(), NumError::DivisionByZero);
    let r = invert(dec(false, 4, 0)).unwrap();
    assert_eq!(parts(normalize(r)), (false, 25, 2));
    let r = divide(dec(false, 1, 0), dec(false, 3, 0)).unwrap();
    assert_eq!(at_scale(r, 28), 3_333_333_333_333_333_333_333_333_333);
    let r = divide(dec(true, 9, 0), dec(false, 3, 0)).unwrap();
    assert_eq!(parts(normalize(r)), (true, 3, 0));
}

#[test]
fn slippage_floor_bounds() {
    let zero = dec(false, 0, 0);
    let hundred = dec(false, 100, 0);
    for &x in &[0u128, 1, 999, 1_000_000_007, u128::MAX] {
        assert_eq!(slippage_floor(x, zero).unwrap(), x);
        assert_eq!(slippage_floor(x, hundred).unwrap(), 0);
        assert!(slippage_floor(x, dec(false, 5, 1)).unwrap() <= x);
    }
}

#[test]
fn slippage_floor_values() {
    assert_eq!(slippage_floor(1000, dec(false, 5, 1)).unwrap(), 995);
    assert_eq!(slippage_floor(1999, dec(false, 5, 1)).unwrap(), 1989);
    assert_eq!(slippage_floor(3_000_000_000, dec(false, 125, 2)).unwrap(), 2_962_500_000);
    // trailing zeros in the percentage do not matter
    assert_eq!(slippage_floor(1000, dec(false, 5_000_000_000_000_000_000, 19)).unwrap(), 995);
}

#[test]
fn slippage_floor_errors() {
    assert_eq!(slippage_floor(10, dec(false, 1001, 1)).unwrap_err(), NumError::SlippageOutOfRange);
    assert_eq!(slippage_floor(0, dec(false, 101, 0)).unwrap_err(), NumError::SlippageOutOfRange);
    assert_eq!(slippage_floor(u128::MAX, dec(true, 5, 1)).unwrap_err(), NumError::Overflow);
}

#[test]
fn slippage_floor_negative_percentage_raises_minimum() {
    assert_eq!(slippage_floor(10, dec(true, 5, 1)).unwrap(), 10);
    assert_eq!(slippage_floor(1000, dec(true, 5, 1)).unwrap(), 1005);
    assert_eq!(slippage_floor(1000, dec(true, 0, 3)).unwrap(), 1000);
}

#[test]
fn slippage_floor_exact_for_long_percentages() {
    // 10^-18 percent: 10 * (1 - 10^-20) floors to 9
    assert_eq!(slippage_floor(10, dec(false, 1, 18)).unwrap(), 9);
    // 0.5 percent written with 28 digits
    let long_half = dec(false, 5 * 10u128.pow(27), 28);
    assert_eq!(slippage_floor(1000, long_half).unwrap(), 995);
    // a third of a percent to 28 digits
    let third = dec(false, 3_333_333_333_333_333_333_333_333_333, 28);
    assert_eq!(slippage_floor(10u128.pow(20), third).unwrap(), 99_666_666_666_666_666_666);
    assert_eq!(slippage_floor(10u128.pow(22), third).unwrap(), 9_966_666_666_666_666_666_666);
    // large outputs with a long percentage
    assert_eq!(slippage_floor(u128::MAX, long_half).unwrap(), u128::MAX / 1000 * 995 + (u128::MAX % 1000) * 995 / 1000);
}

#[test]
fn half_percent_ratio_window() {
    for &e in &[1000u128, 1001, 123_456, 2_500_000_000, 10u128.pow(30)] {
        let m = slippage_floor(e, dec(false, 5, 1)).unwrap();
        assert!(994 * e <= 1000 * m && m <= e);
    }
}

#[test]
fn oracle_price_values() {
    let p = oracle_price(300_012_345_678, 8).unwrap();
    assert_eq!(parts(p), (false, 300_012_345_678, 8));
    let p = oracle_price(-5, 2).unwrap();
    assert_eq!(parts(p), (true, 5, 2));
    assert_eq!(oracle_price(i128::MAX, 8).unwrap_err(), NumError::Overflow);
    assert_eq!(oracle_price(1, 30).unwrap_err(), NumError::ScaleOutOfRange);
}

#[test]
fn price_in_pair_orientation() {
    // sqrt price 2^95 gives a raw ratio of 0.25
    let first = price_in_pair(u160(1u128 << 95), true, 18, 18).unwrap();
    assert_eq!(parts(normalize(first)), (false, 25, 2));
    let second = price_in_pair(u160(1u128 << 95), false, 18, 18).unwrap();
    assert_eq!(parts(normalize(second)), (false, 4, 0));
    // token of 6 decimals first, native of 18 second: 0.25 * 10^(6 - 18)
    let adjusted = price_in_pair(u160(1u128 << 95), true, 6, 18).unwrap();
    assert_eq!(parts(normalize(adjusted)), (false, 25, 14));
    // native first: raw ratio is token per native; 0.25 * 10^(18 - 6), inverted
    let inverted = price_in_pair(u160(1u128 << 95), false, 6, 18).unwrap();
    assert_eq!(parts(normalize(inverted)), (false, 4, 12));
}

#[test]
fn sqrt_price_wide_inputs() {
    // 2^100 / 2^96 = 16, squared 256
    let v = sqrt_price_x96_to_ratio(u160(1u128 << 100)).unwrap();
    assert_eq!(parts(normalize(v)), (false, 256, 0));
    // 2^130 / 2^96 = 2^34, squared 2^68
    let v = sqrt_price_x96_to_ratio(Uint160 { high: 4, low: 0 }).unwrap();
    assert_eq!(parts(normalize(v)), (false, 1u128 << 68, 0));
    // 3 * 2^96 + 2^95 = 3.5 * 2^96, squared 12.25
    let v = sqrt_price_x96_to_ratio(u160((3u128 << 96) + (1u128 << 95))).unwrap();
    assert_eq!(parts(normalize(v)), (false, 1225, 2));
    // 2^128 + 2^63: 2^32 + 2^-33 squared is about 2^64 + 1
    let v = sqrt_price_x96_to_ratio(Uint160 { high: 1, low: 1u128 << 63 }).unwrap();
    let n = normalize(v);
    let whole = n.mantissa / 10u128.pow(n.scale);
    assert!(whole == (1u128 << 64) || whole == (1u128 << 64) + 1);
    // the largest price squares past the decimal's range
    let top = Uint160 { high: u32::MAX, low: u128::MAX };
    assert_eq!(sqrt_price_x96_to_ratio(top).unwrap_err(), NumError::Overflow);
}

#[test]
fn sqrt_price_wide_inputs_are_monotonic_on_samples() {
    let samples = [
        Uint160 { high: 0, low: (1u128 << 96) - 1 },
        Uint160 { high: 0, low: 1u128 << 96 },
        Uint160 { high: 0, low: (1u128 << 100) + 7 },
        Uint160 { high: 0, low: u128::MAX },
        Uint160 { high: 1, low: 0 },
        Uint160 { high: 1, low: 5 },
        Uint160 { high: 1000, low: 1u128 << 90 },
    ];
    let mut last: Option<(u128, u32)> = None;
    for s in samples {
        let v = normalize(sqrt_price_x96_to_ratio(s).unwrap());
        if let Some((m, sc)) = last {
            // compare m / 10^sc <= v.mantissa / 10^v.scale via integer parts and scales
            let a = m as f64 / 10f64.powi(sc as i32);
            let b = v.mantissa as f64 / 10f64.powi(v.scale as i32);
            assert!(a <= b * (1.0 + 1e-12));
        }
        last = Some((v.mantissa, v.scale));
    }
}
