//! Fixed-point decimal values and the numeric derivations of the tools.
use rust_decimal::Decimal;
use vstd::prelude::*;

verus! {

/// Largest number of fractional digits a decimal carries.
pub const MAX_SCALE: u32 = 28;

/// Exclusive bound of a decimal's mantissa (96 bits).
pub const MANTISSA_BOUND: u128 = 0x1_0000_0000_0000_0000_0000_0000;

/// `10^n`.
pub open spec fn ten_pow(n: nat) -> nat
    decreases n,
{
    if n == 0 {
        1
    } else {
        10 * ten_pow((n - 1) as nat)
    }
}

/// A decimal number `(-1)^negative * mantissa / 10^scale`, with the mantissa
/// and scale ranges of a 96-bit fixed-point decimal.
#[derive(Clone, Copy, Debug)]
pub struct Dec {
    pub negative: bool,
    pub mantissa: u128,
    pub scale: u32,
}

/// Why a numeric derivation gave no value.
#[derive(Clone, Copy, Debug, PartialEq, Eq, Structural)]
pub enum NumError {
    /// A magnitude does not fit a 96-bit mantissa.
    Overflow,
    /// A power of ten or a scale is beyond the decimal's 28 digits.
    ScaleOutOfRange,
    /// A division by zero.
    DivisionByZero,
    /// A slippage percentage above one hundred.
    SlippageOutOfRange,
}

impl Dec {
    /// The mantissa and scale are within a decimal's ranges.
    pub open spec fn wf(self) -> bool {
        self.mantissa < MANTISSA_BOUND && self.scale <= MAX_SCALE
    }

    /// The mantissa with its sign.
    pub open spec fn signed(self) -> int {
        if self.negative {
            -(self.mantissa as int)
        } else {
            self.mantissa as int
        }
    }

    /// No trailing zero stands in the fractional digits.
    pub open spec fn is_normal(self) -> bool {
        self.scale == 0 || self.mantissa % 10 != 0
    }

    /// The value times `10^d`, truncated toward zero (for a non-negative value).
    pub open spec fn rescaled_floor(self, d: nat) -> int {
        (self.mantissa as int * ten_pow(d)) / (ten_pow(self.scale as nat) as int)
    }
}

pub proof fn lemma_ten_pow_positive(n: nat)
    ensures
        ten_pow(n) >= 1,
    decreases n,
{
    if n > 0 {
        lemma_ten_pow_positive((n - 1) as nat);
    }
}

pub proof fn lemma_ten_pow_add(a: nat, b: nat)
    ensures
        ten_pow(a + b) == ten_pow(a) * ten_pow(b),
    decreases a,
{
    if a > 0 {
        let a1 = (a - 1) as nat;
        lemma_ten_pow_add(a1, b);
        assert(ten_pow(a) == 10 * ten_pow(a1));
        assert(a + b == (a1 + b) + 1);
        assert(ten_pow(a + b) == 10 * ten_pow(a1 + b));
        let x = ten_pow(a1);
        let y = ten_pow(b);
        assert(10 * (x * y) == (10 * x) * y) by (nonlinear_arith);
        assert(ten_pow(a + b) == ten_pow(a) * ten_pow(b));
    } else {
        assert(ten_pow(0) == 1);
        assert(a + b == b);
    }
}

pub proof fn lemma_ten_pow_monotonic(a: nat, b: nat)
    requires
        a <= b,
    ensures
        ten_pow(a) <= ten_pow(b),
    decreases b,
{
    if a < b {
        lemma_ten_pow_monotonic(a, (b - 1) as nat);
        lemma_ten_pow_positive((b - 1) as nat);
    }
}

proof fn lemma_ten_pow_28()
    ensures
        ten_pow(28) == 10_000_000_000_000_000_000_000_000_000,
        ten_pow(28) < MANTISSA_BOUND,
{
    reveal_with_fuel(ten_pow, 29);
}

/// The normal form of `mantissa / 10^scale`: trailing fractional zeros removed.
pub open spec fn normal_form(mantissa: nat, scale: nat) -> (nat, nat)
    decreases scale,
{
    if scale > 0 && mantissa % 10 == 0 {
        normal_form(mantissa / 10, (scale - 1) as nat)
    } else {
        (mantissa, scale)
    }
}

/// Dropping trailing zeros divides the mantissa by a power of ten.
pub proof fn lemma_normal_form(mantissa: nat, scale: nat)
    ensures
        normal_form(mantissa, scale).1 <= scale,
        normal_form(mantissa, scale).0 * ten_pow((scale - normal_form(mantissa, scale).1) as nat)
            == mantissa,
        normal_form(mantissa, scale).0 <= mantissa,
    decreases scale,
{
    if scale > 0 && mantissa % 10 == 0 {
        let (m, s) = normal_form(mantissa / 10, (scale - 1) as nat);
        lemma_normal_form(mantissa / 10, (scale - 1) as nat);
        let k = (scale - 1 - s) as nat;
        assert((scale - s) as nat == k + 1);
        assert(ten_pow(k + 1) == 10 * ten_pow(k));
        assert(m * ten_pow(k) == mantissa / 10);
        let t = ten_pow(k);
        assert(m * (10 * t) == 10 * (m * t)) by (nonlinear_arith);
        assert(mantissa == 10 * (mantissa / 10));
        assert(ten_pow((scale - s) as nat) == 10 * t);
        assert(m * ten_pow((scale - s) as nat) == mantissa);
        assert(normal_form(mantissa, scale) == (m, s));
    } else {
        assert(normal_form(mantissa, scale) == (mantissa, scale));
        assert((scale - scale) as nat == 0);
        assert(ten_pow(0) == 1);
        assert(mantissa * ten_pow(0) == mantissa);
    }
}

/// Removes trailing fractional zeros; the value is unchanged.
pub fn normalize(d: Dec) -> (r: Dec)
    ensures
        (r.mantissa as nat, r.scale as nat) == normal_form(d.mantissa as nat, d.scale as nat),
        r.negative == d.negative,
{
    let mut m: u128 = d.mantissa;
    let mut s: u32 = d.scale;
    while s > 0 && m % 10 == 0
        invariant
            normal_form(m as nat, s as nat) == normal_form(d.mantissa as nat, d.scale as nat),
        decreases s,
    {
        m = m / 10;
        s = s - 1;
    }
    Dec { negative: d.negative, mantissa: m, scale: s }
}


/// `10^n` as a machine integer.
pub fn ten_pow_u128(n: u32) -> (r: u128)
    requires
        n <= 38,
    ensures
        r == ten_pow(n as nat),
{
    let mut r: u128 = 1;
    let mut i: u32 = 0;
    while i < n
        invariant
            i <= n <= 38,
            r == ten_pow(i as nat),
        decreases n - i,
    {
        proof {
            lemma_ten_pow_monotonic((i + 1) as nat, 38);
            reveal_with_fuel(ten_pow, 39);
        }
        r = r * 10;
        i = i + 1;
    }
    r
}

/// The decimal `10^e`: an integer for `e >= 0`, the reciprocal `1 / 10^(-e)` otherwise.
pub open spec fn pow10_spec(e: int) -> Dec {
    if e >= 0 {
        Dec { negative: false, mantissa: ten_pow(e as nat) as u128, scale: 0 }
    } else {
        Dec { negative: false, mantissa: 1, scale: (-e) as u32 }
    }
}

/// `10^exponent` as an exact decimal; the exponent's magnitude is at most 28.
pub fn pow10(exponent: i32) -> (r: Result<Dec, NumError>)
    ensures
        -28 <= exponent <= 28 ==> r == Ok::<Dec, NumError>(pow10_spec(exponent as int)),
        !(-28 <= exponent <= 28) ==> r == Err::<Dec, NumError>(NumError::ScaleOutOfRange),
        r matches Ok(v) ==> v.wf(),
{
    if exponent < -28 || exponent > 28 {
        return Err(NumError::ScaleOutOfRange);
    }
    if exponent >= 0 {
        proof {
            lemma_ten_pow_monotonic(exponent as nat, 28);
            lemma_ten_pow_28();
        }
        Ok(Dec { negative: false, mantissa: ten_pow_u128(exponent as u32), scale: 0 })
    } else {
        Ok(Dec { negative: false, mantissa: 1, scale: (-exponent) as u32 })
    }
}

/// `10^e · 10^(-e)` is exactly one: the product of the two mantissas is the
/// power of ten that their scales add up to.
pub proof fn law_pow10_reciprocal(e: int)
    requires
        -28 <= e <= 28,
    ensures
        pow10_spec(e).signed() * pow10_spec(-e).signed() == ten_pow(
            (pow10_spec(e).scale + pow10_spec(-e).scale) as nat,
        ),
{
    lemma_ten_pow_28();
    if e == 0 {
        assert(ten_pow(0) == 1);
        assert(pow10_spec(e).signed() == 1);
        assert(pow10_spec(-e).signed() == 1);
        assert(pow10_spec(e).scale + pow10_spec(-e).scale == 0);
    } else if e > 0 {
        lemma_ten_pow_monotonic(e as nat, 28);
        assert(pow10_spec(e).signed() == ten_pow(e as nat));
        assert(pow10_spec(-e).signed() == 1);
        assert(pow10_spec(e).scale + pow10_spec(-e).scale == e);
    } else {
        lemma_ten_pow_monotonic((-e) as nat, 28);
        assert(pow10_spec(-e).signed() == ten_pow((-e) as nat));
        assert(pow10_spec(e).signed() == 1);
        assert(pow10_spec(e).scale + pow10_spec(-e).scale == -e);
    }
}

/// `raw / 10^decimals`, with trailing fractional zeros removed.
pub open spec fn scaled_down(raw: nat, decimals: nat) -> Dec {
    Dec {
        negative: false,
        mantissa: normal_form(raw, decimals).0 as u128,
        scale: normal_form(raw, decimals).1 as u32,
    }
}

/// The amount `raw / 10^decimals` of an on-chain integer, exact and normalized.
/// The integer must fit a 96-bit mantissa and the scale at most 28 digits.
pub fn scale_down(raw: u128, decimals: u8) -> (r: Result<Dec, NumError>)
    ensures
        raw < MANTISSA_BOUND && decimals <= MAX_SCALE ==> r == Ok::<Dec, NumError>(
            scaled_down(raw as nat, decimals as nat),
        ),
        raw >= MANTISSA_BOUND ==> r == Err::<Dec, NumError>(NumError::Overflow),
        raw < MANTISSA_BOUND && decimals > MAX_SCALE ==> r == Err::<Dec, NumError>(
            NumError::ScaleOutOfRange,
        ),
        r matches Ok(v) ==> v.wf() && v.is_normal(),
{
    if raw >= MANTISSA_BOUND {
        return Err(NumError::Overflow);
    }
    if decimals as u32 > MAX_SCALE {
        return Err(NumError::ScaleOutOfRange);
    }
    let r = normalize(Dec { negative: false, mantissa: raw, scale: decimals as u32 });
    proof {
        lemma_normal_form(raw as nat, decimals as nat);
        lemma_normal_form_is_normal(raw as nat, decimals as nat);
    }
    Ok(r)
}

pub proof fn lemma_normal_form_is_normal(mantissa: nat, scale: nat)
    ensures
        normal_form(mantissa, scale).1 == 0 || normal_form(mantissa, scale).0 % 10 != 0,
    decreases scale,
{
    if scale > 0 && mantissa % 10 == 0 {
        lemma_normal_form_is_normal(mantissa / 10, (scale - 1) as nat);
    }
}

/// Scaling an amount down by `10^d` and then back up by `10^d`, truncating,
/// gives the amount back.
pub proof fn law_scale_down_round_trip(raw: nat, d: nat)
    requires
        raw < MANTISSA_BOUND,
        d <= MAX_SCALE,
    ensures
        scaled_down(raw, d).rescaled_floor(d) == raw,
{
    lemma_normal_form(raw, d);
    let (m, s) = normal_form(raw, d);
    let k = (d - s) as nat;
    lemma_ten_pow_add(k, s);
    assert(k + s == d);
    lemma_ten_pow_positive(s);
    assert(m * ten_pow(d) == raw * ten_pow(s)) by (nonlinear_arith)
        requires
            m * ten_pow(k) == raw,
            ten_pow(d) == ten_pow(k) * ten_pow(s),
    ;
    vstd::arithmetic::div_mod::lemma_div_multiples_vanish(raw as int, ten_pow(s) as int);
    assert(ten_pow(s) * raw == raw * ten_pow(s)) by (nonlinear_arith);
}


/// `floor(expected_out * (1 - pct / 100))` for the percentage `pct = m / 10^s`.
pub open spec fn slippage_floor_spec(expected_out: nat, m: int, s: nat) -> int {
    (expected_out * ((100 * ten_pow(s)) - m)) / (100 * ten_pow(s) as int)
}

/// The percentage is above one hundred: the output would be negative.
pub open spec fn slippage_out_of_range(p: Dec) -> bool {
    p.signed() > 100 * ten_pow(p.scale as nat)
}

/// `2^16`, the digit base of `mul_div_floor`.
pub const B16: u128 = 0x1_0000;

/// `floor(a * b / d)` for `a < d <= 2^100`, computed digit by digit in base
/// `2^16` so that no intermediate exceeds 128 bits.
pub fn mul_div_floor(a: u128, b: u128, d: u128) -> (r: u128)
    requires
        0 < d <= 0x10_0000_0000_0000_0000_0000_0000,
        a < d,
    ensures
        r as int == (a as int * b as int) / (d as int),
{
    let mut p: u128 = 0x1_0000_0000_0000_0000_0000_0000_0000;
    let mut prev: u128 = 0;
    let mut q: u128 = 0;
    let mut rem: u128 = 0;
    let mut i: u32 = 0;
    proof {
        vstd::arithmetic::div_mod::lemma_basic_div(
            b as int,
            0x1_0000_0000_0000_0000_0000_0000_0000 * B16 as int,
        );
    }
    while i < 8
        invariant
            0 < d <= 0x10_0000_0000_0000_0000_0000_0000,
            a < d,
            i <= 8,
            i == 0 ==> p == 0x1_0000_0000_0000_0000_0000_0000_0000,
            i == 1 ==> p == 0x1_0000_0000_0000_0000_0000_0000,
            i == 2 ==> p == 0x1_0000_0000_0000_0000_0000,
            i == 3 ==> p == 0x1_0000_0000_0000_0000,
            i == 4 ==> p == 0x1_0000_0000_0000,
            i == 5 ==> p == 0x1_0000_0000,
            i == 6 ==> p == 0x1_0000,
            i >= 7 ==> p == 1,
            i < 8 ==> prev as int == b as int / (p as int * B16 as int),
            i == 8 ==> prev == b,
            q as int * d as int + rem as int == a as int * prev as int,
            rem < d,
        decreases 8 - i,
    {
        let cur: u128 = b / p;
        let ghost w = p as int * B16 as int;
        proof {
            vstd::arithmetic::div_mod::lemma_div_denominator(b as int, p as int, B16 as int);
            vstd::arithmetic::div_mod::lemma_fundamental_div_mod(cur as int, B16 as int);
            vstd::arithmetic::div_mod::lemma_mod_bound(cur as int, B16 as int);
            if p == 1 {
                assert(cur == b);
            }
        }
        let digit: u128 = cur % B16;
        proof {
            assert(cur as int == prev as int * B16 as int + digit as int);
            assert(rem * B16 + a * digit < 0x1_0000_0000_0000_0000_0000_0000_0000_0000) by (nonlinear_arith)
                requires
                    rem < d,
                    a < d,
                    digit < B16,
                    d <= 0x10_0000_0000_0000_0000_0000_0000,
                    B16 == 0x1_0000,
            ;
        }
        let x: u128 = rem * B16 + a * digit;
        let ghost nq = q as int * B16 as int + x as int / d as int;
        proof {
            vstd::arithmetic::div_mod::lemma_fundamental_div_mod(x as int, d as int);
            vstd::arithmetic::div_mod::lemma_mod_bound(x as int, d as int);
            assert(nq * d + x as int % d as int == a as int * cur as int) by (nonlinear_arith)
                requires
                    nq == q as int * B16 as int + x as int / d as int,
                    x as int == d * (x as int / d as int) + x as int % d as int,
                    x as int == rem as int * B16 as int + a as int * digit as int,
                    q as int * d as int + rem as int == a as int * prev as int,
                    cur as int == prev as int * B16 as int + digit as int,
            ;
            assert(nq <= cur) by (nonlinear_arith)
                requires
                    nq * d + x as int % d as int == a as int * cur as int,
                    0 <= x as int % d as int,
                    a < d,
                    d > 0,
                    cur >= 0,
            ;
            assert(x as int / d as int >= 0);
            assert(q as int * B16 as int <= nq);
        }
        q = q * B16 + x / d;
        rem = x % d;
        prev = cur;
        if i < 7 {
            p = p / B16;
        }
        i = i + 1;
        proof {
            if i == 8 {
                assert(prev == b);
            }
        }
    }
    proof {
        vstd::arithmetic::div_mod::lemma_fundamental_div_mod_converse(
            a as int * b as int,
            d as int,
            q as int,
            rem as int,
        );
    }
    q
}

/// Smallest output accepted for a swap quoted at `expected_out` when the
/// caller tolerates `slippage_percent` percent of slippage:
/// `floor(expected_out * (1 - slippage_percent / 100))`, exact, truncated
/// toward zero so that it is never more generous than the tolerance. A
/// percentage above one hundred is refused; a negative one raises the
/// minimum, and fails only where the result exceeds 128 bits.
pub fn slippage_floor(expected_out: u128, slippage_percent: Dec) -> (r: Result<u128, NumError>)
    requires
        slippage_percent.wf(),
    ensures
        slippage_out_of_range(slippage_percent) <==> r == Err::<u128, NumError>(
            NumError::SlippageOutOfRange,
        ),
        !slippage_out_of_range(slippage_percent) ==> (r is Ok <==> slippage_floor_spec(
            expected_out as nat,
            slippage_percent.signed(),
            slippage_percent.scale as nat,
        ) <= u128::MAX),
        r is Err && !slippage_out_of_range(slippage_percent) ==> r == Err::<u128, NumError>(
            NumError::Overflow,
        ),
        r matches Ok(v) ==> v == slippage_floor_spec(
            expected_out as nat,
            slippage_percent.signed(),
            slippage_percent.scale as nat,
        ),
{
    let ghost e = expected_out as nat;
    let ghost sc = slippage_percent.scale as nat;
    proof {
        lemma_ten_pow_monotonic(sc, 28);
        lemma_ten_pow_28();
        lemma_ten_pow_positive(sc);
    }
    let whole: u128 = 100 * ten_pow_u128(slippage_percent.scale);
    proof {
        assert(whole <= 1_000_000_000_000_000_000_000_000_000_000);
    }
    let m = slippage_percent.mantissa;
    if !slippage_percent.negative && m > whole {
        return Err(NumError::SlippageOutOfRange);
    }
    let keep: u128 = if slippage_percent.negative {
        whole + m
    } else {
        whole - m
    };
    assert(keep as int == whole as int - slippage_percent.signed());
    let q: u128 = expected_out / whole;
    let rem: u128 = expected_out % whole;
    proof {
        vstd::arithmetic::div_mod::lemma_mod_bound(expected_out as int, whole as int);
    }
    let part: u128 = mul_div_floor(rem, keep, whole);
    let ghost v = slippage_floor_spec(e, slippage_percent.signed(), sc);
    proof {
        lemma_slippage_split(e, q as nat, rem as nat, whole as nat, keep as nat);
        assert(v == q as int * keep as int + part as int);
        assert(q as int * keep as int >= 0) by (nonlinear_arith)
            requires
                q >= 0,
                keep >= 0,
        ;
    }
    let head = match q.checked_mul(keep) {
        Some(h) => h,
        None => {
            return Err(NumError::Overflow);
        },
    };
    match head.checked_add(part) {
        Some(t) => Ok(t),
        None => Err(NumError::Overflow),
    }
}


proof fn lemma_slippage_split(e: nat, q: nat, rem: nat, whole: nat, keep: nat)
    requires
        whole > 0,
        q == e / whole,
        rem == e % whole,
    ensures
        q * keep + (rem * keep) / whole == (e * keep) / whole,
{
    vstd::arithmetic::div_mod::lemma_fundamental_div_mod(e as int, whole as int);
    vstd::arithmetic::div_mod::lemma_hoist_over_denominator((rem * keep) as int, (q * keep) as int, whole);
    assert(e * keep == rem * keep + (q * keep) * whole) by (nonlinear_arith)
        requires
            e == whole * q + rem,
    ;
}

/// With no slippage the floor is the expected output itself; with the full
/// hundred percent it is zero; and it never exceeds the expected output.
pub proof fn law_slippage_floor_bounds(expected_out: nat, m: int, s: nat)
    requires
        0 <= m <= 100 * ten_pow(s),
    ensures
        slippage_floor_spec(expected_out, 0, s) == expected_out,
        slippage_floor_spec(expected_out, (100 * ten_pow(s)) as int, s) == 0,
        slippage_floor_spec(expected_out, m, s) <= expected_out,
{
    lemma_ten_pow_positive(s);
    let d = 100 * ten_pow(s);
    vstd::arithmetic::div_mod::lemma_div_multiples_vanish(expected_out as int, d as int);
    assert(expected_out * d == d * expected_out) by (nonlinear_arith);
    assert(expected_out * (d - m) <= expected_out * d) by (nonlinear_arith)
        requires
            0 <= m <= d,
    ;
    vstd::arithmetic::div_mod::lemma_div_is_ordered(
        expected_out * (d - m),
        (expected_out * d) as int,
        d as int,
    );
}

/// With a tolerance of half a percent and an expected output of at least a
/// thousand units, the minimum output lies between 99.4% and 100% of it.
pub proof fn law_half_percent_ratio(expected_out: nat)
    requires
        expected_out >= 1000,
    ensures
        994 * expected_out <= 1000 * slippage_floor_spec(expected_out, 5, 1),
        slippage_floor_spec(expected_out, 5, 1) <= expected_out,
{
    reveal_with_fuel(ten_pow, 2);
    let v = slippage_floor_spec(expected_out, 5, 1);
    assert(v == (expected_out * 995) / 1000);
    assert(994 * expected_out <= 1000 * ((expected_out * 995) / 1000)) by (nonlinear_arith)
        requires
            expected_out >= 1000,
    ;
    assert((expected_out * 995) / 1000 <= expected_out) by (nonlinear_arith);
}


/// Largest magnitude of a signed 96-bit mantissa.
pub const MANTISSA_MAX: i128 = 0xFFFF_FFFF_FFFF_FFFF_FFFF_FFFF;

/// What `Decimal::checked_div` returns for `a / b`, each given as signed
/// mantissa and scale; `None` on overflow or division by zero.
pub uninterp spec fn decimal_quotient(a: (int, nat), b: (int, nat)) -> Option<(int, nat)>;

/// What `Decimal::checked_mul` returns for `a * b`, each given as signed
/// mantissa and scale; `None` on overflow.
pub uninterp spec fn decimal_product(a: (int, nat), b: (int, nat)) -> Option<(int, nat)>;

/// Relies on `rust_decimal::Decimal::checked_div`: the quotient of two decimals
/// rounded to the decimal's precision, `None` on overflow or a zero divisor.
/// Its result is a decimal, so its mantissa and scale are within range.
#[verifier::external_body]
fn decimal_checked_div(a: i128, a_scale: u32, b: i128, b_scale: u32) -> (r: Option<(i128, u32)>)
    requires
        -MANTISSA_MAX <= a <= MANTISSA_MAX,
        -MANTISSA_MAX <= b <= MANTISSA_MAX,
        a_scale <= MAX_SCALE,
        b_scale <= MAX_SCALE,
    ensures
        r matches Some(v) ==> decimal_quotient((a as int, a_scale as nat), (b as int, b_scale as nat))
            == Some((v.0 as int, v.1 as nat)),
        r is None ==> decimal_quotient((a as int, a_scale as nat), (b as int, b_scale as nat))
            is None,
        r matches Some(v) ==> -MANTISSA_MAX <= v.0 <= MANTISSA_MAX && v.1 <= MAX_SCALE,
        b == 0 ==> r is None,
{
    let x = Decimal::from_i128_with_scale(a, a_scale);
    let y = Decimal::from_i128_with_scale(b, b_scale);
    x.checked_div(y).map(|q| (q.mantissa(), q.scale()))
}

/// Relies on `rust_decimal::Decimal::checked_mul`: the product of two decimals
/// rounded to the decimal's precision, `None` on overflow. Its result is a
/// decimal, so its mantissa and scale are within range.
#[verifier::external_body]
fn decimal_checked_mul(a: i128, a_scale: u32, b: i128, b_scale: u32) -> (r: Option<(i128, u32)>)
    requires
        -MANTISSA_MAX <= a <= MANTISSA_MAX,
        -MANTISSA_MAX <= b <= MANTISSA_MAX,
        a_scale <= MAX_SCALE,
        b_scale <= MAX_SCALE,
    ensures
        r matches Some(v) ==> decimal_product((a as int, a_scale as nat), (b as int, b_scale as nat))
            == Some((v.0 as int, v.1 as nat)),
        r is None ==> decimal_product((a as int, a_scale as nat), (b as int, b_scale as nat))
            is None,
        r matches Some(v) ==> -MANTISSA_MAX <= v.0 <= MANTISSA_MAX && v.1 <= MAX_SCALE,
{
    let x = Decimal::from_i128_with_scale(a, a_scale);
    let y = Decimal::from_i128_with_scale(b, b_scale);
    x.checked_mul(y).map(|p| (p.mantissa(), p.scale()))
}

impl Dec {
    /// The signed mantissa and the scale.
    pub open spec fn pair(self) -> (int, nat) {
        (self.signed(), self.scale as nat)
    }

    /// The decimal with the given signed mantissa and scale.
    pub open spec fn of_pair(p: (int, nat)) -> Dec {
        Dec {
            negative: p.0 < 0,
            mantissa: (if p.0 < 0 { -p.0 } else { p.0 }) as u128,
            scale: p.1 as u32,
        }
    }

    /// The signed mantissa as a machine integer.
    pub fn signed_mantissa(&self) -> (r: i128)
        requires
            self.wf(),
        ensures
            r == self.signed(),
            -MANTISSA_MAX <= r <= MANTISSA_MAX,
    {
        let m = self.mantissa as i128;
        if self.negative {
            -m
        } else {
            m
        }
    }

    /// The decimal with a signed mantissa and a scale.
    pub fn from_signed(m: i128, scale: u32) -> (r: Dec)
        requires
            -MANTISSA_MAX <= m <= MANTISSA_MAX,
            scale <= MAX_SCALE,
        ensures
            r == Dec::of_pair((m as int, scale as nat)),
            r.wf(),
            r.pair() == (m as int, scale as nat) || (m == 0 && r.mantissa == 0),
    {
        if m < 0 {
            Dec { negative: true, mantissa: (-m) as u128, scale }
        } else {
            Dec { negative: false, mantissa: m as u128, scale }
        }
    }

    /// One.
    pub fn one() -> (r: Dec)
        ensures
            r == (Dec { negative: false, mantissa: 1, scale: 0 }),
    {
        Dec { negative: false, mantissa: 1, scale: 0 }
    }
}

/// The decimal quotient `a / b` as `Decimal` computes it.
pub open spec fn quotient_spec(a: Dec, b: Dec) -> Result<Dec, NumError> {
    if b.mantissa == 0 {
        Err(NumError::DivisionByZero)
    } else {
        match decimal_quotient(a.pair(), b.pair()) {
            Some(p) => Ok(Dec::of_pair(p)),
            None => Err(NumError::Overflow),
        }
    }
}

/// The decimal product `a * b` as `Decimal` computes it.
pub open spec fn product_spec(a: Dec, b: Dec) -> Result<Dec, NumError> {
    match decimal_product(a.pair(), b.pair()) {
        Some(p) => Ok(Dec::of_pair(p)),
        None => Err(NumError::Overflow),
    }
}

/// `a / b`, rounded to the decimal's precision.
pub fn divide(a: Dec, b: Dec) -> (r: Result<Dec, NumError>)
    requires
        a.wf(),
        b.wf(),
    ensures
        r == quotient_spec(a, b),
        r matches Ok(v) ==> v.wf(),
{
    if b.mantissa == 0 {
        return Err(NumError::DivisionByZero);
    }
    match decimal_checked_div(a.signed_mantissa(), a.scale, b.signed_mantissa(), b.scale) {
        Some(q) => Ok(Dec::from_signed(q.0, q.1)),
        None => Err(NumError::Overflow),
    }
}

/// `a * b`, rounded to the decimal's precision.
pub fn multiply(a: Dec, b: Dec) -> (r: Result<Dec, NumError>)
    requires
        a.wf(),
        b.wf(),
    ensures
        r == product_spec(a, b),
        r matches Ok(v) ==> v.wf(),
{
    match decimal_checked_mul(a.signed_mantissa(), a.scale, b.signed_mantissa(), b.scale) {
        Some(p) => Ok(Dec::from_signed(p.0, p.1)),
        None => Err(NumError::Overflow),
    }
}

/// What `Decimal::checked_add` returns for `a + b`, each given as signed
/// mantissa and scale; `None` on overflow.
pub uninterp spec fn decimal_sum(a: (int, nat), b: (int, nat)) -> Option<(int, nat)>;

/// Relies on `rust_decimal::Decimal::checked_add`: the sum of two decimals
/// rounded to the decimal's precision, `None` on overflow. Its result is a
/// decimal, so its mantissa and scale are within range.
#[verifier::external_body]
fn decimal_checked_add(a: i128, a_scale: u32, b: i128, b_scale: u32) -> (r: Option<(i128, u32)>)
    requires
        -MANTISSA_MAX <= a <= MANTISSA_MAX,
        -MANTISSA_MAX <= b <= MANTISSA_MAX,
        a_scale <= MAX_SCALE,
        b_scale <= MAX_SCALE,
    ensures
        r matches Some(v) ==> decimal_sum((a as int, a_scale as nat), (b as int, b_scale as nat))
            == Some((v.0 as int, v.1 as nat)),
        r is None ==> decimal_sum((a as int, a_scale as nat), (b as int, b_scale as nat)) is None,
        r matches Some(v) ==> -MANTISSA_MAX <= v.0 <= MANTISSA_MAX && v.1 <= MAX_SCALE,
{
    let x = Decimal::from_i128_with_scale(a, a_scale);
    let y = Decimal::from_i128_with_scale(b, b_scale);
    x.checked_add(y).map(|t| (t.mantissa(), t.scale()))
}

/// The decimal sum `a + b` as `Decimal` computes it.
pub open spec fn sum_spec(a: Dec, b: Dec) -> Result<Dec, NumError> {
    match decimal_sum(a.pair(), b.pair()) {
        Some(p) => Ok(Dec::of_pair(p)),
        None => Err(NumError::Overflow),
    }
}

/// `a + b`, rounded to the decimal's precision.
pub fn add_decimals(a: Dec, b: Dec) -> (r: Result<Dec, NumError>)
    requires
        a.wf(),
        b.wf(),
    ensures
        r == sum_spec(a, b),
        r matches Ok(v) ==> v.wf(),
{
    match decimal_checked_add(a.signed_mantissa(), a.scale, b.signed_mantissa(), b.scale) {
        Some(t) => Ok(Dec::from_signed(t.0, t.1)),
        None => Err(NumError::Overflow),
    }
}

/// An unsigned 160-bit integer `high * 2^128 + low`.
#[derive(Clone, Copy, Debug)]
pub struct Uint160 {
    pub high: u32,
    pub low: u128,
}

/// `2^32`, one third of the 96 fractional bits of a square-root price.
pub const Q32: u128 = 0x1_0000_0000;

/// `2^64`.
pub const Q64: u128 = 0x1_0000_0000_0000_0000;

/// `2^128`.
pub open spec fn two_pow_128() -> nat {
    u128::MAX as nat + 1
}

impl Uint160 {
    /// The number.
    pub open spec fn value(self) -> nat {
        self.high as nat * two_pow_128() + self.low as nat
    }
}

/// The split of a square-root price `s` into `k` whole divisions by `2^32`
/// done on integers, the quotient `s / 2^(32k)` (below `2^96`) and the
/// remainder `s % 2^(32k)`: none for a price that a decimal holds, else two.
pub open spec fn sqrt_split(s: nat) -> (nat, nat, nat) {
    if s < MANTISSA_BOUND {
        (0, s, 0)
    } else {
        (2, s / (Q64 as nat), s % (Q64 as nat))
    }
}

/// One further division by `2^32`, carrying a failure through.
pub open spec fn then_div_q32(x: Result<Dec, NumError>) -> Result<Dec, NumError> {
    match x {
        Ok(y) => quotient_spec(y, Dec { negative: false, mantissa: Q32, scale: 0 }),
        Err(e) => Err(e),
    }
}

/// `s / 2^(32k)` as a decimal: the integer quotient plus the remainder
/// divided by `2^(32k)`.
pub open spec fn sqrt_head_spec(s: nat) -> Result<Dec, NumError> {
    let (k, q, r) = sqrt_split(s);
    let head = Dec { negative: false, mantissa: q as u128, scale: 0 };
    if r == 0 {
        Ok(head)
    } else {
        let unit = Dec { negative: false, mantissa: Q64, scale: 0 };
        match quotient_spec(Dec { negative: false, mantissa: r as u128, scale: 0 }, unit) {
            Ok(f) => sum_spec(head, f),
            Err(e) => Err(e),
        }
    }
}

/// The ratio `(s / 2^96)^2`: `s / 2^96` is formed as `s / 2^(32k)` and then
/// `3 - k` divisions by `2^32`, before squaring.
pub open spec fn sqrt_ratio_spec(s: nat) -> Result<Dec, NumError> {
    let k = sqrt_split(s).0;
    let a = sqrt_head_spec(s);
    let c = if k == 0 {
        then_div_q32(then_div_q32(a))
    } else {
        a
    };
    match then_div_q32(c) {
        Ok(v) => product_spec(v, v),
        Err(e) => Err(e),
    }
}

proof fn lemma_split_high(h: int, l: int)
    requires
        0 <= l < two_pow_128(),
        0 <= h < 0x1_0000_0000,
    ensures
        (h * two_pow_128() + l) / (Q64 as int) == h * (Q64 as int) + l / (Q64 as int),
        (h * two_pow_128() + l) % (Q64 as int) == l % (Q64 as int),
        h * (Q64 as int) + l / (Q64 as int) < MANTISSA_BOUND,
{
    let d = Q64 as int;
    vstd::arithmetic::div_mod::lemma_fundamental_div_mod(l as int, d);
    vstd::arithmetic::div_mod::lemma_mod_bound(l as int, d);
    let q = h * d + l / d;
    assert(h * two_pow_128() + l == q * d + l % d) by (nonlinear_arith)
        requires
            l == d * (l / d) + l % d,
            q == h * d + l / d,
            two_pow_128() == d * d,
            d == 0x1_0000_0000_0000_0000,
    ;
    vstd::arithmetic::div_mod::lemma_fundamental_div_mod_converse(
        h * two_pow_128() + l,
        d,
        q,
        l % d,
    );
    assert(l / d < d) by (nonlinear_arith)
        requires
            l < d * d,
            l == d * (l / d) + l % d,
            0 <= l % d,
            d > 0,
    ;
    assert(h * d + l / d < MANTISSA_BOUND) by (nonlinear_arith)
        requires
            h < 0x1_0000_0000,
            l / d < d,
            d == 0x1_0000_0000_0000_0000,
    ;
}

/// The token1-per-token0 ratio `(sqrt_price_x96 / 2^96)^2` of a pool from its
/// square-root price, a 160-bit fixed-point number with 96 fractional bits.
/// The division by `2^96` is done in steps of `2^32` before squaring: whole
/// steps on integers where the price is too wide for a decimal, the rest on
/// decimals.
pub fn sqrt_price_x96_to_ratio(sqrt_price_x96: Uint160) -> (r: Result<Dec, NumError>)
    ensures
        r == sqrt_ratio_spec(sqrt_price_x96.value()),
        r matches Ok(v) ==> v.wf(),
{
    let ghost s = sqrt_price_x96.value();
    let high = sqrt_price_x96.high;
    let low = sqrt_price_x96.low;
    let k: u32;
    let q: u128;
    let rem: u128;
    if high == 0 && low < MANTISSA_BOUND {
        k = 0;
        q = low;
        rem = 0;
    } else {
        proof {
            lemma_split_high(high as int, low as int);
        }
        k = 2;
        q = high as u128 * Q64 + low / Q64;
        rem = low % Q64;
    }
    assert(sqrt_split(s) == (k as nat, q as nat, rem as nat));
    let head = Dec { negative: false, mantissa: q, scale: 0 };
    let q32 = Dec { negative: false, mantissa: Q32, scale: 0 };
    let mut x = if rem == 0 {
        head
    } else {
        let unit = Dec { negative: false, mantissa: Q64, scale: 0 };
        let f = divide(Dec { negative: false, mantissa: rem, scale: 0 }, unit)?;
        add_decimals(head, f)?
    };
    assert(sqrt_head_spec(s) == Ok::<Dec, NumError>(x));
    if k == 0 {
        x = divide(x, q32)?;
        x = divide(x, q32)?;
    }
    x = divide(x, q32)?;
    multiply(x, x)
}

/// `ratio * 10^(decimals0 - decimals1)`: a raw token ratio in human units.
pub open spec fn adjustment_spec(ratio: Dec, decimals0: nat, decimals1: nat) -> Result<Dec, NumError> {
    let k = decimals0 - decimals1;
    if -28 <= k <= 28 {
        product_spec(ratio, pow10_spec(k))
    } else {
        Err(NumError::ScaleOutOfRange)
    }
}

/// Expresses a raw token1-per-token0 ratio in human-readable units.
pub fn apply_decimal_adjustment(ratio: Dec, decimals0: u8, decimals1: u8) -> (r: Result<Dec, NumError>)
    requires
        ratio.wf(),
    ensures
        r == adjustment_spec(ratio, decimals0 as nat, decimals1 as nat),
        r matches Ok(v) ==> v.wf(),
{
    let k: i32 = decimals0 as i32 - decimals1 as i32;
    let p = pow10(k)?;
    multiply(ratio, p)
}


/// `1 / x`, rounded to the decimal's precision.
pub fn invert(x: Dec) -> (r: Result<Dec, NumError>)
    requires
        x.wf(),
    ensures
        r == quotient_spec(Dec { negative: false, mantissa: 1, scale: 0 }, x),
        r matches Ok(v) ==> v.wf(),
{
    divide(Dec::one(), x)
}

/// The price of an oracle answer `answer / 10^decimals`, exact.
pub open spec fn oracle_price_spec(answer: int, decimals: nat) -> Dec {
    Dec::of_pair((answer, decimals))
}

/// The value `answer / 10^decimals` of a price oracle's answer. The answer
/// must fit a 96-bit mantissa and the decimals at most 28 digits.
pub fn oracle_price(answer: i128, decimals: u8) -> (r: Result<Dec, NumError>)
    ensures
        -MANTISSA_MAX <= answer <= MANTISSA_MAX && decimals <= MAX_SCALE ==> r == Ok::<
            Dec,
            NumError,
        >(oracle_price_spec(answer as int, decimals as nat)),
        !(-MANTISSA_MAX <= answer <= MANTISSA_MAX) ==> r == Err::<Dec, NumError>(
            NumError::Overflow,
        ),
        -MANTISSA_MAX <= answer <= MANTISSA_MAX && decimals > MAX_SCALE ==> r == Err::<
            Dec,
            NumError,
        >(NumError::ScaleOutOfRange),
        r matches Ok(v) ==> v.wf(),
{
    if answer < -MANTISSA_MAX || answer > MANTISSA_MAX {
        return Err(NumError::Overflow);
    }
    if decimals as u32 > MAX_SCALE {
        return Err(NumError::ScaleOutOfRange);
    }
    Ok(Dec::from_signed(answer, decimals as u32))
}

/// The price of a token in units of the pool's other asset: the pool ratio
/// adjusted by the two assets' decimals in pool order, inverted when the
/// token is the pool's second asset.
pub open spec fn price_in_pair_spec(
    sqrt_price_x96: nat,
    token_is_first: bool,
    token_decimals: nat,
    other_decimals: nat,
) -> Result<Dec, NumError> {
    {
        match sqrt_ratio_spec(sqrt_price_x96) {
            Ok(ratio) => {
                let adjusted = if token_is_first {
                    adjustment_spec(ratio, token_decimals, other_decimals)
                } else {
                    adjustment_spec(ratio, other_decimals, token_decimals)
                };
                match adjusted {
                    Ok(a) => if token_is_first {
                        Ok(a)
                    } else {
                        quotient_spec(Dec { negative: false, mantissa: 1, scale: 0 }, a)
                    },
                    Err(e) => Err(e),
                }
            },
            Err(e) => Err(e),
        }
    }
}

/// The price of a token in units of the other asset of its pool, from the
/// pool's square-root price and the order of the two assets in it.
pub fn price_in_pair(
    sqrt_price_x96: Uint160,
    token_is_first: bool,
    token_decimals: u8,
    other_decimals: u8,
) -> (r: Result<Dec, NumError>)
    ensures
        r == price_in_pair_spec(
            sqrt_price_x96.value(),
            token_is_first,
            token_decimals as nat,
            other_decimals as nat,
        ),
        r matches Ok(v) ==> v.wf(),
{
    let ratio = sqrt_price_x96_to_ratio(sqrt_price_x96)?;
    if token_is_first {
        apply_decimal_adjustment(ratio, token_decimals, other_decimals)
    } else {
        let adjusted = apply_decimal_adjustment(ratio, other_decimals, token_decimals)?;
        invert(adjusted)
    }
}

} // verus!
