//! Quotients in single precision: of 24 significant bits, each rounded to the closest such number,
//! and to the even one of two that are as close.
use vstd::prelude::*;

verus! {

/// The integer closest to `n / d`, and the even one of two that are as close.
pub open spec fn closest(n: int, d: int) -> int {
    let below = n / d;
    let rest = n % d;
    if 2 * rest < d || (2 * rest == d && below % 2 == 0) {
        below
    } else {
        below + 1
    }
}

/// The least of `unit` and its doubles of which fewer than 2^24 make up `n`, that is, what the last of
/// the 24 bits of `n` stands for.
pub open spec fn last_bit(n: int, unit: int) -> int
    decreases n - unit,
    when unit > 0
{
    if n < 0x100_0000 * unit {
        unit
    } else {
        last_bit(n, 2 * unit)
    }
}

/// `n` in single precision.
pub open spec fn single(n: int) -> int {
    closest(n, last_bit(n, 1)) * last_bit(n, 1)
}

/// The least of `scale` and its doubles that makes `n / d` at least 2^23, that is, a number of at least
/// 24 bits before the point.
pub open spec fn scale_up(n: int, d: int, scale: int) -> int
    decreases 0x100_0000 * d - scale,
    when n > 0 && scale > 0
    via scale_up_ends
{
    if n * scale >= 0x80_0000 * d {
        scale
    } else {
        scale_up(n, d, 2 * scale)
    }
}

#[via_fn]
proof fn scale_up_ends(n: int, d: int, scale: int) {
    assert(n * scale >= scale) by (nonlinear_arith)
        requires
            n > 0,
            scale > 0,
    ;
}

/// The quotient `n / d`, which is below 2^24, in single precision, rounded up to an integer.
pub open spec fn single_quotient_up(n: int, d: int) -> int {
    let scale = scale_up(n, d, 1);
    let bits = closest(n * scale, d);
    if bits % scale == 0 {
        bits / scale
    } else {
        bits / scale + 1
    }
}

/// The integer closest to `n / d`, and the even one of two that are as close.
fn round_to_closest(n: u128, d: u128) -> (r: u128)
    requires
        d > 0,
        n < u128::MAX,
        d <= 0x1_0000_0000_0000_0000_0000_0000,
    ensures
        r == closest(n as int, d as int),
        n >= d ==> r > 0,
{
    let below: u128 = n / d;
    let rest: u128 = n % d;
    proof {
        vstd::arithmetic::div_mod::lemma_div_is_ordered_by_denominator(n as int, 1, d as int);
        if n >= d {
            vstd::arithmetic::div_mod::lemma_div_non_zero(n as int, d as int);
        }
    }
    if 2 * rest < d || (2 * rest == d && below % 2 == 0) {
        below
    } else {
        below + 1
    }
}

/// `n` in single precision.
pub fn to_single(n: u64) -> (r: u128)
    ensures
        r == single(n as int),
        n > 0 ==> r > 0,
        r <= 2 * n,
        n <= 2 * r,
{
    let wide: u128 = n as u128;
    let mut unit: u128 = 1;
    while wide >= 0x100_0000 * unit
        invariant
            wide == n,
            0 < unit,
            unit == 1 || 0x80_0000 * unit <= wide,
            last_bit(n as int, unit as int) == last_bit(n as int, 1),
        decreases wide - unit,
    {
        unit = 2 * unit;
    }
    let bits: u128 = round_to_closest(wide, unit);
    proof {
        let below = n as int / unit as int;
        vstd::arithmetic::div_mod::lemma_fundamental_div_mod(n as int, unit as int);
        assert(below * unit <= n && (below + 1) * unit == below * unit + unit) by (nonlinear_arith)
            requires
                n == unit * below + n as int % unit as int,
                0 <= n as int % unit as int,
        ;
        assert(bits == below || bits == below + 1);
        if unit == 1 {
            assert(n as int % 1 == 0);
            assert(bits == n);
        }
        assert(0 < bits ==> 0 < bits * unit) by (nonlinear_arith)
            requires
                0 < unit,
                0 <= bits,
        ;
    }
    bits * unit
}

/// The quotient of `n` and `d` in single precision, rounded up to an integer.
pub fn quotient_up(n: u64, d: u64) -> (r: u64)
    requires
        0 < n,
        n <= 4096 * d,
    ensures
        r == single_quotient_up(single(n as int), single(d as int)),
        0 < r <= 0x100_0001,
{
    let a: u128 = to_single(n);
    let b: u128 = to_single(d);
    let mut scale: u128 = 1;
    while a * scale < 0x80_0000 * b
        invariant
            0 < a < 0x100_0000 * b,
            b <= 0x2_0000_0000_0000_0000,
            0 < scale,
            a * scale < 0x100_0000 * b,
            scale <= a * scale,
            scale_up(a as int, b as int, scale as int) == scale_up(a as int, b as int, 1),
        decreases 0x100_0000 * b - scale,
    {
        proof {
            assert(a * (2 * scale) == 2 * (a * scale)) by (nonlinear_arith);
        }
        scale = 2 * scale;
    }
    let bits: u128 = round_to_closest(a * scale, b);
    proof {
        let below = (a * scale) / b as int;
        vstd::arithmetic::div_mod::lemma_fundamental_div_mod(a * scale, b as int);
        assert(below < 0x100_0000) by (nonlinear_arith)
            requires
                a * scale < 0x100_0000 * b,
                b * below <= a * scale,
                0 < b,
        ;
        vstd::arithmetic::div_mod::lemma_fundamental_div_mod(bits as int, scale as int);
        vstd::arithmetic::div_mod::lemma_div_is_ordered_by_denominator(
            bits as int,
            1,
            scale as int,
        );
        if bits as int % scale as int == 0 {
            assert(bits as int / scale as int > 0) by (nonlinear_arith)
                requires
                    bits == scale * (bits as int / scale as int),
                    bits > 0,
                    scale > 0,
            ;
        }
    }
    let whole: u64 = (bits / scale) as u64;
    if bits % scale == 0 {
        whole
    } else {
        whole + 1
    }
}

} // verus!
