//! Whole-number arithmetic that gives what double-precision arithmetic
//! gives.
//!
//! Sizes and shares are displayed as the tools that compute them in double
//! precision display them. Here the same results are had from whole
//! numbers alone: a count is first brought to 53 significant binary digits,
//! and every rounding goes to the nearest value, a tie to the even
//! neighbour.

use vstd::prelude::*;

verus! {

/// The largest number that the roundings of this module are asked for.
pub const ROUNDING_LIMIT: u128 = 0x3fff_ffff_ffff_ffff_ffff_ffff_ffff_ffff;

/// The first number of 53 binary digits.
pub const MANTISSA_FLOOR: u64 = 0x10_0000_0000_0000;

/// The first number that needs more than 53 binary digits.
pub const PRECISION_LIMIT: u64 = 0x20_0000_0000_0000;

/// `n / unit` rounded to the nearest whole number, a tie going to the even
/// neighbour.
pub open spec fn half_even(n: nat, unit: nat) -> nat {
    let q = n / unit;
    let r = n % unit;
    if 2 * r > unit || (2 * r == unit && q % 2 == 1) {
        q + 1
    } else {
        q
    }
}

/// The step between neighbouring numbers of 53 significant binary digits
/// around `n`: one up to [`PRECISION_LIMIT`], doubling with each further
/// binary digit of `n`.
pub open spec fn precision_step(n: nat) -> nat
    decreases n,
{
    if n < PRECISION_LIMIT {
        1
    } else {
        2 * precision_step(n / 2)
    }
}

/// `n` as a double-precision number holds it: rounded to 53 significant
/// binary digits, a tie going to the even neighbour.
pub open spec fn in_double_precision(n: nat) -> nat {
    half_even(n, precision_step(n)) * precision_step(n)
}

/// `n / unit` rounded to the nearest whole number, a tie going to the even
/// neighbour.
pub fn round_half_even(n: u128, unit: u128) -> (q: u128)
    requires
        unit > 0,
        n <= ROUNDING_LIMIT,
        unit <= ROUNDING_LIMIT,
    ensures
        q == half_even(n as nat, unit as nat),
        q <= n / unit + 1,
{
    let q = n / unit;
    let r = n % unit;
    if 2 * r > unit || (2 * r == unit && q % 2 == 1) {
        q + 1
    } else {
        q
    }
}

/// The step between neighbouring numbers of 53 significant binary digits
/// around `n`.
fn precision_step_of(n: u64) -> (unit: u64)
    ensures
        unit == precision_step(n as nat),
        1 <= unit < 4096,
{
    let mut unit: u64 = 1;
    let mut m: u64 = n;
    while m >= PRECISION_LIMIT
        invariant
            1 <= unit < 4096,
            m * unit <= n,
            precision_step(n as nat) == unit * precision_step(m as nat),
        decreases m,
    {
        assert(unit < 2048) by (nonlinear_arith)
            requires
                m >= 0x20_0000_0000_0000,
                m * unit <= n,
                n <= 0xffff_ffff_ffff_ffff,
        ;
        assert((m / 2) * (unit * 2) <= m * unit) by (nonlinear_arith);
        assert(unit * (2 * precision_step((m / 2) as nat)) == (unit * 2) * precision_step(
            (m / 2) as nat,
        )) by (nonlinear_arith);
        m = m / 2;
        unit = unit * 2;
    }
    assert(unit * precision_step(m as nat) == unit) by (nonlinear_arith)
        requires
            precision_step(m as nat) == 1,
    ;
    unit
}

/// `n` as a double-precision number holds it.
pub fn double_precision(n: u64) -> (v: u128)
    ensures
        v == in_double_precision(n as nat),
        v <= n + 4096,
{
    let unit = precision_step_of(n);
    let q = round_half_even(n as u128, unit as u128);
    assert(q * unit <= n + unit) by (nonlinear_arith)
        requires
            q <= (n as int) / (unit as int) + 1,
            unit >= 1,
            n >= 0,
    ;
    q * (unit as u128)
}

/// `num` doubled until it is no longer below `floor`.
pub open spec fn doubled_up_to(num: nat, floor: nat) -> nat
    decreases
        (if num < floor {
            floor - num
        } else {
            0
        }),
{
    if 0 < num < floor {
        doubled_up_to(2 * num, floor)
    } else {
        num
    }
}

/// `den` doubled until [`PRECISION_LIMIT`] times it exceeds `num`.
pub open spec fn doubled_beyond(den: nat, num: nat) -> nat
    decreases
        (if den < num {
            num - den
        } else {
            0
        }),
{
    if 0 < den && den * PRECISION_LIMIT <= num {
        doubled_beyond(2 * den, num)
    } else {
        den
    }
}

/// The share of `used` in `total`, in whole percent, as double-precision
/// arithmetic gives it: both counts are taken in double precision, their
/// ratio is rounded to 53 significant binary digits, so is a hundred times
/// that, and the result is rounded to a whole number; every rounding goes
/// to the nearest value, a tie to the even neighbour.
///
/// The ratio is brought to 53 digits by doubling its numerator or its
/// denominator, and that scaling is undone in the last rounding.
pub open spec fn percent_used(used: nat, total: nat) -> nat {
    let a = in_double_precision(used);
    let b = in_double_precision(total);
    if a == 0 || b == 0 {
        0
    } else {
        let num = doubled_up_to(a, (MANTISSA_FLOOR * b) as nat);
        let den = doubled_beyond(b, num);
        let hundredfold = in_double_precision(100 * half_even(num, den));
        half_even(hundredfold * (den / b), num / a)
    }
}

/// The share of `used` in `total`, in whole percent, as double-precision
/// arithmetic gives it.
pub fn percent_of(used: u64, total: u64) -> (percent: u128)
    ensures
        percent == percent_used(used as nat, total as nat),
{
    let a = double_precision(used);
    let b = double_precision(total);
    if a == 0 || b == 0 {
        return 0;
    }
    let floor: u128 = (MANTISSA_FLOOR as u128) * b;
    let mut num: u128 = a;
    let mut down: u128 = 1;
    while num < floor
        invariant
            0 < a <= 0xffff_ffff_ffff_ffff + 4096,
            0 < b <= 0xffff_ffff_ffff_ffff + 4096,
            floor == 0x10_0000_0000_0000 * b,
            down >= 1,
            num == a * down,
            num == a || num < 2 * floor,
            doubled_up_to(a as nat, floor as nat) == doubled_up_to(num as nat, floor as nat),
        decreases
            (if num < floor {
                floor - num
            } else {
                0
            }),
    {
        assert(a * (down * 2) == (a * down) * 2) by (nonlinear_arith);
        assert(down * 2 <= a * down * 2) by (nonlinear_arith)
            requires
                a >= 1,
                down >= 1,
        ;
        num = num * 2;
        down = down * 2;
    }
    let mut den: u128 = b;
    let mut up: u128 = 1;
    while den * (PRECISION_LIMIT as u128) <= num
        invariant
            0 < a <= 0xffff_ffff_ffff_ffff + 4096,
            0 < b <= 0xffff_ffff_ffff_ffff + 4096,
            num == a || num < 0x20_0000_0000_0000 * b,
            num < 0x80_0000_0000_0000_0000_0000_0000_0000,
            1 <= up <= 4096,
            den == b * up,
            up == 1 || (num == a && den * 0x10_0000_0000_0000 <= num),
            doubled_beyond(b as nat, num as nat) == doubled_beyond(den as nat, num as nat),
        decreases
            (if den < num {
                num - den
            } else {
                0
            }),
    {
        assert(b <= den) by (nonlinear_arith)
            requires
                den == b * up,
                up >= 1,
                b >= 1,
        ;
        assert(0x20_0000_0000_0000 * b <= den * 0x20_0000_0000_0000) by (nonlinear_arith)
            requires
                b <= den,
        ;
        assert(num == a);
        assert(den * 2 <= 4096) by (nonlinear_arith)
            requires
                den * 0x20_0000_0000_0000 <= num,
                num <= 0xffff_ffff_ffff_ffff + 4096,
        ;
        assert(up <= den) by (nonlinear_arith)
            requires
                den == b * up,
                up >= 1,
                b >= 1,
        ;
        assert(b * (up * 2) == (b * up) * 2) by (nonlinear_arith);
        den = den * 2;
        up = up * 2;
    }
    assert(num / den < 0x20_0000_0000_0000) by (nonlinear_arith)
        requires
            den * 0x20_0000_0000_0000 > num,
            den > 0,
    ;
    assert(den <= ROUNDING_LIMIT) by (nonlinear_arith)
        requires
            den == b * up,
            0 < b <= 0xffff_ffff_ffff_ffff + 4096,
            1 <= up <= 4096,
            ROUNDING_LIMIT == 0x3fff_ffff_ffff_ffff_ffff_ffff_ffff_ffff,
    ;
    let mantissa = round_half_even(num, den);
    let hundredfold = double_precision((100 * mantissa) as u64);
    assert((b * up) / (b as int) == up) by (nonlinear_arith)
        requires
            b > 0,
    ;
    assert((a * down) / (a as int) == down) by (nonlinear_arith)
        requires
            a > 0,
    ;
    assert(down <= num) by (nonlinear_arith)
        requires
            num == a * down,
            a >= 1,
            down >= 1,
    ;
    assert(hundredfold * up <= ROUNDING_LIMIT) by (nonlinear_arith)
        requires
            hundredfold <= 100 * 0x20_0000_0000_0000 + 4096,
            1 <= up <= 4096,
            ROUNDING_LIMIT == 0x3fff_ffff_ffff_ffff_ffff_ffff_ffff_ffff,
    ;
    round_half_even(hundredfold * up, down)
}

} // verus!
