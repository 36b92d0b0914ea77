//! Fixed-point arithmetic on scaled integers.
//!
//! A value is a `u128` magnitude together with a number of decimal places.
//! Every operation computes the exact rational result and truncates it to the
//! requested number of places; a result that does not fit in `u128` is an
//! `Overflow` error and a zero divisor a `DivisionByZero` error.

use vstd::prelude::*;
use vstd::arithmetic::div_mod::*;
use vstd::arithmetic::mul::*;
use vstd::arithmetic::power2::*;

use crate::types::Error;

verus! {

/// Ten to the power `n`.
pub open spec fn pow10(n: nat) -> nat
    decreases n,
{
    if n == 0 {
        1
    } else {
        10 * pow10((n - 1) as nat)
    }
}

/// `v` as a `u128` when it fits, `Overflow` otherwise.
pub open spec fn checked(v: int) -> Result<u128, Error> {
    if 0 <= v <= u128::MAX {
        Ok(v as u128)
    } else {
        Err(Error::Overflow)
    }
}

/// `a / 10^da` times `b / 10^db`, truncated to `t` places and scaled by `10^t`.
pub open spec fn mul_trunc(a: int, da: nat, b: int, db: nat, t: nat) -> int {
    a * b * pow10(t) / (pow10(da + db) as int)
}

/// `a / 10^da` divided by `b / 10^db`, truncated to `t` places and scaled by `10^t`.
pub open spec fn div_trunc(a: int, da: nat, b: int, db: nat, t: nat) -> int {
    a * pow10(db + t) / (b * pow10(da))
}

/// Result of `mul_to`.
pub open spec fn mul_spec(a: u128, da: u32, b: u128, db: u32, t: u32) -> Result<u128, Error> {
    checked(mul_trunc(a as int, da as nat, b as int, db as nat, t as nat))
}

/// Result of `div_to`.
pub open spec fn div_spec(a: u128, da: u32, b: u128, db: u32, t: u32) -> Result<u128, Error> {
    if b == 0 {
        Err(Error::DivisionByZero)
    } else {
        checked(div_trunc(a as int, da as nat, b as int, db as nat, t as nat))
    }
}

/// A decimal `mantissa / 10^scale` read at `t` places; a value that is not
/// positive reads as zero.
pub open spec fn decimal_trunc(mantissa: int, scale: nat, t: nat) -> int {
    if mantissa <= 0 {
        0
    } else {
        mantissa * pow10(t) / (pow10(scale) as int)
    }
}

/// Result of `from_decimal`.
pub open spec fn from_decimal_spec(mantissa: i128, scale: u32, t: u32) -> Result<u128, Error> {
    checked(decimal_trunc(mantissa as int, scale as nat, t as nat))
}

pub proof fn lemma_pow10_positive(n: nat)
    ensures
        pow10(n) >= 1,
    decreases n,
{
    if n > 0 {
        lemma_pow10_positive((n - 1) as nat);
    }
}

pub proof fn lemma_pow10_add(a: nat, b: nat)
    ensures
        pow10(a + b) == pow10(a) * pow10(b),
    decreases a,
{
    if a > 0 {
        let am1 = (a - 1) as nat;
        lemma_pow10_add(am1, b);
        assert(pow10(a + b) == 10 * pow10(am1 + b));
        assert(pow10(a) == 10 * pow10(am1));
        let (x, y, z) = (pow10(a) as int, pow10(am1) as int, pow10(b) as int);
        assert(x * z == 10 * (y * z)) by (nonlinear_arith)
            requires
                x == 10 * y,
        ;
    } else {
        assert(pow10(a) == 1);
        let (x, z) = (pow10(a) as int, pow10(b) as int);
        assert(x * z == z) by (nonlinear_arith)
            requires
                x == 1,
        ;
    }
}

pub proof fn lemma_pow10_monotone(a: nat, b: nat)
    requires
        a <= b,
    ensures
        pow10(a) <= pow10(b),
    decreases b,
{
    if b > a {
        lemma_pow10_monotone(a, (b - 1) as nat);
    }
}

proof fn lemma_pow10_19()
    ensures
        pow10(19) == 10_000_000_000_000_000_000,
{
    reveal_with_fuel(pow10, 20);
}

/// `10^38` fits in a `u128` and `10^39` exceeds every `i128`.
pub proof fn lemma_pow10_limits()
    ensures
        pow10(38) == 100_000_000_000_000_000_000_000_000_000_000_000_000,
        pow10(38) <= u128::MAX,
        pow10(39) > i128::MAX,
{
    lemma_pow10_19();
    lemma_pow10_add(19, 19);
    lemma_pow10_add(19, 20);
    assert(pow10(20) == 10 * pow10(19));
}

/// `(x * c) / (c * d) == x / d`.
pub proof fn lemma_cancel(x: int, c: int, d: int)
    requires
        x >= 0,
        c > 0,
        d > 0,
    ensures
        (x * c) / (c * d) == x / d,
{
    lemma_mul_nonnegative(x, c);
    lemma_div_denominator(x * c, c, d);
    lemma_div_by_multiple(x, c);
}

/// `10^n` for `n <= 38`.
pub fn ten_pow(n: u32) -> (r: u128)
    requires
        n <= 38,
    ensures
        r == pow10(n as nat),
{
    let mut r: u128 = 1;
    let mut i: u32 = 0;
    while i < n
        invariant
            i <= n <= 38,
            r == pow10(i as nat),
        decreases n - i,
    {
        proof {
            lemma_pow10_monotone((i + 1) as nat, 38);
            lemma_pow10_limits();
        }
        r = r * 10;
        i = i + 1;
    }
    r
}

proof fn lemma_halve_prefix(a: int, p: int)
    requires
        a >= 0,
        p > 0,
    ensures
        a / p == 2 * (a / (2 * p)) + (a / p) % 2,
        a / p <= a,
{
    lemma_div_denominator(a, p, 2);
    lemma_fundamental_div_mod(a / p, 2);
    lemma_div_is_ordered_by_denominator(a, 1, p);
}

proof fn lemma_step(x: int, b: int, c: int, q: int, rem: int, bq: int, br: int, bit: int, r2: int, nr: int, c1: int, c2: int)
    requires
        x >= 0,
        b >= 0,
        c > 0,
        0 <= rem < c,
        q == x * b / c,
        rem == x * b % c,
        b == c * bq + br,
        (c1 == 0 && r2 == 2 * rem) || (c1 == 1 && r2 + c == 2 * rem),
        (bit == 0 && c2 == 0 && nr == r2) || (bit == 1 && c2 == 0 && nr == r2 + br) || (bit == 1
            && c2 == 1 && nr + c == r2 + br),
        0 <= nr < c,
    ensures
        bit == 0 ==> (2 * x + bit) * b / c == 2 * q + c1,
        bit == 1 ==> (2 * x + bit) * b / c == 2 * q + c1 + bq + c2,
        (2 * x + bit) * b % c == nr,
{
    lemma_fundamental_div_mod(x * b, c);
    let nq = 2 * q + c1 + bit * (bq + c2);
    assert((2 * x + bit) * b == nq * c + nr) by (nonlinear_arith)
        requires
            x * b == c * q + rem,
            b == c * bq + br,
            (c1 == 0 && r2 == 2 * rem) || (c1 == 1 && r2 + c == 2 * rem),
            (bit == 0 && c2 == 0 && nr == r2) || (bit == 1 && c2 == 0 && nr == r2 + br) || (bit == 1
                && c2 == 1 && nr + c == r2 + br),
            nq == 2 * q + c1 + bit * (bq + c2),
    ;
    lemma_fundamental_div_mod_converse((2 * x + bit) * b, c, nq, nr);
}

/// `floor(a * b / c)`, computed without an intermediate overflow; `None` when
/// the result exceeds `u128::MAX`.
pub fn mul_div(a: u128, b: u128, c: u128) -> (r: Option<u128>)
    requires
        c > 0,
    ensures
        r matches Some(v) ==> v == (a as int) * (b as int) / (c as int),
        r is None ==> (a as int) * (b as int) / (c as int) > u128::MAX,
{
    let bq = b / c;
    let br = b % c;
    proof {
        lemma_fundamental_div_mod(b as int, c as int);
        lemma2_to64();
        lemma2_to64_rest();
        lemma_pow2_adds(63, 64);
        lemma_pow2_adds(64, 64);
        lemma_basic_div(a as int, pow2(128) as int);
        assert(pow2(127) == 0x8000_0000_0000_0000_0000_0000_0000_0000);
        assert(2 * pow2(127) == pow2(128));
    }
    let mut q: u128 = 0;
    let mut rem: u128 = 0;
    let mut p: u128 = 0x8000_0000_0000_0000_0000_0000_0000_0000;
    let mut i: u32 = 0;
    let ghost mut x: int = 0;
    while i < 128
        invariant
            b as int == (c as int) * (bq as int) + br,
            0 <= br < c,
            i <= 128,
            i < 128 ==> p == pow2((127 - i) as nat),
            i < 128 ==> x == (a as int) / (2 * (p as int)),
            i == 128 ==> x == a,
            0 <= x <= a,
            q == x * (b as int) / (c as int),
            rem == x * (b as int) % (c as int),
            rem < c,
        decreases 128 - i,
    {
        proof {
            lemma_pow2_pos((127 - i) as nat);
            lemma_halve_prefix(a as int, p as int);
        }
        let bit: u128 = (a / p) % 2;
        let ghost nx: int = 2 * x + bit as int;
        let mut c1: u128 = 0;
        let mut r2: u128;
        if rem >= c - rem {
            r2 = rem - (c - rem);
            c1 = 1;
        } else {
            r2 = rem + rem;
        }
        let mut c2: u128 = 0;
        let mut nr: u128 = r2;
        if bit == 1 {
            if r2 >= c - br {
                nr = r2 - (c - br);
                c2 = 1;
            } else {
                nr = r2 + br;
            }
        }
        proof {
            lemma_step(x, b as int, c as int, q as int, rem as int, bq as int, br as int, bit as int,
                r2 as int, nr as int, c1 as int, c2 as int);
            lemma_mul_inequality(nx, a as int, b as int);
            lemma_div_is_ordered(nx * (b as int), (a as int) * (b as int), c as int);
        }
        if q > (u128::MAX - c1) / 2 {
            return None;
        }
        let mut nq: u128 = q + q + c1;
        if bit == 1 {
            if nq > u128::MAX - bq || nq + bq > u128::MAX - c2 {
                return None;
            }
            nq = nq + bq + c2;
        }
        q = nq;
        rem = nr;
        proof {
            x = nx;
            if i + 1 == 128 {
                lemma2_to64();
                assert((a as int) / 1 == a as int);
            }
            if i + 1 < 128 {
                lemma_pow2_unfold((127 - i) as nat);
            }
        }
        p = p / 2;
        i = i + 1;
    }
    Some(q)
}

proof fn lemma_scale_up(x: int, k: nat, d: nat)
    requires
        x >= 0,
    ensures
        x * pow10(k + d) / (pow10(d) as int) == x * pow10(k),
        x * pow10(k) >= x,
{
    lemma_pow10_add(k, d);
    lemma_pow10_positive(d);
    lemma_pow10_positive(k);
    let (pk, pd) = (pow10(k) as int, pow10(d) as int);
    assert(x * (pk * pd) == (x * pk) * pd) by (nonlinear_arith);
    assert(x * pk >= x) by (nonlinear_arith)
        requires
            x >= 0,
            pk >= 1,
    ;
    lemma_mul_nonnegative(x, pk);
    lemma_div_by_multiple(x * pk, pd);
}

proof fn lemma_scale_down(x: int, t: nat, k: nat)
    requires
        x >= 0,
    ensures
        x * pow10(t) / (pow10(t + k) as int) == x / (pow10(k) as int),
{
    lemma_pow10_add(t, k);
    lemma_pow10_positive(t);
    lemma_pow10_positive(k);
    lemma_cancel(x, pow10(t) as int, pow10(k) as int);
}

/// `a / 10^da` times `b / 10^db` at `t` places.
pub fn mul_to(a: u128, da: u32, b: u128, db: u32, t: u32) -> (r: Result<u128, Error>)
    requires
        t <= 38,
        da + db <= t + 38,
    ensures
        r == mul_spec(a, da, b, db, t),
{
    let ghost ab = (a as int) * (b as int);
    proof {
        lemma_mul_nonnegative(a as int, b as int);
    }
    if t >= da + db {
        let k = t - da - db;
        let m = ten_pow(k);
        proof {
            lemma_scale_up(ab, k as nat, (da + db) as nat);
            assert((k + (da + db)) as nat == t as nat);
        }
        match mul_div(a, b, 1) {
            None => {
                proof {
                    assert(ab / 1 == ab);
                }
                Err(Error::Overflow)
            },
            Some(v) => {
                proof {
                    assert(ab / 1 == ab);
                }
                match v.checked_mul(m) {
                    None => Err(Error::Overflow),
                    Some(w) => Ok(w),
                }
            },
        }
    } else {
        let k = da + db - t;
        let d = ten_pow(k);
        proof {
            lemma_scale_down(ab, t as nat, k as nat);
            assert((t + k) as nat == (da + db) as nat);
            lemma_pow10_positive(k as nat);
        }
        match mul_div(a, b, d) {
            None => Err(Error::Overflow),
            Some(v) => Ok(v),
        }
    }
}

/// `a / 10^da` divided by `b / 10^db` at `t` places.
pub fn div_to(a: u128, da: u32, b: u128, db: u32, t: u32) -> (r: Result<u128, Error>)
    requires
        da <= 38,
        da <= db + t,
        db + t <= da + 38,
    ensures
        r == div_spec(a, da, b, db, t),
{
    if b == 0 {
        return Err(Error::DivisionByZero);
    }
    let e = db + t - da;
    let m = ten_pow(e);
    proof {
        let (pe, pda) = (pow10(e as nat) as int, pow10(da as nat) as int);
        lemma_pow10_add(e as nat, da as nat);
        assert((e + da) as nat == (db + t) as nat);
        lemma_pow10_positive(da as nat);
        lemma_mul_nonnegative(a as int, pe);
        lemma_cancel((a as int) * pe, pda, b as int);
        assert((a as int) * (pe * pda) == ((a as int) * pe) * pda) by (nonlinear_arith);
        assert((b as int) * pda == pda * (b as int)) by (nonlinear_arith);
    }
    match mul_div(a, m, b) {
        None => Err(Error::Overflow),
        Some(v) => Ok(v),
    }
}

/// The decimal `mantissa / 10^scale` at `t` places; a value that is not
/// positive gives zero.
pub fn from_decimal(mantissa: i128, scale: u32, t: u32) -> (r: Result<u128, Error>)
    requires
        t <= 38,
    ensures
        r == from_decimal_spec(mantissa, scale, t),
{
    if mantissa <= 0 {
        return Ok(0);
    }
    let m = mantissa as u128;
    if t >= scale {
        let k = t - scale;
        proof {
            lemma_scale_up(m as int, k as nat, scale as nat);
            assert((k + scale) as nat == t as nat);
        }
        match m.checked_mul(ten_pow(k)) {
            None => Err(Error::Overflow),
            Some(v) => Ok(v),
        }
    } else {
        let k = scale - t;
        proof {
            lemma_scale_down(m as int, t as nat, k as nat);
            assert((t + k) as nat == scale as nat);
            lemma_pow10_positive(k as nat);
        }
        if k > 38 {
            proof {
                lemma_pow10_limits();
                lemma_pow10_monotone(39, k as nat);
                lemma_basic_div(m as int, pow10(k as nat) as int);
            }
            Ok(0)
        } else {
            Ok(m / ten_pow(k))
        }
    }
}

/// Result of `mul_decimal`: `a` times the decimal `mantissa / 10^scale`,
/// truncated to an integer. A decimal with more than 38 places is out of range.
pub open spec fn mul_decimal_spec(a: u128, mantissa: i128, scale: u32) -> Result<u128, Error> {
    if mantissa <= 0 {
        Ok(0)
    } else if scale > 38 {
        Err(Error::Overflow)
    } else {
        checked((a as int) * (mantissa as int) / (pow10(scale as nat) as int))
    }
}

/// `a` times the decimal `mantissa / 10^scale`, truncated; a value that is not
/// positive gives zero.
pub fn mul_decimal(a: u128, mantissa: i128, scale: u32) -> (r: Result<u128, Error>)
    ensures
        r == mul_decimal_spec(a, mantissa, scale),
{
    if mantissa <= 0 {
        return Ok(0);
    }
    if scale > 38 {
        return Err(Error::Overflow);
    }
    let d = ten_pow(scale);
    proof {
        lemma_pow10_positive(scale as nat);
    }
    match mul_div(a, mantissa as u128, d) {
        None => Err(Error::Overflow),
        Some(v) => Ok(v),
    }
}

/// `a + b` as a `u128`, or `Overflow`.
pub open spec fn add_spec(a: u128, b: u128) -> Result<u128, Error> {
    checked(a + b)
}

/// `a + b`, or `Overflow`.
pub fn add_checked(a: u128, b: u128) -> (r: Result<u128, Error>)
    ensures
        r == add_spec(a, b),
{
    if a > u128::MAX - b {
        Err(Error::Overflow)
    } else {
        Ok(a + b)
    }
}

/// Result of `div_capped`: the quotient of `div_to`, but never above `cap`,
/// so that a quotient too large for a `u128` gives `cap`.
pub open spec fn div_capped_spec(a: u128, da: u32, b: u128, db: u32, t: u32, cap: u128) -> Result<u128, Error> {
    if b == 0 {
        Err(Error::DivisionByZero)
    } else {
        let q = div_trunc(a as int, da as nat, b as int, db as nat, t as nat);
        Ok(
            if q > cap {
                cap
            } else {
                q as u128
            },
        )
    }
}

/// `a / 10^da` divided by `b / 10^db` at `t` places, at most `cap`.
pub fn div_capped(a: u128, da: u32, b: u128, db: u32, t: u32, cap: u128) -> (r: Result<u128, Error>)
    requires
        da <= 38,
        da <= db + t,
        db + t <= da + 38,
    ensures
        r == div_capped_spec(a, da, b, db, t, cap),
{
    if b != 0 {
        proof {
            lemma_pow10_positive((db + t) as nat);
            lemma_pow10_positive(da as nat);
            let n = (a as int) * pow10((db + t) as nat);
            let d = (b as int) * pow10(da as nat);
            lemma_mul_nonnegative(a as int, pow10((db + t) as nat) as int);
            assert(d > 0) by (nonlinear_arith)
                requires
                    b > 0,
                    pow10(da as nat) >= 1,
                    d == (b as int) * pow10(da as nat),
            ;
            lemma_div_pos_is_pos(n, d);
        }
    }
    match div_to(a, da, b, db, t) {
        Err(Error::DivisionByZero) => Err(Error::DivisionByZero),
        Err(_) => Ok(cap),
        Ok(q) => Ok(
            if q > cap {
                cap
            } else {
                q
            },
        ),
    }
}

} // verus!
