//! Integer arithmetic helpers: truncated division and piecewise-linear
//! interpolation over fixed-point amounts.

use vstd::prelude::*;

verus! {

/// Signed division truncating toward zero (the quotient of the magnitudes,
/// with the sign of the exact quotient).
pub open spec fn div_trunc(a: int, b: int) -> int
    recommends
        b != 0,
{
    let aa = if a < 0 { -a } else { a };
    let bb = if b < 0 { -b } else { b };
    let q = aa / bb;
    if (a < 0) != (b < 0) {
        -q
    } else {
        q
    }
}

/// Linear interpolation of `x` between `(lo, flo)` and `(hi, fhi)`,
/// clamped to the band's end values outside `[lo, hi]` and rounded
/// toward `flo`.
pub open spec fn interp(x: int, lo: int, hi: int, flo: int, fhi: int) -> int {
    if x <= lo {
        flo
    } else if x >= hi {
        fhi
    } else if fhi >= flo {
        flo + ((fhi - flo) * (x - lo)) / (hi - lo)
    } else {
        flo - ((flo - fhi) * (x - lo)) / (hi - lo)
    }
}

/// The interpolated value never leaves the band spanned by its end values.
pub proof fn lemma_interp_in_band(x: int, lo: int, hi: int, flo: int, fhi: int)
    ensures
        flo <= fhi ==> flo <= interp(x, lo, hi, flo, fhi) <= fhi,
        fhi <= flo ==> fhi <= interp(x, lo, hi, flo, fhi) <= flo,
{
    if lo < x < hi {
        let den = hi - lo;
        let dx = x - lo;
        if fhi >= flo {
            let df = fhi - flo;
            lemma_scaled_fraction_bounds(df, dx, den);
        } else {
            let df = flo - fhi;
            lemma_scaled_fraction_bounds(df, dx, den);
        }
    }
}

/// For `0 <= dx <= den` and `df >= 0`: `0 <= df*dx/den <= df`.
proof fn lemma_scaled_fraction_bounds(df: int, dx: int, den: int)
    requires
        df >= 0,
        den >= 1,
        0 <= dx <= den,
    ensures
        0 <= (df * dx) / den <= df,
{
    vstd::arithmetic::mul::lemma_mul_nonnegative(df, dx);
    vstd::arithmetic::div_mod::lemma_div_pos_is_pos(df * dx, den);
    vstd::arithmetic::mul::lemma_mul_inequality(dx, den, df);
    vstd::arithmetic::mul::lemma_mul_is_commutative(dx, df);
    vstd::arithmetic::mul::lemma_mul_is_commutative(den, df);
    vstd::arithmetic::div_mod::lemma_div_is_ordered(df * dx, df * den, den);
    vstd::arithmetic::div_mod::lemma_div_by_multiple(df, den);
}

/// Within one band, interpolation is monotone in the driving value:
/// non-decreasing when the end values rise and non-increasing when they
/// fall.
pub proof fn lemma_interp_monotone(x1: int, x2: int, lo: int, hi: int, flo: int, fhi: int)
    requires
        x1 <= x2,
        lo < hi,
    ensures
        flo <= fhi ==> interp(x1, lo, hi, flo, fhi) <= interp(x2, lo, hi, flo, fhi),
        fhi <= flo ==> interp(x2, lo, hi, flo, fhi) <= interp(x1, lo, hi, flo, fhi),
{
    lemma_interp_in_band(x1, lo, hi, flo, fhi);
    lemma_interp_in_band(x2, lo, hi, flo, fhi);
    let den = hi - lo;
    if lo < x1 < hi && lo < x2 < hi {
        if fhi >= flo {
            let df = fhi - flo;
            vstd::arithmetic::mul::lemma_mul_inequality(x1 - lo, x2 - lo, df);
            vstd::arithmetic::mul::lemma_mul_is_commutative(x1 - lo, df);
            vstd::arithmetic::mul::lemma_mul_is_commutative(x2 - lo, df);
            vstd::arithmetic::div_mod::lemma_div_is_ordered(
                df * (x1 - lo),
                df * (x2 - lo),
                den,
            );
        } else {
            let df = flo - fhi;
            vstd::arithmetic::mul::lemma_mul_inequality(x1 - lo, x2 - lo, df);
            vstd::arithmetic::mul::lemma_mul_is_commutative(x1 - lo, df);
            vstd::arithmetic::mul::lemma_mul_is_commutative(x2 - lo, df);
            vstd::arithmetic::div_mod::lemma_div_is_ordered(
                df * (x1 - lo),
                df * (x2 - lo),
                den,
            );
        }
    }
}

/// A sub-unit scaled ratio of a non-negative amount stays within the
/// amount.
pub proof fn lemma_scaled_ratio_bounds(p: int, m: int)
    requires
        0 <= p <= crate::RATIO_SCALE,
        m >= 0,
    ensures
        0 <= (p * m) / (crate::RATIO_SCALE as int) <= m,
{
    lemma_scaled_fraction_bounds(m, p, crate::RATIO_SCALE as int);
    vstd::arithmetic::mul::lemma_mul_is_commutative(p, m);
}

/// Truncated signed division on machine integers.
pub fn div_trunc_i64(a: i64, b: i64) -> (r: i64)
    requires
        b != 0,
        !(a == i64::MIN && b == -1),
    ensures
        r == div_trunc(a as int, b as int),
{
    let wa = a as i128;
    let wb = b as i128;
    let ua: u128 = if wa < 0 { (-wa) as u128 } else { wa as u128 };
    let ub: u128 = if wb < 0 { (-wb) as u128 } else { wb as u128 };
    let q: u128 = ua / ub;
    proof {
        vstd::arithmetic::div_mod::lemma_div_pos_is_pos(ua as int, ub as int);
        vstd::arithmetic::div_mod::lemma_div_is_ordered_by_denominator(ua as int, 1, ub as int);
        vstd::arithmetic::div_mod::lemma_div_basics(ua as int);
        if ub >= 2 {
            vstd::arithmetic::div_mod::lemma_div_is_ordered_by_denominator(
                ua as int,
                2,
                ub as int,
            );
        }
    }
    if (a < 0) != (b < 0) {
        (-(q as i128)) as i64
    } else {
        q as i64
    }
}

/// Truncated division of a wide intermediate by a positive divisor.
pub fn div_trunc_i128(a: i128, b: i128) -> (r: i128)
    requires
        b >= 1,
        a > i128::MIN,
    ensures
        r == div_trunc(a as int, b as int),
        (if r < 0 { -(r as int) } else { r as int }) == (if a < 0 { -(a as int) } else {
            a as int
        }) / (b as int),
{
    let ua: u128 = if a < 0 { (-a) as u128 } else { a as u128 };
    let q: u128 = ua / (b as u128);
    proof {
        vstd::arithmetic::div_mod::lemma_div_pos_is_pos(ua as int, b as int);
        vstd::arithmetic::div_mod::lemma_div_is_ordered_by_denominator(ua as int, 1, b as int);
        vstd::arithmetic::div_mod::lemma_div_basics(ua as int);
    }
    if a < 0 {
        -(q as i128)
    } else {
        q as i128
    }
}

/// Truncated division of a machine integer by a positive count.
pub fn div_trunc_i64_by_usize(a: i64, n: usize) -> (r: i64)
    requires
        n >= 1,
    ensures
        r == div_trunc(a as int, n as int),
{
    let wa = a as i128;
    let ua: u128 = if wa < 0 { (-wa) as u128 } else { wa as u128 };
    let q: u128 = ua / (n as u128);
    proof {
        vstd::arithmetic::div_mod::lemma_div_pos_is_pos(ua as int, n as int);
        vstd::arithmetic::div_mod::lemma_div_is_ordered_by_denominator(ua as int, 1, n as int);
        vstd::arithmetic::div_mod::lemma_div_basics(ua as int);
    }
    if a < 0 {
        (-(q as i128)) as i64
    } else {
        q as i64
    }
}

/// Linear interpolation on machine integers, exactly [`interp`].
pub fn interpolate(x: i64, lo: i64, hi: i64, flo: i64, fhi: i64) -> (r: i64)
    ensures
        r == interp(x as int, lo as int, hi as int, flo as int, fhi as int),
{
    if x <= lo {
        return flo;
    }
    if x >= hi {
        return fhi;
    }
    let den: u128 = ((hi as i128) - (lo as i128)) as u128;
    let dx: u128 = ((x as i128) - (lo as i128)) as u128;
    proof {
        assert(den <= u64::MAX);
        assert(dx < den);
    }
    if fhi >= flo {
        let df: u128 = ((fhi as i128) - (flo as i128)) as u128;
        proof {
            assert(df <= u64::MAX);
            vstd::arithmetic::mul::lemma_mul_upper_bound(
                df as int,
                u64::MAX as int,
                dx as int,
                u64::MAX as int,
            );
            vstd::arithmetic::mul::lemma_mul_nonnegative(df as int, dx as int);
        }
        let q: u128 = (df * dx) / den;
        proof {
            lemma_scaled_fraction_bounds(df as int, dx as int, den as int);
        }
        ((flo as i128) + (q as i128)) as i64
    } else {
        let df: u128 = ((flo as i128) - (fhi as i128)) as u128;
        proof {
            assert(df <= u64::MAX);
            vstd::arithmetic::mul::lemma_mul_upper_bound(
                df as int,
                u64::MAX as int,
                dx as int,
                u64::MAX as int,
            );
            vstd::arithmetic::mul::lemma_mul_nonnegative(df as int, dx as int);
        }
        let q: u128 = (df * dx) / den;
        proof {
            lemma_scaled_fraction_bounds(df as int, dx as int, den as int);
        }
        ((flo as i128) - (q as i128)) as i64
    }
}

} // verus!
