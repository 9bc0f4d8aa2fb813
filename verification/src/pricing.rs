//! The automated-market-maker pricing curve, evaluated in fixed-point integer
//! arithmetic so that every replica computes bit-identical prices.
//!
//! The curve is `price = base_price * (total_shares / total_liquidity) ^ e`,
//! clamped to a floor of `base_price`, where the exponent `e` is restricted to
//! halves and counted in half-steps (`3` half-steps means `e = 1.5`). Powers
//! are taken by repeated fixed-point multiplication and the final half-step by
//! an integer square root; every division rounds down.

use vstd::prelude::*;

use crate::contract::ContractError;
use crate::state::MAX_BASE_PRICE;

verus! {

/// Fixed-point scale: prices carry three fractional decimal digits.
pub const PRICE_SCALE: u64 = 1000;

/// The share/liquidity ratio in fixed-point units (rounded down).
pub open spec fn ratio_fp(shares: int, liq: int) -> int {
    shares * PRICE_SCALE / liq
}

/// `PRICE_SCALE * (r / PRICE_SCALE) ^ k` computed by `k` fixed-point
/// multiplications, each rounded down; `r` is a ratio in fixed-point units.
pub open spec fn pow_fp(r: int, k: nat) -> int
    decreases k,
{
    if k == 0 {
        PRICE_SCALE as int
    } else {
        pow_fp(r, (k - 1) as nat) * r / (PRICE_SCALE as int)
    }
}

/// Every intermediate product of the fixed-point power fits in `u128`.
pub open spec fn pow_fp_fits(r: int, k: nat) -> bool
    decreases k,
{
    k == 0 || (pow_fp_fits(r, (k - 1) as nat) && pow_fp(r, (k - 1) as nat) * r <= u128::MAX)
}

/// `r` is the integer square root of `x`.
pub open spec fn is_sqrt(r: int, x: int) -> bool {
    r >= 0 && r * r <= x && (r + 1) * (r + 1) > x
}

/// The integer square root (rounded down) of a non-negative `x`.
pub open spec fn sqrt_of(x: int) -> int {
    choose|r: int| is_sqrt(r, x)
}

pub proof fn lemma_sqrt_unique(a: int, b: int, x: int)
    requires
        is_sqrt(a, x),
        is_sqrt(b, x),
    ensures
        a == b,
{
    if a < b {
        assert((a + 1) * (a + 1) <= b * b) by (nonlinear_arith)
            requires
                0 <= a,
                a < b,
        ;
    }
    if b < a {
        assert((b + 1) * (b + 1) <= a * a) by (nonlinear_arith)
            requires
                0 <= b,
                b < a,
        ;
    }
}

/// The curve factor `PRICE_SCALE * (shares/liq) ^ (k/2)`, as the fixed-point
/// power of the full steps followed by one square root for the half steps.
pub open spec fn curve_factor_fp(shares: int, liq: int, k: nat) -> int {
    sqrt_of(pow_fp(ratio_fp(shares, liq), k) * PRICE_SCALE)
}

/// The price of one share in fixed-point units: the curve price clamped to a
/// floor of `base`, or exactly `base` while the market holds no liquidity.
pub open spec fn curve_price_fp(base: int, shares: int, liq: int, k: nat) -> int {
    if liq == 0 {
        base * PRICE_SCALE
    } else {
        let unclamped = base * curve_factor_fp(shares, liq, k);
        if unclamped < base * PRICE_SCALE {
            base * PRICE_SCALE
        } else {
            unclamped
        }
    }
}

/// Every intermediate of the exec price computation fits its machine type.
pub open spec fn price_fits(base: int, shares: int, liq: int, k: nat) -> bool {
    liq == 0 || {
        let r = ratio_fp(shares, liq);
        &&& pow_fp_fits(r, k)
        &&& pow_fp(r, k) * PRICE_SCALE <= u128::MAX
        &&& base * sqrt_of(pow_fp(r, k) * PRICE_SCALE) <= u64::MAX
    }
}

/// Integer square root by binary search.
fn isqrt_u128(x: u128) -> (r: u128)
    ensures
        is_sqrt(r as int, x as int),
        r as int == sqrt_of(x as int),
{
    let mut lo: u128 = 0;
    let mut hi: u128 = 0x1_0000_0000_0000_0000u128;
    assert(hi * hi > x) by (nonlinear_arith)
        requires
            hi == 0x1_0000_0000_0000_0000u128,
            x <= u128::MAX,
    ;
    while hi - lo > 1
        invariant
            lo < hi <= 0x1_0000_0000_0000_0000u128,
            lo * lo <= x,
            hi * hi > x,
        decreases hi - lo,
    {
        let mid = lo + (hi - lo) / 2;
        assert(mid * mid < u128::MAX) by (nonlinear_arith)
            requires
                mid < 0x1_0000_0000_0000_0000u128,
        ;
        if mid * mid <= x {
            lo = mid;
        } else {
            hi = mid;
        }
    }
    proof {
        assert(is_sqrt(lo as int, x as int));
        lemma_sqrt_unique(lo as int, sqrt_of(x as int), x as int);
    }
    lo
}

/// The price of one share of an outcome with `total_shares` issued, in a
/// market holding `total_liquidity`, in fixed-point units scaled by
/// [`PRICE_SCALE`]. Arithmetic is checked: any intermediate that does not fit
/// is reported as `ArithmeticOverflow`, never wrapped or saturated.
pub fn price_per_share_fp(
    base_price: u64,
    total_shares: u64,
    total_liquidity: u64,
    half_steps: u64,
) -> (r: Result<u64, ContractError>)
    requires
        1 <= base_price <= MAX_BASE_PRICE,
    ensures
        price_fits(base_price as int, total_shares as int, total_liquidity as int,
        half_steps as nat) ==> (r matches Ok(p) && p as int == curve_price_fp(
            base_price as int,
            total_shares as int,
            total_liquidity as int,
            half_steps as nat,
        )),
        !price_fits(base_price as int, total_shares as int, total_liquidity as int,
        half_steps as nat) ==> r == Err::<u64, ContractError>(ContractError::ArithmeticOverflow),
        r matches Ok(p) ==> p >= base_price * PRICE_SCALE,
{
    let base = base_price as u128;
    if total_liquidity == 0 {
        let p = base * (PRICE_SCALE as u128);
        assert(p <= u64::MAX) by (nonlinear_arith)
            requires
                base <= MAX_BASE_PRICE,
                p == base * PRICE_SCALE,
        ;
        return Ok(p as u64);
    }
    let shares = total_shares as u128;
    let liq = total_liquidity as u128;
    assert(shares * (PRICE_SCALE as u128) <= u128::MAX) by (nonlinear_arith)
        requires
            shares <= 0xFFFF_FFFF_FFFF_FFFFu128,
    ;
    let r_fp = shares * (PRICE_SCALE as u128) / liq;
    assert(r_fp as int == ratio_fp(total_shares as int, total_liquidity as int));
    let ghost rg = r_fp as int;
    let mut acc: u128 = PRICE_SCALE as u128;
    let mut i: u64 = 0;
    while i < half_steps
        invariant
            0 <= i <= half_steps,
            acc as int == pow_fp(rg, i as nat),
            pow_fp_fits(rg, i as nat),
            rg == r_fp as int,
            rg == ratio_fp(total_shares as int, total_liquidity as int),
            total_liquidity != 0,
        decreases half_steps - i,
    {
        if r_fp != 0 && acc > u128::MAX / r_fp {
            proof {
                lemma_mul_div_bound(acc as int, r_fp as int, u128::MAX as int);
                lemma_pow_fp_unfits(rg, half_steps as nat, (i + 1) as nat);
            }
            return Err(ContractError::ArithmeticOverflow);
        }
        proof {
            if r_fp != 0 {
                lemma_mul_div_bound(acc as int, r_fp as int, u128::MAX as int);
            }
            assert(acc * r_fp <= u128::MAX);
        }
        acc = (acc * r_fp) / (PRICE_SCALE as u128);
        i = i + 1;
    }
    if acc > u128::MAX / (PRICE_SCALE as u128) {
        proof {
            lemma_mul_div_bound(acc as int, PRICE_SCALE as int, u128::MAX as int);
        }
        return Err(ContractError::ArithmeticOverflow);
    }
    proof {
        lemma_mul_div_bound(acc as int, PRICE_SCALE as int, u128::MAX as int);
    }
    let under_root = acc * (PRICE_SCALE as u128);
    let factor = isqrt_u128(under_root);
    assert(base * factor <= u128::MAX) by (nonlinear_arith)
        requires
            base <= MAX_BASE_PRICE,
            factor * factor <= u128::MAX,
            factor >= 0,
            base >= 0,
    ;
    let unclamped = base * factor;
    if unclamped > u64::MAX as u128 {
        return Err(ContractError::ArithmeticOverflow);
    }
    let floor = base * (PRICE_SCALE as u128);
    assert(floor <= u64::MAX) by (nonlinear_arith)
        requires
            base <= MAX_BASE_PRICE,
            floor == base * PRICE_SCALE,
    ;
    if unclamped < floor {
        Ok(floor as u64)
    } else {
        Ok(unclamped as u64)
    }
}

/// For positive `b`: `a * b <= m` exactly when `a <= m / b`.
pub proof fn lemma_mul_div_bound(a: int, b: int, m: int)
    requires
        a >= 0,
        b > 0,
        m >= 0,
    ensures
        a * b <= m <==> a <= m / b,
{
    assert(m == (m / b) * b + m % b) by (nonlinear_arith)
        requires
            b > 0,
    ;
    if a <= m / b {
        assert(a * b <= (m / b) * b) by (nonlinear_arith)
            requires
                a <= m / b,
                b > 0,
        ;
        assert((m / b) * b <= m) by (nonlinear_arith)
            requires
                b > 0,
                m >= 0,
                m == (m / b) * b + m % b,
        ;
    }
    if a * b <= m {
        assert(a <= m / b) by (nonlinear_arith)
            requires
                a * b <= m,
                b > 0,
                a >= 0,
                m == (m / b) * b + m % b,
                m % b < b,
        ;
    }
}

/// Every non-negative integer has an integer square root.
pub proof fn lemma_sqrt_exists(x: int)
    requires
        x >= 0,
    ensures
        is_sqrt(sqrt_of(x), x),
    decreases x,
{
    if x == 0 {
        assert(is_sqrt(0, 0));
    } else {
        lemma_sqrt_exists(x - 1);
        let r0 = sqrt_of(x - 1);
        if (r0 + 1) * (r0 + 1) <= x {
            assert((r0 + 2) * (r0 + 2) > x) by (nonlinear_arith)
                requires
                    r0 >= 0,
                    (r0 + 1) * (r0 + 1) > x - 1,
            ;
            assert(is_sqrt(r0 + 1, x));
        } else {
            assert(is_sqrt(r0, x));
        }
    }
    let w = choose|r: int| is_sqrt(r, x);
    assert(is_sqrt(w, x));
}

/// The integer square root is monotone.
pub proof fn lemma_sqrt_monotone(x: int, y: int)
    requires
        0 <= x <= y,
    ensures
        sqrt_of(x) <= sqrt_of(y),
{
    lemma_sqrt_exists(x);
    lemma_sqrt_exists(y);
    let a = sqrt_of(x);
    let b = sqrt_of(y);
    if a > b {
        assert((b + 1) * (b + 1) <= a * a) by (nonlinear_arith)
            requires
                0 <= b,
                b < a,
        ;
    }
}

/// The fixed-point power of a non-negative ratio is non-negative.
pub proof fn lemma_pow_fp_nonneg(r: int, k: nat)
    requires
        r >= 0,
    ensures
        pow_fp(r, k) >= 0,
    decreases k,
{
    if k > 0 {
        lemma_pow_fp_nonneg(r, (k - 1) as nat);
        assert(pow_fp(r, (k - 1) as nat) * r >= 0) by (nonlinear_arith)
            requires
                pow_fp(r, (k - 1) as nat) >= 0,
                r >= 0,
        ;
        vstd::arithmetic::div_mod::lemma_div_pos_is_pos(
            pow_fp(r, (k - 1) as nat) * r,
            PRICE_SCALE as int,
        );
    }
}

/// The fixed-point power is monotone in the ratio.
pub proof fn lemma_pow_fp_monotone(a: int, b: int, k: nat)
    requires
        0 <= a <= b,
    ensures
        pow_fp(a, k) <= pow_fp(b, k),
    decreases k,
{
    if k > 0 {
        lemma_pow_fp_monotone(a, b, (k - 1) as nat);
        lemma_pow_fp_nonneg(a, (k - 1) as nat);
        let pa = pow_fp(a, (k - 1) as nat);
        let pb = pow_fp(b, (k - 1) as nat);
        assert(pa * a <= pb * b) by (nonlinear_arith)
            requires
                0 <= pa <= pb,
                0 <= a <= b,
        ;
        vstd::arithmetic::div_mod::lemma_div_is_ordered(pa * a, pb * b, PRICE_SCALE as int);
    }
}

/// A ratio at or below one keeps every fixed-point power at or below one.
pub proof fn lemma_pow_fp_le_scale(r: int, k: nat)
    requires
        0 <= r <= PRICE_SCALE,
    ensures
        pow_fp(r, k) <= PRICE_SCALE,
    decreases k,
{
    if k > 0 {
        lemma_pow_fp_le_scale(r, (k - 1) as nat);
        lemma_pow_fp_nonneg(r, (k - 1) as nat);
        let p = pow_fp(r, (k - 1) as nat);
        assert(p * r <= PRICE_SCALE * PRICE_SCALE) by (nonlinear_arith)
            requires
                0 <= p <= PRICE_SCALE,
                0 <= r <= PRICE_SCALE,
        ;
        vstd::arithmetic::div_mod::lemma_div_is_ordered(
            p * r,
            PRICE_SCALE * PRICE_SCALE,
            PRICE_SCALE as int,
        );
        vstd::arithmetic::div_mod::lemma_div_by_multiple(PRICE_SCALE as int, PRICE_SCALE as int);
    }
}

/// Rational ordering carries over to rounded-down division:
/// `a*d <= c*b` gives `a/b <= c/d`.
pub proof fn lemma_div_cross(a: int, b: int, c: int, d: int)
    requires
        a >= 0,
        c >= 0,
        b > 0,
        d > 0,
        a * d <= c * b,
    ensures
        a / b <= c / d,
{
    let q = a / b;
    vstd::arithmetic::div_mod::lemma_fundamental_div_mod(a, b);
    assert(q * b <= a);
    assert(q >= 0) by {
        vstd::arithmetic::div_mod::lemma_div_pos_is_pos(a, b);
    }
    assert(q * d * b <= c * b) by (nonlinear_arith)
        requires
            q * b <= a,
            a * d <= c * b,
            d > 0,
            b > 0,
            q >= 0,
    ;
    assert(q * d <= c) by (nonlinear_arith)
        requires
            q * d * b <= c * b,
            b > 0,
    ;
    vstd::arithmetic::div_mod::lemma_div_is_ordered(q * d, c, d);
    vstd::arithmetic::div_mod::lemma_div_by_multiple(q, d);
}

/// The curve price is monotone in the fixed-point share/liquidity ratio.
pub proof fn lemma_curve_price_monotone(base: int, sh1: int, liq1: int, sh2: int, liq2: int, k: nat)
    requires
        base >= 1,
        liq1 > 0,
        liq2 > 0,
        sh1 >= 0,
        sh2 >= 0,
        ratio_fp(sh2, liq2) <= ratio_fp(sh1, liq1),
    ensures
        curve_price_fp(base, sh2, liq2, k) <= curve_price_fp(base, sh1, liq1, k),
{
    let r1 = ratio_fp(sh1, liq1);
    let r2 = ratio_fp(sh2, liq2);
    assert(r2 >= 0) by {
        assert(sh2 * PRICE_SCALE >= 0) by (nonlinear_arith)
            requires
                sh2 >= 0,
        ;
        vstd::arithmetic::div_mod::lemma_div_pos_is_pos(sh2 * PRICE_SCALE, liq2);
    }
    lemma_pow_fp_monotone(r2, r1, k);
    lemma_pow_fp_nonneg(r2, k);
    let p1 = pow_fp(r1, k);
    let p2 = pow_fp(r2, k);
    assert(p2 * PRICE_SCALE <= p1 * PRICE_SCALE) by (nonlinear_arith)
        requires
            p2 <= p1,
    ;
    assert(p2 * PRICE_SCALE >= 0) by (nonlinear_arith)
        requires
            p2 >= 0,
    ;
    lemma_sqrt_monotone(p2 * PRICE_SCALE, p1 * PRICE_SCALE);
    let f1 = sqrt_of(p1 * PRICE_SCALE);
    let f2 = sqrt_of(p2 * PRICE_SCALE);
    assert(base * f2 <= base * f1) by (nonlinear_arith)
        requires
            f2 <= f1,
            base >= 1,
    ;
}

/// With shares at or below the pool, the curve price sits exactly on the
/// base-price floor.
pub proof fn lemma_curve_price_floor(base: int, sh: int, liq: int, k: nat)
    requires
        base >= 1,
        liq > 0,
        0 <= sh <= liq,
    ensures
        curve_price_fp(base, sh, liq, k) == base * PRICE_SCALE,
{
    let r = ratio_fp(sh, liq);
    assert(r >= 0) by {
        assert(sh * PRICE_SCALE >= 0) by (nonlinear_arith)
            requires
                sh >= 0,
        ;
        vstd::arithmetic::div_mod::lemma_div_pos_is_pos(sh * PRICE_SCALE, liq);
    }
    assert(sh * PRICE_SCALE <= liq * PRICE_SCALE) by (nonlinear_arith)
        requires
            sh <= liq,
    ;
    vstd::arithmetic::div_mod::lemma_div_is_ordered(sh * PRICE_SCALE, liq * PRICE_SCALE, liq);
    vstd::arithmetic::div_mod::lemma_div_by_multiple(PRICE_SCALE as int, liq);
    assert(r <= PRICE_SCALE);
    lemma_pow_fp_le_scale(r, k);
    lemma_pow_fp_nonneg(r, k);
    let p = pow_fp(r, k);
    assert(p * PRICE_SCALE <= PRICE_SCALE * PRICE_SCALE) by (nonlinear_arith)
        requires
            0 <= p <= PRICE_SCALE,
    ;
    assert(p * PRICE_SCALE >= 0) by (nonlinear_arith)
        requires
            p >= 0,
    ;
    lemma_sqrt_monotone(p * PRICE_SCALE, PRICE_SCALE * PRICE_SCALE);
    assert(is_sqrt(PRICE_SCALE as int, PRICE_SCALE * PRICE_SCALE)) by (nonlinear_arith);
    lemma_sqrt_exists(PRICE_SCALE * PRICE_SCALE);
    lemma_sqrt_unique(
        sqrt_of(PRICE_SCALE * PRICE_SCALE),
        PRICE_SCALE as int,
        PRICE_SCALE * PRICE_SCALE,
    );
    let f = sqrt_of(p * PRICE_SCALE);
    assert(f <= PRICE_SCALE);
    assert(base * f <= base * PRICE_SCALE) by (nonlinear_arith)
        requires
            f <= PRICE_SCALE,
            base >= 1,
    ;
}

/// Dividing `a * PRICE_SCALE` by a price at or above `PRICE_SCALE` never
/// exceeds `a`: a buyer is never issued more shares than tokens staked.
pub proof fn lemma_scaled_div_le(a: int, p: int)
    requires
        a >= 0,
        p >= PRICE_SCALE,
    ensures
        a * PRICE_SCALE / p <= a,
{
    assert(a * PRICE_SCALE <= a * p) by (nonlinear_arith)
        requires
            a >= 0,
            PRICE_SCALE <= p,
    ;
    vstd::arithmetic::div_mod::lemma_div_is_ordered(a * PRICE_SCALE, a * p, p);
    vstd::arithmetic::div_mod::lemma_div_by_multiple(a, p);
}

/// Once one fixed-point multiplication overflows, the whole power does not fit.
proof fn lemma_pow_fp_unfits(r: int, k: nat, j: nat)
    requires
        j <= k,
        !pow_fp_fits(r, j),
    ensures
        !pow_fp_fits(r, k),
    decreases k,
{
    if k > j {
        lemma_pow_fp_unfits(r, (k - 1) as nat, j);
    }
}

} // verus!
