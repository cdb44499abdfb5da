//! Pure arithmetic of the engine: the integer square root used to bootstrap
//! share issuance, the percentage rounding used for the swap fee, and the
//! constant-product swap formulas.

use vstd::prelude::*;

verus! {

/// Floor of the square root: the largest `r` with `r * r <= n`.
pub open spec fn floor_sqrt(n: nat) -> nat
    decreases n,
{
    if n == 0 {
        0
    } else {
        let p = floor_sqrt((n - 1) as nat);
        if (p + 1) * (p + 1) <= n {
            p + 1
        } else {
            p
        }
    }
}

pub proof fn lemma_floor_sqrt(n: nat)
    ensures
        floor_sqrt(n) * floor_sqrt(n) <= n,
        n < (floor_sqrt(n) + 1) * (floor_sqrt(n) + 1),
    decreases n,
{
    if n == 0 {
        assert(floor_sqrt(n) == 0);
        assert((floor_sqrt(n) + 1) * (floor_sqrt(n) + 1) == 1) by (nonlinear_arith)
            requires
                floor_sqrt(n) == 0,
        ;
    } else {
        lemma_floor_sqrt((n - 1) as nat);
        let p = floor_sqrt((n - 1) as nat);
        if (p + 1) * (p + 1) <= n {
            assert(floor_sqrt(n) == p + 1);
            assert((p + 2) * (p + 2) > n) by (nonlinear_arith)
                requires
                    n <= (p + 1) * (p + 1),
                    p >= 0,
            ;
        } else {
            assert(floor_sqrt(n) == p);
        }
    }
}

/// Only one value sits between the two square bounds, so any witness of the
/// bounds is the floor square root.
pub proof fn lemma_floor_sqrt_unique(n: nat, r: nat)
    requires
        r * r <= n,
        n < (r + 1) * (r + 1),
    ensures
        r == floor_sqrt(n),
{
    lemma_floor_sqrt(n);
    let f = floor_sqrt(n);
    if r < f {
        assert((r + 1) * (r + 1) <= f * f) by (nonlinear_arith)
            requires
                r + 1 <= f,
        ;
    } else if r > f {
        assert((f + 1) * (f + 1) <= r * r) by (nonlinear_arith)
            requires
                f + 1 <= r,
        ;
    }
}

/// The fraction `parts / 100` of `x`, rounded to the nearest integer,
/// preferring the lower value on ties.
pub open spec fn percent_mul_spec(parts: u32, x: u128) -> int {
    let prod = (x as int) * (parts as int);
    prod / 100 + if prod % 100 > 50 {
        1int
    } else {
        0int
    }
}

/// The rounded percentage never exceeds the base amount.
pub proof fn lemma_percent_mul_le(parts: u32, x: u128)
    requires
        parts <= 100,
    ensures
        0 <= percent_mul_spec(parts, x) <= x,
{
    let prod = (x as int) * (parts as int);
    assert(0 <= prod && prod <= (x as int) * 100) by (nonlinear_arith)
        requires
            prod == (x as int) * (parts as int),
            0 <= parts <= 100,
            0 <= x,
    ;
    assert(prod / 100 >= 0);
    if prod % 100 > 50 {
        assert(prod / 100 + 1 <= x as int) by (nonlinear_arith)
            requires
                0 <= prod,
                prod <= (x as int) * 100,
                prod % 100 > 50,
        ;
    } else {
        assert(prod / 100 <= x as int) by (nonlinear_arith)
            requires
                0 <= prod,
                prod <= (x as int) * 100,
        ;
    }
}

/// Relies on `sp_arithmetic::Percent`: `from_rational(parts, 100)` rounds the
/// ratio down, so for `parts <= 100` it is exactly the fraction `parts/100`;
/// multiplying a `Percent` by an integer computes at full precision and
/// rounds the result to the nearest integer, preferring down on ties.
#[verifier::external_body]
pub(crate) fn percent_mul(parts: u32, x: u128) -> (r: u128)
    requires
        parts <= 100,
    ensures
        r as int == percent_mul_spec(parts, x),
{
    sp_arithmetic::Percent::from_rational(parts, 100u32) * x
}

/// Relies on `sp_arithmetic::traits::IntegerSquareRoot` (the `integer-sqrt`
/// crate): returns the integer square root, the largest `r` with `r * r <= n`.
#[verifier::external_body]
pub(crate) fn integer_sqrt_u128(n: u128) -> (r: u128)
    ensures
        (r as int) * (r as int) <= n as int,
        ((r as int) + 1) * ((r as int) + 1) > n as int,
{
    sp_arithmetic::traits::IntegerSquareRoot::integer_sqrt(&n)
}

/// Shares minted for the very first deposit into a pool:
/// `floor(sqrt(amount_high * amount_low))`.
pub open spec fn initial_shares(amount_high: u128, amount_low: u128) -> nat {
    floor_sqrt((amount_high * amount_low) as nat)
}

/// What an exact-in swap pays out before any slippage check: the fee-reduced
/// input is applied to the constant-product invariant, and the reserve kept
/// by the pool is rounded down.
pub open spec fn swap_out_amount(reserve_in: u128, reserve_out: u128, effective_in: int) -> int
    recommends
        reserve_in + effective_in > 0,
{
    reserve_out - (reserve_in as int * reserve_out as int) / (reserve_in as int + effective_in)
}

/// What an exact-out swap charges before the fee: the invariant is solved for
/// the input, rounding the quotient down.
pub open spec fn swap_in_before_fee(reserve_in: u128, reserve_out: u128, exact_out: u128) -> int
    recommends
        reserve_out > exact_out,
{
    (reserve_in as int * reserve_out as int) / (reserve_out as int - exact_out as int)
        - reserve_in as int
}

/// A fee-free spot quote: `floor(amount_in * reserve_out / reserve_in)`.
pub open spec fn spot_price(amount_in: u128, reserve_in: u128, reserve_out: u128) -> int
    recommends
        reserve_in > 0,
{
    (amount_in as int * reserve_out as int) / (reserve_in as int)
}

} // verus!
