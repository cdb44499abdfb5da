//! General laws of the engine, proved once and for all inputs: symmetry of
//! canonicalization, uniqueness of a pool per canonical pair, behaviour of
//! the constant-product invariant under fee-bearing swaps, conservation
//! over a create-then-remove round trip, the duality bound between the two
//! swap forms, and enforcement of the caller's minimum output.

use vstd::prelude::*;

use vstd::arithmetic::div_mod::lemma_div_is_ordered;
use vstd::arithmetic::div_mod::lemma_div_is_ordered_by_denominator;
use vstd::arithmetic::div_mod::lemma_div_multiples_vanish;
use vstd::arithmetic::div_mod::lemma_div_pos_is_pos;
use vstd::arithmetic::div_mod::lemma_fundamental_div_mod;
use vstd::arithmetic::div_mod::lemma_mod_division_less_than_divisor;

use crate::ids::canonical_encoding;
use crate::ids::lemma_lex_gt_is_numeric_gt;
use crate::ids::lemma_packed_key_distinct;
use crate::ids::lex_gt;
use crate::ids::pool_account_id;
use crate::ids::share_asset_id;
use crate::math::lemma_percent_mul_le;
use crate::math::percent_mul_spec;
use crate::math::swap_in_before_fee;
use crate::math::swap_out_amount;
use crate::state::AmmState;
use crate::transitions::canonicalize;
use crate::transitions::check_user_balances_spec;
use crate::transitions::create_pool_tr;
use crate::transitions::order_spec;
use crate::transitions::remove_pool_tr;
use crate::transitions::swap_exact_in_tr;
use crate::transitions::swap_in_for_exact_out_tr;
use crate::types::Error;

verus! {

/// Canonicalization is symmetric: both orderings of a distinct pair, with
/// the amounts swapped alike, canonicalize to the same
/// (high, low, amount_high, amount_low) quadruple.
pub proof fn lemma_canonicalize_symmetric(
    asset_a: u64,
    asset_b: u64,
    amount_a: u128,
    amount_b: u128,
)
    requires
        asset_a != asset_b,
    ensures
        canonicalize(asset_a, asset_b, amount_a, amount_b) == canonicalize(
            asset_b,
            asset_a,
            amount_b,
            amount_a,
        ),
{
}

/// Canonicalization is well-defined over the byte encodings: the asset
/// whose canonical encoding is lexicographically larger becomes the high
/// half of the pair.
pub proof fn lemma_canonicalize_orders_by_encoding(
    asset_a: u64,
    asset_b: u64,
    amount_a: u128,
    amount_b: u128,
)
    requires
        asset_a != asset_b,
    ensures
        ({
            let (h, l, _xh, _xl) = canonicalize(asset_a, asset_b, amount_a, amount_b);
            lex_gt(canonical_encoding(h), canonical_encoding(l))
        }),
{
    lemma_lex_gt_is_numeric_gt(asset_a, asset_b);
    lemma_lex_gt_is_numeric_gt(asset_b, asset_a);
}

/// The ordering operation agrees on both argument orders for every input:
/// an identical pair is refused either way, and a distinct pair
/// canonicalizes to the same quadruple either way.
pub proof fn lemma_order_symmetric(asset_a: u64, asset_b: u64, amount_a: u128, amount_b: u128)
    ensures
        order_spec(asset_a, asset_b, amount_a, amount_b) == order_spec(
            asset_b,
            asset_a,
            amount_b,
            amount_a,
        ),
{
}

/// A swap whose computed output falls below the caller's minimum is refused
/// with `SlippageExceeded` and leaves every balance unchanged.
pub proof fn lemma_min_out_enforced(
    s: AmmState,
    who: u64,
    asset_in: u64,
    asset_out: u64,
    exact_in: u128,
    min_out: u128,
)
    requires
        asset_in != asset_out,
        ({
            let (h, l, _x, _y) = canonicalize(asset_in, asset_out, 0, 0);
            let pool = pool_account_id(h, l);
            let eff = percent_mul_spec((100 - s.fee_percentage) as u32, exact_in);
            let pbi = s.balance_of(asset_in, pool);
            let pbo = s.balance_of(asset_out, pool);
            &&& s.has_pool(h, l)
            &&& s.balance_of(asset_in, who) >= exact_in
            &&& pbi as int * pbo as int <= u128::MAX as int
            &&& 0 < pbi as int + eff <= u128::MAX as int
            &&& 0 <= swap_out_amount(pbi, pbo, eff) < min_out
        }),
    ensures
        swap_exact_in_tr(s, who, asset_in, asset_out, exact_in, min_out) == (
            s,
            Err::<(), Error>(Error::SlippageExceeded),
        ),
{
}

/// Under a fee-bearing exact-in swap the reserve product does not decrease,
/// whenever the fee retained covers the payout rounding: writing
/// `q = floor(reserve_in * reserve_out / (reserve_in + effective_in))` and
/// `r` for the matching remainder, the condition is
/// `r <= (exact_in - effective_in) * q`; and the product strictly grows
/// when the inequality is strict.
pub proof fn lemma_constant_product_nondecrease(pbi: u128, pbo: u128, exact_in: u128, eff: int)
    requires
        0 <= eff <= exact_in,
        pbi as int + eff > 0,
        (pbi as int * pbo as int) % (pbi as int + eff) <= (exact_in - eff) * ((pbi as int
            * pbo as int) / (pbi as int + eff)),
    ensures
        ({
            let out = swap_out_amount(pbi, pbo, eff);
            (pbi as int + exact_in as int) * (pbo as int - out) >= pbi as int * pbo as int
        }),
        (pbi as int * pbo as int) % (pbi as int + eff) < (exact_in - eff) * ((pbi as int
            * pbo as int) / (pbi as int + eff)) ==> ({
            let out = swap_out_amount(pbi, pbo, eff);
            (pbi as int + exact_in as int) * (pbo as int - out) > pbi as int * pbo as int
        }),
{
    let p = pbi as int * pbo as int;
    let d = pbi as int + eff;
    let q = p / d;
    let r = p % d;
    lemma_fundamental_div_mod(p, d);
    assert(p >= 0) by (nonlinear_arith)
        requires
            pbi >= 0,
            pbo >= 0,
            p == pbi as int * pbo as int,
    ;
    lemma_div_pos_is_pos(p, d);
    let out = swap_out_amount(pbi, pbo, eff);
    assert(pbo as int - out == q);
    assert((pbi as int + exact_in as int) * q == p - r + q * (exact_in as int - eff))
        by (nonlinear_arith)
        requires
            p == d * q + r,
            d == pbi as int + eff,
    ;
}

/// Under a fee-bearing exact-out swap the reserve product does not
/// decrease, whenever the fee charged covers the quotient rounding: with
/// `r = (reserve_in * reserve_out) % (reserve_out - exact_out)`, the
/// condition is `r <= fee * (reserve_out - exact_out)`; and the product
/// strictly grows when the inequality is strict.
pub proof fn lemma_exact_out_product_nondecrease(pbi: u128, pbo: u128, exact_out: u128, fee: int)
    requires
        pbo > exact_out,
        0 <= fee,
        (pbi as int * pbo as int) % (pbo as int - exact_out as int) <= fee * (pbo as int
            - exact_out as int),
    ensures
        ({
            let before_fee = swap_in_before_fee(pbi, pbo, exact_out);
            (pbi as int + before_fee + fee) * (pbo as int - exact_out as int) >= pbi as int
                * pbo as int
        }),
        (pbi as int * pbo as int) % (pbo as int - exact_out as int) < fee * (pbo as int
            - exact_out as int) ==> ({
            let before_fee = swap_in_before_fee(pbi, pbo, exact_out);
            (pbi as int + before_fee + fee) * (pbo as int - exact_out as int) > pbi as int
                * pbo as int
        }),
{
    let p = pbi as int * pbo as int;
    let d = pbo as int - exact_out as int;
    let t = p / d;
    let r = p % d;
    lemma_fundamental_div_mod(p, d);
    let before_fee = swap_in_before_fee(pbi, pbo, exact_out);
    assert(pbi as int + before_fee == t);
    assert((t + fee) * d == p - r + fee * d) by (nonlinear_arith)
        requires
            p == d * t + r,
    ;
}

/// At most one pool ever exists per canonical pair: once `create_pool`
/// has succeeded, a second creation for the same pair is refused with no
/// effect, in either argument order; and when the second caller's own
/// balance and overflow checks pass, the refusal is `PoolAlreadyExists`.
pub proof fn lemma_pool_unique(
    s: AmmState,
    who1: u64,
    asset_a: u64,
    asset_b: u64,
    x1: u128,
    y1: u128,
    who2: u64,
    c: u64,
    d: u64,
    x2: u128,
    y2: u128,
)
    requires
        create_pool_tr(s, who1, asset_a, asset_b, x1, y1).1 is Ok,
        (c == asset_a && d == asset_b) || (c == asset_b && d == asset_a),
    ensures
        ({
            let s1 = create_pool_tr(s, who1, asset_a, asset_b, x1, y1).0;
            let second = create_pool_tr(s1, who2, c, d, x2, y2);
            &&& second.1 is Err
            &&& second.0 == s1
            &&& ({
                let (h, l, xh2, xl2) = canonicalize(c, d, x2, y2);
                (check_user_balances_spec(s1, who2, h, l, xh2, xl2) is Ok && xh2 as int
                    * xl2 as int <= u128::MAX as int) ==> second.1 == Err::<(), Error>(
                    Error::PoolAlreadyExists,
                )
            })
        }),
{
    let (h, l, xh, xl) = canonicalize(asset_a, asset_b, x1, y1);
    let s1 = create_pool_tr(s, who1, asset_a, asset_b, x1, y1).0;
    assert(s1.has_pool(h, l));
    assert(canonicalize(c, d, x2, y2).0 == h && canonicalize(c, d, x2, y2).1 == l);
}

/// Round-trip conservation: removing a pool immediately after creating it,
/// with no operation in between, restores the creator's balances of both
/// assets and of the native currency exactly, burns the share issuance
/// back to zero, drains the pool account, and deletes the registry entry.
/// The derived pool account and share asset must be fresh — the pool
/// account is not the creator and held no reserves, the share asset had no
/// issuance — and the share asset must not collide with either pooled
/// asset; the derivation makes such collisions wildly improbable, and the
/// hypotheses make the assumption explicit.
pub proof fn lemma_create_then_remove_pool(
    s: AmmState,
    who: u64,
    asset_a: u64,
    asset_b: u64,
    amount_a: u128,
    amount_b: u128,
)
    requires
        s.wf(),
        asset_a != asset_b,
        ({
            let (h, l, xh, xl) = canonicalize(asset_a, asset_b, amount_a, amount_b);
            let pool = pool_account_id(h, l);
            let lp = share_asset_id(h, l);
            &&& pool != who
            &&& lp != h
            &&& lp != l
            &&& s.balance_of(h, pool) == 0
            &&& s.balance_of(l, pool) == 0
            &&& s.issuance_of(lp) == 0
            &&& s.balance_of(lp, who) == 0
        }),
        create_pool_tr(s, who, asset_a, asset_b, amount_a, amount_b).1 is Ok,
    ensures
        ({
            let (h, l, xh, xl) = canonicalize(asset_a, asset_b, amount_a, amount_b);
            let pool = pool_account_id(h, l);
            let lp = share_asset_id(h, l);
            let s1 = create_pool_tr(s, who, asset_a, asset_b, amount_a, amount_b).0;
            let (s2, r2) = remove_pool_tr(s1, who, asset_a, asset_b);
            &&& r2 is Ok
            &&& s2.balance_of(h, who) == s.balance_of(h, who)
            &&& s2.balance_of(l, who) == s.balance_of(l, who)
            &&& s2.native_of(who) == s.native_of(who)
            &&& s2.issuance_of(lp) == 0
            &&& s2.balance_of(lp, who) == 0
            &&& s2.balance_of(h, pool) == 0
            &&& s2.balance_of(l, pool) == 0
            &&& !s2.has_pool(h, l)
        }),
{
    let (h, l, xh, xl) = canonicalize(asset_a, asset_b, amount_a, amount_b);
    let pool = pool_account_id(h, l);
    let lp = share_asset_id(h, l);
    assert(h != l);
    lemma_packed_key_distinct(h, who, h, pool);
    lemma_packed_key_distinct(l, who, l, pool);
    lemma_packed_key_distinct(h, who, l, who);
    lemma_packed_key_distinct(h, who, l, pool);
    lemma_packed_key_distinct(h, pool, l, who);
    lemma_packed_key_distinct(h, pool, l, pool);
    lemma_packed_key_distinct(lp, who, h, who);
    lemma_packed_key_distinct(lp, who, h, pool);
    lemma_packed_key_distinct(lp, who, l, who);
    lemma_packed_key_distinct(lp, who, l, pool);
    lemma_packed_key_distinct(lp, pool, h, who);
    lemma_packed_key_distinct(lp, pool, h, pool);
    lemma_packed_key_distinct(lp, pool, l, who);
    lemma_packed_key_distinct(lp, pool, l, pool);
    lemma_packed_key_distinct(lp, who, lp, pool);
}

/// Invariant non-decrease, exact-in form: a successful fee-bearing
/// exact-in swap by a party other than the pool account never decreases
/// the product of the pool's two reserves, whenever the fee retained
/// covers the payout rounding (the stated remainder condition; without it
/// the rounding of the kept reserve can cost the pool up to one unit of
/// product).
pub proof fn lemma_swap_exact_in_invariant(
    s: AmmState,
    who: u64,
    asset_in: u64,
    asset_out: u64,
    exact_in: u128,
    min_out: u128,
)
    requires
        s.wf(),
        asset_in != asset_out,
        ({
            let (h, l, _x, _y) = canonicalize(asset_in, asset_out, 0, 0);
            who != pool_account_id(h, l)
        }),
        swap_exact_in_tr(s, who, asset_in, asset_out, exact_in, min_out).1 is Ok,
        ({
            let (h, l, _x, _y) = canonicalize(asset_in, asset_out, 0, 0);
            let pool = pool_account_id(h, l);
            let eff = percent_mul_spec((100 - s.fee_percentage) as u32, exact_in);
            let pbi = s.balance_of(asset_in, pool);
            let pbo = s.balance_of(asset_out, pool);
            let p = pbi as int * pbo as int;
            p % (pbi as int + eff) <= (exact_in - eff) * (p / (pbi as int + eff))
        }),
    ensures
        ({
            let (h, l, _x, _y) = canonicalize(asset_in, asset_out, 0, 0);
            let pool = pool_account_id(h, l);
            let s2 = swap_exact_in_tr(s, who, asset_in, asset_out, exact_in, min_out).0;
            s2.balance_of(asset_in, pool) as int * s2.balance_of(asset_out, pool) as int
                >= s.balance_of(asset_in, pool) as int * s.balance_of(asset_out, pool) as int
        }),
        ({
            let (h, l, _x, _y) = canonicalize(asset_in, asset_out, 0, 0);
            let pool = pool_account_id(h, l);
            let eff = percent_mul_spec((100 - s.fee_percentage) as u32, exact_in);
            let pbi = s.balance_of(asset_in, pool);
            let pbo = s.balance_of(asset_out, pool);
            let p = pbi as int * pbo as int;
            let s2 = swap_exact_in_tr(s, who, asset_in, asset_out, exact_in, min_out).0;
            p % (pbi as int + eff) < (exact_in - eff) * (p / (pbi as int + eff))
                ==> s2.balance_of(asset_in, pool) as int * s2.balance_of(asset_out, pool) as int
                > p
        }),
{
    let (h, l, _x, _y) = canonicalize(asset_in, asset_out, 0, 0);
    let pool = pool_account_id(h, l);
    let eff = percent_mul_spec((100 - s.fee_percentage) as u32, exact_in);
    let pbi = s.balance_of(asset_in, pool);
    let pbo = s.balance_of(asset_out, pool);
    lemma_packed_key_distinct(asset_in, who, asset_in, pool);
    lemma_packed_key_distinct(asset_out, who, asset_out, pool);
    lemma_packed_key_distinct(asset_in, who, asset_out, who);
    lemma_packed_key_distinct(asset_in, who, asset_out, pool);
    lemma_packed_key_distinct(asset_in, pool, asset_out, who);
    lemma_packed_key_distinct(asset_in, pool, asset_out, pool);
    lemma_percent_mul_le((100 - s.fee_percentage) as u32, exact_in);
    let s2 = swap_exact_in_tr(s, who, asset_in, asset_out, exact_in, min_out).0;
    let out = swap_out_amount(pbi, pbo, eff);
    assert(s2.balance_of(asset_in, pool) == pbi + exact_in);
    assert(s2.balance_of(asset_out, pool) == pbo - out);
    lemma_constant_product_nondecrease(pbi, pbo, exact_in, eff);
}

/// Invariant non-decrease, exact-out form: a successful fee-bearing
/// exact-out swap by a party other than the pool account never decreases
/// the product of the pool's two reserves, whenever the fee charged covers
/// the quotient rounding (the stated remainder condition).
pub proof fn lemma_swap_exact_out_invariant(
    s: AmmState,
    who: u64,
    asset_in: u64,
    asset_out: u64,
    max_in: u128,
    exact_out: u128,
)
    requires
        s.wf(),
        asset_in != asset_out,
        ({
            let (h, l, _x, _y) = canonicalize(asset_in, asset_out, 0, 0);
            who != pool_account_id(h, l)
        }),
        swap_in_for_exact_out_tr(s, who, asset_in, asset_out, max_in, exact_out).1 is Ok,
        ({
            let (h, l, _x, _y) = canonicalize(asset_in, asset_out, 0, 0);
            let pool = pool_account_id(h, l);
            let pbi = s.balance_of(asset_in, pool);
            let pbo = s.balance_of(asset_out, pool);
            let p = pbi as int * pbo as int;
            let fee = percent_mul_spec(
                s.fee_percentage,
                swap_in_before_fee(pbi, pbo, exact_out) as u128,
            );
            p % (pbo as int - exact_out as int) <= fee * (pbo as int - exact_out as int)
        }),
    ensures
        ({
            let (h, l, _x, _y) = canonicalize(asset_in, asset_out, 0, 0);
            let pool = pool_account_id(h, l);
            let s2 = swap_in_for_exact_out_tr(s, who, asset_in, asset_out, max_in, exact_out).0;
            s2.balance_of(asset_in, pool) as int * s2.balance_of(asset_out, pool) as int
                >= s.balance_of(asset_in, pool) as int * s.balance_of(asset_out, pool) as int
        }),
        ({
            let (h, l, _x, _y) = canonicalize(asset_in, asset_out, 0, 0);
            let pool = pool_account_id(h, l);
            let pbi = s.balance_of(asset_in, pool);
            let pbo = s.balance_of(asset_out, pool);
            let p = pbi as int * pbo as int;
            let fee = percent_mul_spec(
                s.fee_percentage,
                swap_in_before_fee(pbi, pbo, exact_out) as u128,
            );
            let s2 = swap_in_for_exact_out_tr(s, who, asset_in, asset_out, max_in, exact_out).0;
            p % (pbo as int - exact_out as int) < fee * (pbo as int - exact_out as int)
                ==> s2.balance_of(asset_in, pool) as int * s2.balance_of(asset_out, pool) as int
                > p
        }),
{
    let (h, l, _x, _y) = canonicalize(asset_in, asset_out, 0, 0);
    let pool = pool_account_id(h, l);
    let pbi = s.balance_of(asset_in, pool);
    let pbo = s.balance_of(asset_out, pool);
    lemma_packed_key_distinct(asset_in, who, asset_in, pool);
    lemma_packed_key_distinct(asset_out, who, asset_out, pool);
    lemma_packed_key_distinct(asset_in, who, asset_out, who);
    lemma_packed_key_distinct(asset_in, who, asset_out, pool);
    lemma_packed_key_distinct(asset_in, pool, asset_out, who);
    lemma_packed_key_distinct(asset_in, pool, asset_out, pool);
    let before_fee = swap_in_before_fee(pbi, pbo, exact_out);
    let fee = percent_mul_spec(s.fee_percentage, before_fee as u128);
    lemma_percent_mul_le(s.fee_percentage, before_fee as u128);
    let s2 = swap_in_for_exact_out_tr(s, who, asset_in, asset_out, max_in, exact_out).0;
    assert(s2.balance_of(asset_in, pool) as int == pbi as int + before_fee + fee);
    assert(s2.balance_of(asset_out, pool) as int == pbo as int - exact_out as int);
    lemma_exact_out_product_nondecrease(pbi, pbo, exact_out, fee);
}

/// One half of the exact-in / exact-out duality: buying back the output of
/// an exact-in swap through the exact-out form charges, before its fee, at
/// least the fee-reduced input the exact-in swap consumed. (The full
/// amounts, fees included, can differ by the rounding of the two fees.)
pub proof fn lemma_exact_out_covers_effective_in(pbi: u128, pbo: u128, eff: int, exact_out: u128)
    requires
        0 <= eff,
        pbi as int + eff > 0,
        pbi as int + eff <= pbi as int * pbo as int,
        exact_out == swap_out_amount(pbi, pbo, eff),
    ensures
        0 <= swap_out_amount(pbi, pbo, eff),
        (exact_out as int) < pbo as int,
        swap_in_before_fee(pbi, pbo, exact_out) >= eff,
{
    let p = pbi as int * pbo as int;
    let d = pbi as int + eff;
    let q = p / d;
    lemma_fundamental_div_mod(p, d);
    lemma_mod_division_less_than_divisor(p, d);
    // q >= 1, since p >= d
    lemma_div_is_ordered(d, p, d);
    assert(d / d == 1) by {
        lemma_div_multiples_vanish(1, d);
    }
    assert(q >= 1);
    // q <= pbo: dividing by the smaller denominator pbi gives exactly pbo
    assert(pbi > 0) by (nonlinear_arith)
        requires
            pbi as int + eff <= pbi as int * pbo as int,
            0 <= eff,
            pbi as int + eff > 0,
            pbi >= 0,
            pbo >= 0,
    ;
    lemma_div_is_ordered_by_denominator(p, pbi as int, d);
    assert(p / (pbi as int) == pbo as int) by {
        lemma_div_multiples_vanish(pbo as int, pbi as int);
        assert(pbi as int * pbo as int == (pbi as int) * (pbo as int));
    }
    assert(q <= pbo as int);
    assert(exact_out as int == pbo as int - q);
    // the buy-back divides p by exactly q, and p >= q * d
    assert(p >= q * d) by (nonlinear_arith)
        requires
            p == d * q + p % d,
            p % d >= 0,
    ;
    lemma_div_is_ordered(q * d, p, q);
    lemma_div_multiples_vanish(d, q);
    assert((q * d) / q == d);
    assert(p / q >= d);
    assert(swap_in_before_fee(pbi, pbo, exact_out) == p / q - pbi as int);
}

} // verus!
