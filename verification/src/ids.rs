//! Identifier derivation and key packing.
//!
//! Asset identifiers and account identifiers are 64-bit integers. A pool's
//! dedicated account and its liquidity-share asset are derived from the
//! canonical pair by a total, pure, deterministic mixing function; distinct
//! pairs are expected to map to distinct identifiers, though the mapping is
//! not injective (it compresses two words into one, like the hash it stands
//! for). Ledger keys pack an (asset, account) pair — or a canonical asset
//! pair — into a single 128-bit key; that packing is injective and proved so.

use vstd::prelude::*;

verus! {

/// Account that administers the liquidity-share assets the engine creates.
pub const PALLET_ACCOUNT: u64 = 0x6465785f70616c6c;

/// Domain tag under which liquidity-share asset ids are derived.
pub const SHARE_DOMAIN: u64 = 0x73686172655f6964;

/// Domain tag under which pool accounts are derived.
pub const ACCOUNT_DOMAIN: u64 = 0x706f6f6c5f616363;

/// One xorshift round: deterministic, invertible bit mixing of a word.
pub open spec fn scramble_spec(x: u64) -> u64 {
    let a = x ^ (x << 13);
    let b = a ^ (a >> 7);
    b ^ (b << 17)
}

/// Derived identifier for a canonical pair within a domain: two scrambling
/// rounds fold the domain tag and both halves of the pair into one word.
pub open spec fn derive_id_spec(domain: u64, high: u64, low: u64) -> u64 {
    scramble_spec(scramble_spec(high ^ domain) ^ low)
}

/// The liquidity-share asset id of the pool over canonical pair (high, low).
pub open spec fn share_asset_id(high: u64, low: u64) -> u64 {
    derive_id_spec(SHARE_DOMAIN, high, low)
}

/// The dedicated account of the pool over canonical pair (high, low).
pub open spec fn pool_account_id(high: u64, low: u64) -> u64 {
    derive_id_spec(ACCOUNT_DOMAIN, high, low)
}

pub fn scramble(x: u64) -> (r: u64)
    ensures
        r == scramble_spec(x),
{
    let a = x ^ (x << 13u64);
    let b = a ^ (a >> 7u64);
    b ^ (b << 17u64)
}

pub fn derive_id(domain: u64, high: u64, low: u64) -> (r: u64)
    ensures
        r == derive_id_spec(domain, high, low),
{
    let inner = scramble(high ^ domain);
    scramble(inner ^ low)
}

/// The canonical byte encoding of an identifier: its eight bytes, most
/// significant first. Canonicalization orders asset pairs by this encoding.
pub open spec fn canonical_encoding(x: u64) -> Seq<u8> {
    seq![
        (x >> 56) as u8,
        (x >> 48) as u8,
        (x >> 40) as u8,
        (x >> 32) as u8,
        (x >> 24) as u8,
        (x >> 16) as u8,
        (x >> 8) as u8,
        x as u8,
    ]
}

/// Strict lexicographic order on byte strings, read from position `i` on:
/// the first differing byte decides, and a proper prefix is smaller.
pub open spec fn lex_gt_from(a: Seq<u8>, b: Seq<u8>, i: int) -> bool
    decreases a.len() - i,
{
    if i >= a.len() || i >= b.len() {
        i < a.len()
    } else if a[i] != b[i] {
        a[i] > b[i]
    } else {
        lex_gt_from(a, b, i + 1)
    }
}

/// Strict lexicographic order on byte strings.
pub open spec fn lex_gt(a: Seq<u8>, b: Seq<u8>) -> bool {
    lex_gt_from(a, b, 0)
}

/// On canonical encodings the lexicographic order is exactly the numeric
/// order, so the pair canonicalizer may compare identifiers directly.
pub proof fn lemma_lex_gt_is_numeric_gt(a: u64, b: u64)
    ensures
        lex_gt(canonical_encoding(a), canonical_encoding(b)) <==> a > b,
{
    let sa = canonical_encoding(a);
    let sb = canonical_encoding(b);
    assert(!lex_gt_from(sa, sb, 8));
    assert forall|i: int| 0 <= i < 8 implies lex_gt_from(sa, sb, i) == (sa[i] > sb[i] || (sa[i]
        == sb[i] && lex_gt_from(sa, sb, i + 1))) by {
        assert(lex_gt_from(sa, sb, i) == if sa[i] != sb[i] {
            sa[i] > sb[i]
        } else {
            lex_gt_from(sa, sb, i + 1)
        });
    }
    assert(a > b <==> ((a >> 56) as u8 > (b >> 56) as u8 || ((a >> 56) as u8 == (b >> 56) as u8
        && ((a >> 48) as u8 > (b >> 48) as u8 || ((a >> 48) as u8 == (b >> 48) as u8 && ((a >> 40) as u8
        > (b >> 40) as u8 || ((a >> 40) as u8 == (b >> 40) as u8 && ((a >> 32) as u8 > (b >> 32) as u8
        || ((a >> 32) as u8 == (b >> 32) as u8 && ((a >> 24) as u8 > (b >> 24) as u8 || ((a >> 24) as u8
        == (b >> 24) as u8 && ((a >> 16) as u8 > (b >> 16) as u8 || ((a >> 16) as u8 == (b >> 16) as u8
        && ((a >> 8) as u8 > (b >> 8) as u8 || ((a >> 8) as u8 == (b >> 8) as u8 && a as u8
        > b as u8))))))))))))))) by (bit_vector);
}

/// Width of the low half of a packed key.
pub const KEY_SHIFT: u128 = 0x1_0000_0000_0000_0000;

/// Packs two 64-bit identifiers into one 128-bit ledger key, injectively.
pub open spec fn packed_key(hi: u64, lo: u64) -> u128 {
    ((hi as int) * (KEY_SHIFT as int) + (lo as int)) as u128
}

/// A packed key fits the 128-bit width exactly.
pub proof fn lemma_packed_key_fits(hi: u64, lo: u64)
    ensures
        0 <= (hi as int) * (KEY_SHIFT as int) + (lo as int) <= u128::MAX as int,
        packed_key(hi, lo) == (hi as int) * (KEY_SHIFT as int) + (lo as int),
{
    assert(0 <= (hi as int) * 0x1_0000_0000_0000_0000 + (lo as int) < 0x1_0000_0000_0000_0000_0000_0000_0000_0000int)
        by (nonlinear_arith)
        requires
            0 <= hi < 0x1_0000_0000_0000_0000,
            0 <= lo < 0x1_0000_0000_0000_0000,
    ;
}

pub fn pack_key(hi: u64, lo: u64) -> (r: u128)
    ensures
        r == packed_key(hi, lo),
{
    proof {
        lemma_packed_key_fits(hi, lo);
    }
    (hi as u128) * KEY_SHIFT + (lo as u128)
}

/// Distinct halves give distinct packed keys.
pub proof fn lemma_packed_key_distinct(h1: u64, l1: u64, h2: u64, l2: u64)
    requires
        h1 != h2 || l1 != l2,
    ensures
        packed_key(h1, l1) != packed_key(h2, l2),
{
    if packed_key(h1, l1) == packed_key(h2, l2) {
        lemma_packed_key_injective(h1, l1, h2, l2);
    }
}

/// Two packed keys are equal only when both halves agree.
pub proof fn lemma_packed_key_injective(h1: u64, l1: u64, h2: u64, l2: u64)
    requires
        packed_key(h1, l1) == packed_key(h2, l2),
    ensures
        h1 == h2,
        l1 == l2,
{
    lemma_packed_key_fits(h1, l1);
    lemma_packed_key_fits(h2, l2);
    assert(h1 == h2 && l1 == l2) by (nonlinear_arith)
        requires
            (h1 as int) * 0x1_0000_0000_0000_0000 + (l1 as int) == (h2 as int)
                * 0x1_0000_0000_0000_0000 + (l2 as int),
            0 <= l1 < 0x1_0000_0000_0000_0000,
            0 <= l2 < 0x1_0000_0000_0000_0000,
    ;
}

} // verus!
