//! The mathematical model of the exchange's state, and the primitive ledger
//! transitions every operation is built from.
//!
//! An [`AmmState`] holds the pool registry, the fungible-asset ledger
//! (balances and per-asset total issuance), the record of created assets,
//! the native-currency ledger, the configuration, and the events emitted so
//! far. Balances are read with a zero default: an account that never touched
//! an asset holds none of it.

use vstd::prelude::*;

use crate::ids::packed_key;
use crate::types::Error;
use crate::types::Event;

verus! {

/// Value of `key` in `m`, or zero where `m` has no entry.
pub open spec fn get_or_zero<K>(m: Map<K, u128>, key: K) -> u128 {
    if m.contains_key(key) {
        m[key]
    } else {
        0
    }
}

/// The whole observable state of the exchange.
#[verifier::ext_equal]
pub struct AmmState {
    /// Swap fee, in whole percent.
    pub fee_percentage: u32,
    /// Native currency bound to a pool account while the pool exists.
    pub pool_deposit: u128,
    /// Registered pools: packed canonical pair to pool account.
    pub pools: Map<u128, u64>,
    /// Created assets: asset id to owning account.
    pub created: Map<u64, u64>,
    /// Asset ledger: packed (asset, account) to balance; absent means zero.
    pub balances: Map<u128, u128>,
    /// Total issuance per asset; absent means zero.
    pub issuance: Map<u64, u128>,
    /// Native ledger: account to balance; absent means zero.
    pub native: Map<u64, u128>,
    /// Events emitted so far, oldest first.
    pub events: Seq<Event>,
}

impl AmmState {
    /// The configuration is sound: the fee is a percentage.
    pub open spec fn wf(self) -> bool {
        self.fee_percentage <= 100
    }

    /// The state of a freshly constructed exchange: nothing registered,
    /// nothing created, every balance zero.
    pub open spec fn init(fee_percentage: u32, pool_deposit: u128) -> AmmState {
        AmmState {
            fee_percentage,
            pool_deposit,
            pools: Map::empty(),
            created: Map::empty(),
            balances: Map::empty(),
            issuance: Map::empty(),
            native: Map::empty(),
            events: Seq::empty(),
        }
    }

    /// Balance of `account` in the fungible asset `asset`.
    pub open spec fn balance_of(self, asset: u64, account: u64) -> u128 {
        get_or_zero(self.balances, packed_key(asset, account))
    }

    /// Total issuance of the fungible asset `asset`.
    pub open spec fn issuance_of(self, asset: u64) -> u128 {
        get_or_zero(self.issuance, asset)
    }

    /// Native-currency balance of `account`.
    pub open spec fn native_of(self, account: u64) -> u128 {
        get_or_zero(self.native, account)
    }

    /// Whether a pool is registered for the canonical pair (high, low).
    pub open spec fn has_pool(self, high: u64, low: u64) -> bool {
        self.pools.contains_key(packed_key(high, low))
    }

    /// Whether the asset class `asset` has been created.
    pub open spec fn asset_exists(self, asset: u64) -> bool {
        self.created.contains_key(asset)
    }

    pub open spec fn with_balance(self, asset: u64, account: u64, v: u128) -> AmmState {
        AmmState { balances: self.balances.insert(packed_key(asset, account), v), ..self }
    }

    pub open spec fn with_issuance(self, asset: u64, v: u128) -> AmmState {
        AmmState { issuance: self.issuance.insert(asset, v), ..self }
    }

    pub open spec fn with_native(self, account: u64, v: u128) -> AmmState {
        AmmState { native: self.native.insert(account, v), ..self }
    }

    pub open spec fn with_pool(self, high: u64, low: u64, account: u64) -> AmmState {
        AmmState { pools: self.pools.insert(packed_key(high, low), account), ..self }
    }

    pub open spec fn without_pool(self, high: u64, low: u64) -> AmmState {
        AmmState { pools: self.pools.remove(packed_key(high, low)), ..self }
    }

    pub open spec fn with_created(self, asset: u64, owner: u64) -> AmmState {
        AmmState { created: self.created.insert(asset, owner), ..self }
    }

    pub open spec fn with_event(self, e: Event) -> AmmState {
        AmmState { events: self.events.push(e), ..self }
    }
}

/// Moves `amount` of `asset` from `from` to `to`. Fails when the sender's
/// balance is short, or when the receiver's balance would exceed the
/// 128-bit width; on failure nothing moves. A transfer to oneself is a
/// no-op that still requires the balance to cover the amount.
pub open spec fn try_transfer(
    s: AmmState,
    asset: u64,
    from: u64,
    to: u64,
    amount: u128,
) -> Result<AmmState, Error> {
    if s.balance_of(asset, from) < amount {
        Err(Error::InsufficientBalance)
    } else {
        let s1 = s.with_balance(asset, from, (s.balance_of(asset, from) - amount) as u128);
        if s1.balance_of(asset, to) as int + amount as int > u128::MAX as int {
            Err(Error::ArithmeticOverflow)
        } else {
            Ok(s1.with_balance(asset, to, (s1.balance_of(asset, to) + amount) as u128))
        }
    }
}

/// Creates `amount` new units of `asset` in `to`'s balance, growing the
/// total issuance alike. Fails when either count would exceed the 128-bit
/// width; on failure nothing is minted.
pub open spec fn try_mint(s: AmmState, asset: u64, to: u64, amount: u128) -> Result<
    AmmState,
    Error,
> {
    if s.issuance_of(asset) as int + amount as int > u128::MAX as int {
        Err(Error::ArithmeticOverflow)
    } else {
        let s1 = s.with_issuance(asset, (s.issuance_of(asset) + amount) as u128);
        if s1.balance_of(asset, to) as int + amount as int > u128::MAX as int {
            Err(Error::ArithmeticOverflow)
        } else {
            Ok(s1.with_balance(asset, to, (s1.balance_of(asset, to) + amount) as u128))
        }
    }
}

/// Destroys up to `amount` units of `asset` held by `from`: a best-effort
/// burn that takes what is there when the balance is short, and shrinks the
/// issuance by what was burned, saturating at zero.
pub open spec fn burn_from(s: AmmState, asset: u64, from: u64, amount: u128) -> AmmState {
    let bal = s.balance_of(asset, from);
    let burned: u128 = if amount <= bal {
        amount
    } else {
        bal
    };
    let s1 = s.with_balance(asset, from, (bal - burned) as u128);
    let iss = s1.issuance_of(asset);
    let new_iss: u128 = if burned <= iss {
        (iss - burned) as u128
    } else {
        0
    };
    s1.with_issuance(asset, new_iss)
}

/// Moves `amount` of the native currency from `from` to `to`; the same
/// rules as [`try_transfer`].
pub open spec fn try_native_transfer(s: AmmState, from: u64, to: u64, amount: u128) -> Result<
    AmmState,
    Error,
> {
    if s.native_of(from) < amount {
        Err(Error::InsufficientBalance)
    } else {
        let s1 = s.with_native(from, (s.native_of(from) - amount) as u128);
        if s1.native_of(to) as int + amount as int > u128::MAX as int {
            Err(Error::ArithmeticOverflow)
        } else {
            Ok(s1.with_native(to, (s1.native_of(to) + amount) as u128))
        }
    }
}

/// Creates `amount` new units of the native currency in `to`'s balance.
pub open spec fn try_native_mint(s: AmmState, to: u64, amount: u128) -> Result<AmmState, Error> {
    if s.native_of(to) as int + amount as int > u128::MAX as int {
        Err(Error::ArithmeticOverflow)
    } else {
        Ok(s.with_native(to, (s.native_of(to) + amount) as u128))
    }
}

} // verus!
