//! The executable exchange. A [`Pallet`] owns the pool registry, the
//! fungible-asset ledger, the native-currency ledger, and the event log;
//! every caller-facing operation is verified against the corresponding
//! transition function of [`crate::transitions`], and is atomic: a refused
//! call leaves the state exactly as it was.

use std::collections::HashMap;

use vstd::prelude::*;

use crate::ids::ACCOUNT_DOMAIN;
use crate::ids::PALLET_ACCOUNT;
use crate::ids::SHARE_DOMAIN;
use crate::ids::derive_id;
use crate::ids::lemma_packed_key_distinct;
use crate::ids::pack_key;
use crate::ids::pool_account_id;
use crate::ids::share_asset_id;
use crate::math::floor_sqrt;
use crate::math::integer_sqrt_u128;
use crate::math::lemma_floor_sqrt_unique;
use crate::math::percent_mul;
use crate::math::percent_mul_spec;
use crate::state::AmmState;
use crate::state::burn_from;
use crate::state::try_mint;
use crate::state::try_native_mint;
use crate::state::try_native_transfer;
use crate::state::try_transfer;
use crate::transitions::add_liquidity_tr;
use crate::transitions::check_user_balances_spec;
use crate::transitions::create_pool_tr;
use crate::transitions::get_price_spec;
use crate::transitions::order_spec;
use crate::transitions::remove_liquidity_tr;
use crate::transitions::remove_pool_tr;
use crate::transitions::setup_account_tr;
use crate::transitions::setup_assets_tr;
use crate::transitions::swap_exact_in_tr;
use crate::transitions::swap_in_for_exact_out_tr;
use crate::types::Config;
use crate::types::DispatchResult;
use crate::types::Error;
use crate::types::Event;

verus! {

broadcast use vstd::std_specs::hash::group_hash_axioms;

/// The exchange: configuration, pool registry, ledgers, and event log.
pub struct Pallet {
    config: Config,
    pools: HashMap<u128, u64>,
    created: HashMap<u64, u64>,
    balances: HashMap<u128, u128>,
    issuance: HashMap<u64, u128>,
    native: HashMap<u64, u128>,
    events: Vec<Event>,
}

impl View for Pallet {
    type V = AmmState;

    closed spec fn view(&self) -> AmmState {
        AmmState {
            fee_percentage: self.config.fee_percentage,
            pool_deposit: self.config.pool_deposit,
            pools: self.pools@,
            created: self.created@,
            balances: self.balances@,
            issuance: self.issuance@,
            native: self.native@,
            events: self.events@,
        }
    }
}

impl Pallet {
    /// A freshly constructed exchange with the given configuration and
    /// nothing registered, created, or owned.
    pub fn new(config: Config) -> (r: Pallet)
        requires
            config.fee_percentage <= 100,
        ensures
            r@ == AmmState::init(config.fee_percentage, config.pool_deposit),
            r@.wf(),
    {
        let p = Pallet {
            config,
            pools: HashMap::new(),
            created: HashMap::new(),
            balances: HashMap::new(),
            issuance: HashMap::new(),
            native: HashMap::new(),
            events: Vec::new(),
        };
        proof {
            assert(p@ =~= AmmState::init(config.fee_percentage, config.pool_deposit));
        }
        p
    }

    /// Balance of `account` in the fungible asset `asset`; zero where the
    /// account never held it.
    pub fn balance_of(&self, asset: u64, account: u64) -> (r: u128)
        ensures
            r == self@.balance_of(asset, account),
    {
        let k = pack_key(asset, account);
        match self.balances.get(&k) {
            Some(v) => *v,
            None => 0,
        }
    }

    /// Total issuance of the fungible asset `asset`.
    pub fn total_issuance(&self, asset: u64) -> (r: u128)
        ensures
            r == self@.issuance_of(asset),
    {
        match self.issuance.get(&asset) {
            Some(v) => *v,
            None => 0,
        }
    }

    /// Native-currency balance of `account`.
    pub fn native_balance_of(&self, account: u64) -> (r: u128)
        ensures
            r == self@.native_of(account),
    {
        match self.native.get(&account) {
            Some(v) => *v,
            None => 0,
        }
    }

    /// Whether the asset class `asset` has been created.
    pub fn asset_exists(&self, asset: u64) -> (r: bool)
        ensures
            r == self@.asset_exists(asset),
    {
        self.created.contains_key(&asset)
    }

    /// Whether a pool is registered for the canonical pair (high, low).
    pub fn pool_exists(&self, high: u64, low: u64) -> (r: bool)
        ensures
            r == self@.has_pool(high, low),
    {
        let k = pack_key(high, low);
        self.pools.contains_key(&k)
    }

    /// The events emitted so far, oldest first.
    pub fn events(&self) -> (r: &Vec<Event>)
        ensures
            r@ == self@.events,
    {
        &self.events
    }

    /// The swap fee, in whole percent.
    pub fn swap_fee(&self) -> (r: u16)
        requires
            self@.wf(),
        ensures
            r == self@.fee_percentage,
    {
        self.config.fee_percentage as u16
    }

    /// The account that administers assets the engine itself creates.
    pub fn account_id() -> (r: u64)
        ensures
            r == PALLET_ACCOUNT,
    {
        PALLET_ACCOUNT
    }

    /// The liquidity-share asset id derived from a canonical pair. The pair
    /// is taken as given; callers canonicalize first.
    pub fn create_liquidity_id(asset_a: u64, asset_b: u64) -> (r: u64)
        ensures
            r == share_asset_id(asset_a, asset_b),
    {
        derive_id(SHARE_DOMAIN, asset_a, asset_b)
    }

    /// The pool account derived from a canonical pair.
    pub fn generate_account_from_asset_id_pair(asset_a: u64, asset_b: u64) -> (r: u64)
        ensures
            r == pool_account_id(asset_a, asset_b),
    {
        derive_id(ACCOUNT_DOMAIN, asset_a, asset_b)
    }

    /// Integer square root of a balance: the largest `r` with
    /// `r * r <= balance`.
    pub fn get_sqrt_of_asset_balance(balance: u128) -> (r: u128)
        ensures
            r == floor_sqrt(balance as nat),
    {
        let r = integer_sqrt_u128(balance);
        proof {
            lemma_floor_sqrt_unique(balance as nat, r as nat);
        }
        r
    }

    fn set_balance(&mut self, asset: u64, account: u64, v: u128)
        ensures
            final(self)@ == old(self)@.with_balance(asset, account, v),
    {
        let k = pack_key(asset, account);
        self.balances.insert(k, v);
        proof {
            assert(self@ =~= old(self)@.with_balance(asset, account, v));
        }
    }

    fn set_issuance(&mut self, asset: u64, v: u128)
        ensures
            final(self)@ == old(self)@.with_issuance(asset, v),
    {
        self.issuance.insert(asset, v);
        proof {
            assert(self@ =~= old(self)@.with_issuance(asset, v));
        }
    }

    fn set_native(&mut self, account: u64, v: u128)
        ensures
            final(self)@ == old(self)@.with_native(account, v),
    {
        self.native.insert(account, v);
        proof {
            assert(self@ =~= old(self)@.with_native(account, v));
        }
    }

    fn register_pool(&mut self, high: u64, low: u64, account: u64)
        ensures
            final(self)@ == old(self)@.with_pool(high, low, account),
    {
        let k = pack_key(high, low);
        self.pools.insert(k, account);
        proof {
            assert(self@ =~= old(self)@.with_pool(high, low, account));
        }
    }

    fn unregister_pool(&mut self, high: u64, low: u64)
        ensures
            final(self)@ == old(self)@.without_pool(high, low),
    {
        let k = pack_key(high, low);
        self.pools.remove(&k);
        proof {
            assert(self@ =~= old(self)@.without_pool(high, low));
        }
    }

    fn set_created(&mut self, asset: u64, owner: u64)
        ensures
            final(self)@ == old(self)@.with_created(asset, owner),
    {
        self.created.insert(asset, owner);
        proof {
            assert(self@ =~= old(self)@.with_created(asset, owner));
        }
    }

    fn push_event(&mut self, e: Event)
        ensures
            final(self)@ == old(self)@.with_event(e),
    {
        self.events.push(e);
        proof {
            assert(self@ =~= old(self)@.with_event(e));
        }
    }

    /// Moves `amount` of `asset` between accounts, or refuses without any
    /// effect; see [`try_transfer`].
    fn do_transfer(&mut self, asset: u64, from: u64, to: u64, amount: u128) -> (r: Result<
        (),
        Error,
    >)
        ensures
            match try_transfer(old(self)@, asset, from, to, amount) {
                Ok(s2) => r is Ok && final(self)@ == s2,
                Err(e) => r == Err::<(), Error>(e) && final(self)@ == old(self)@,
            },
    {
        let bf = self.balance_of(asset, from);
        if bf < amount {
            return Err(Error::InsufficientBalance);
        }
        let nf = bf - amount;
        proof {
            if from != to {
                lemma_packed_key_distinct(asset, from, asset, to);
            }
        }
        let bt = if from == to {
            nf
        } else {
            self.balance_of(asset, to)
        };
        match bt.checked_add(amount) {
            None => Err(Error::ArithmeticOverflow),
            Some(nt) => {
                self.set_balance(asset, from, nf);
                self.set_balance(asset, to, nt);
                Ok(())
            },
        }
    }

    /// Creates new units of `asset` in `to`'s balance, or refuses without
    /// any effect; see [`try_mint`].
    fn do_mint(&mut self, asset: u64, to: u64, amount: u128) -> (r: Result<(), Error>)
        ensures
            match try_mint(old(self)@, asset, to, amount) {
                Ok(s2) => r is Ok && final(self)@ == s2,
                Err(e) => r == Err::<(), Error>(e) && final(self)@ == old(self)@,
            },
    {
        let iss = self.total_issuance(asset);
        let new_iss = match iss.checked_add(amount) {
            None => {
                return Err(Error::ArithmeticOverflow);
            },
            Some(v) => v,
        };
        let bal = self.balance_of(asset, to);
        match bal.checked_add(amount) {
            None => Err(Error::ArithmeticOverflow),
            Some(nb) => {
                self.set_issuance(asset, new_iss);
                self.set_balance(asset, to, nb);
                Ok(())
            },
        }
    }

    /// Destroys up to `amount` units of `asset` held by `from`; see
    /// [`burn_from`].
    fn do_burn(&mut self, asset: u64, from: u64, amount: u128)
        ensures
            final(self)@ == burn_from(old(self)@, asset, from, amount),
    {
        let bal = self.balance_of(asset, from);
        let burned = if amount <= bal {
            amount
        } else {
            bal
        };
        self.set_balance(asset, from, bal - burned);
        let iss = self.total_issuance(asset);
        let new_iss = if burned <= iss {
            iss - burned
        } else {
            0
        };
        self.set_issuance(asset, new_iss);
    }

    /// Moves native currency between accounts, or refuses without any
    /// effect; see [`try_native_transfer`].
    fn do_native_transfer(&mut self, from: u64, to: u64, amount: u128) -> (r: Result<(), Error>)
        ensures
            match try_native_transfer(old(self)@, from, to, amount) {
                Ok(s2) => r is Ok && final(self)@ == s2,
                Err(e) => r == Err::<(), Error>(e) && final(self)@ == old(self)@,
            },
    {
        let bf = self.native_balance_of(from);
        if bf < amount {
            return Err(Error::InsufficientBalance);
        }
        let nf = bf - amount;
        let bt = if from == to {
            nf
        } else {
            self.native_balance_of(to)
        };
        match bt.checked_add(amount) {
            None => Err(Error::ArithmeticOverflow),
            Some(nt) => {
                self.set_native(from, nf);
                self.set_native(to, nt);
                Ok(())
            },
        }
    }

    /// Creates native currency in `to`'s balance, or refuses without any
    /// effect; see [`try_native_mint`].
    fn do_native_mint(&mut self, to: u64, amount: u128) -> (r: Result<(), Error>)
        ensures
            match try_native_mint(old(self)@, to, amount) {
                Ok(s2) => r is Ok && final(self)@ == s2,
                Err(e) => r == Err::<(), Error>(e) && final(self)@ == old(self)@,
            },
    {
        let bal = self.native_balance_of(to);
        match bal.checked_add(amount) {
            None => Err(Error::ArithmeticOverflow),
            Some(nb) => {
                self.set_native(to, nb);
                Ok(())
            },
        }
    }

    fn clone_events(v: &Vec<Event>) -> (r: Vec<Event>)
        ensures
            r@ == v@,
    {
        let mut r: Vec<Event> = Vec::new();
        let mut i: usize = 0;
        while i < v.len()
            invariant
                i <= v.len(),
                r@ == v@.subrange(0, i as int),
            decreases v.len() - i,
        {
            r.push(v[i]);
            i += 1;
        }
        proof {
            assert(r@ =~= v@);
        }
        r
    }

    /// Orders an asset pair so that the larger canonical encoding comes
    /// first, permuting the associated amounts identically; refuses an
    /// identical pair. `order_asset_ids(a, b, x, y)` and
    /// `order_asset_ids(b, a, y, x)` agree.
    pub fn order_asset_ids(asset_a: u64, asset_b: u64, amount_a: u128, amount_b: u128) -> (r:
        Result<(u64, u64, u128, u128), Error>)
        ensures
            r == order_spec(asset_a, asset_b, amount_a, amount_b),
    {
        if asset_a == asset_b {
            return Err(Error::IdenticalAssets);
        }
        if asset_a > asset_b {
            Ok((asset_a, asset_b, amount_a, amount_b))
        } else {
            Ok((asset_b, asset_a, amount_b, amount_a))
        }
    }

    /// The caller must hold both amounts, and both must be nonzero.
    fn check_user_balances(
        &self,
        who: u64,
        asset_high: u64,
        asset_low: u64,
        amount_high: u128,
        amount_low: u128,
    ) -> (r: Result<(), Error>)
        ensures
            r == check_user_balances_spec(self@, who, asset_high, asset_low, amount_high, amount_low),
    {
        if self.balance_of(asset_high, who) < amount_high {
            return Err(Error::InsufficientBalance);
        }
        if self.balance_of(asset_low, who) < amount_low {
            return Err(Error::InsufficientBalance);
        }
        if amount_high == 0 {
            return Err(Error::ZeroAmount);
        }
        if amount_low == 0 {
            return Err(Error::ZeroAmount);
        }
        Ok(())
    }

    /// Moves both assets of a pair from one account to another, in order:
    /// the high asset, then the low one. Refuses without effect when the
    /// first transfer refuses; see the transition functions for the split.
    fn transfer_assets_a_and_b(
        &mut self,
        from: u64,
        dest: u64,
        asset_a: u64,
        asset_b: u64,
        amount_a: u128,
        amount_b: u128,
    ) -> (r: Result<(), Error>)
        ensures
            match try_transfer(old(self)@, asset_a, from, dest, amount_a) {
                Err(e) => r == Err::<(), Error>(e) && final(self)@ == old(self)@,
                Ok(s1) => match try_transfer(s1, asset_b, from, dest, amount_b) {
                    Err(e) => r == Err::<(), Error>(e) && final(self)@ == s1,
                    Ok(s2) => r is Ok && final(self)@ == s2,
                },
            },
    {
        match self.do_transfer(asset_a, from, dest, amount_a) {
            Err(e) => {
                return Err(e);
            },
            Ok(()) => {},
        }
        match self.do_transfer(asset_b, from, dest, amount_b) {
            Err(e) => {
                return Err(e);
            },
            Ok(()) => {},
        }
        Ok(())
    }

    /// Creates a liquidity pool for a distinct pair of assets, funded with
    /// the two given amounts: registers the derived pool account, binds the
    /// native deposit to it, moves both amounts in, and mints
    /// `floor(sqrt(amount_high * amount_low))` shares to the caller.
    /// Refuses, leaving the state unchanged, exactly as
    /// [`create_pool_tr`] says.
    pub fn create_pool(
        &mut self,
        who: u64,
        asset_a: u64,
        asset_b: u64,
        amount_a: u128,
        amount_b: u128,
    ) -> (r: DispatchResult)
        requires
            old(self)@.wf(),
        ensures
            ({
                let (s_next, res) = create_pool_tr(
                    old(self)@,
                    who,
                    asset_a,
                    asset_b,
                    amount_a,
                    amount_b,
                );
                final(self)@ == s_next && r == res
            }),
            final(self)@.wf(),
    {
        let (h, l, xh, xl) = match Self::order_asset_ids(asset_a, asset_b, amount_a, amount_b) {
            Err(e) => {
                return Err(e);
            },
            Ok(t) => t,
        };
        match self.check_user_balances(who, h, l, xh, xl) {
            Err(e) => {
                return Err(e);
            },
            Ok(()) => {},
        }
        let lp = Self::create_liquidity_id(h, l);
        let product = match xh.checked_mul(xl) {
            None => {
                return Err(Error::ArithmeticOverflow);
            },
            Some(p) => p,
        };
        let shares = Self::get_sqrt_of_asset_balance(product);
        if self.pool_exists(h, l) {
            return Err(Error::PoolAlreadyExists);
        }
        let pool = Self::generate_account_from_asset_id_pair(h, l);
        let deposit = self.config.pool_deposit;
        let mut st = self.snapshot();
        match st.do_native_transfer(who, pool, deposit) {
            Err(e) => {
                return Err(e);
            },
            Ok(()) => {},
        }
        st.register_pool(h, l, pool);
        st.push_event(Event::PoolCreated { asset_a: h, asset_b: l, liquidity_id: lp });
        match st.transfer_assets_a_and_b(who, pool, h, l, xh, xl) {
            Err(e) => {
                return Err(e);
            },
            Ok(()) => {},
        }
        if !st.asset_exists(lp) {
            st.set_created(lp, PALLET_ACCOUNT);
        }
        match st.do_mint(lp, who, shares) {
            Err(e) => {
                return Err(e);
            },
            Ok(()) => {},
        }
        *self = st;
        Ok(())
    }

    /// Deposits into an existing, non-empty pool and mints
    /// `min(floor(amount_high * total / reserve_high),
    ///      floor(amount_low * total / reserve_low))`
    /// shares to the caller; over-supplying one side donates the excess to
    /// the pool. Refuses, leaving the state unchanged, exactly as
    /// [`add_liquidity_tr`] says.
    pub fn add_liquidity(
        &mut self,
        who: u64,
        asset_a: u64,
        asset_b: u64,
        amount_a: u128,
        amount_b: u128,
    ) -> (r: DispatchResult)
        requires
            old(self)@.wf(),
        ensures
            ({
                let (s_next, res) = add_liquidity_tr(
                    old(self)@,
                    who,
                    asset_a,
                    asset_b,
                    amount_a,
                    amount_b,
                );
                final(self)@ == s_next && r == res
            }),
            final(self)@.wf(),
    {
        let (h, l, xh, xl) = match Self::order_asset_ids(asset_a, asset_b, amount_a, amount_b) {
            Err(e) => {
                return Err(e);
            },
            Ok(t) => t,
        };
        match self.check_user_balances(who, h, l, xh, xl) {
            Err(e) => {
                return Err(e);
            },
            Ok(()) => {},
        }
        let lp = Self::create_liquidity_id(h, l);
        if !self.pool_exists(h, l) {
            return Err(Error::PoolDoesNotExist);
        }
        let pool = Self::generate_account_from_asset_id_pair(h, l);
        let reserve_h = self.balance_of(h, pool);
        let reserve_l = self.balance_of(l, pool);
        if reserve_h == 0 || reserve_l == 0 {
            return Err(Error::EmptyPool);
        }
        let total = self.total_issuance(lp);
        let in_reserves_h = match xh.checked_mul(total) {
            None => {
                return Err(Error::ArithmeticOverflow);
            },
            Some(v) => v,
        };
        let shares_h = in_reserves_h / reserve_h;
        let in_reserves_l = match xl.checked_mul(total) {
            None => {
                return Err(Error::ArithmeticOverflow);
            },
            Some(v) => v,
        };
        let shares_l = in_reserves_l / reserve_l;
        let shares = if shares_h <= shares_l {
            shares_h
        } else {
            shares_l
        };
        let mut st = self.snapshot();
        st.push_event(Event::LiquidityAdded { asset_a: h, asset_b: l, liquidity_id: lp });
        match st.transfer_assets_a_and_b(who, pool, h, l, xh, xl) {
            Err(e) => {
                return Err(e);
            },
            Ok(()) => {},
        }
        match st.do_mint(lp, who, shares) {
            Err(e) => {
                return Err(e);
            },
            Ok(()) => {},
        }
        *self = st;
        Ok(())
    }

    /// Redeems `amount_liq` shares for `floor(reserve * amount_liq / total)`
    /// of each reserve; each side must reach the caller's stated minimum,
    /// and the shares are burned. Refuses, leaving the state unchanged,
    /// exactly as [`remove_liquidity_tr`] says.
    pub fn remove_liquidity(
        &mut self,
        who: u64,
        asset_a: u64,
        asset_b: u64,
        min_amount_a: u128,
        min_amount_b: u128,
        amount_liq: u128,
    ) -> (r: DispatchResult)
        requires
            old(self)@.wf(),
        ensures
            ({
                let (s_next, res) = remove_liquidity_tr(
                    old(self)@,
                    who,
                    asset_a,
                    asset_b,
                    min_amount_a,
                    min_amount_b,
                    amount_liq,
                );
                final(self)@ == s_next && r == res
            }),
            final(self)@.wf(),
    {
        let (h, l, min_h, min_l) = match Self::order_asset_ids(
            asset_a,
            asset_b,
            min_amount_a,
            min_amount_b,
        ) {
            Err(e) => {
                return Err(e);
            },
            Ok(t) => t,
        };
        let lp = Self::create_liquidity_id(h, l);
        if self.balance_of(lp, who) < amount_liq {
            return Err(Error::NotEnoughLiquidityTokens);
        }
        if amount_liq == 0 {
            return Err(Error::ZeroAmount);
        }
        if !self.pool_exists(h, l) {
            return Err(Error::PoolDoesNotExist);
        }
        let pool = Self::generate_account_from_asset_id_pair(h, l);
        let reserve_h = self.balance_of(h, pool);
        let reserve_l = self.balance_of(l, pool);
        let total = self.total_issuance(lp);
        let res_h = match reserve_h.checked_mul(amount_liq) {
            None => {
                return Err(Error::ArithmeticOverflow);
            },
            Some(v) => v,
        };
        let res_l = match reserve_l.checked_mul(amount_liq) {
            None => {
                return Err(Error::ArithmeticOverflow);
            },
            Some(v) => v,
        };
        let out_h = match res_h.checked_div(total) {
            None => {
                return Err(Error::ArithmeticUnderflow);
            },
            Some(v) => v,
        };
        let out_l = match res_l.checked_div(total) {
            None => {
                return Err(Error::ArithmeticUnderflow);
            },
            Some(v) => v,
        };
        if out_h < min_h {
            return Err(Error::NotEnoughAssetsA);
        }
        if out_l < min_l {
            return Err(Error::NotEnoughAssetsB);
        }
        let mut st = self.snapshot();
        match st.transfer_assets_a_and_b(pool, who, h, l, out_h, out_l) {
            Err(e) => {
                return Err(e);
            },
            Ok(()) => {},
        }
        st.do_burn(lp, who, amount_liq);
        st.push_event(
            Event::LiquidityRemoved { asset_a: h, asset_b: l, liquidity_id: lp, amount_liq },
        );
        *self = st;
        Ok(())
    }

    /// Removes a pool whose whole share issuance the caller owns: pays out
    /// both reserves, burns all shares, releases the native deposit, and
    /// deletes the registry entry so the pair can be created again.
    /// Refuses, leaving the state unchanged, exactly as
    /// [`remove_pool_tr`] says.
    pub fn remove_pool(&mut self, who: u64, asset_a: u64, asset_b: u64) -> (r: DispatchResult)
        requires
            old(self)@.wf(),
        ensures
            ({
                let (s_next, res) = remove_pool_tr(old(self)@, who, asset_a, asset_b);
                final(self)@ == s_next && r == res
            }),
            final(self)@.wf(),
    {
        let (h, l, _x, _y) = match Self::order_asset_ids(asset_a, asset_b, 0, 0) {
            Err(e) => {
                return Err(e);
            },
            Ok(t) => t,
        };
        let lp = Self::create_liquidity_id(h, l);
        if !self.pool_exists(h, l) {
            return Err(Error::PoolDoesNotExist);
        }
        let pool = Self::generate_account_from_asset_id_pair(h, l);
        let reserve_h = self.balance_of(h, pool);
        let reserve_l = self.balance_of(l, pool);
        let total = self.total_issuance(lp);
        if self.balance_of(lp, who) < total {
            return Err(Error::NotEnoughLiquidityTokens);
        }
        let deposit = self.config.pool_deposit;
        let mut st = self.snapshot();
        match st.transfer_assets_a_and_b(pool, who, h, l, reserve_h, reserve_l) {
            Err(e) => {
                return Err(e);
            },
            Ok(()) => {},
        }
        st.do_burn(lp, who, total);
        match st.do_native_transfer(pool, who, deposit) {
            Err(e) => {
                return Err(e);
            },
            Ok(()) => {},
        }
        st.unregister_pool(h, l);
        st.push_event(Event::PoolRemoved { asset_a: h, asset_b: l, liquidity_id: lp });
        *self = st;
        Ok(())
    }

    /// Swaps an exact input for at least `min_out` of the output asset: the
    /// fee is taken from the input before the constant-product invariant is
    /// applied. Refuses, leaving the state unchanged, exactly as
    /// [`swap_exact_in_tr`] says.
    pub fn swap_exact_in_for_out(
        &mut self,
        who: u64,
        asset_in: u64,
        asset_out: u64,
        exact_in: u128,
        min_out: u128,
    ) -> (r: DispatchResult)
        requires
            old(self)@.wf(),
        ensures
            ({
                let (s_next, res) = swap_exact_in_tr(
                    old(self)@,
                    who,
                    asset_in,
                    asset_out,
                    exact_in,
                    min_out,
                );
                final(self)@ == s_next && r == res
            }),
            final(self)@.wf(),
    {
        let (h, l, _x, _y) = match Self::order_asset_ids(asset_in, asset_out, 0, 0) {
            Err(e) => {
                return Err(e);
            },
            Ok(t) => t,
        };
        if !self.pool_exists(h, l) {
            return Err(Error::PoolDoesNotExist);
        }
        let pool = Self::generate_account_from_asset_id_pair(h, l);
        if self.balance_of(asset_in, who) < exact_in {
            return Err(Error::InsufficientBalance);
        }
        let eff = percent_mul(100 - self.config.fee_percentage, exact_in);
        let pbi = self.balance_of(asset_in, pool);
        let pbo = self.balance_of(asset_out, pool);
        let part1 = match pbi.checked_mul(pbo) {
            None => {
                return Err(Error::ArithmeticOverflow);
            },
            Some(v) => v,
        };
        let part2 = match pbi.checked_add(eff) {
            None => {
                return Err(Error::ArithmeticOverflow);
            },
            Some(v) => v,
        };
        let part3 = match part1.checked_div(part2) {
            None => {
                return Err(Error::ArithmeticUnderflow);
            },
            Some(v) => v,
        };
        let amount_out = match pbo.checked_sub(part3) {
            None => {
                return Err(Error::ArithmeticUnderflow);
            },
            Some(v) => v,
        };
        if amount_out < min_out {
            return Err(Error::SlippageExceeded);
        }
        let mut st = self.snapshot();
        match st.do_transfer(asset_in, who, pool, exact_in) {
            Err(e) => {
                return Err(e);
            },
            Ok(()) => {},
        }
        match st.do_transfer(asset_out, pool, who, amount_out) {
            Err(e) => {
                return Err(e);
            },
            Ok(()) => {},
        }
        *self = st;
        Ok(())
    }

    /// Swaps at most `max_in` of the input asset for an exact output: the
    /// constant-product invariant is solved for the pre-fee input and the
    /// fee is added on top. Refuses, leaving the state unchanged, exactly
    /// as [`swap_in_for_exact_out_tr`] says.
    pub fn swap_in_for_exact_out(
        &mut self,
        who: u64,
        asset_in: u64,
        asset_out: u64,
        max_in: u128,
        exact_out: u128,
    ) -> (r: DispatchResult)
        requires
            old(self)@.wf(),
        ensures
            ({
                let (s_next, res) = swap_in_for_exact_out_tr(
                    old(self)@,
                    who,
                    asset_in,
                    asset_out,
                    max_in,
                    exact_out,
                );
                final(self)@ == s_next && r == res
            }),
            final(self)@.wf(),
    {
        let (h, l, _x, _y) = match Self::order_asset_ids(asset_in, asset_out, 0, 0) {
            Err(e) => {
                return Err(e);
            },
            Ok(t) => t,
        };
        if !self.pool_exists(h, l) {
            return Err(Error::PoolDoesNotExist);
        }
        let pool = Self::generate_account_from_asset_id_pair(h, l);
        if self.balance_of(asset_in, who) < max_in {
            return Err(Error::InsufficientBalance);
        }
        let pbi = self.balance_of(asset_in, pool);
        let pbo = self.balance_of(asset_out, pool);
        if pbo <= exact_out {
            return Err(Error::RequestedExceedsPoolBalance);
        }
        let part1 = match pbi.checked_mul(pbo) {
            None => {
                return Err(Error::ArithmeticOverflow);
            },
            Some(v) => v,
        };
        let part2 = pbo - exact_out;
        let part3 = part1 / part2;
        let before_fee = match part3.checked_sub(pbi) {
            None => {
                return Err(Error::ArithmeticUnderflow);
            },
            Some(v) => v,
        };
        let fee = percent_mul(self.config.fee_percentage, before_fee);
        let amount_in = match before_fee.checked_add(fee) {
            None => {
                return Err(Error::ArithmeticOverflow);
            },
            Some(v) => v,
        };
        if amount_in > max_in {
            return Err(Error::SlippageExceeded);
        }
        let mut st = self.snapshot();
        match st.do_transfer(asset_in, who, pool, amount_in) {
            Err(e) => {
                return Err(e);
            },
            Ok(()) => {},
        }
        match st.do_transfer(asset_out, pool, who, exact_out) {
            Err(e) => {
                return Err(e);
            },
            Ok(()) => {},
        }
        *self = st;
        Ok(())
    }

    /// Quotes `floor(amount_in * reserve_out / reserve_in)` for a pair with
    /// a registered pool: fee-free, and the state is not changed.
    pub fn get_price(&self, asset_in: u64, asset_out: u64, amount_in: u128) -> (r: Result<
        u128,
        Error,
    >)
        ensures
            r == get_price_spec(self@, asset_in, asset_out, amount_in),
    {
        let (h, l, _x, _y) = match Self::order_asset_ids(asset_in, asset_out, 0, 0) {
            Err(e) => {
                return Err(e);
            },
            Ok(t) => t,
        };
        if !self.pool_exists(h, l) {
            return Err(Error::PoolDoesNotExist);
        }
        let pool = Self::generate_account_from_asset_id_pair(h, l);
        let pbi = self.balance_of(asset_in, pool);
        let pbo = self.balance_of(asset_out, pool);
        let part1 = match amount_in.checked_mul(pbo) {
            None => {
                return Err(Error::ArithmeticOverflow);
            },
            Some(v) => v,
        };
        match part1.checked_div(pbi) {
            None => Err(Error::ArithmeticOverflow),
            Some(v) => Ok(v),
        }
    }

    /// Funds an account: mints the native amount, creates each listed asset
    /// that does not exist yet, and mints the listed amounts, atomically.
    pub fn setup_account(&mut self, who: u64, native_balance: u128, assets: Vec<(u64, u128)>) -> (r:
        DispatchResult)
        requires
            old(self)@.wf(),
        ensures
            ({
                let (s_next, res) = setup_account_tr(old(self)@, who, native_balance, assets@);
                final(self)@ == s_next && r == res
            }),
            final(self)@.wf(),
    {
        let mut st = self.snapshot();
        match st.do_native_mint(who, native_balance) {
            Err(e) => {
                return Err(e);
            },
            Ok(()) => {},
        }
        let ghost s_funded = st@;
        proof {
            assert(assets@.skip(0) =~= assets@);
        }
        let mut i: usize = 0;
        while i < assets.len()
            invariant
                i <= assets.len(),
                *self == *old(self),
                old(self)@.wf(),
                try_native_mint(old(self)@, who, native_balance) == Ok::<AmmState, Error>(s_funded),
                st@.fee_percentage == old(self)@.fee_percentage,
                setup_assets_tr(st@, who, assets@.skip(i as int)) == setup_assets_tr(
                    s_funded,
                    who,
                    assets@,
                ),
            decreases assets.len() - i,
        {
            proof {
                assert(assets@.skip(i as int).len() == assets@.len() - i);
                assert(assets@.skip(i as int)[0] == assets@[i as int]);
                assert(assets@.skip(i as int).drop_first() =~= assets@.skip(i as int + 1));
            }
            let (asset, amount) = assets[i];
            if !st.asset_exists(asset) {
                st.set_created(asset, PALLET_ACCOUNT);
            }
            match st.do_mint(asset, who, amount) {
                Err(e) => {
                    return Err(e);
                },
                Ok(()) => {},
            }
            i += 1;
        }
        proof {
            assert(assets@.skip(i as int) =~= Seq::<(u64, u128)>::empty());
        }
        *self = st;
        Ok(())
    }

    /// A working copy with the same observable state; operations stage
    /// their effects on a copy and commit it only when every step has
    /// succeeded, which keeps each operation all-or-nothing.
    fn snapshot(&self) -> (r: Pallet)
        ensures
            r@ == self@,
    {
        let r = Pallet {
            config: Config {
                fee_percentage: self.config.fee_percentage,
                pool_deposit: self.config.pool_deposit,
            },
            pools: self.pools.clone(),
            created: self.created.clone(),
            balances: self.balances.clone(),
            issuance: self.issuance.clone(),
            native: self.native.clone(),
            events: Self::clone_events(&self.events),
        };
        proof {
            assert(r@ =~= self@);
        }
        r
    }
}

} // verus!
