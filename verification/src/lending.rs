//! The POWER lending pool: lenders put card POWER on offer, borrowers take it
//! against a card as collateral, and an APY driven by utilization prices it.
use vstd::prelude::*;
use crate::types::{AccountId, ActionKey, Category, TokenId};
use crate::book::Record;

verus! {

/// An open lending.
#[derive(Clone, Copy, Debug, PartialEq, Eq, Structural)]
pub struct Lending {
    pub lender: AccountId,
    pub category: Category,
    pub token_id: TokenId,
    pub power: u32,
    pub lent_at: u64,
}

impl Record for Lending {
    open spec fn rkey(&self) -> ActionKey {
        ActionKey { owner: self.lender, category: self.category, token_id: self.token_id }
    }

    fn key(&self) -> (k: ActionKey) {
        ActionKey { owner: self.lender, category: self.category, token_id: self.token_id }
    }
}

/// An open borrowing.
#[derive(Clone, Copy, Debug, PartialEq, Eq, Structural)]
pub struct Borrowing {
    pub borrower: AccountId,
    pub category: Category,
    pub token_id: TokenId,
    pub power: u32,
    pub borrowed_at: u64,
}

impl Record for Borrowing {
    open spec fn rkey(&self) -> ActionKey {
        ActionKey { owner: self.borrower, category: self.category, token_id: self.token_id }
    }

    fn key(&self) -> (k: ActionKey) {
        ActionKey { owner: self.borrower, category: self.category, token_id: self.token_id }
    }
}

/// What a borrow of a given size would cost and whether it would be allowed.
/// `reason`: 0 allowed, 1 zero amount, 2 no liquidity, 3 exceeds collateral,
/// 4 invalid horizon.
#[derive(Clone, Copy, Debug, PartialEq, Eq, Structural)]
pub struct BorrowQuote {
    pub allowed: bool,
    pub reason: u32,
    pub apy: u64,
    pub fee: u32,
    pub reserve: u64,
    pub buffer: u64,
    pub borrow_net: u32,
    pub max_suggested_gross: u32,
}

/// What repaying a borrowing would take now.
#[derive(Clone, Copy, Debug, PartialEq, Eq, Structural)]
pub struct RepayQuote {
    pub required_power: u32,
    pub user_power: u32,
    pub collateral_power: u32,
    pub total_available: u32,
    pub sufficient: bool,
}

} // verus!

verus! {

use crate::types::{Action, Card, Category as Cat, State, Balance, BorrowMeta};
use crate::error::NFTError;
use crate::event::{Event, Lend, Borrow, Step};
use crate::ledger::{Ledger, LedgerV};
use crate::math::{
    sat_add_u64_spec, sat_mul_u64_spec, sat_sub_spec, sat_mul_u64, sat_mul_u32, min_int,
    fits_u32, fits_u64, add_u32, add_u64,
};

/// The pool after loan-time accrues for the seconds since its last update.
pub open spec fn accrue_spec(st: State, now: u64) -> State {
    let dt = sat_sub_spec(now as int, st.last_update_ts as int);
    State {
        borrowed_time_seconds: sat_add_u64_spec(st.borrowed_time_seconds as int, sat_mul_u64_spec(st.total_borrowed_power as int, dt)) as u64,
        loans_time_seconds: sat_add_u64_spec(st.loans_time_seconds as int, sat_mul_u64_spec(st.active_loans as int, dt)) as u64,
        last_update_ts: now,
        ..st
    }
}

pub fn accrue(st: State, now: u64) -> (r: State)
    ensures
        r == accrue_spec(st, now),
{
    let dt: u64 = now.saturating_sub(st.last_update_ts);
    let mut r = st;
    r.borrowed_time_seconds = st.borrowed_time_seconds.saturating_add(sat_mul_u64(st.total_borrowed_power, dt));
    r.loans_time_seconds = st.loans_time_seconds.saturating_add(sat_mul_u64(st.active_loans, dt));
    r.last_update_ts = now;
    r
}

/// The fee in POWER of an action moving `power`: `power * power_action_fee / 100`,
/// the product capped at `u32::MAX`.
pub open spec fn action_fee_spec(power: u32, pct: u32) -> u32 {
    (min_int(power * pct, u32::MAX as int) / 100) as u32
}

pub open spec fn lends_category(c: Cat) -> bool {
    c == Cat::Resource || c == Cat::Leader
}

impl LedgerV {
    pub open spec fn lend_err(self, user: AccountId, category: Cat, token_id: TokenId, power: u32, now: u64) -> Option<NFTError> {
        let owner = self.owner_of(user);
        match self.config {
            None => Some(NFTError::NotInitialized),
            Some(c) => {
                let fee = action_fee_spec(power, c.power_action_fee);
                let amount = sat_sub_spec(power as int, fee as int);
                let st1 = accrue_spec(self.pool(now), now);
                if !lends_category(category) {
                    Some(NFTError::InvalidCategory)
                } else {
                    match self.card(owner, token_id) {
                        None => Some(NFTError::NotNFT),
                        Some(nft) => if nft.locked_by_action != Action::Idle {
                            Some(NFTError::CardLocked)
                        } else if nft.power < power {
                            Some(NFTError::InsufficientPower)
                        } else if !fits_u32(self.balance.haw_ai_power + fee) {
                            Some(NFTError::Overflow)
                        } else if !fits_u64(st1.total_offer + amount) {
                            Some(NFTError::Overflow)
                        } else if self.mint_terry_err(owner, c.terry_per_lending) is Some {
                            self.mint_terry_err(owner, c.terry_per_lending)
                        } else {
                            self.haw_terry_err(c.terry_per_lending, c.haw_ai_percentage)
                        },
                    }
                }
            },
        }
    }

    /// The ledger after `user` lends `power` of a card: the card is locked and emptied of
    /// `power`, the fee goes to the house, the rest joins the pool's offer.
    pub open spec fn lend_post(self, user: AccountId, category: Cat, token_id: TokenId, power: u32, now: u64) -> LedgerV {
        let owner = self.owner_of(user);
        let c = self.config->0;
        let nft = self.card(owner, token_id)->0;
        let fee = action_fee_spec(power, c.power_action_fee);
        let amount = sat_sub_spec(power as int, fee as int);
        let st1 = accrue_spec(self.pool(now), now);
        let s1 = self.set_pool(st1);
        let s2 = s1.put_card(owner, token_id, Card { power: (nft.power - power) as u32, locked_by_action: Action::Lend });
        let s3 = s2.with_balance(Balance { haw_ai_power: (s2.balance.haw_ai_power + fee) as u32, ..s2.balance });
        let s4 = s3.set_pool(State { total_offer: (st1.total_offer + amount) as u64, ..st1 });
        let k = ActionKey { owner: s4.owner_of(owner), category, token_id };
        let rec = Lending { lender: owner, category, token_id, power: amount as u32, lent_at: now };
        let s5 = LedgerV { lendings: s4.lendings.write_spec(k, rec, s4.pages_only), ..s4 };
        let s6 = s5.emit(Event::Lend(Lend { action: Step::Open, player: owner, owner, category, token_id }));
        let s7 = s6.mint_terry_post(owner, c.terry_per_lending);
        s7.haw_terry_post(c.terry_per_lending, c.haw_ai_percentage)
    }
}

impl Ledger {
    /// Stores a lending under `user`'s owner.
    pub fn write_lending(&mut self, user: AccountId, category: Cat, token_id: TokenId, lending: Lending)
        requires
            old(self).wf(),
            old(self)@.lendings.index.len() < u32::MAX,
            old(self)@.lendings.legacy_or_empty().len() < u32::MAX,
        ensures
            final(self).wf(),
            final(self)@ == (LedgerV {
                lendings: old(self)@.lendings.write_spec(
                    ActionKey { owner: old(self)@.owner_of(user), category, token_id },
                    lending,
                    old(self)@.pages_only,
                ),
                ..old(self)@
            }),
    {
        let owner = self.owner_of(&user);
        let po = self.pages_only;
        self.lendings.write(ActionKey { owner, category, token_id }, lending, po);
    }

    pub fn read_lending(&self, user: AccountId, category: Cat, token_id: TokenId) -> (r: Result<Lending, NFTError>)
        requires
            self.wf(),
        ensures
            match r {
                Ok(l) => self@.lendings.get(ActionKey { owner: self@.owner_of(user), category, token_id }) == Some(l),
                Err(e) => self@.lendings.get(ActionKey { owner: self@.owner_of(user), category, token_id }) is None
                    && e == NFTError::RecordNotFound,
            },
    {
        let owner = self.owner_of(&user);
        match self.lendings.read(&ActionKey { owner, category, token_id }) {
            Some(l) => Ok(l),
            None => Err(NFTError::RecordNotFound),
        }
    }

    pub fn remove_lending(&mut self, user: AccountId, category: Cat, token_id: TokenId)
        requires
            old(self).wf(),
        ensures
            final(self).wf(),
            final(self)@ == (LedgerV {
                lendings: old(self)@.lendings.remove_spec(
                    ActionKey { owner: old(self)@.owner_of(user), category, token_id },
                    old(self)@.pages_only,
                ),
                ..old(self)@
            }),
    {
        let owner = self.owner_of(&user);
        let po = self.pages_only;
        self.lendings.remove(&ActionKey { owner, category, token_id }, po);
    }

    pub fn read_lendings(&self) -> (r: Vec<Lending>)
        requires
            self.wf(),
        ensures
            r@ == self.lendings.all_spec(self@.pages_only),
    {
        self.lendings.read_all(self.pages_only)
    }

    pub fn read_lendings_count(&self) -> (n: u32)
        requires
            self.wf(),
        ensures
            n == self.lendings.count_spec(self@.pages_only),
    {
        self.lendings.count(self.pages_only)
    }

    pub fn read_lendings_page(&self, cursor: u32, limit: u32) -> (r: Vec<ActionKey>)
        requires
            self.wf(),
        ensures
            r@ == self.lendings.page_spec(cursor, limit, self@.pages_only),
    {
        self.lendings.page(cursor, limit, self.pages_only)
    }

    pub fn migrate_lendings_to_pages(&mut self, start: u32, limit: u32) -> (next: u32)
        requires
            old(self).wf(),
            old(self).lendings.index().len() + old(self).lendings.all_spec(old(self)@.pages_only).len() <= u32::MAX,
        ensures
            final(self).wf(),
            next == crate::book::migrate_end(old(self).lendings.all_spec(old(self)@.pages_only).len() as int, start, limit),
            final(self)@ == (LedgerV { lendings: final(self)@.lendings, ..old(self)@ }),
            final(self)@.lendings.records == old(self)@.lendings.records,
            final(self)@.lendings.legacy == old(self)@.lendings.legacy,
            final(self)@.lendings.index == crate::book::migrate_index(
                old(self)@.lendings.index,
                crate::book::keys_of(
                    old(self).lendings.all_spec(old(self)@.pages_only).subrange(
                        if start >= old(self).lendings.all_spec(old(self)@.pages_only).len() {
                            old(self).lendings.all_spec(old(self)@.pages_only).len() as int
                        } else {
                            start as int
                        },
                        next as int,
                    ),
                ),
            ),
    {
        let po = self.pages_only;
        self.lendings.migrate(start, limit, po)
    }

    /// Stores a borrowing under `user`'s owner.
    pub fn write_borrowing(&mut self, user: AccountId, category: Cat, token_id: TokenId, borrowing: Borrowing)
        requires
            old(self).wf(),
            old(self)@.borrowings.index.len() < u32::MAX,
            old(self)@.borrowings.legacy_or_empty().len() < u32::MAX,
        ensures
            final(self).wf(),
            final(self)@ == (LedgerV {
                borrowings: old(self)@.borrowings.write_spec(
                    ActionKey { owner: old(self)@.owner_of(user), category, token_id },
                    borrowing,
                    old(self)@.pages_only,
                ),
                ..old(self)@
            }),
    {
        let owner = self.owner_of(&user);
        let po = self.pages_only;
        self.borrowings.write(ActionKey { owner, category, token_id }, borrowing, po);
    }

    pub fn read_borrowing(&self, user: AccountId, category: Cat, token_id: TokenId) -> (r: Result<Borrowing, NFTError>)
        requires
            self.wf(),
        ensures
            match r {
                Ok(b) => self@.borrowings.get(ActionKey { owner: self@.owner_of(user), category, token_id }) == Some(b),
                Err(e) => self@.borrowings.get(ActionKey { owner: self@.owner_of(user), category, token_id }) is None
                    && e == NFTError::RecordNotFound,
            },
    {
        let owner = self.owner_of(&user);
        match self.borrowings.read(&ActionKey { owner, category, token_id }) {
            Some(b) => Ok(b),
            None => Err(NFTError::RecordNotFound),
        }
    }

    pub fn remove_borrowing(&mut self, user: AccountId, category: Cat, token_id: TokenId)
        requires
            old(self).wf(),
        ensures
            final(self).wf(),
            final(self)@ == (LedgerV {
                borrowings: old(self)@.borrowings.remove_spec(
                    ActionKey { owner: old(self)@.owner_of(user), category, token_id },
                    old(self)@.pages_only,
                ),
                ..old(self)@
            }),
    {
        let owner = self.owner_of(&user);
        let po = self.pages_only;
        self.borrowings.remove(&ActionKey { owner, category, token_id }, po);
    }

    pub fn read_borrowings(&self) -> (r: Vec<Borrowing>)
        requires
            self.wf(),
        ensures
            r@ == self.borrowings.all_spec(self@.pages_only),
    {
        self.borrowings.read_all(self.pages_only)
    }

    pub fn read_borrowings_count(&self) -> (n: u32)
        requires
            self.wf(),
        ensures
            n == self.borrowings.count_spec(self@.pages_only),
    {
        self.borrowings.count(self.pages_only)
    }

    pub fn read_borrowings_page(&self, cursor: u32, limit: u32) -> (r: Vec<ActionKey>)
        requires
            self.wf(),
        ensures
            r@ == self.borrowings.page_spec(cursor, limit, self@.pages_only),
    {
        self.borrowings.page(cursor, limit, self.pages_only)
    }

    pub fn migrate_borrowings_to_pages(&mut self, start: u32, limit: u32) -> (next: u32)
        requires
            old(self).wf(),
            old(self).borrowings.index().len() + old(self).borrowings.all_spec(old(self)@.pages_only).len() <= u32::MAX,
        ensures
            final(self).wf(),
            next == crate::book::migrate_end(old(self).borrowings.all_spec(old(self)@.pages_only).len() as int, start, limit),
            final(self)@ == (LedgerV { borrowings: final(self)@.borrowings, ..old(self)@ }),
            final(self)@.borrowings.records == old(self)@.borrowings.records,
            final(self)@.borrowings.legacy == old(self)@.borrowings.legacy,
            final(self)@.borrowings.index == crate::book::migrate_index(
                old(self)@.borrowings.index,
                crate::book::keys_of(
                    old(self).borrowings.all_spec(old(self)@.pages_only).subrange(
                        if start >= old(self).borrowings.all_spec(old(self)@.pages_only).len() {
                            old(self).borrowings.all_spec(old(self)@.pages_only).len() as int
                        } else {
                            start as int
                        },
                        next as int,
                    ),
                ),
            ),
    {
        let po = self.pages_only;
        self.borrowings.migrate(start, limit, po)
    }

    /// `user` lends `power` of a Resource or Leader card to the pool (see `lend_post`).
    pub fn lend(&mut self, user: AccountId, category: Cat, token_id: TokenId, power: u32, now: u64) -> (r: Result<(), NFTError>)
        requires
            old(self).wf(),
            old(self)@.lendings.index.len() < u32::MAX,
            old(self)@.lendings.legacy_or_empty().len() < u32::MAX,
        ensures
            final(self).wf(),
            match r {
                Ok(()) => old(self)@.lend_err(user, category, token_id, power, now) is None
                    && final(self)@ == old(self)@.lend_post(user, category, token_id, power, now),
                Err(e) => old(self)@.lend_err(user, category, token_id, power, now) == Some(e)
                    && final(self)@ == old(self)@,
            },
    {
        let owner = self.owner_of(&user);
        let (fee_pct, reward, haw_pct) = {
            let c = self.read_config()?;
            (c.power_action_fee, c.terry_per_lending, c.haw_ai_percentage)
        };
        let fee: u32 = sat_mul_u32(power, fee_pct) / 100;
        let amount: u32 = power.saturating_sub(fee);
        if !(category == Cat::Resource || category == Cat::Leader) {
            return Err(NFTError::InvalidCategory);
        }
        let nft = match self.read_nft(&owner, &token_id) {
            Some(n) => n,
            None => return Err(NFTError::NotNFT),
        };
        if nft.locked_by_action != Action::Idle {
            return Err(NFTError::CardLocked);
        }
        if nft.power < power {
            return Err(NFTError::InsufficientPower);
        }
        let haw_power: u32 = add_u32(self.balance.haw_ai_power, fee)?;
        let st1 = accrue(self.read_state(now), now);
        let offer: u64 = add_u64(st1.total_offer, amount as u64)?;
        self.mint_terry_check(owner, reward)?;
        let haw_terry: i128 = self.haw_terry_check(reward, haw_pct)?;
        let ghost s0 = self@;
        self.write_state(st1);
        self.write_nft(owner, token_id, Card { power: nft.power - power, locked_by_action: Action::Lend });
        self.balance.haw_ai_power = haw_power;
        let mut st2 = st1;
        st2.total_offer = offer;
        self.write_state(st2);
        let lending = Lending { lender: owner, category, token_id, power: amount, lent_at: now };
        self.write_lending(owner, category, token_id, lending);
        self.emit_lend(owner, category, token_id);
        match self.mint_terry(owner, reward) {
            Ok(()) => {},
            Err(e) => {
                proof {
                    assert(false);
                }
                return Err(e);
            },
        }
        self.balance.haw_ai_terry = haw_terry;
        proof {
            assert(self@ =~= s0.lend_post(user, category, token_id, power, now));
        }
        Ok(())
    }
}

} // verus!

verus! {

use crate::math::{apy_spec, interest_spec, calculate_apy, calculate_interest, APY_MAX, T_MAX_FP, SCALE};
use crate::types::User;

/// `APY * T_max` in `SCALE` units.
pub open spec fn horizon_spec(apy: u64) -> int {
    apy * T_MAX_FP / (SCALE as int)
}

/// Reserve withheld on a loan: `amount * k / (1 - k)`.
pub open spec fn reserve_spec(amount: int, k: int) -> int {
    amount * k / (SCALE - k)
}

/// The 5% safety buffer on the collateral net of the fee.
pub open spec fn buffer_spec(nft_power: u32, fee: u32) -> int {
    sat_sub_spec(nft_power as int, fee as int) * 500 / 10000
}

/// The APY a borrow of `amount` would be priced at, from the pool after the borrow.
pub open spec fn borrow_apy_spec(st: State, amount: int, alpha: u32) -> int {
    apy_spec(
        sat_add_u64_spec(st.total_borrowed_power as int, amount) as u64,
        (st.total_offer - amount) as u64,
        st.loans_time_seconds,
        sat_add_u64_spec(st.active_loans as int, 1) as u64,
        alpha as u64,
    )
}

/// Horizon, reserve, buffer and total need of a borrow, in that order.
pub fn collateral_terms(amount: u32, fee: u32, nft_power: u32, apy: u64) -> (r: (u128, u128, u128, u128))
    requires
        apy <= APY_MAX,
    ensures
        r.0 == horizon_spec(apy),
        r.0 < SCALE,
        r.1 == reserve_spec(amount as int, r.0 as int),
        r.1 <= amount,
        r.2 == buffer_spec(nft_power, fee),
        r.3 == amount + r.1 + fee + r.2,
{
    let scale: u128 = SCALE as u128;
    proof {
        assert(apy as int * T_MAX_FP <= APY_MAX as int * T_MAX_FP) by (nonlinear_arith)
            requires apy <= APY_MAX;
    }
    let k: u128 = (apy as u128) * (T_MAX_FP as u128) / scale;
    proof {
        assert(k <= 150000) by (nonlinear_arith)
            requires k as int == (apy as int * T_MAX_FP as int) / (SCALE as int), apy <= APY_MAX;
        assert((amount as int) * (k as int) <= (u32::MAX as int) * 150000) by (nonlinear_arith)
            requires k <= 150000, amount <= u32::MAX;
    }
    let reserve: u128 = (amount as u128) * k / (scale - k);
    proof {
        assert(reserve <= amount) by (nonlinear_arith)
            requires reserve as int == (amount as int * k as int) / (SCALE as int - k as int), k <= 150000, amount >= 0;
    }
    let net: u128 = (nft_power as u128).saturating_sub(fee as u128);
    let buffer: u128 = net * 500 / 10000;
    proof {
        assert(buffer <= net) by (nonlinear_arith)
            requires buffer as int == net as int * 500 / 10000, net >= 0;
    }
    let lhs: u128 = (amount as u128) + reserve + (fee as u128) + buffer;
    (k, reserve, buffer, lhs)
}

impl LedgerV {
    pub open spec fn borrow_err(self, user: AccountId, category: Cat, token_id: TokenId, power: u32, now: u64) -> Option<NFTError> {
        let owner = self.owner_of(user);
        match self.config {
            None => Some(NFTError::NotInitialized),
            Some(c) => {
                let fee = action_fee_spec(power, c.power_action_fee);
                let amount = sat_sub_spec(power as int, fee as int);
                let st1 = accrue_spec(self.pool(now), now);
                if power == 0 || amount == 0 {
                    Some(NFTError::InvalidAmount)
                } else if !lends_category(category) {
                    Some(NFTError::InvalidCategory)
                } else {
                    match self.card(owner, token_id) {
                        None => Some(NFTError::NotNFT),
                        Some(nft) => {
                            let apy = borrow_apy_spec(st1, amount, c.apy_alpha);
                            let k = horizon_spec(apy as u64);
                            let lhs = amount + reserve_spec(amount, k) + fee + buffer_spec(nft.power, fee);
                            let u = self.user(owner);
                            if nft.locked_by_action != Action::Idle {
                                Some(NFTError::CardLocked)
                            } else if st1.total_offer < amount {
                                Some(NFTError::InsufficientLiquidity)
                            } else if k >= SCALE {
                                Some(NFTError::InvalidHorizon)
                            } else if lhs > nft.power {
                                Some(NFTError::ExceedsCollateral)
                            } else if !fits_u32(self.balance.haw_ai_power + fee) {
                                Some(NFTError::Overflow)
                            } else if !fits_u32(u.power + amount) {
                                Some(NFTError::Overflow)
                            } else if self.levels.len() == 0 {
                                Some(NFTError::LevelsMissing)
                            } else if self.mint_terry_err(owner, c.terry_per_lending) is Some {
                                self.mint_terry_err(owner, c.terry_per_lending)
                            } else {
                                self.haw_terry_err(c.terry_per_lending, c.haw_ai_percentage)
                            }
                        },
                    }
                }
            },
        }
    }

    /// The ledger after `user` borrows `power` against a card: the pool's offer moves to
    /// the borrowed side, the card is locked and pays the fee, the player receives the
    /// net POWER, and a reserve is recorded for the loan.
    pub open spec fn borrow_post(self, user: AccountId, category: Cat, token_id: TokenId, power: u32, now: u64) -> LedgerV {
        let owner = self.owner_of(user);
        let c = self.config->0;
        let nft = self.card(owner, token_id)->0;
        let fee = action_fee_spec(power, c.power_action_fee);
        let amount = sat_sub_spec(power as int, fee as int);
        let st1 = accrue_spec(self.pool(now), now);
        let apy = borrow_apy_spec(st1, amount, c.apy_alpha);
        let reserve = reserve_spec(amount, horizon_spec(apy as u64));
        let st2 = State {
            total_offer: (st1.total_offer - amount) as u64,
            total_borrowed_power: sat_add_u64_spec(st1.total_borrowed_power as int, amount) as u64,
            active_loans: sat_add_u64_spec(st1.active_loans as int, 1) as u64,
            ..st1
        };
        let s2 = self.set_pool(st1).set_pool(st2);
        let s3 = s2.put_card(owner, token_id, Card { power: sat_sub_spec(nft.power as int, fee as int) as u32, locked_by_action: Action::Borrow });
        let s4 = s3.with_balance(Balance { haw_ai_power: (s3.balance.haw_ai_power + fee) as u32, ..s3.balance });
        let u = s4.user(owner);
        let s5 = s4.put_user(owner, User { power: (u.power + amount) as u32, ..u });
        let k = ActionKey { owner: s5.owner_of(owner), category, token_id };
        let rec = Borrowing { borrower: owner, category, token_id, power: amount as u32, borrowed_at: now };
        let s6 = LedgerV { borrowings: s5.borrowings.write_spec(k, rec, s5.pages_only), ..s5 };
        let meta = BorrowMeta { last_l_index: st2.l_index, weight: reserve as u32, reserve_remaining: reserve as u32 };
        let st3 = State { w_total: sat_add_u64_spec(st2.w_total as int, reserve) as u64, ..st2 };
        let s7 = LedgerV { borrow_meta: s6.borrow_meta.insert(ActionKey { owner, category, token_id }, meta), ..s6 }.set_pool(st3);
        let s8 = s7.emit(Event::Borrow(Borrow { action: Step::Open, player: owner, owner, category, token_id }));
        let s9 = s8.mint_terry_post(owner, c.terry_per_lending);
        s9.haw_terry_post(c.terry_per_lending, c.haw_ai_percentage)
    }
}

impl Ledger {
    /// `user` borrows `power` from the pool against a Resource or Leader card (see
    /// `borrow_post`).
    pub fn borrow(&mut self, user: AccountId, category: Cat, token_id: TokenId, power: u32, now: u64) -> (r: Result<(), NFTError>)
        requires
            old(self).wf(),
            old(self)@.borrow_err(user, category, token_id, power, now) is None ==> {
                &&& old(self)@.borrowings.index.len() < u32::MAX
                &&& old(self)@.borrowings.legacy_or_empty().len() < u32::MAX
            },
        ensures
            final(self).wf(),
            match r {
                Ok(()) => old(self)@.borrow_err(user, category, token_id, power, now) is None
                    && final(self)@ == old(self)@.borrow_post(user, category, token_id, power, now),
                Err(e) => old(self)@.borrow_err(user, category, token_id, power, now) == Some(e)
                    && final(self)@ == old(self)@,
            },
    {
        let owner = self.owner_of(&user);
        let (fee_pct, reward, haw_pct, alpha) = {
            let c = self.read_config()?;
            (c.power_action_fee, c.terry_per_lending, c.haw_ai_percentage, c.apy_alpha)
        };
        let fee: u32 = sat_mul_u32(power, fee_pct) / 100;
        let amount: u32 = power.saturating_sub(fee);
        if power == 0 || amount == 0 {
            return Err(NFTError::InvalidAmount);
        }
        if !(category == Cat::Resource || category == Cat::Leader) {
            return Err(NFTError::InvalidCategory);
        }
        let nft = match self.read_nft(&owner, &token_id) {
            Some(n) => n,
            None => return Err(NFTError::NotNFT),
        };
        if nft.locked_by_action != Action::Idle {
            return Err(NFTError::CardLocked);
        }
        let st1 = accrue(self.read_state(now), now);
        if st1.total_offer < amount as u64 {
            return Err(NFTError::InsufficientLiquidity);
        }
        let offer_after: u64 = st1.total_offer - amount as u64;
        let borrowed_after: u64 = st1.total_borrowed_power.saturating_add(amount as u64);
        let active_after: u64 = st1.active_loans.saturating_add(1);
        let apy: u64 = calculate_apy(borrowed_after, offer_after, st1.loans_time_seconds, active_after, alpha as u64);
        let (k, reserve, _buffer, lhs) = collateral_terms(amount, fee, nft.power, apy);
        if k >= SCALE as u128 {
            return Err(NFTError::InvalidHorizon);
        }
        if lhs > nft.power as u128 {
            return Err(NFTError::ExceedsCollateral);
        }
        let haw_power: u32 = add_u32(self.balance.haw_ai_power, fee)?;
        let u = self.read_user(&owner);
        let user_power: u32 = add_u32(u.power, amount)?;
        if self.levels.len() == 0 {
            return Err(NFTError::LevelsMissing);
        }
        self.mint_terry_check(owner, reward)?;
        let haw_terry: i128 = self.haw_terry_check(reward, haw_pct)?;
        let ghost s0 = self@;
        self.write_state(st1);
        let mut st2 = st1;
        st2.total_offer = offer_after;
        st2.total_borrowed_power = borrowed_after;
        st2.active_loans = active_after;
        self.write_state(st2);
        self.write_nft(owner, token_id, Card { power: nft.power.saturating_sub(fee), locked_by_action: Action::Borrow });
        self.balance.haw_ai_power = haw_power;
        let mut u2 = self.read_user(&owner);
        u2.power = user_power;
        match self.write_user(owner, u2) {
            Ok(()) => {},
            Err(e) => {
                proof {
                    assert(false);
                }
                return Err(e);
            },
        }
        let rec = Borrowing { borrower: owner, category, token_id, power: amount, borrowed_at: now };
        self.write_borrowing(owner, category, token_id, rec);
        let meta = BorrowMeta { last_l_index: st2.l_index, weight: reserve as u32, reserve_remaining: reserve as u32 };
        self.borrow_meta.insert(ActionKey { owner, category, token_id }, meta);
        let mut st3 = st2;
        st3.w_total = st2.w_total.saturating_add(reserve as u64);
        self.write_state(st3);
        self.emit_borrow(owner, category, token_id);
        match self.mint_terry(owner, reward) {
            Ok(()) => {},
            Err(e) => {
                proof {
                    assert(false);
                }
                return Err(e);
            },
        }
        self.balance.haw_ai_terry = haw_terry;
        proof {
            assert(self@ =~= s0.borrow_post(user, category, token_id, power, now));
        }
        Ok(())
    }
}

} // verus!

verus! {


/// The pool's current APY from a state and the configured alpha.
pub open spec fn pool_apy_spec(st: State, alpha: u32) -> int {
    apy_spec(st.total_borrowed_power, st.total_offer, st.loans_time_seconds, st.active_loans, alpha as u64)
}

impl LedgerV {
    pub open spec fn repay_err(self, user: AccountId, category: Cat, token_id: TokenId, now: u64) -> Option<NFTError> {
        let owner = self.owner_of(user);
        let key = ActionKey { owner: self.owner_of(owner), category, token_id };
        if !lends_category(category) {
            Some(NFTError::InvalidCategory)
        } else {
            match self.card(owner, token_id) {
                None => Some(NFTError::NotNFT),
                Some(nft) => if nft.locked_by_action != Action::Borrow {
                    Some(NFTError::WrongLock)
                } else {
                    match self.borrowings.get(key) {
                        None => Some(NFTError::RecordNotFound),
                        Some(b) => match self.config {
                            None => Some(NFTError::NotInitialized),
                            Some(c) => {
                                let st1 = accrue_spec(self.pool(now), now);
                                let apy = pool_apy_spec(st1, c.apy_alpha);
                                let interest = interest_spec(b.power as u64, apy as u64, sat_sub_spec(now as int, b.borrowed_at as int) as u64);
                                let required = b.power + (interest as u32);
                                let u = self.user(owner);
                                if !fits_u64(st1.total_interest + interest) || !fits_u64(st1.total_offer + b.power)
                                    || st1.total_borrowed_power < b.power {
                                    Some(NFTError::Overflow)
                                } else if !fits_u32(required) {
                                    Some(NFTError::Overflow)
                                } else if min_int(u.power + nft.power, u32::MAX as int) < required {
                                    Some(NFTError::InsufficientFunds)
                                } else if self.levels.len() == 0 {
                                    Some(NFTError::LevelsMissing)
                                } else if self.mint_terry_err(owner, c.terry_per_lending) is Some {
                                    self.mint_terry_err(owner, c.terry_per_lending)
                                } else {
                                    self.haw_terry_err(c.terry_per_lending, c.haw_ai_percentage)
                                }
                            },
                        },
                    }
                },
            }
        }
    }

    /// The ledger after `user` repays a borrowing: principal and interest come from the
    /// player's POWER first and then from the collateral card, the pool gets the
    /// principal back and the interest, the card is unlocked and the loan's reserve
    /// leaves the reserve total.
    pub open spec fn repay_post(self, user: AccountId, category: Cat, token_id: TokenId, now: u64) -> LedgerV {
        let owner = self.owner_of(user);
        let key = ActionKey { owner: self.owner_of(owner), category, token_id };
        let nft = self.card(owner, token_id)->0;
        let b = self.borrowings.get(key)->0;
        let c = self.config->0;
        let st1 = accrue_spec(self.pool(now), now);
        let apy = pool_apy_spec(st1, c.apy_alpha);
        let interest = interest_spec(b.power as u64, apy as u64, sat_sub_spec(now as int, b.borrowed_at as int) as u64);
        let st2 = State {
            total_interest: (st1.total_interest + interest) as u64,
            total_offer: (st1.total_offer + b.power) as u64,
            total_borrowed_power: (st1.total_borrowed_power - b.power) as u64,
            active_loans: sat_sub_spec(st1.active_loans as int, 1) as u64,
            ..st1
        };
        let required = b.power + (interest as u32);
        let u = self.user(owner);
        let from_user = min_int(required, u.power as int);
        let from_collateral = required - from_user;
        let s2 = self.set_pool(st1).set_pool(st2);
        let s3 = s2.put_card(owner, token_id, Card { power: (nft.power - from_collateral) as u32, locked_by_action: Action::Idle });
        let s4 = s3.put_user(owner, User { power: (u.power - from_user) as u32, ..u });
        let s5 = s4.emit(Event::Borrow(Borrow { action: Step::Close, player: owner, owner, category, token_id }));
        let s6 = LedgerV { borrowings: s5.borrowings.remove_spec(ActionKey { owner: s5.owner_of(owner), category, token_id }, s5.pages_only), ..s5 };
        let mkey = ActionKey { owner, category, token_id };
        let st3 = if s6.borrow_meta.contains_key(mkey) {
            State { w_total: sat_sub_spec(st2.w_total as int, s6.borrow_meta[mkey].reserve_remaining as int) as u64, ..st2 }
        } else {
            st2
        };
        let s7 = LedgerV { borrow_meta: s6.borrow_meta.remove(mkey), ..s6 }.set_pool(st3);
        let s8 = s7.mint_terry_post(owner, c.terry_per_lending);
        s8.haw_terry_post(c.terry_per_lending, c.haw_ai_percentage)
    }
}

impl Ledger {
    /// `user` repays a borrowing (see `repay_post`).
    #[verifier::spinoff_prover]
    #[verifier::rlimit(60)]
    pub fn repay(&mut self, user: AccountId, category: Cat, token_id: TokenId, now: u64) -> (r: Result<(), NFTError>)
        requires
            old(self).wf(),
        ensures
            final(self).wf(),
            match r {
                Ok(()) => old(self)@.repay_err(user, category, token_id, now) is None
                    && final(self)@ == old(self)@.repay_post(user, category, token_id, now),
                Err(e) => old(self)@.repay_err(user, category, token_id, now) == Some(e)
                    && final(self)@ == old(self)@,
            },
    {
        let owner = self.owner_of(&user);
        if !(category == Cat::Resource || category == Cat::Leader) {
            return Err(NFTError::InvalidCategory);
        }
        let nft = match self.read_nft(&owner, &token_id) {
            Some(n) => n,
            None => return Err(NFTError::NotNFT),
        };
        if nft.locked_by_action != Action::Borrow {
            return Err(NFTError::WrongLock);
        }
        let b = self.read_borrowing(owner, category, token_id)?;
        let (reward, haw_pct, alpha) = {
            let c = self.read_config()?;
            (c.terry_per_lending, c.haw_ai_percentage, c.apy_alpha)
        };
        let st1 = accrue(self.read_state(now), now);
        let apy: u64 = calculate_apy(st1.total_borrowed_power, st1.total_offer, st1.loans_time_seconds, st1.active_loans, alpha as u64);
        let interest: u64 = calculate_interest(b.power as u64, apy, now.saturating_sub(b.borrowed_at));
        let ti: u64 = add_u64(st1.total_interest, interest)?;
        let offer: u64 = add_u64(st1.total_offer, b.power as u64)?;
        if st1.total_borrowed_power < b.power as u64 {
            return Err(NFTError::Overflow);
        }
        let required: u32 = add_u32(b.power, interest as u32)?;
        let u = self.read_user(&owner);
        if u.power.saturating_add(nft.power) < required {
            return Err(NFTError::InsufficientFunds);
        }
        if self.levels.len() == 0 {
            return Err(NFTError::LevelsMissing);
        }
        self.mint_terry_check(owner, reward)?;
        let haw_terry: i128 = self.haw_terry_check(reward, haw_pct)?;
        let ghost s0 = self@;
        self.write_state(st1);
        let mut st2 = st1;
        st2.total_interest = ti;
        st2.total_offer = offer;
        st2.total_borrowed_power = st1.total_borrowed_power - b.power as u64;
        st2.active_loans = st1.active_loans.saturating_sub(1);
        self.write_state(st2);
        let from_user: u32 = if required < u.power { required } else { u.power };
        let from_collateral: u32 = required - from_user;
        self.write_nft(owner, token_id, Card { power: nft.power - from_collateral, locked_by_action: Action::Idle });
        let mut u2 = self.read_user(&owner);
        u2.power = u2.power - from_user;
        match self.write_user(owner, u2) {
            Ok(()) => {},
            Err(e) => {
                proof {
                    assert(false);
                }
                return Err(e);
            },
        }
        self.emit_repay(owner, category, token_id);
        self.remove_borrowing(owner, category, token_id);
        let mkey = ActionKey { owner, category, token_id };
        let mut st3 = st2;
        match self.borrow_meta.get(&mkey) {
            Some(meta) => {
                st3.w_total = st2.w_total.saturating_sub(meta.reserve_remaining as u64);
            },
            None => {},
        }
        self.borrow_meta.remove(&mkey);
        self.write_state(st3);
        match self.mint_terry(owner, reward) {
            Ok(()) => {},
            Err(e) => {
                proof {
                    assert(false);
                }
                return Err(e);
            },
        }
        self.balance.haw_ai_terry = haw_terry;
        proof {
            assert(self@ =~= s0.repay_post(user, category, token_id, now));
        }
        Ok(())
    }
}

} // verus!

verus! {

use crate::event::IdxUpd;

/// The pool after a lender's interest is paid out of the collected interest; a
/// shortfall raises the liquidation index by `deficit * SCALE / w_total` when reserves
/// exist. Returns the new state and the index event, if any.
pub open spec fn pay_interest_spec(st: State, interest: u64, lent: u32) -> (State, Option<Event>) {
    if st.total_interest < interest {
        let deficit = (interest - st.total_interest) as u64;
        if st.w_total > 0 {
            let d_l = ((deficit * SCALE) / (st.w_total as int)) as u64;
            let l = sat_add_u64_spec(st.l_index as int, d_l as int) as u64;
            (
                State { l_index: l, total_interest: 0, total_offer: (st.total_offer - lent) as u64, ..st },
                Some(Event::IdxUpd(IdxUpd { l_index: l, d_l, deficit, w_total: st.w_total })),
            )
        } else {
            (State { total_interest: 0, total_offer: (st.total_offer - lent) as u64, ..st }, None)
        }
    } else {
        (
            State { total_interest: (st.total_interest - interest) as u64, total_offer: (st.total_offer - lent) as u64, ..st },
            None,
        )
    }
}

/// The house's cut of a lender's interest: `interest * power_action_fee / 100`
/// (product capped), truncated to 32 bits.
pub open spec fn interest_fee_spec(interest: u64, pct: u32) -> u32 {
    (sat_mul_u64_spec(interest as int, pct as int) / 100) as u32
}

impl LedgerV {
    pub open spec fn withdraw_err(self, user: AccountId, category: Cat, token_id: TokenId, now: u64) -> Option<NFTError> {
        let owner = self.owner_of(user);
        let key = ActionKey { owner: self.owner_of(owner), category, token_id };
        if !lends_category(category) {
            Some(NFTError::InvalidCategory)
        } else {
            match self.card(owner, token_id) {
                None => Some(NFTError::NotNFT),
                Some(nft) => if nft.locked_by_action != Action::Lend {
                    Some(NFTError::WrongLock)
                } else {
                    match self.lendings.get(key) {
                        None => Some(NFTError::RecordNotFound),
                        Some(l) => match self.config {
                            None => Some(NFTError::NotInitialized),
                            Some(c) => {
                                let st1 = accrue_spec(self.pool(now), now);
                                let apy = pool_apy_spec(st1, c.apy_alpha);
                                let interest = interest_spec(l.power as u64, apy as u64, sat_sub_spec(now as int, l.lent_at as int) as u64);
                                let fee = interest_fee_spec(interest as u64, c.power_action_fee);
                                if st1.total_offer < l.power {
                                    Some(NFTError::Overflow)
                                } else if self.mint_terry_err(owner, c.terry_per_lending) is Some {
                                    self.mint_terry_err(owner, c.terry_per_lending)
                                } else if !fits_u32(self.balance.haw_ai_power + fee) {
                                    Some(NFTError::Overflow)
                                } else {
                                    self.haw_terry_err(c.terry_per_lending, c.haw_ai_percentage)
                                }
                            },
                        },
                    }
                },
            }
        }
    }

    /// The ledger after `user` withdraws a lending: the principal and the interest net of
    /// the house's cut return to the card, which is unlocked; the pool pays the interest
    /// (a shortfall is spread over the loans' reserves through the liquidation index).
    pub open spec fn withdraw_post(self, user: AccountId, category: Cat, token_id: TokenId, now: u64) -> LedgerV {
        let owner = self.owner_of(user);
        let key = ActionKey { owner: self.owner_of(owner), category, token_id };
        let nft = self.card(owner, token_id)->0;
        let l = self.lendings.get(key)->0;
        let c = self.config->0;
        let st1 = accrue_spec(self.pool(now), now);
        let apy = pool_apy_spec(st1, c.apy_alpha);
        let interest = interest_spec(l.power as u64, apy as u64, sat_sub_spec(now as int, l.lent_at as int) as u64) as u64;
        let (st2, ev) = pay_interest_spec(st1, interest, l.power);
        let s1 = self.set_pool(st1);
        let s1b = match ev {
            Some(e) => s1.emit(e),
            None => s1,
        };
        let s2 = s1b.set_pool(st2);
        let fee = interest_fee_spec(interest, c.power_action_fee);
        let reward = sat_sub_spec(interest as int, fee as int) as u64;
        let back = min_int(l.power + (reward as u32), u32::MAX as int);
        let s3 = s2.put_card(owner, token_id, Card { power: min_int(nft.power + back, u32::MAX as int) as u32, locked_by_action: Action::Idle });
        let s4 = s3.emit(Event::Lend(Lend { action: Step::Close, player: owner, owner, category, token_id }));
        let s5 = LedgerV { lendings: s4.lendings.remove_spec(ActionKey { owner: s4.owner_of(owner), category, token_id }, s4.pages_only), ..s4 };
        let s6 = s5.mint_terry_post(owner, c.terry_per_lending);
        let s7 = s6.with_balance(Balance { haw_ai_power: (s6.balance.haw_ai_power + fee) as u32, ..s6.balance });
        s7.haw_terry_post(c.terry_per_lending, c.haw_ai_percentage)
    }
}

impl Ledger {
    /// `user` withdraws a lending (see `withdraw_post`).
    #[verifier::spinoff_prover]
    #[verifier::rlimit(60)]
    pub fn withdraw(&mut self, user: AccountId, category: Cat, token_id: TokenId, now: u64) -> (r: Result<(), NFTError>)
        requires
            old(self).wf(),
        ensures
            final(self).wf(),
            match r {
                Ok(()) => old(self)@.withdraw_err(user, category, token_id, now) is None
                    && final(self)@ == old(self)@.withdraw_post(user, category, token_id, now),
                Err(e) => old(self)@.withdraw_err(user, category, token_id, now) == Some(e)
                    && final(self)@ == old(self)@,
            },
    {
        let owner = self.owner_of(&user);
        if !(category == Cat::Resource || category == Cat::Leader) {
            return Err(NFTError::InvalidCategory);
        }
        let nft = match self.read_nft(&owner, &token_id) {
            Some(n) => n,
            None => return Err(NFTError::NotNFT),
        };
        if nft.locked_by_action != Action::Lend {
            return Err(NFTError::WrongLock);
        }
        let l = self.read_lending(owner, category, token_id)?;
        let (reward, haw_pct, alpha, fee_pct) = {
            let c = self.read_config()?;
            (c.terry_per_lending, c.haw_ai_percentage, c.apy_alpha, c.power_action_fee)
        };
        let st1 = accrue(self.read_state(now), now);
        let apy: u64 = calculate_apy(st1.total_borrowed_power, st1.total_offer, st1.loans_time_seconds, st1.active_loans, alpha as u64);
        let interest: u64 = calculate_interest(l.power as u64, apy, now.saturating_sub(l.lent_at));
        if st1.total_offer < l.power as u64 {
            return Err(NFTError::Overflow);
        }
        self.mint_terry_check(owner, reward)?;
        let fee: u32 = (sat_mul_u64(interest, fee_pct as u64) / 100) as u32;
        let haw_power: u32 = add_u32(self.balance.haw_ai_power, fee)?;
        let haw_terry: i128 = self.haw_terry_check(reward, haw_pct)?;
        let ghost s0 = self@;
        self.write_state(st1);
        let mut st2 = st1;
        if st1.total_interest < interest {
            let deficit: u64 = interest - st1.total_interest;
            if st1.w_total > 0 {
                proof {
                    assert((deficit as int) * (SCALE as int) <= (u64::MAX as int) * (SCALE as int)) by (nonlinear_arith)
                        requires deficit <= u64::MAX;
                }
                let d_l: u64 = (((deficit as u128) * (SCALE as u128)) / (st1.w_total as u128)) as u64;
                st2.l_index = st1.l_index.saturating_add(d_l);
                self.emit_index_updated(st2.l_index, d_l, deficit, st1.w_total);
            }
            st2.total_interest = 0;
        } else {
            st2.total_interest = st1.total_interest - interest;
        }
        st2.total_offer = st1.total_offer - l.power as u64;
        self.write_state(st2);
        let reward_interest: u64 = interest.saturating_sub(fee as u64);
        let back: u32 = l.power.saturating_add(reward_interest as u32);
        self.write_nft(owner, token_id, Card { power: nft.power.saturating_add(back), locked_by_action: Action::Idle });
        self.emit_withdraw(owner, category, token_id);
        self.remove_lending(owner, category, token_id);
        match self.mint_terry(owner, reward) {
            Ok(()) => {},
            Err(e) => {
                proof {
                    assert(false);
                }
                return Err(e);
            },
        }
        self.balance.haw_ai_power = haw_power;
        self.balance.haw_ai_terry = haw_terry;
        proof {
            assert(self@ =~= s0.withdraw_post(user, category, token_id, now));
        }
        Ok(())
    }

    /// The pool's current APY.
    pub fn get_current_apy(&self, now: u64) -> (r: Result<u64, NFTError>)
        requires
            self.wf(),
        ensures
            match r {
                Ok(a) => self@.config is Some && a == pool_apy_spec(self@.pool(now), self@.config->0.apy_alpha),
                Err(e) => self@.config is None && e == NFTError::NotInitialized,
            },
    {
        let alpha = self.read_config()?.apy_alpha;
        let st = self.read_state(now);
        Ok(calculate_apy(st.total_borrowed_power, st.total_offer, st.loans_time_seconds, st.active_loans, alpha as u64))
    }
}

} // verus!

verus! {

use crate::event::{LoanTch, LoanLiq};

impl LedgerV {
    pub open spec fn repay_quote_spec(self, user: AccountId, category: Cat, token_id: TokenId, now: u64) -> Result<RepayQuote, NFTError> {
        let owner = self.owner_of(user);
        match self.borrowings.get(ActionKey { owner: self.owner_of(owner), category, token_id }) {
            None => Err(NFTError::RecordNotFound),
            Some(b) => match self.config {
                None => Err(NFTError::NotInitialized),
                Some(c) => {
                    let st = self.pool(now);
                    let apy = pool_apy_spec(st, c.apy_alpha);
                    let interest = interest_spec(b.power as u64, apy as u64, sat_sub_spec(now as int, b.borrowed_at as int) as u64);
                    let required = b.power + (interest as u32);
                    if !fits_u32(required) {
                        Err(NFTError::Overflow)
                    } else {
                        let user_power = self.user(owner).power;
                        let collateral = match self.card(owner, token_id) {
                            Some(card) => card.power,
                            None => 0,
                        };
                        let total = min_int(user_power + collateral, u32::MAX as int);
                        Ok(RepayQuote {
                            required_power: required as u32,
                            user_power,
                            collateral_power: collateral,
                            total_available: total as u32,
                            sufficient: total >= required,
                        })
                    }
                },
            },
        }
    }

    pub open spec fn borrow_quote_spec(self, user: AccountId, token_id: TokenId, power: u32, now: u64) -> Result<BorrowQuote, NFTError> {
        let owner = self.owner_of(user);
        match self.config {
            None => Err(NFTError::NotInitialized),
            Some(c) => {
                let fee = action_fee_spec(power, c.power_action_fee);
                let net_req = sat_sub_spec(power as int, fee as int) as u32;
                if power == 0 || net_req == 0 {
                    Ok(BorrowQuote { allowed: false, reason: 1, apy: 0, fee, reserve: 0, buffer: 0, borrow_net: net_req, max_suggested_gross: 0 })
                } else {
                    match self.card(owner, token_id) {
                        None => Err(NFTError::NotNFT),
                        Some(nft) => {
                            let st = self.pool(now);
                            let cap = min_int(st.total_offer as int, net_req as int) as u32;
                            if cap == 0 {
                                Ok(BorrowQuote { allowed: false, reason: 2, apy: 0, fee, reserve: 0, buffer: 0, borrow_net: net_req, max_suggested_gross: 0 })
                            } else {
                                let apy = apy_spec(
                                    sat_add_u64_spec(st.total_borrowed_power as int, cap as int) as u64,
                                    sat_sub_spec(st.total_offer as int, cap as int) as u64,
                                    st.loans_time_seconds,
                                    sat_add_u64_spec(st.active_loans as int, 1) as u64,
                                    c.apy_alpha as u64,
                                ) as u64;
                                let k = horizon_spec(apy);
                                if k >= SCALE {
                                    Ok(BorrowQuote { allowed: false, reason: 4, apy, fee, reserve: 0, buffer: 0, borrow_net: cap, max_suggested_gross: 0 })
                                } else {
                                    let reserve = reserve_spec(cap as int, k);
                                    let buffer = buffer_spec(nft.power, fee);
                                    let lhs = cap + reserve + fee + buffer;
                                    let d = sat_sub_spec(100, c.power_action_fee as int);
                                    if lhs > nft.power {
                                        let numer = sat_sub_spec(sat_sub_spec(nft.power as int, fee as int), buffer);
                                        let net_max = numer * (SCALE - k) / (SCALE as int);
                                        if d == 0 {
                                            Err(NFTError::DivisionByZero)
                                        } else {
                                            Ok(BorrowQuote {
                                                allowed: false,
                                                reason: 3,
                                                apy,
                                                fee,
                                                reserve: reserve as u64,
                                                buffer: buffer as u64,
                                                borrow_net: cap,
                                                max_suggested_gross: (net_max * 100 / d) as u32,
                                            })
                                        }
                                    } else if d == 0 {
                                        Err(NFTError::DivisionByZero)
                                    } else {
                                        Ok(BorrowQuote {
                                            allowed: true,
                                            reason: 0,
                                            apy,
                                            fee,
                                            reserve: reserve as u64,
                                            buffer: buffer as u64,
                                            borrow_net: cap,
                                            max_suggested_gross: (cap * 100 / d) as u32,
                                        })
                                    }
                                }
                            }
                        },
                    }
                }
            },
        }
    }
}

/// One loan of a `touch_loans` batch: its pending haircut `(L - last L) * weight / SCALE`
/// is taken from its reserve (and from the collateral once the reserve is gone).
pub open spec fn touch_step(s: LedgerV, st: State, loan: (AccountId, Cat, TokenId)) -> (LedgerV, State) {
    let (addr, cat, tid) = loan;
    let key = ActionKey { owner: addr, category: cat, token_id: tid };
    if !s.borrow_meta.contains_key(key) {
        (s, st)
    } else {
        let meta = s.borrow_meta[key];
        let l_delta = sat_sub_spec(st.l_index as int, meta.last_l_index as int);
        if l_delta == 0 || meta.weight == 0 || meta.reserve_remaining == 0 {
            (s, st)
        } else {
            let pending = ((l_delta * meta.weight) / (SCALE as int)) as u32;
            if pending == 0 {
                (s, st)
            } else {
                let haircut = min_int(pending as int, meta.reserve_remaining as int) as u32;
                let rem = (meta.reserve_remaining - haircut) as u32;
                let st2 = State { w_total: sat_sub_spec(st.w_total as int, haircut as int) as u64, ..st };
                let s1 = LedgerV {
                    borrow_meta: s.borrow_meta.insert(key, BorrowMeta { last_l_index: st.l_index, weight: rem, reserve_remaining: rem }),
                    ..s
                };
                let (s3, lost) = if rem == 0 && s1.card(addr, tid) is Some && s1.card(addr, tid)->0.power > 0 {
                    let nft = s1.card(addr, tid)->0;
                    let cut = min_int(haircut as int, nft.power as int);
                    let s2 = s1.put_card(addr, tid, Card { power: (nft.power - cut) as u32, ..nft });
                    if cut == nft.power {
                        (s2.emit(Event::LoanLiq(LoanLiq { player: addr })), true)
                    } else {
                        (s2, false)
                    }
                } else {
                    (s1, false)
                };
                (s3.emit(Event::LoanTch(LoanTch { player: addr, haircut, reserve_left: rem, ownership_lost: lost })), st2)
            }
        }
    }
}

pub open spec fn touch_fold(s: LedgerV, st: State, loans: Seq<(AccountId, Cat, TokenId)>) -> (LedgerV, State)
    decreases loans.len(),
{
    if loans.len() == 0 {
        (s, st)
    } else {
        let (s1, st1) = touch_fold(s, st, loans.drop_last());
        touch_step(s1, st1, loans.last())
    }
}

impl Ledger {
    /// What repaying a borrowing would take now.
    pub fn repay_quote(&self, user: AccountId, category: Cat, token_id: TokenId, now: u64) -> (r: Result<RepayQuote, NFTError>)
        requires
            self.wf(),
        ensures
            r == self@.repay_quote_spec(user, category, token_id, now),
    {
        let owner = self.owner_of(&user);
        let b = self.read_borrowing(owner, category, token_id)?;
        let alpha = self.read_config()?.apy_alpha;
        let st = self.read_state(now);
        let apy: u64 = calculate_apy(st.total_borrowed_power, st.total_offer, st.loans_time_seconds, st.active_loans, alpha as u64);
        let interest: u64 = calculate_interest(b.power as u64, apy, now.saturating_sub(b.borrowed_at));
        let required: u32 = add_u32(b.power, interest as u32)?;
        let user_power: u32 = self.read_user(&owner).power;
        let collateral: u32 = match self.read_nft(&owner, &token_id) {
            Some(c) => c.power,
            None => 0,
        };
        let total: u32 = user_power.saturating_add(collateral);
        Ok(RepayQuote { required_power: required, user_power, collateral_power: collateral, total_available: total, sufficient: total >= required })
    }

    /// What a borrow of `power` against a card would cost and whether it would be allowed.
    pub fn borrow_quote(&self, user: AccountId, _category: Cat, token_id: TokenId, power: u32, now: u64) -> (r: Result<BorrowQuote, NFTError>)
        requires
            self.wf(),
        ensures
            r == self@.borrow_quote_spec(user, token_id, power, now),
    {
        let owner = self.owner_of(&user);
        let (fee_pct, alpha) = {
            let c = self.read_config()?;
            (c.power_action_fee, c.apy_alpha)
        };
        let fee: u32 = sat_mul_u32(power, fee_pct) / 100;
        let net_req: u32 = power.saturating_sub(fee);
        if power == 0 || net_req == 0 {
            return Ok(BorrowQuote { allowed: false, reason: 1, apy: 0, fee, reserve: 0, buffer: 0, borrow_net: net_req, max_suggested_gross: 0 });
        }
        let nft = match self.read_nft(&owner, &token_id) {
            Some(n) => n,
            None => return Err(NFTError::NotNFT),
        };
        let st = self.read_state(now);
        let cap: u32 = if st.total_offer < net_req as u64 { st.total_offer as u32 } else { net_req };
        if cap == 0 {
            return Ok(BorrowQuote { allowed: false, reason: 2, apy: 0, fee, reserve: 0, buffer: 0, borrow_net: net_req, max_suggested_gross: 0 });
        }
        let offer_after: u64 = st.total_offer.saturating_sub(cap as u64);
        let borrowed_after: u64 = st.total_borrowed_power.saturating_add(cap as u64);
        let active_after: u64 = st.active_loans.saturating_add(1);
        let apy: u64 = calculate_apy(borrowed_after, offer_after, st.loans_time_seconds, active_after, alpha as u64);
        let (k, reserve, buffer, lhs) = collateral_terms(cap, fee, nft.power, apy);
        if k >= SCALE as u128 {
            return Ok(BorrowQuote { allowed: false, reason: 4, apy, fee, reserve: 0, buffer: 0, borrow_net: cap, max_suggested_gross: 0 });
        }
        let d: u128 = (100u128).saturating_sub(fee_pct as u128);
        if lhs > nft.power as u128 {
            let numer: u128 = (nft.power as u128).saturating_sub(fee as u128).saturating_sub(buffer);
            proof {
                assert((numer as int) * ((SCALE - k) as int) <= (u32::MAX as int) * (SCALE as int)) by (nonlinear_arith)
                    requires numer <= u32::MAX, k < SCALE, k >= 0;
            }
            let net_max: u128 = numer * ((SCALE as u128) - k) / (SCALE as u128);
            if d == 0 {
                return Err(NFTError::DivisionByZero);
            }
            proof {
                assert(net_max <= numer) by (nonlinear_arith)
                    requires net_max as int == (numer as int * (SCALE - k) as int) / (SCALE as int), k < SCALE, k >= 0, numer >= 0;
            }
            let gross: u128 = net_max * 100 / d;
            return Ok(BorrowQuote {
                allowed: false,
                reason: 3,
                apy,
                fee,
                reserve: reserve as u64,
                buffer: buffer as u64,
                borrow_net: cap,
                max_suggested_gross: gross as u32,
            });
        }
        if d == 0 {
            return Err(NFTError::DivisionByZero);
        }
        let gross_cap: u128 = (cap as u128) * 100 / d;
        Ok(BorrowQuote {
            allowed: true,
            reason: 0,
            apy,
            fee,
            reserve: reserve as u64,
            buffer: buffer as u64,
            borrow_net: cap,
            max_suggested_gross: gross_cap as u32,
        })
    }

    /// Applies the pending haircuts of a batch of loans (anyone may call it).
    pub fn touch_loans(&mut self, loans: &Vec<(AccountId, Cat, TokenId)>, now: u64)
        requires
            old(self).wf(),
        ensures
            final(self).wf(),
            final(self)@ == ({
                let (s, st) = touch_fold(old(self)@, old(self)@.pool(now), loans@);
                s.set_pool(st)
            }),
    {
        let mut st = self.read_state(now);
        let mut i: usize = 0;
        let ghost s0 = self@;
        while i < loans.len()
            invariant
                self.wf(),
                i <= loans@.len(),
                (self@, st) == touch_fold(s0, s0.pool(now), loans@.subrange(0, i as int)),
            decreases loans@.len() - i,
        {
            proof {
                assert(loans@.subrange(0, i + 1).drop_last() =~= loans@.subrange(0, i as int));
                assert(loans@.subrange(0, i + 1).last() == loans@[i as int]);
            }
            let (addr, cat, tid) = loans[i];
            let key = ActionKey { owner: addr, category: cat, token_id: tid };
            let ghost before = self@;
            let ghost st_before = st;
            match self.borrow_meta.get(&key) {
                None => {},
                Some(m) => {
                    let meta = *m;
                    let l_delta: u64 = st.l_index.saturating_sub(meta.last_l_index);
                    if !(l_delta == 0 || meta.weight == 0 || meta.reserve_remaining == 0) {
                        proof {
                            assert((l_delta as int) * (meta.weight as int) <= (u64::MAX as int) * (u32::MAX as int)) by (nonlinear_arith)
                                requires l_delta <= u64::MAX, meta.weight <= u32::MAX;
                        }
                        let pending: u32 = (((l_delta as u128) * (meta.weight as u128)) / (SCALE as u128)) as u32;
                        if pending != 0 {
                            let haircut: u32 = if pending < meta.reserve_remaining { pending } else { meta.reserve_remaining };
                            let rem: u32 = meta.reserve_remaining - haircut;
                            st.w_total = st.w_total.saturating_sub(haircut as u64);
                            self.borrow_meta.insert(key, BorrowMeta { last_l_index: st.l_index, weight: rem, reserve_remaining: rem });
                            let mut lost: bool = false;
                            if rem == 0 {
                                match self.read_nft(&addr, &tid) {
                                    Some(nft) => {
                                        if nft.power > 0 {
                                            let cut: u32 = if haircut < nft.power { haircut } else { nft.power };
                                            let mut card = nft;
                                            card.power = nft.power - cut;
                                            self.write_nft(addr, tid, card);
                                            if cut == nft.power {
                                                lost = true;
                                                self.emit_loan_liquidated(addr);
                                            }
                                        }
                                    },
                                    None => {},
                                }
                            }
                            self.emit_loan_touched(addr, haircut, rem, lost);
                        }
                    }
                },
            }
            proof {
                assert((self@, st) == touch_step(before, st_before, loans@[i as int]));
            }
            i = i + 1;
        }
        proof {
            assert(loans@.subrange(0, loans@.len() as int) =~= loans@);
        }
        self.write_state(st);
    }
}

} // verus!
