//! Leveraged price fights: a card's POWER is staked on a currency going up
//! (long) or down (short) and settled against an oracle price.
use vstd::prelude::*;
use crate::types::{AccountId, ActionKey, Category, TokenId};
use crate::book::Record;

verus! {

/// An oracle price record.
#[derive(Clone, Copy, Debug, PartialEq, Eq, Structural)]
pub struct PriceData {
    pub price: i128,
    pub timestamp: u64,
}

#[derive(Clone, Copy, Debug, PartialEq, Eq, Structural)]
pub enum SidePosition {
    Long,
    Short,
}

#[derive(Clone, Copy, Debug, PartialEq, Eq, Structural)]
pub enum FightCurrency {
    BTC,
    ETH,
    XLM,
    SOL,
}

/// An open fight.
#[derive(Clone, Copy, Debug, PartialEq, Eq, Structural)]
pub struct Fight {
    pub owner: AccountId,
    pub category: Category,
    pub token_id: TokenId,
    pub currency: FightCurrency,
    pub power: u32,
    pub trigger_price: i128,
    pub side_position: SidePosition,
    pub leverage: u32,
    pub amount_asset: i128,
}

impl Record for Fight {
    open spec fn rkey(&self) -> ActionKey {
        ActionKey { owner: self.owner, category: self.category, token_id: self.token_id }
    }

    fn key(&self) -> (k: ActionKey) {
        ActionKey { owner: self.owner, category: self.category, token_id: self.token_id }
    }
}

} // verus!

verus! {

use crate::types::{Action, Card, Balance, CardMetadata};
use crate::error::NFTError;
use crate::event::{Event, Step};
use crate::ledger::{Ledger, LedgerV};
use crate::math::{fits_i128, fits_u32, trunc_div, add_u32, mul_u32, mul_i128, add_i128, sub_i128, min_int, max_int};

/// The liquidation price of a fight: the trigger price moved against the position by
/// `1 / leverage`, in millionths (`1_000_000 / leverage` rounded down), rounded toward zero.
pub open spec fn liquidation_price_spec(f: Fight) -> Result<i128, NFTError> {
    if f.leverage == 0 {
        Err(NFTError::DivisionByZero)
    } else {
        let step: int = 1000000int / (f.leverage as int);
        let factor = match f.side_position {
            SidePosition::Long => 1000000int - step,
            SidePosition::Short => 1000000int + step,
        };
        if !fits_i128(f.trigger_price * factor) {
            Err(NFTError::Overflow)
        } else {
            Ok(trunc_div(f.trigger_price * factor, 1000000) as i128)
        }
    }
}

/// The liquidation price of a fight (see `liquidation_price_spec`).
pub fn get_liquidation_price(fight: &Fight) -> (r: Result<i128, NFTError>)
    ensures
        r == liquidation_price_spec(*fight),
{
    if fight.leverage == 0 {
        return Err(NFTError::DivisionByZero);
    }
    let step: i128 = 1000000 / (fight.leverage as i128);
    let factor: i128 = match fight.side_position {
        SidePosition::Long => 1000000 - step,
        SidePosition::Short => 1000000 + step,
    };
    let p = mul_i128(fight.trigger_price, factor)?;
    Ok(p / 1000000)
}

/// Whether the price has crossed the liquidation price against the position.
pub open spec fn is_liquidated_spec(side: SidePosition, price: i128, liq: i128) -> bool {
    match side {
        SidePosition::Long => price <= liq,
        SidePosition::Short => price >= liq,
    }
}

/// The size of a position in USDC: `power * rate / 10_000 * leverage`.
pub open spec fn position_err(power: u32, rate: i128, leverage: u32) -> bool {
    !fits_i128(power * rate) || !fits_i128(trunc_div(power * rate, 10000) * leverage)
}

pub open spec fn position_size_spec(power: u32, rate: i128, leverage: u32) -> int {
    trunc_div(power * rate, 10000) * leverage
}

fn position_size(power: u32, rate: i128, leverage: u32) -> (r: Result<i128, NFTError>)
    ensures
        match r {
            Ok(v) => !position_err(power, rate, leverage) && v == position_size_spec(power, rate, leverage),
            Err(e) => position_err(power, rate, leverage) && e == NFTError::Overflow,
        },
{
    let m = mul_i128(power as i128, rate)?;
    mul_i128(m / 10000, leverage as i128)
}

impl LedgerV {
    pub open spec fn open_position_err(self, user: AccountId, category: Category, token_id: TokenId, leverage: u32, power_staked: u32, price: i128, now: u64) -> Option<NFTError> {
        let owner = self.owner_of(user);
        match self.card(owner, token_id) {
            None => Some(NFTError::NotNFT),
            Some(nft) => if nft.locked_by_action != Action::Idle {
                Some(NFTError::CardLocked)
            } else if !(1 <= leverage <= 100) {
                Some(NFTError::InvalidLeverage)
            } else if power_staked == 0 {
                Some(NFTError::InvalidAmount)
            } else {
                match self.config {
                    None => Some(NFTError::NotInitialized),
                    Some(c) => {
                        let fee = c.power_action_fee * power_staked / 100;
                        let size = position_size_spec(power_staked, c.power_to_usdc_rate, leverage);
                        let to_haw = trunc_div(c.terry_per_fight * c.haw_ai_percentage, 100);
                        if !fits_u32(c.power_action_fee * power_staked) || !fits_u32(power_staked + fee) {
                            Some(NFTError::Overflow)
                        } else if nft.power < power_staked + fee {
                            Some(NFTError::InsufficientPower)
                        } else if position_err(power_staked, c.power_to_usdc_rate, leverage) {
                            Some(NFTError::Overflow)
                        } else if price <= 0 || price >= i128::MAX / 100 {
                            Some(NFTError::InvalidPrice)
                        } else if !fits_i128(size * 1000000) {
                            Some(NFTError::Overflow)
                        } else if !fits_i128(c.terry_per_fight * c.haw_ai_percentage) {
                            Some(NFTError::Overflow)
                        } else if self.mint_terry_err(owner, c.terry_per_fight) is Some {
                            self.mint_terry_err(owner, c.terry_per_fight)
                        } else if self.accumulate_err(to_haw as i128, fee as u32, 0) is Some {
                            self.accumulate_err(to_haw as i128, fee as u32, 0)
                        } else if !fits_i128(self.balance.haw_ai_terry + to_haw) {
                            Some(NFTError::Overflow)
                        } else {
                            None
                        }
                    },
                }
            }
        }
    }

    /// The ledger after `user` opens a fight: the staked POWER and the fee leave the card,
    /// which is locked; the fight records the position at the oracle price; the player
    /// earns the fight reward and the house's share of it goes to the pot with the fee.
    pub open spec fn open_position_post(self, user: AccountId, category: Category, token_id: TokenId, currency: FightCurrency, side_position: SidePosition, leverage: u32, power_staked: u32, price: i128, now: u64) -> LedgerV {
        let owner = self.owner_of(user);
        let nft = self.card(owner, token_id)->0;
        let c = self.config->0;
        let fee = c.power_action_fee * power_staked / 100;
        let size = position_size_spec(power_staked, c.power_to_usdc_rate, leverage);
        let to_haw = trunc_div(c.terry_per_fight * c.haw_ai_percentage, 100);
        let fight = Fight {
            owner,
            category,
            token_id,
            currency,
            power: power_staked,
            trigger_price: price,
            side_position,
            leverage,
            amount_asset: trunc_div(size * 1000000, price as int) as i128,
        };
        let s1 = self.put_card(owner, token_id, Card { power: (nft.power - (power_staked + fee)) as u32, locked_by_action: Action::Fight });
        let s2 = LedgerV { fights: s1.fights.write_spec(ActionKey { owner: s1.owner_of(owner), category, token_id }, fight, s1.pages_only), ..s1 }
            .emit(Event::Fight(crate::event::Fight { action: Step::Open, fight }));
        let s3 = s2.mint_terry_post(owner, c.terry_per_fight);
        let s4 = s3.accumulate_post(to_haw as i128, fee as u32, 0, Some(owner), Some(Action::Fight), now);
        s4.with_balance(Balance { haw_ai_terry: (s4.balance.haw_ai_terry + to_haw) as i128, ..s4.balance })
    }

    /// The profit-and-loss of closing a fight at `price`, in POWER; `Err` where it is
    /// refused.
    pub open spec fn pnl_power_spec(f: Fight, c_rate: i128, price: i128) -> Result<int, NFTError> {
        let size = position_size_spec(f.power, c_rate, f.leverage);
        if position_err(f.power, c_rate, f.leverage) {
            Err(NFTError::Overflow)
        } else if price <= 0 || f.trigger_price <= 0 {
            Err(NFTError::InvalidPrice)
        } else if !fits_i128(price - f.trigger_price) || !fits_i128(size * (price - f.trigger_price)) {
            Err(NFTError::Overflow)
        } else {
            let raw = trunc_div(size * (price - f.trigger_price), f.trigger_price as int);
            let pnl = match f.side_position {
                SidePosition::Long => raw,
                SidePosition::Short => -raw,
            };
            if !fits_i128(pnl) || !fits_i128(pnl * 10000) {
                Err(NFTError::Overflow)
            } else if c_rate == 0 {
                Err(NFTError::DivisionByZero)
            } else if !fits_i128(if c_rate < 0 { -trunc_div(pnl * 10000, -c_rate) } else { trunc_div(pnl * 10000, c_rate as int) }) {
                Err(NFTError::Overflow)
            } else {
                Ok(if c_rate < 0 { -trunc_div(pnl * 10000, -c_rate) } else { trunc_div(pnl * 10000, c_rate as int) })
            }
        }
    }

    pub open spec fn close_position_err(self, user: AccountId, category: Category, token_id: TokenId, price: i128, now: u64) -> Option<NFTError> {
        let owner = self.owner_of(user);
        match self.card(owner, token_id) {
            None => Some(NFTError::NotNFT),
            Some(nft) => match self.fights.get(ActionKey { owner: self.owner_of(owner), category, token_id }) {
                None => Some(NFTError::RecordNotFound),
                Some(f) => match self.config {
                    None => Some(NFTError::NotInitialized),
                    Some(c) => match Self::pnl_power_spec(f, c.power_to_usdc_rate, price) {
                        Err(e) => Some(e),
                        Ok(pnl) => if !self.metadata.contains_key(token_id.0) {
                            Some(NFTError::MetadataMissing)
                        } else if pnl > 0 && !fits_i128(pnl * c.haw_ai_percentage) {
                            Some(NFTError::Overflow)
                        } else {
                            let profit = if pnl > 0 { trunc_div(pnl * c.haw_ai_percentage, 100) } else { 0 };
                            let to_user = pnl - profit;
                            let to_haw = trunc_div(c.terry_per_fight * c.haw_ai_percentage, 100);
                            let s1 = if profit > 0 { self.accumulate_post(0, profit as u32, 0, Some(owner), Some(Action::Fight), now) } else { self };
                            if !fits_i128(f.power + to_user) || !fits_i128(nft.power + max_int(f.power + to_user, 0)) {
                                Some(NFTError::Overflow)
                            } else if profit > 0 && self.accumulate_err(0, profit as u32, 0) is Some {
                                self.accumulate_err(0, profit as u32, 0)
                            } else if !fits_i128(c.terry_per_fight * c.haw_ai_percentage) {
                                Some(NFTError::Overflow)
                            } else if self.mint_terry_err(owner, c.terry_per_fight) is Some {
                                self.mint_terry_err(owner, c.terry_per_fight)
                            } else if s1.accumulate_err(to_haw as i128, 0, 0) is Some {
                                s1.accumulate_err(to_haw as i128, 0, 0)
                            } else if !fits_i128(self.balance.haw_ai_terry + to_haw) {
                                Some(NFTError::Overflow)
                            } else if profit > 0 && !fits_u32(self.balance.haw_ai_power + (profit as u32)) {
                                Some(NFTError::Overflow)
                            } else {
                                None
                            }
                        },
                    },
                },
            },
        }
    }

    /// The ledger after `user` closes a fight at `price`: the stake plus the player's part
    /// of the profit (or less the loss) returns to the card, capped at the card's maximum
    /// POWER; a card left with no POWER is destroyed. The house's part of a profit goes to
    /// the pot, and the fight reward is paid as on opening.
    pub open spec fn close_position_post(self, user: AccountId, category: Category, token_id: TokenId, price: i128, now: u64) -> LedgerV {
        let owner = self.owner_of(user);
        let nft = self.card(owner, token_id)->0;
        let f = self.fights.get(ActionKey { owner: self.owner_of(owner), category, token_id })->0;
        let c = self.config->0;
        let meta: CardMetadata = self.metadata[token_id.0];
        let pnl = Self::pnl_power_spec(f, c.power_to_usdc_rate, price)->Ok_0;
        let profit = if pnl > 0 { trunc_div(pnl * c.haw_ai_percentage, 100) } else { 0 };
        let to_user = pnl - profit;
        let stake_after = max_int(f.power + to_user, 0);
        let final_i = nft.power + stake_after;
        let final_power = max_int(min_int(final_i, meta.max_power as int), 0) as u32;
        let to_haw = trunc_div(c.terry_per_fight * c.haw_ai_percentage, 100);
        let s1 = if profit > 0 { self.accumulate_post(0, profit as u32, 0, Some(owner), Some(Action::Fight), now) } else { self };
        let s2 = if final_power == 0 {
            s1.drop_owner_card(user, token_id).drop_card(user, token_id)
        } else {
            s1.put_card(owner, token_id, Card { power: min_int(final_power as int, meta.max_power as int) as u32, locked_by_action: Action::Idle })
        };
        let s3 = s2.emit(Event::Fight(crate::event::Fight { action: Step::Close, fight: f }));
        let s4 = LedgerV { fights: s3.fights.remove_spec(ActionKey { owner: s3.owner_of(owner), category, token_id }, s3.pages_only), ..s3 };
        let s5 = s4.mint_terry_post(owner, c.terry_per_fight);
        let s6 = s5.accumulate_post(to_haw as i128, 0, 0, Some(owner), Some(Action::Fight), now);
        s6.with_balance(Balance {
            haw_ai_terry: (s6.balance.haw_ai_terry + to_haw) as i128,
            haw_ai_power: if profit > 0 { (s6.balance.haw_ai_power + (profit as u32)) as u32 } else { s6.balance.haw_ai_power },
            ..s6.balance
        })
    }

    pub open spec fn check_liquidation_err(self, user: AccountId, category: Category, token_id: TokenId, price: i128) -> Option<NFTError> {
        match self.fights.get(ActionKey { owner: self.owner_of(user), category, token_id }) {
            None => Some(NFTError::RecordNotFound),
            Some(f) => match self.config {
                None => Some(NFTError::NotInitialized),
                Some(c) => if price <= 0 || price >= i128::MAX / 2 {
                    Some(NFTError::InvalidPrice)
                } else {
                    match liquidation_price_spec(f) {
                        Err(e) => Some(e),
                        Ok(liq) => if !is_liquidated_spec(f.side_position, price, liq) {
                            Some(NFTError::NotLiquidatable)
                        } else if self.card(user, token_id) is None {
                            Some(NFTError::NotNFT)
                        } else {
                            self.mint_terry_err(user, c.terry_per_fight)
                        },
                    }
                },
            },
        }
    }

    /// The ledger after a fight under water at `price` is liquidated: the player still
    /// earns the fight reward, the card is unlocked (or destroyed when it has no POWER
    /// left) and the fight is closed.
    pub open spec fn check_liquidation_post(self, user: AccountId, category: Category, token_id: TokenId, price: i128) -> LedgerV {
        let f = self.fights.get(ActionKey { owner: self.owner_of(user), category, token_id })->0;
        let c = self.config->0;
        let nft = self.card(user, token_id)->0;
        let s1 = self.mint_terry_post(user, c.terry_per_fight);
        let s2 = if nft.power > 0 {
            s1.put_card(user, token_id, Card { locked_by_action: Action::Idle, ..nft })
        } else {
            s1.drop_owner_card(user, token_id).drop_card(user, token_id)
        };
        let s3 = s2.emit(Event::Fight(crate::event::Fight { action: Step::Close, fight: f }));
        LedgerV { fights: s3.fights.remove_spec(ActionKey { owner: s3.owner_of(user), category, token_id }, s3.pages_only), ..s3 }
    }
}

} // verus!

verus! {

use crate::ledger::lemma_owner_of_self;

/// The profit-and-loss in POWER of closing `f` at `price` (see `pnl_power_spec`).
fn pnl_power(f: &Fight, rate: i128, price: i128) -> (r: Result<i128, NFTError>)
    ensures
        match r {
            Ok(v) => LedgerV::pnl_power_spec(*f, rate, price) == Ok::<int, NFTError>(v as int),
            Err(e) => LedgerV::pnl_power_spec(*f, rate, price) == Err::<int, NFTError>(e),
        },
{
    let size: i128 = position_size(f.power, rate, f.leverage)?;
    if price <= 0 || f.trigger_price <= 0 {
        return Err(NFTError::InvalidPrice);
    }
    let diff: i128 = sub_i128(price, f.trigger_price)?;
    let num: i128 = mul_i128(size, diff)?;
    let raw: i128 = num / f.trigger_price;
    let pnl: i128 = match f.side_position {
        SidePosition::Long => raw,
        SidePosition::Short => {
            if raw == i128::MIN {
                return Err(NFTError::Overflow);
            }
            -raw
        },
    };
    let scaled: i128 = mul_i128(pnl, 10000)?;
    if rate == 0 {
        return Err(NFTError::DivisionByZero);
    }
    if scaled == i128::MIN && rate == -1 {
        return Err(NFTError::Overflow);
    }
    let q: i128 = if rate > 0 {
        scaled / rate
    } else if rate == i128::MIN {
        if scaled == i128::MIN { 1 } else { 0 }
    } else {
        -(scaled / (-rate))
    };
    Ok(q)
}

impl Ledger {
    /// Stores `fight` under `user`'s owner and publishes it as opened.
    pub fn write_fight(&mut self, user: AccountId, category: Category, token_id: TokenId, fight: Fight)
        requires
            old(self).wf(),
            old(self)@.fights.index.len() < u32::MAX,
            old(self)@.fights.legacy_or_empty().len() < u32::MAX,
        ensures
            final(self).wf(),
            final(self)@ == (LedgerV {
                fights: old(self)@.fights.write_spec(
                    ActionKey { owner: old(self)@.owner_of(user), category, token_id },
                    fight,
                    old(self)@.pages_only,
                ),
                ..old(self)@
            }).emit(Event::Fight(crate::event::Fight { action: Step::Open, fight })),
    {
        let owner = self.owner_of(&user);
        let po = self.pages_only;
        self.fights.write(ActionKey { owner, category, token_id }, fight, po);
        self.emit_fight_open(&fight);
    }

    /// The fight `user`'s owner has open on a card.
    pub fn read_fight(&self, user: AccountId, category: Category, token_id: TokenId) -> (r: Result<Fight, NFTError>)
        requires
            self.wf(),
        ensures
            match r {
                Ok(f) => self@.fights.get(ActionKey { owner: self@.owner_of(user), category, token_id }) == Some(f),
                Err(e) => self@.fights.get(ActionKey { owner: self@.owner_of(user), category, token_id }) is None
                    && e == NFTError::RecordNotFound,
            },
    {
        let owner = self.owner_of(&user);
        match self.fights.read(&ActionKey { owner, category, token_id }) {
            Some(f) => Ok(f),
            None => Err(NFTError::RecordNotFound),
        }
    }

    /// Publishes a fight as closed and drops it; refused where there is none.
    pub fn remove_fight(&mut self, user: AccountId, category: Category, token_id: TokenId) -> (r: Result<(), NFTError>)
        requires
            old(self).wf(),
        ensures
            final(self).wf(),
            match r {
                Ok(()) => old(self)@.fights.get(ActionKey { owner: old(self)@.owner_of(user), category, token_id }) is Some
                    && final(self)@ == (LedgerV {
                        fights: old(self)@.fights.remove_spec(
                            ActionKey { owner: old(self)@.owner_of(user), category, token_id },
                            old(self)@.pages_only,
                        ),
                        ..old(self)@.emit(Event::Fight(crate::event::Fight {
                            action: Step::Close,
                            fight: old(self)@.fights.get(ActionKey { owner: old(self)@.owner_of(user), category, token_id })->0,
                        }))
                    }),
                Err(e) => old(self)@.fights.get(ActionKey { owner: old(self)@.owner_of(user), category, token_id }) is None
                    && e == NFTError::RecordNotFound && final(self)@ == old(self)@,
            },
    {
        let owner = self.owner_of(&user);
        proof {
            lemma_owner_of_self(self, user);
            lemma_owner_of_self(self, owner);
        }
        let fight = self.read_fight(owner, category, token_id)?;
        self.emit_fight_close(&fight);
        let po = self.pages_only;
        self.fights.remove(&ActionKey { owner, category, token_id }, po);
        Ok(())
    }

    pub fn read_fights(&self) -> (r: Vec<Fight>)
        requires
            self.wf(),
        ensures
            r@ == self.fights.all_spec(self@.pages_only),
    {
        self.fights.read_all(self.pages_only)
    }

    pub fn read_fights_count(&self) -> (n: u32)
        requires
            self.wf(),
        ensures
            n == self.fights.count_spec(self@.pages_only),
    {
        self.fights.count(self.pages_only)
    }

    pub fn read_fights_page(&self, cursor: u32, limit: u32) -> (r: Vec<ActionKey>)
        requires
            self.wf(),
        ensures
            r@ == self.fights.page_spec(cursor, limit, self@.pages_only),
    {
        self.fights.page(cursor, limit, self.pages_only)
    }

    pub fn migrate_fights_to_pages(&mut self, start: u32, limit: u32) -> (next: u32)
        requires
            old(self).wf(),
            old(self).fights.index().len() + old(self).fights.all_spec(old(self)@.pages_only).len() <= u32::MAX,
        ensures
            final(self).wf(),
            next == crate::book::migrate_end(old(self).fights.all_spec(old(self)@.pages_only).len() as int, start, limit),
            final(self)@ == (LedgerV { fights: final(self)@.fights, ..old(self)@ }),
            final(self)@.fights.records == old(self)@.fights.records,
            final(self)@.fights.legacy == old(self)@.fights.legacy,
            final(self)@.fights.index == crate::book::migrate_index(
                old(self)@.fights.index,
                crate::book::keys_of(
                    old(self).fights.all_spec(old(self)@.pages_only).subrange(
                        if start >= old(self).fights.all_spec(old(self)@.pages_only).len() {
                            old(self).fights.all_spec(old(self)@.pages_only).len() as int
                        } else {
                            start as int
                        },
                        next as int,
                    ),
                ),
            ),
    {
        let po = self.pages_only;
        self.fights.migrate(start, limit, po)
    }
}


impl Ledger {
    /// `user` opens a fight on a card at the oracle price `price` (see `open_position_post`).
    pub fn open_position(&mut self, user: AccountId, category: Category, token_id: TokenId, currency: FightCurrency,
        side_position: SidePosition, leverage: u32, power_staked: u32, price: i128, now: u64) -> (r: Result<(), NFTError>)
        requires
            old(self).wf(),
            old(self)@.fights.index.len() < u32::MAX,
            old(self)@.fights.legacy_or_empty().len() < u32::MAX,
        ensures
            final(self).wf(),
            match r {
                Ok(()) => old(self)@.open_position_err(user, category, token_id, leverage, power_staked, price, now) is None
                    && final(self)@ == old(self)@.open_position_post(user, category, token_id, currency, side_position, leverage, power_staked, price, now),
                Err(e) => old(self)@.open_position_err(user, category, token_id, leverage, power_staked, price, now) == Some(e)
                    && final(self)@ == old(self)@,
            },
    {
        let owner = self.owner_of(&user);
        let nft = match self.read_nft(&owner, &token_id) {
            Some(n) => n,
            None => return Err(NFTError::NotNFT),
        };
        if nft.locked_by_action != Action::Idle {
            return Err(NFTError::CardLocked);
        }
        if !(leverage >= 1 && leverage <= 100) {
            return Err(NFTError::InvalidLeverage);
        }
        if power_staked == 0 {
            return Err(NFTError::InvalidAmount);
        }
        let (fee_pct, rate, reward, haw_pct) = {
            let c = self.read_config()?;
            (c.power_action_fee, c.power_to_usdc_rate, c.terry_per_fight, c.haw_ai_percentage)
        };
        let fee: u32 = mul_u32(fee_pct, power_staked)? / 100;
        let cost: u32 = add_u32(power_staked, fee)?;
        if nft.power < cost {
            return Err(NFTError::InsufficientPower);
        }
        let size: i128 = position_size(power_staked, rate, leverage)?;
        if price <= 0 || price >= i128::MAX / 100 {
            return Err(NFTError::InvalidPrice);
        }
        let scaled: i128 = mul_i128(size, 1000000)?;
        let amount_asset: i128 = if scaled >= 0 { scaled / price } else { -((-scaled) / price) };
        let x: i128 = mul_i128(reward, haw_pct as i128)?;
        let to_haw: i128 = x / 100;
        self.mint_terry_check(owner, reward)?;
        self.accumulate_check(to_haw, fee, 0)?;
        let haw_terry: i128 = add_i128(self.balance.haw_ai_terry, to_haw)?;
        let ghost s0 = self@;
        self.write_nft(owner, token_id, Card { power: nft.power - cost, locked_by_action: Action::Fight });
        let fight = Fight {
            owner,
            category,
            token_id,
            currency,
            power: power_staked,
            trigger_price: price,
            side_position,
            leverage,
            amount_asset,
        };
        self.write_fight(owner, category, token_id, fight);
        match self.mint_terry(owner, reward) {
            Ok(()) => {},
            Err(e) => {
                proof {
                    assert(false);
                }
                return Err(e);
            },
        }
        match self.accumulate_pot_internal(to_haw, fee, 0, Some(owner), Some(Action::Fight), now) {
            Ok(()) => {},
            Err(e) => {
                proof {
                    assert(false);
                }
                return Err(e);
            },
        }
        self.balance.haw_ai_terry = haw_terry;
        proof {
            assert(self@ =~= s0.open_position_post(user, category, token_id, currency, side_position, leverage, power_staked, price, now));
        }
        Ok(())
    }
}


impl Ledger {
    /// `user` closes a fight at the oracle price `price` (see `close_position_post`).
    #[verifier::rlimit(60)]
    #[verifier::spinoff_prover]
    pub fn close_position(&mut self, user: AccountId, category: Category, token_id: TokenId, price: i128, now: u64) -> (r: Result<(), NFTError>)
        requires
            old(self).wf(),
        ensures
            final(self).wf(),
            match r {
                Ok(()) => old(self)@.close_position_err(user, category, token_id, price, now) is None
                    && final(self)@ == old(self)@.close_position_post(user, category, token_id, price, now),
                Err(e) => old(self)@.close_position_err(user, category, token_id, price, now) == Some(e)
                    && final(self)@ == old(self)@,
            },
    {
        let owner = self.owner_of(&user);
        proof {
            lemma_owner_of_self(self, user);
            lemma_owner_of_self(self, owner);
        }
        let nft = match self.read_nft(&owner, &token_id) {
            Some(n) => n,
            None => return Err(NFTError::NotNFT),
        };
        let f = self.read_fight(owner, category, token_id)?;
        let (rate, haw_pct, reward) = {
            let c = self.read_config()?;
            (c.power_to_usdc_rate, c.haw_ai_percentage, c.terry_per_fight)
        };
        let pnl: i128 = pnl_power(&f, rate, price)?;
        let meta = self.read_metadata(token_id.0)?;
        let profit: i128 = if pnl > 0 {
            let m: i128 = mul_i128(pnl, haw_pct as i128)?;
            proof {
                assert(pnl * haw_pct >= 0) by (nonlinear_arith)
                    requires
                        pnl > 0,
                ;
            }
            m / 100
        } else {
            0
        };
        let to_user: i128 = pnl - profit;
        let sum: i128 = add_i128(f.power as i128, to_user)?;
        let stake_after: i128 = if sum > 0 { sum } else { 0 };
        let final_i: i128 = add_i128(nft.power as i128, stake_after)?;
        if profit > 0 {
            self.accumulate_check(0, profit as u32, 0)?;
        }
        let x: i128 = mul_i128(reward, haw_pct as i128)?;
        let to_haw: i128 = x / 100;
        self.mint_terry_check(owner, reward)?;
        if profit > 0 {
            self.accumulate_check_after(0, profit as u32, 0, Some(owner), Some(Action::Fight), now, to_haw, 0, 0)?;
        } else {
            self.accumulate_check(to_haw, 0, 0)?;
        }
        let haw_terry: i128 = add_i128(self.balance.haw_ai_terry, to_haw)?;
        let haw_power: u32 = if profit > 0 {
            add_u32(self.balance.haw_ai_power, profit as u32)?
        } else {
            self.balance.haw_ai_power
        };
        let ghost s0 = self@;
        if profit > 0 {
            match self.accumulate_pot_internal(0, profit as u32, 0, Some(owner), Some(Action::Fight), now) {
                Ok(()) => {},
                Err(e) => {
                    proof {
                        assert(false);
                    }
                    return Err(e);
                },
            }
        }
        let max_power: i128 = meta.max_power as i128;
        let capped: i128 = if final_i < max_power { final_i } else { max_power };
        let final_power: u32 = if capped > 0 { capped as u32 } else { 0 };
        if final_power == 0 {
            self.remove_owner_card(user, token_id);
            self.remove_nft(user, token_id);
        } else {
            let p: u32 = if final_power < meta.max_power { final_power } else { meta.max_power };
            self.write_nft(owner, token_id, Card { power: p, locked_by_action: Action::Idle });
        }
        match self.remove_fight(owner, category, token_id) {
            Ok(()) => {},
            Err(e) => {
                proof {
                    assert(false);
                }
                return Err(e);
            },
        }
        match self.mint_terry(owner, reward) {
            Ok(()) => {},
            Err(e) => {
                proof {
                    assert(false);
                }
                return Err(e);
            },
        }
        match self.accumulate_pot_internal(to_haw, 0, 0, Some(owner), Some(Action::Fight), now) {
            Ok(()) => {},
            Err(e) => {
                proof {
                    assert(false);
                }
                return Err(e);
            },
        }
        self.balance.haw_ai_terry = haw_terry;
        self.balance.haw_ai_power = haw_power;
        proof {
            assert(self@ =~= s0.close_position_post(user, category, token_id, price, now));
        }
        Ok(())
    }

    /// Liquidates a fight that the price `price` has put under water (see
    /// `check_liquidation_post`); anyone may ask for it.
    pub fn check_liquidation(&mut self, user: AccountId, category: Category, token_id: TokenId, price: i128) -> (r: Result<(), NFTError>)
        requires
            old(self).wf(),
        ensures
            final(self).wf(),
            match r {
                Ok(()) => old(self)@.check_liquidation_err(user, category, token_id, price) is None
                    && final(self)@ == old(self)@.check_liquidation_post(user, category, token_id, price),
                Err(e) => old(self)@.check_liquidation_err(user, category, token_id, price) == Some(e)
                    && final(self)@ == old(self)@,
            },
    {
        let f = self.read_fight(user, category, token_id)?;
        let reward: i128 = self.read_config()?.terry_per_fight;
        if price <= 0 || price >= i128::MAX / 2 {
            return Err(NFTError::InvalidPrice);
        }
        let liq: i128 = get_liquidation_price(&f)?;
        let under: bool = match f.side_position {
            SidePosition::Long => price <= liq,
            SidePosition::Short => price >= liq,
        };
        if !under {
            return Err(NFTError::NotLiquidatable);
        }
        let nft = match self.read_nft(&user, &token_id) {
            Some(n) => n,
            None => return Err(NFTError::NotNFT),
        };
        let ghost s0 = self@;
        self.mint_terry(user, reward)?;
        if nft.power > 0 {
            self.write_nft(user, token_id, Card { locked_by_action: Action::Idle, ..nft });
        } else {
            self.remove_owner_card(user, token_id);
            self.remove_nft(user, token_id);
        }
        match self.remove_fight(user, category, token_id) {
            Ok(()) => {},
            Err(e) => {
                proof {
                    assert(false);
                }
                return Err(e);
            },
        }
        proof {
            assert(self@ =~= s0.check_liquidation_post(user, category, token_id, price));
        }
        Ok(())
    }
}

} // verus!
