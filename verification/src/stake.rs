//! Staking: a Skill or Leader card's POWER is locked for a period and comes
//! back with interest.
use vstd::prelude::*;
use crate::types::{AccountId, ActionKey, Category, TokenId};
use crate::book::Record;

verus! {

/// An open stake.
#[derive(Clone, Copy, Debug, PartialEq, Eq, Structural)]
pub struct Stake {
    pub owner: AccountId,
    pub category: Category,
    pub token_id: TokenId,
    pub power: u32,
    pub period: u32,
    pub interest_percentage: u32,
    pub staked_time: u32,
}

impl Record for Stake {
    open spec fn rkey(&self) -> ActionKey {
        ActionKey { owner: self.owner, category: self.category, token_id: self.token_id }
    }

    fn key(&self) -> (k: ActionKey) {
        ActionKey { owner: self.owner, category: self.category, token_id: self.token_id }
    }
}

} // verus!

verus! {

use crate::types::{Action, Card, State, Balance};
use crate::error::NFTError;
use crate::event::{Event, Step};
use crate::ledger::{Ledger, LedgerV};
use crate::math::{fits_u32, fits_u64, fits_i128, add_u32, add_u64, mul_u32, mul_i128};

pub open spec fn stakes_category(c: Category) -> bool {
    c == Category::Skill || c == Category::Leader
}

impl LedgerV {
    pub open spec fn stake_err(self, user: AccountId, category: Category, token_id: TokenId, period_index: u32, now: u64) -> Option<NFTError> {
        let owner = self.owner_of(user);
        if !stakes_category(category) {
            Some(NFTError::InvalidCategory)
        } else {
            match self.card(owner, token_id) {
                None => Some(NFTError::NotNFT),
                Some(nft) => if nft.locked_by_action != Action::Idle {
                    Some(NFTError::CardLocked)
                } else {
                    match self.config {
                        None => Some(NFTError::NotInitialized),
                        Some(c) => {
                            let fee = c.power_action_fee * nft.power / 100;
                            let staked = nft.power - fee;
                            if period_index >= c.stake_periods@.len() || period_index >= c.stake_interest_percentages@.len() {
                                Some(NFTError::InvalidPeriod)
                            } else if !fits_u32(c.power_action_fee * nft.power) {
                                Some(NFTError::Overflow)
                            } else if staked < 0 {
                                Some(NFTError::InsufficientPower)
                            } else if !fits_u32(self.balance.haw_ai_power + fee) {
                                Some(NFTError::Overflow)
                            } else if now > u32::MAX {
                                Some(NFTError::TimestampOverflow)
                            } else if self.mint_terry_err(owner, c.terry_per_stake) is Some {
                                self.mint_terry_err(owner, c.terry_per_stake)
                            } else if self.haw_terry_err(c.terry_per_stake, c.haw_ai_percentage) is Some {
                                self.haw_terry_err(c.terry_per_stake, c.haw_ai_percentage)
                            } else if !fits_u64(self.pool(now).total_staked_power + staked) {
                                Some(NFTError::Overflow)
                            } else {
                                None
                            }
                        },
                    }
                },
            }
        }
    }

    /// The ledger after `user` stakes a Skill or Leader card for the chosen period: its
    /// POWER, less the fee, goes into the stake and the card is locked at zero power.
    pub open spec fn stake_post(self, user: AccountId, category: Category, token_id: TokenId, period_index: u32, now: u64) -> LedgerV {
        let owner = self.owner_of(user);
        let nft = self.card(owner, token_id)->0;
        let c = self.config->0;
        let fee = (c.power_action_fee * nft.power / 100) as u32;
        let staked = (nft.power - fee) as u32;
        let s1 = self.put_card(owner, token_id, Card { power: 0, locked_by_action: Action::Stake });
        let s2 = s1.with_balance(Balance { haw_ai_power: (s1.balance.haw_ai_power + fee) as u32, ..s1.balance });
        let rec = Stake {
            owner,
            category,
            token_id,
            power: staked,
            period: c.stake_periods@[period_index as int],
            interest_percentage: c.stake_interest_percentages@[period_index as int],
            staked_time: now as u32,
        };
        let s3 = LedgerV { stakes: s2.stakes.write_spec(ActionKey { owner: s2.owner_of(owner), category, token_id }, rec, s2.pages_only), ..s2 };
        let s4 = s3.emit(Event::Stake(crate::event::Stake { action: Step::Open, player: owner, owner, category, token_id }));
        let s5 = s4.mint_terry_post(owner, c.terry_per_stake);
        let s6 = s5.haw_terry_post(c.terry_per_stake, c.haw_ai_percentage);
        let st = s6.pool(now);
        s6.set_pool(State { total_staked_power: (st.total_staked_power + staked) as u64, ..st })
    }

    pub open spec fn increase_stake_err(self, user: AccountId, category: Category, token_id: TokenId, increase: u32) -> Option<NFTError> {
        let owner = self.owner_of(user);
        if increase == 0 || increase > u32::MAX / 2 {
            Some(NFTError::InvalidAmount)
        } else {
            match self.card(owner, token_id) {
                None => Some(NFTError::NotNFT),
                Some(nft) => if nft.locked_by_action != Action::Stake {
                    Some(NFTError::WrongLock)
                } else if nft.power < increase {
                    Some(NFTError::InsufficientPower)
                } else {
                    match self.stakes.get(ActionKey { owner: self.owner_of(owner), category, token_id }) {
                        None => Some(NFTError::RecordNotFound),
                        Some(st) => if !fits_u32(st.power + increase) {
                            Some(NFTError::Overflow)
                        } else {
                            match self.config {
                                None => Some(NFTError::NotInitialized),
                                Some(c) => if !fits_u32(c.power_action_fee * increase) {
                                    Some(NFTError::Overflow)
                                } else if st.power + increase - c.power_action_fee * increase / 100 < 0 {
                                    Some(NFTError::InsufficientPower)
                                } else if !fits_u32(self.balance.haw_ai_power + c.power_action_fee * increase / 100) {
                                    Some(NFTError::Overflow)
                                } else if self.mint_terry_err(owner, c.terry_per_stake) is Some {
                                    self.mint_terry_err(owner, c.terry_per_stake)
                                } else {
                                    self.haw_terry_err(c.terry_per_stake, c.haw_ai_percentage)
                                },
                            }
                        },
                    }
                },
            }
        }
    }

    /// The ledger after `user` moves `increase` more POWER from a staked card into its
    /// stake, less the fee.
    pub open spec fn increase_stake_post(self, user: AccountId, category: Category, token_id: TokenId, increase: u32) -> LedgerV {
        let owner = self.owner_of(user);
        let nft = self.card(owner, token_id)->0;
        let st = self.stakes.get(ActionKey { owner: self.owner_of(owner), category, token_id })->0;
        let c = self.config->0;
        let fee = (c.power_action_fee * increase / 100) as u32;
        let s1 = self.put_card(owner, token_id, Card { power: (nft.power - increase) as u32, ..nft });
        let s2 = s1.with_balance(Balance { haw_ai_power: (s1.balance.haw_ai_power + fee) as u32, ..s1.balance });
        let rec = Stake { power: (st.power + increase - fee) as u32, ..st };
        let s3 = LedgerV { stakes: s2.stakes.write_spec(ActionKey { owner: s2.owner_of(owner), category, token_id }, rec, s2.pages_only), ..s2 };
        let s4 = s3.emit(Event::Stake(crate::event::Stake { action: Step::Increase, player: owner, owner, category, token_id }));
        let s5 = s4.mint_terry_post(owner, c.terry_per_stake);
        s5.haw_terry_post(c.terry_per_stake, c.haw_ai_percentage)
    }

    pub open spec fn unstake_err(self, user: AccountId, category: Category, token_id: TokenId, now: u64) -> Option<NFTError> {
        let owner = self.owner_of(user);
        match self.card(owner, token_id) {
            None => Some(NFTError::NotNFT),
            Some(nft) => if nft.locked_by_action != Action::Stake {
                Some(NFTError::WrongLock)
            } else {
                match self.stakes.get(ActionKey { owner: self.owner_of(owner), category, token_id }) {
                    None => Some(NFTError::RecordNotFound),
                    Some(st) => {
                        let interest = st.power * st.interest_percentage / 100;
                        if now > u32::MAX {
                            Some(NFTError::TimestampOverflow)
                        } else if !fits_u32(st.staked_time + st.period) {
                            Some(NFTError::Overflow)
                        } else if st.staked_time + st.period > now {
                            Some(NFTError::LockedPeriod)
                        } else if !fits_u32(st.power * st.interest_percentage) {
                            Some(NFTError::Overflow)
                        } else if !fits_u32(st.power + interest) || !fits_u32(nft.power + (st.power + interest)) {
                            Some(NFTError::Overflow)
                        } else {
                            match self.config {
                                None => Some(NFTError::NotInitialized),
                                Some(c) => if !fits_i128(c.terry_per_power * interest) {
                                    Some(NFTError::Overflow)
                                } else if self.mint_terry_err(owner, (c.terry_per_power * interest) as i128) is Some {
                                    self.mint_terry_err(owner, (c.terry_per_power * interest) as i128)
                                } else if self.mint_terry_post(owner, (c.terry_per_power * interest) as i128).mint_terry_err(owner, c.terry_per_stake) is Some {
                                    self.mint_terry_post(owner, (c.terry_per_power * interest) as i128).mint_terry_err(owner, c.terry_per_stake)
                                } else {
                                    self.haw_terry_err(c.terry_per_stake, c.haw_ai_percentage)
                                },
                            }
                        }
                    },
                }
            },
        }
    }

    /// The ledger after `user` closes a stake whose period has elapsed: the card gets the
    /// staked POWER back with interest and is unlocked, and the player earns TERRY for
    /// the interest and for the action.
    pub open spec fn unstake_post(self, user: AccountId, category: Category, token_id: TokenId, now: u64) -> LedgerV {
        let owner = self.owner_of(user);
        let nft = self.card(owner, token_id)->0;
        let st = self.stakes.get(ActionKey { owner: self.owner_of(owner), category, token_id })->0;
        let c = self.config->0;
        let interest = st.power * st.interest_percentage / 100;
        let s1 = self.put_card(owner, token_id, Card { power: (nft.power + (st.power + interest)) as u32, locked_by_action: Action::Idle });
        let s2 = s1.mint_terry_post(owner, (c.terry_per_power * interest) as i128);
        let s3 = s2.emit(Event::Stake(crate::event::Stake { action: Step::Close, player: owner, owner, category, token_id }));
        let s4 = LedgerV { stakes: s3.stakes.remove_spec(ActionKey { owner: s3.owner_of(owner), category, token_id }, s3.pages_only), ..s3 };
        let s5 = s4.mint_terry_post(owner, c.terry_per_stake);
        s5.haw_terry_post(c.terry_per_stake, c.haw_ai_percentage)
    }
}

impl Ledger {
    /// Stores a stake under `user`'s owner.
    pub fn write_stake(&mut self, user: AccountId, category: Category, token_id: TokenId, stake: Stake)
        requires
            old(self).wf(),
            old(self)@.stakes.index.len() < u32::MAX,
            old(self)@.stakes.legacy_or_empty().len() < u32::MAX,
        ensures
            final(self).wf(),
            final(self)@ == (LedgerV {
                stakes: old(self)@.stakes.write_spec(
                    ActionKey { owner: old(self)@.owner_of(user), category, token_id },
                    stake,
                    old(self)@.pages_only,
                ),
                ..old(self)@
            }),
    {
        let owner = self.owner_of(&user);
        let po = self.pages_only;
        self.stakes.write(ActionKey { owner, category, token_id }, stake, po);
    }

    pub fn read_stake(&self, user: AccountId, category: Category, token_id: TokenId) -> (r: Result<Stake, NFTError>)
        requires
            self.wf(),
        ensures
            match r {
                Ok(s) => self@.stakes.get(ActionKey { owner: self@.owner_of(user), category, token_id }) == Some(s),
                Err(e) => self@.stakes.get(ActionKey { owner: self@.owner_of(user), category, token_id }) is None
                    && e == NFTError::RecordNotFound,
            },
    {
        let owner = self.owner_of(&user);
        match self.stakes.read(&ActionKey { owner, category, token_id }) {
            Some(s) => Ok(s),
            None => Err(NFTError::RecordNotFound),
        }
    }

    pub fn remove_stake(&mut self, user: AccountId, category: Category, token_id: TokenId)
        requires
            old(self).wf(),
        ensures
            final(self).wf(),
            final(self)@ == (LedgerV {
                stakes: old(self)@.stakes.remove_spec(
                    ActionKey { owner: old(self)@.owner_of(user), category, token_id },
                    old(self)@.pages_only,
                ),
                ..old(self)@
            }),
    {
        let owner = self.owner_of(&user);
        let po = self.pages_only;
        self.stakes.remove(&ActionKey { owner, category, token_id }, po);
    }

    pub fn read_stakes(&self) -> (r: Vec<Stake>)
        requires
            self.wf(),
        ensures
            r@ == self.stakes.all_spec(self@.pages_only),
    {
        self.stakes.read_all(self.pages_only)
    }

    pub fn read_stakes_count(&self) -> (n: u32)
        requires
            self.wf(),
        ensures
            n == self.stakes.count_spec(self@.pages_only),
    {
        self.stakes.count(self.pages_only)
    }

    pub fn read_stakes_page(&self, cursor: u32, limit: u32) -> (r: Vec<ActionKey>)
        requires
            self.wf(),
        ensures
            r@ == self.stakes.page_spec(cursor, limit, self@.pages_only),
    {
        self.stakes.page(cursor, limit, self.pages_only)
    }

    pub fn migrate_stakes_to_pages(&mut self, start: u32, limit: u32) -> (next: u32)
        requires
            old(self).wf(),
            old(self).stakes.index().len() + old(self).stakes.all_spec(old(self)@.pages_only).len() <= u32::MAX,
        ensures
            final(self).wf(),
            next == crate::book::migrate_end(old(self).stakes.all_spec(old(self)@.pages_only).len() as int, start, limit),
            final(self)@ == (LedgerV { stakes: final(self)@.stakes, ..old(self)@ }),
            final(self)@.stakes.records == old(self)@.stakes.records,
            final(self)@.stakes.legacy == old(self)@.stakes.legacy,
            final(self)@.stakes.index == crate::book::migrate_index(
                old(self)@.stakes.index,
                crate::book::keys_of(
                    old(self).stakes.all_spec(old(self)@.pages_only).subrange(
                        if start >= old(self).stakes.all_spec(old(self)@.pages_only).len() {
                            old(self).stakes.all_spec(old(self)@.pages_only).len() as int
                        } else {
                            start as int
                        },
                        next as int,
                    ),
                ),
            ),
    {
        let po = self.pages_only;
        self.stakes.migrate(start, limit, po)
    }

    /// `user` stakes a Skill or Leader card (see `stake_post`).
    pub fn stake(&mut self, user: AccountId, category: Category, token_id: TokenId, period_index: u32, now: u64) -> (r: Result<(), NFTError>)
        requires
            old(self).wf(),
            old(self)@.stakes.index.len() < u32::MAX,
            old(self)@.stakes.legacy_or_empty().len() < u32::MAX,
        ensures
            final(self).wf(),
            match r {
                Ok(()) => old(self)@.stake_err(user, category, token_id, period_index, now) is None
                    && final(self)@ == old(self)@.stake_post(user, category, token_id, period_index, now),
                Err(e) => old(self)@.stake_err(user, category, token_id, period_index, now) == Some(e)
                    && final(self)@ == old(self)@,
            },
    {
        if !(category == Category::Skill || category == Category::Leader) {
            return Err(NFTError::InvalidCategory);
        }
        let owner = self.owner_of(&user);
        let nft = match self.read_nft(&owner, &token_id) {
            Some(n) => n,
            None => return Err(NFTError::NotNFT),
        };
        if nft.locked_by_action != Action::Idle {
            return Err(NFTError::CardLocked);
        }
        let (fee_pct, reward, haw_pct, period, interest) = {
            let c = self.read_config()?;
            if (period_index as usize) >= c.stake_periods.len() || (period_index as usize) >= c.stake_interest_percentages.len() {
                return Err(NFTError::InvalidPeriod);
            }
            (c.power_action_fee, c.terry_per_stake, c.haw_ai_percentage, c.stake_periods[period_index as usize],
                c.stake_interest_percentages[period_index as usize])
        };
        let fee: u32 = mul_u32(fee_pct, nft.power)? / 100;
        let staked: u32 = match nft.power.checked_sub(fee) {
            Some(v) => v,
            None => return Err(NFTError::InsufficientPower),
        };
        let haw_power: u32 = add_u32(self.balance.haw_ai_power, fee)?;
        if now > u32::MAX as u64 {
            return Err(NFTError::TimestampOverflow);
        }
        self.mint_terry_check(owner, reward)?;
        let haw_terry: i128 = self.haw_terry_check(reward, haw_pct)?;
        let st = self.read_state(now);
        let total_staked: u64 = add_u64(st.total_staked_power, staked as u64)?;
        let ghost s0 = self@;
        self.write_nft(owner, token_id, Card { power: 0, locked_by_action: Action::Stake });
        self.balance.haw_ai_power = haw_power;
        let rec = Stake { owner, category, token_id, power: staked, period, interest_percentage: interest, staked_time: now as u32 };
        self.write_stake(owner, category, token_id, rec);
        self.emit_stake(owner, category, token_id);
        match self.mint_terry(owner, reward) {
            Ok(()) => {},
            Err(e) => {
                proof {
                    assert(false);
                }
                return Err(e);
            },
        }
        self.balance.haw_ai_terry = haw_terry;
        let mut st2 = st;
        st2.total_staked_power = total_staked;
        self.write_state(st2);
        proof {
            assert(self@ =~= s0.stake_post(user, category, token_id, period_index, now));
        }
        Ok(())
    }

    /// `user` adds POWER from a staked card to its stake (see `increase_stake_post`).
    pub fn increase_stake_power(&mut self, user: AccountId, category: Category, token_id: TokenId, increase_power: u32) -> (r: Result<(), NFTError>)
        requires
            old(self).wf(),
            old(self)@.stakes.index.len() < u32::MAX,
            old(self)@.stakes.legacy_or_empty().len() < u32::MAX,
        ensures
            final(self).wf(),
            match r {
                Ok(()) => old(self)@.increase_stake_err(user, category, token_id, increase_power) is None
                    && final(self)@ == old(self)@.increase_stake_post(user, category, token_id, increase_power),
                Err(e) => old(self)@.increase_stake_err(user, category, token_id, increase_power) == Some(e)
                    && final(self)@ == old(self)@,
            },
    {
        let owner = self.owner_of(&user);
        if increase_power == 0 || increase_power > u32::MAX / 2 {
            return Err(NFTError::InvalidAmount);
        }
        let nft = match self.read_nft(&owner, &token_id) {
            Some(n) => n,
            None => return Err(NFTError::NotNFT),
        };
        if nft.locked_by_action != Action::Stake {
            return Err(NFTError::WrongLock);
        }
        if nft.power < increase_power {
            return Err(NFTError::InsufficientPower);
        }
        let mut rec = self.read_stake(owner, category, token_id)?;
        let grown: u32 = add_u32(rec.power, increase_power)?;
        let (fee_pct, reward, haw_pct) = {
            let c = self.read_config()?;
            (c.power_action_fee, c.terry_per_stake, c.haw_ai_percentage)
        };
        let fee: u32 = mul_u32(fee_pct, increase_power)? / 100;
        let net: u32 = match grown.checked_sub(fee) {
            Some(v) => v,
            None => return Err(NFTError::InsufficientPower),
        };
        let haw_power: u32 = add_u32(self.balance.haw_ai_power, fee)?;
        self.mint_terry_check(owner, reward)?;
        let haw_terry: i128 = self.haw_terry_check(reward, haw_pct)?;
        let ghost s0 = self@;
        let mut card = nft;
        card.power = nft.power - increase_power;
        self.write_nft(owner, token_id, card);
        self.balance.haw_ai_power = haw_power;
        rec.power = net;
        self.write_stake(owner, category, token_id, rec);
        self.emit_stake_increased(owner, category, token_id);
        match self.mint_terry(owner, reward) {
            Ok(()) => {},
            Err(e) => {
                proof {
                    assert(false);
                }
                return Err(e);
            },
        }
        self.balance.haw_ai_terry = haw_terry;
        proof {
            assert(self@ =~= s0.increase_stake_post(user, category, token_id, increase_power));
        }
        Ok(())
    }

    /// `user` closes a stake (see `unstake_post`).
    pub fn unstake(&mut self, user: AccountId, category: Category, token_id: TokenId, now: u64) -> (r: Result<(), NFTError>)
        requires
            old(self).wf(),
        ensures
            final(self).wf(),
            match r {
                Ok(()) => old(self)@.unstake_err(user, category, token_id, now) is None
                    && final(self)@ == old(self)@.unstake_post(user, category, token_id, now),
                Err(e) => old(self)@.unstake_err(user, category, token_id, now) == Some(e)
                    && final(self)@ == old(self)@,
            },
    {
        let owner = self.owner_of(&user);
        let nft = match self.read_nft(&owner, &token_id) {
            Some(n) => n,
            None => return Err(NFTError::NotNFT),
        };
        if nft.locked_by_action != Action::Stake {
            return Err(NFTError::WrongLock);
        }
        let rec = self.read_stake(owner, category, token_id)?;
        if now > u32::MAX as u64 {
            return Err(NFTError::TimestampOverflow);
        }
        let unlock: u32 = add_u32(rec.staked_time, rec.period)?;
        if unlock > now as u32 {
            return Err(NFTError::LockedPeriod);
        }
        let interest: u32 = mul_u32(rec.power, rec.interest_percentage)? / 100;
        let gain: u32 = add_u32(rec.power, interest)?;
        let new_power: u32 = add_u32(nft.power, gain)?;
        let (per_power, reward, haw_pct) = {
            let c = self.read_config()?;
            (c.terry_per_power, c.terry_per_stake, c.haw_ai_percentage)
        };
        let earned: i128 = mul_i128(per_power, interest as i128)?;
        self.mint_terry_check(owner, earned)?;
        let u = self.read_user(&owner);
        let t1: i128 = u.terry + earned;
        let h1: i128 = u.total_history_terry + earned;
        if t1.checked_add(reward).is_none() || h1.checked_add(reward).is_none() {
            return Err(NFTError::Overflow);
        }
        let haw_terry: i128 = self.haw_terry_check(reward, haw_pct)?;
        let ghost s0 = self@;
        self.write_nft(owner, token_id, Card { power: new_power, locked_by_action: Action::Idle });
        match self.mint_terry(owner, earned) {
            Ok(()) => {},
            Err(e) => {
                proof {
                    assert(false);
                }
                return Err(e);
            },
        }
        self.emit_unstake(owner, category, token_id);
        self.remove_stake(owner, category, token_id);
        match self.mint_terry(owner, reward) {
            Ok(()) => {},
            Err(e) => {
                proof {
                    assert(false);
                }
                return Err(e);
            },
        }
        self.balance.haw_ai_terry = haw_terry;
        proof {
            assert(self@ =~= s0.unstake_post(user, category, token_id, now));
        }
        Ok(())
    }
}

} // verus!
