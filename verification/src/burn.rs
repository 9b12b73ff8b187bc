//! Burning a card: its owner gets part of its TERRY price and POWER back, the
//! rest goes to the pot, and the card is destroyed.
use vstd::prelude::*;
use crate::types::{AccountId, Action, TokenId, User};
use crate::error::NFTError;
use crate::event::Event;
use crate::ledger::{Ledger, LedgerV};
use crate::math::{fits_i128, fits_u32, trunc_div, mul_i128, add_i128};

verus! {

impl LedgerV {
    /// The TERRY value of burning a card of `power` whose kind is priced `price_terry` at
    /// `initial_power`: half the price times the whole number of initial powers it holds.
    pub open spec fn burn_terry_value(price_terry: i128, power: u32, initial_power: u32) -> int {
        trunc_div(price_terry * (power / initial_power), 2)
    }

    pub open spec fn burn_err(self, user: AccountId, token_id: TokenId) -> Option<NFTError> {
        match self.config {
            None => Some(NFTError::NotInitialized),
            Some(c) => match self.card(user, token_id) {
                None => Some(NFTError::NotNFT),
                Some(nft) => if !self.metadata.contains_key(token_id.0) {
                    Some(NFTError::MetadataMissing)
                } else {
                    let meta = self.metadata[token_id.0];
                    let pct = c.burn_receive_percentage;
                    if meta.initial_power == 0 {
                        Some(NFTError::DivisionByZero)
                    } else if !fits_i128(meta.price_terry * (nft.power / meta.initial_power)) {
                        Some(NFTError::Overflow)
                    } else {
                        let value = Self::burn_terry_value(meta.price_terry, nft.power, meta.initial_power);
                        let receive = trunc_div(value * pct, 100);
                        let total_power = meta.initial_power + nft.power / 2;
                        let receive_power = (total_power * pct) / 100;
                        let u = self.user(user);
                        if !fits_i128(value * pct) || !fits_i128(value - receive) {
                            Some(NFTError::Overflow)
                        } else if !fits_u32(total_power) {
                            Some(NFTError::Overflow)
                        } else if !fits_u32(u.power + (receive_power as u32)) || !fits_i128(u.terry + receive)
                            || !fits_i128(u.total_history_terry + receive) {
                            Some(NFTError::Overflow)
                        } else if self.levels.len() == 0 {
                            Some(NFTError::LevelsMissing)
                        } else {
                            self.accumulate_err((value - receive) as i128, (total_power - receive_power) as u32, 0)
                        }
                    }
                },
            },
        }
    }

    /// The ledger after `user` burns card `token_id` at `now`: they receive the burn
    /// percentage of its TERRY value and of its POWER (the kind's initial POWER plus half
    /// the card's), the rest goes to the pot, the burn is published and the card is
    /// destroyed.
    pub open spec fn burn_post(self, user: AccountId, token_id: TokenId, now: u64) -> LedgerV {
        let c = self.config->0;
        let nft = self.card(user, token_id)->0;
        let meta = self.metadata[token_id.0];
        let pct = c.burn_receive_percentage;
        let value = Self::burn_terry_value(meta.price_terry, nft.power, meta.initial_power);
        let receive = trunc_div(value * pct, 100);
        let total_power = meta.initial_power + nft.power / 2;
        let receive_power = (total_power * pct) / 100;
        let u = self.user(user);
        self.put_user(user, User {
            power: (u.power + (receive_power as u32)) as u32,
            terry: (u.terry + receive) as i128,
            total_history_terry: (u.total_history_terry + receive) as i128,
            ..u
        })
            .accumulate_post((value - receive) as i128, (total_power - receive_power) as u32, 0, Some(user), Some(Action::Burn), now)
            .emit(Event::Burn(crate::event::Burn { player: user }))
            .drop_owner_card(user, token_id)
            .drop_card(user, token_id)
    }
}

impl Ledger {
    /// `user` burns card `token_id` at `now` (see `burn_post`).
    pub fn burn(&mut self, user: AccountId, token_id: TokenId, now: u64) -> (r: Result<(), NFTError>)
        requires
            old(self).wf(),
        ensures
            final(self).wf(),
            match r {
                Ok(()) => old(self)@.burn_err(user, token_id) is None && final(self)@ == old(self)@.burn_post(user, token_id, now),
                Err(e) => old(self)@.burn_err(user, token_id) == Some(e) && final(self)@ == old(self)@,
            },
    {
        let pct: u32 = self.read_config()?.burn_receive_percentage;
        let nft = match self.read_nft(&user, &token_id) {
            Some(n) => n,
            None => return Err(NFTError::NotNFT),
        };
        let meta = self.read_metadata(token_id.0)?;
        if meta.initial_power == 0 {
            return Err(NFTError::DivisionByZero);
        }
        let ratio: i128 = (nft.power / meta.initial_power) as i128;
        let scaled: i128 = mul_i128(meta.price_terry, ratio)?;
        let value: i128 = scaled / 2;
        let vm: i128 = mul_i128(value, pct as i128)?;
        let receive: i128 = vm / 100;
        let pot_terry: i128 = match value.checked_sub(receive) {
            Some(v) => v,
            None => return Err(NFTError::Overflow),
        };
        let total_power: u32 = match meta.initial_power.checked_add(nft.power / 2) {
            Some(v) => v,
            None => return Err(NFTError::Overflow),
        };
        proof {
            assert(total_power as u64 * pct as u64 <= u64::MAX) by (nonlinear_arith)
                requires
                    total_power <= u32::MAX,
                    pct <= u32::MAX,
            ;
        }
        let receive_power: u64 = (total_power as u64 * pct as u64) / 100;
        let pot_power: u32 = (total_power as i128 - receive_power as i128) as u32;
        let u = self.read_user(&user);
        let new_power: u32 = match u.power.checked_add(receive_power as u32) {
            Some(v) => v,
            None => return Err(NFTError::Overflow),
        };
        let new_terry: i128 = add_i128(u.terry, receive)?;
        let new_hist: i128 = add_i128(u.total_history_terry, receive)?;
        if self.levels.len() == 0 {
            return Err(NFTError::LevelsMissing);
        }
        self.accumulate_check(pot_terry, pot_power, 0)?;
        let ghost s0 = self@;
        proof {
            crate::ledger::lemma_owner_of_self(self, user);
            assert(self@.user(user).owner == user);
        }
        let mut u2 = u;
        u2.power = new_power;
        u2.terry = new_terry;
        u2.total_history_terry = new_hist;
        match self.write_user(user, u2) {
            Ok(()) => {},
            Err(e) => {
                proof {
                    assert(false);
                }
                return Err(e);
            },
        }
        match self.accumulate_pot_internal(pot_terry, pot_power, 0, Some(user), Some(Action::Burn), now) {
            Ok(()) => {},
            Err(e) => {
                proof {
                    assert(false);
                }
                return Err(e);
            },
        }
        self.emit_burn(user);
        self.remove_owner_card(user, token_id);
        self.remove_nft(user, token_id);
        proof {
            assert(self@ =~= s0.burn_post(user, token_id, now));
        }
        Ok(())
    }
}

} // verus!
