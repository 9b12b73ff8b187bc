//! The HAW AI pot: contributions (less the Dogstar fee) accumulate until an
//! administrator opens a round, which snapshots the pot and turns it into
//! claimable balances shared by deck power.
use vstd::prelude::*;
use crate::types::{AccountId, Action, PotBalance, ContractVault, DogstarBalance, PotStatus};
use crate::error::NFTError;
use crate::event::{Event, FeeAcc};
use crate::ledger::{Ledger, LedgerV};
use crate::math::{fits_i128, fits_u32, bps_fee_spec, bps_fee_i128, bps_fee_u32, add_i128, sub_i128, add_u32, sub_u32};

verus! {

/// Why splitting a contribution between the pot and the Dogstar fee (`p` basis points of
/// each asset) would overflow, if it would.
pub open spec fn split_err(p: int, pot: PotBalance, vault: ContractVault, dog: DogstarBalance, terry: i128, power: u32, xtar: i128) -> Option<NFTError> {
    let tf = bps_fee_spec(terry as int, p);
    let pf = bps_fee_spec(power as int, p);
    let xf = bps_fee_spec(xtar as int, p);
    if !fits_i128(terry * p) || !fits_u32(power * p) || !fits_i128(xtar * p) {
        Some(NFTError::Overflow)
    } else if !fits_i128(terry - tf) || !fits_i128(pot.accumulated_terry + (terry - tf)) {
        Some(NFTError::Overflow)
    } else if power < pf || !fits_u32(pot.accumulated_power + (power - pf)) {
        Some(NFTError::Overflow)
    } else if !fits_i128(xtar - xf) || !fits_i128(pot.accumulated_xtar + (xtar - xf)) {
        Some(NFTError::Overflow)
    } else if !fits_i128(vault.dogstar_terry + tf) || !fits_u32(vault.dogstar_power + pf)
        || !fits_i128(vault.dogstar_xtar + xf) {
        Some(NFTError::Overflow)
    } else if !fits_i128(dog.terry + tf) || !fits_u32(dog.power + pf) || !fits_i128(dog.xtar + xf) {
        Some(NFTError::Overflow)
    } else {
        None
    }
}

/// The pot, vault and Dogstar balance after the split: the fee goes to the vault and the
/// Dogstar balance, the rest to the pot, stamped `now`.
pub open spec fn split_post(p: int, pot: PotBalance, vault: ContractVault, dog: DogstarBalance, terry: i128, power: u32, xtar: i128, now: u64) -> (PotBalance, ContractVault, DogstarBalance) {
    let tf = bps_fee_spec(terry as int, p);
    let pf = bps_fee_spec(power as int, p);
    let xf = bps_fee_spec(xtar as int, p);
    (
        PotBalance {
            accumulated_terry: (pot.accumulated_terry + (terry - tf)) as i128,
            accumulated_power: (pot.accumulated_power + (power - pf)) as u32,
            accumulated_xtar: (pot.accumulated_xtar + (xtar - xf)) as i128,
            last_updated: now,
            ..pot
        },
        ContractVault {
            dogstar_terry: (vault.dogstar_terry + tf) as i128,
            dogstar_power: (vault.dogstar_power + pf) as u32,
            dogstar_xtar: (vault.dogstar_xtar + xf) as i128,
            ..vault
        },
        DogstarBalance {
            terry: (dog.terry + tf) as i128,
            power: (dog.power + pf) as u32,
            xtar: (dog.xtar + xf) as i128,
        },
    )
}

/// Splits a contribution (see `split_post`); refused on overflow.
pub fn split_contribution(p: u32, pot: PotBalance, vault: ContractVault, dog: DogstarBalance, terry: i128, power: u32, xtar: i128, now: u64) -> (r: Result<(PotBalance, ContractVault, DogstarBalance), NFTError>)
    ensures
        match r {
            Ok(v) => split_err(p as int, pot, vault, dog, terry, power, xtar) is None
                && v == split_post(p as int, pot, vault, dog, terry, power, xtar, now),
            Err(e) => split_err(p as int, pot, vault, dog, terry, power, xtar) == Some(e),
        },
{
    let tf: i128 = bps_fee_i128(terry, p)?;
    let pf: u32 = bps_fee_u32(power, p)?;
    let xf: i128 = bps_fee_i128(xtar, p)?;
    let tn: i128 = sub_i128(terry, tf)?;
    let at: i128 = add_i128(pot.accumulated_terry, tn)?;
    let pn: u32 = sub_u32(power, pf)?;
    let ap: u32 = add_u32(pot.accumulated_power, pn)?;
    let xn: i128 = sub_i128(xtar, xf)?;
    let ax: i128 = add_i128(pot.accumulated_xtar, xn)?;
    let vt: i128 = add_i128(vault.dogstar_terry, tf)?;
    let vp: u32 = add_u32(vault.dogstar_power, pf)?;
    let vx: i128 = add_i128(vault.dogstar_xtar, xf)?;
    let dt: i128 = add_i128(dog.terry, tf)?;
    let dp: u32 = add_u32(dog.power, pf)?;
    let dx: i128 = add_i128(dog.xtar, xf)?;
    let mut pot2 = pot;
    pot2.accumulated_terry = at;
    pot2.accumulated_power = ap;
    pot2.accumulated_xtar = ax;
    pot2.last_updated = now;
    let mut vault2 = vault;
    vault2.dogstar_terry = vt;
    vault2.dogstar_power = vp;
    vault2.dogstar_xtar = vx;
    Ok((pot2, vault2, DogstarBalance { terry: dt, power: dp, xtar: dx }))
}

impl LedgerV {
    /// Why a contribution to the pot would be refused, if it would.
    pub open spec fn accumulate_err(self, terry: i128, power: u32, xtar: i128) -> Option<NFTError> {
        match self.config {
            None => Some(NFTError::NotInitialized),
            Some(c) => split_err(c.dogstar_fee_percentage as int, self.pot(0), self.vault, self.dogstar_balance, terry, power, xtar),
        }
    }

    /// The ledger after a contribution: the Dogstar fee (basis points of each asset) goes
    /// to the vault and the Dogstar balance, the rest to the pot; a non-zero fee is
    /// published.
    pub open spec fn accumulate_post(self, terry: i128, power: u32, xtar: i128, from: Option<AccountId>, action: Option<Action>, now: u64) -> LedgerV {
        let c = self.config->0;
        let p = c.dogstar_fee_percentage as int;
        let tf = bps_fee_spec(terry as int, p);
        let pf = bps_fee_spec(power as int, p);
        let xf = bps_fee_spec(xtar as int, p);
        let (pot, vault, dog) = split_post(p, self.pot(now), self.vault, self.dogstar_balance, terry, power, xtar, now);
        let s1 = LedgerV { pot_balance: Some(pot), vault, dogstar_balance: dog, ..self };
        if tf > 0 || pf > 0 || xf > 0 {
            s1.emit(Event::FeeAcc(FeeAcc {
                terry: tf as i128,
                power: pf as u32,
                xtar: xf as i128,
                fee_percentage: c.dogstar_fee_percentage,
                from,
                action: match action {
                    Some(a) => a,
                    None => Action::Idle,
                },
            }))
        } else {
            s1
        }
    }
}

impl Ledger {
    /// The pot; before it is first written, an empty one stamped `now`.
    pub fn read_pot_balance(&self, now: u64) -> (r: PotBalance)
        ensures
            r == self@.pot(now),
    {
        match self.pot_balance {
            Some(p) => p,
            None => PotBalance::new_initial(now),
        }
    }

    pub fn write_pot_balance(&mut self, balance: PotBalance)
        ensures
            final(self)@ == (LedgerV { pot_balance: Some(balance), ..old(self)@ }),
    {
        self.pot_balance = Some(balance);
    }

    pub fn read_dogstar_balance(&self) -> (r: DogstarBalance)
        ensures
            r == self@.dogstar_balance,
    {
        self.dogstar_balance
    }

    pub fn write_dogstar_balance(&mut self, balance: DogstarBalance)
        ensures
            final(self)@ == (LedgerV { dogstar_balance: balance, ..old(self)@ }),
    {
        self.dogstar_balance = balance;
    }

    /// Whether a contribution would be accepted, without making it.
    pub fn accumulate_check(&self, terry: i128, power: u32, xtar: i128) -> (r: Result<(), NFTError>)
        requires
            self.wf(),
        ensures
            match r {
                Ok(()) => self@.accumulate_err(terry, power, xtar) is None,
                Err(e) => self@.accumulate_err(terry, power, xtar) == Some(e),
            },
    {
        let p: u32 = self.read_config()?.dogstar_fee_percentage;
        let pot = self.read_pot_balance(0);
        split_contribution(p, pot, self.vault, self.dogstar_balance, terry, power, xtar, 0)?;
        Ok(())
    }

    /// Whether a second contribution would be accepted after a first one, without making
    /// either.
    pub fn accumulate_check_after(&self, t1: i128, p1: u32, x1: i128, from: Option<AccountId>, action: Option<Action>, now: u64,
        terry: i128, power: u32, xtar: i128) -> (r: Result<(), NFTError>)
        requires
            self.wf(),
            self@.accumulate_err(t1, p1, x1) is None,
        ensures
            match r {
                Ok(()) => self@.accumulate_post(t1, p1, x1, from, action, now).accumulate_err(terry, power, xtar) is None,
                Err(e) => self@.accumulate_post(t1, p1, x1, from, action, now).accumulate_err(terry, power, xtar) == Some(e),
            },
    {
        let p: u32 = self.config.as_ref().unwrap().dogstar_fee_percentage;
        let pot = self.read_pot_balance(now);
        let (pot1, vault1, dog1) = match split_contribution(p, pot, self.vault, self.dogstar_balance, t1, p1, x1, now) {
            Ok(v) => v,
            Err(e) => {
                return Err(e);
            },
        };
        split_contribution(p, pot1, vault1, dog1, terry, power, xtar, now)?;
        Ok(())
    }

    /// Adds a contribution to the pot, less the Dogstar fee (see `accumulate_post`).
    pub fn accumulate_pot_internal(&mut self, terry: i128, power: u32, xtar: i128, from: Option<AccountId>, action: Option<Action>, now: u64) -> (r: Result<(), NFTError>)
        requires
            old(self).wf(),
        ensures
            final(self).wf(),
            match r {
                Ok(()) => old(self)@.accumulate_err(terry, power, xtar) is None
                    && final(self)@ == old(self)@.accumulate_post(terry, power, xtar, from, action, now),
                Err(e) => old(self)@.accumulate_err(terry, power, xtar) == Some(e) && final(self)@ == old(self)@,
            },
    {
        let p: u32 = self.read_config()?.dogstar_fee_percentage;
        let pot = self.read_pot_balance(now);
        let ghost s0 = self@;
        let (pot1, vault1, dog1) = split_contribution(p, pot, self.vault, self.dogstar_balance, terry, power, xtar, now)?;
        let tf: i128 = (terry * (p as i128)) / 10000;
        let pf: u32 = (power * p) / 10000;
        let xf: i128 = (xtar * (p as i128)) / 10000;
        self.pot_balance = Some(pot1);
        self.vault = vault1;
        self.dogstar_balance = dog1;
        if tf > 0 || pf > 0 || xf > 0 {
            self.emit_dogstar_fee_accumulated(tf, pf, xf, p, from, action);
        }
        proof {
            assert(self@ =~= s0.accumulate_post(terry, power, xtar, from, action, now));
        }
        Ok(())
    }
}


impl LedgerV {
    /// The opening stage of `round`; a round never written is at `Init`.
    pub open spec fn pot_status_of(self, round: u32) -> PotStatus {
        if self.pot_status.contains_key(round) {
            self.pot_status[round]
        } else {
            PotStatus::Init
        }
    }

    pub open spec fn pot_cursor_of(self, round: u32) -> u32 {
        if self.pot_cursor.contains_key(round) {
            self.pot_cursor[round]
        } else {
            0
        }
    }

    pub open spec fn pot_total_decks_of(self, round: u32) -> u32 {
        if self.pot_total_decks.contains_key(round) {
            self.pot_total_decks[round]
        } else {
            0
        }
    }

    /// The round whose opening decides whether decks may change: the one being opened,
    /// else the one after the current round.
    pub open spec fn deck_round(self) -> u32 {
        match self.pot_in_progress {
            Some(r) => r,
            None => if self.current_round == u32::MAX {
                u32::MAX
            } else {
                (self.current_round + 1) as u32
            },
        }
    }

    /// Decks are frozen while that round's opening has started and not finished.
    pub open spec fn decks_frozen(self) -> bool {
        let st = self.pot_status_of(self.deck_round());
        st != PotStatus::Init && st != PotStatus::Finalized
    }
}

impl Ledger {
    pub fn read_pot_in_progress_round(&self) -> (r: Option<u32>)
        ensures
            r == self@.pot_in_progress,
    {
        self.pot_in_progress
    }

    pub fn write_pot_in_progress_round(&mut self, round: u32)
        ensures
            final(self)@ == (LedgerV { pot_in_progress: Some(round), ..old(self)@ }),
    {
        self.pot_in_progress = Some(round);
    }

    pub fn clear_pot_in_progress_round(&mut self)
        ensures
            final(self)@ == (LedgerV { pot_in_progress: None, ..old(self)@ }),
    {
        self.pot_in_progress = None;
    }

    pub fn get_current_round(&self) -> (r: u32)
        ensures
            r == self@.current_round,
    {
        self.current_round
    }

    pub fn set_current_round(&mut self, round: u32)
        ensures
            final(self)@ == (LedgerV { current_round: round, ..old(self)@ }),
    {
        self.current_round = round;
    }

    pub fn read_pot_status(&self, round: u32) -> (r: PotStatus)
        requires
            self.wf(),
        ensures
            r == self@.pot_status_of(round),
    {
        match self.pot_status.get(&round) {
            Some(s) => *s,
            None => PotStatus::Init,
        }
    }

    pub fn write_pot_status(&mut self, round: u32, status: PotStatus)
        requires
            old(self).wf(),
        ensures
            final(self).wf(),
            final(self)@ == (LedgerV { pot_status: old(self)@.pot_status.insert(round, status), ..old(self)@ }),
    {
        self.pot_status.insert(round, status);
    }

    pub fn read_pot_cursor(&self, round: u32) -> (r: u32)
        requires
            self.wf(),
        ensures
            r == self@.pot_cursor_of(round),
    {
        match self.pot_cursor.get(&round) {
            Some(c) => *c,
            None => 0,
        }
    }

    pub fn write_pot_cursor(&mut self, round: u32, cursor: u32)
        requires
            old(self).wf(),
        ensures
            final(self).wf(),
            final(self)@ == (LedgerV { pot_cursor: old(self)@.pot_cursor.insert(round, cursor), ..old(self)@ }),
    {
        self.pot_cursor.insert(round, cursor);
    }

    pub fn read_pot_total_decks(&self, round: u32) -> (r: u32)
        requires
            self.wf(),
        ensures
            r == self@.pot_total_decks_of(round),
    {
        match self.pot_total_decks.get(&round) {
            Some(c) => *c,
            None => 0,
        }
    }

    pub fn write_pot_total_decks(&mut self, round: u32, total: u32)
        requires
            old(self).wf(),
        ensures
            final(self).wf(),
            final(self)@ == (LedgerV { pot_total_decks: old(self)@.pot_total_decks.insert(round, total), ..old(self)@ }),
    {
        self.pot_total_decks.insert(round, total);
    }

    /// Whether decks are frozen by a round's opening (see `decks_frozen`).
    pub fn decks_frozen(&self) -> (b: bool)
        requires
            self.wf(),
        ensures
            b == self@.decks_frozen(),
    {
        let round: u32 = match self.pot_in_progress {
            Some(r) => r,
            None => self.current_round.saturating_add(1),
        };
        let st = self.read_pot_status(round);
        st != PotStatus::Init && st != PotStatus::Finalized
    }
}


impl Ledger {
    /// The opened rounds: the paged list when `pages_only` is on, else the older list.
    pub fn get_all_rounds(&self) -> (r: Vec<u32>)
        requires
            self.wf(),
        ensures
            r@ == self@.rounds.all_spec(self@.pages_only),
    {
        self.rounds.all(self.pages_only)
    }

    pub fn get_rounds_count(&self) -> (n: u32)
        requires
            self.wf(),
        ensures
            n == self@.rounds.count_spec(self@.pages_only),
    {
        self.rounds.count(self.pages_only)
    }

    pub fn get_rounds_page(&self, cursor: u32, limit: u32) -> (r: Vec<u32>)
        requires
            self.wf(),
        ensures
            r@ == self@.rounds.page_spec(cursor, limit, self@.pages_only),
    {
        self.rounds.page(cursor, limit, self.pages_only)
    }

    /// Records an opened round (see `add_spec`).
    pub fn add_round(&mut self, round: u32)
        requires
            old(self).wf(),
            old(self)@.rounds.index.len() < u32::MAX,
            old(self)@.rounds.legacy_or_empty().len() < u32::MAX,
        ensures
            final(self).wf(),
            final(self)@ == (LedgerV { rounds: old(self)@.rounds.add_spec(round, old(self)@.pages_only), ..old(self)@ }),
    {
        let po = self.pages_only;
        self.rounds.add(round, po);
    }

    /// Copies one batch of the older list of rounds into the paged list, skipping rounds
    /// it already holds (see `migrate_spec`); returns where the next batch starts.
    pub fn migrate_rounds_to_pages(&mut self, start: u32, limit: u32) -> (next: u32)
        requires
            old(self).wf(),
            old(self)@.rounds.index.len() + old(self)@.rounds.all_spec(old(self)@.pages_only).len() <= u32::MAX,
        ensures
            final(self).wf(),
            next == crate::book::migrate_end(old(self)@.rounds.all_spec(old(self)@.pages_only).len() as int, start, limit),
            final(self)@ == (LedgerV { rounds: old(self)@.rounds.migrate_spec(start, limit, old(self)@.pages_only), ..old(self)@ }),
    {
        let po = self.pages_only;
        self.rounds.migrate(start, limit, po)
    }

    /// The registered generic tokens, in order.
    pub fn read_registered_tokens(&self) -> (r: Vec<AccountId>)
        ensures
            r@ == self@.registered_tokens,
    {
        let mut out: Vec<AccountId> = Vec::new();
        let mut i: usize = 0;
        while i < self.registered_tokens.len()
            invariant
                i <= self@.registered_tokens.len(),
                out@ == self@.registered_tokens.subrange(0, i as int),
            decreases self@.registered_tokens.len() - i,
        {
            out.push(self.registered_tokens[i]);
            i = i + 1;
            proof {
                assert(out@ =~= self@.registered_tokens.subrange(0, i as int));
            }
        }
        proof {
            assert(self@.registered_tokens.subrange(0, self@.registered_tokens.len() as int) =~= self@.registered_tokens);
        }
        out
    }

    /// The amount of `token` accumulated in the pot (zero if none).
    pub fn read_accumulated_by_token(&self, token: &AccountId) -> (r: i128)
        requires
            self.wf(),
        ensures
            r == (if self@.accumulated_by_token.contains_key(*token) { self@.accumulated_by_token[*token] } else { 0 }),
    {
        match self.accumulated_by_token.get(token) {
            Some(v) => *v,
            None => 0,
        }
    }

    /// The Dogstar fees kept in `token` (zero if none).
    pub fn read_dogstar_generic_fee(&self, token: &AccountId) -> (r: i128)
        requires
            self.wf(),
        ensures
            r == (if self@.dogstar_generic_fee.contains_key(*token) { self@.dogstar_generic_fee[*token] } else { 0 }),
    {
        match self.dogstar_generic_fee.get(token) {
            Some(v) => *v,
            None => 0,
        }
    }

    /// What `user` may claim of `token` (zero if nothing).
    pub fn read_user_generic_claimable(&self, user: &AccountId, token: &AccountId) -> (r: i128)
        requires
            self.wf(),
        ensures
            r == crate::opening::generic_in(self@.user_generic_claimable, crate::types::UserToken { user: *user, token: *token }),
    {
        match self.user_generic_claimable.get(&crate::types::UserToken { user: *user, token: *token }) {
            Some(v) => *v,
            None => 0,
        }
    }

    /// Replaces the list of registered tokens.
    pub fn write_registered_tokens(&mut self, tokens: Vec<AccountId>)
        requires
            old(self).wf(),
            tokens@.len() <= u32::MAX,
            tokens@.no_duplicates(),
        ensures
            final(self).wf(),
            final(self)@ == (LedgerV { registered_tokens: tokens@, ..old(self)@ }),
    {
        self.registered_tokens = tokens;
    }

    /// Sets the amount accumulated in the pot for `token`.
    pub fn write_accumulated_by_token(&mut self, token: AccountId, amount: i128)
        requires
            old(self).wf(),
        ensures
            final(self).wf(),
            final(self)@ == (LedgerV { accumulated_by_token: old(self)@.accumulated_by_token.insert(token, amount), ..old(self)@ }),
    {
        self.accumulated_by_token.insert(token, amount);
    }

    /// Sets the Dogstar fees kept in `token`.
    pub fn write_dogstar_generic_fee(&mut self, token: AccountId, amount: i128)
        requires
            old(self).wf(),
        ensures
            final(self).wf(),
            final(self)@ == (LedgerV { dogstar_generic_fee: old(self)@.dogstar_generic_fee.insert(token, amount), ..old(self)@ }),
    {
        self.dogstar_generic_fee.insert(token, amount);
    }

    /// Sets what `user` may claim of `token`.
    pub fn write_user_generic_claimable(&mut self, user: AccountId, token: AccountId, amount: i128)
        requires
            old(self).wf(),
        ensures
            final(self).wf(),
            final(self)@ == (LedgerV {
                user_generic_claimable: old(self)@.user_generic_claimable.insert(crate::types::UserToken { user, token }, amount),
                ..old(self)@
            }),
    {
        self.user_generic_claimable.insert(crate::types::UserToken { user, token }, amount);
    }

    /// Stores the snapshot of `round`.
    pub fn write_pot_snapshot(&mut self, round: u32, snapshot: crate::types::PotSnapshot)
        requires
            old(self).wf(),
        ensures
            final(self).wf(),
            final(self)@ == (LedgerV { snapshots: old(self)@.snapshots.insert(round, snapshot@), ..old(self)@ }),
    {
        let ghost before = self.snapshots@;
        let ghost v = snapshot@;
        self.snapshots.insert(round, snapshot);
        proof {
            assert(self.snapshots@.map_values(|s: crate::types::PotSnapshot| s@)
                =~= before.map_values(|s: crate::types::PotSnapshot| s@).insert(round, v));
        }
    }

    /// Stores `player`'s share in `round`.
    pub fn write_player_reward(&mut self, round: u32, player: AccountId, reward: crate::types::PlayerReward)
        requires
            old(self).wf(),
        ensures
            final(self).wf(),
            final(self)@ == (LedgerV {
                player_rewards: old(self)@.player_rewards.insert(crate::types::RoundPlayer { round, player }, reward),
                ..old(self)@
            }),
    {
        self.player_rewards.insert(crate::types::RoundPlayer { round, player }, reward);
    }

    /// The snapshot of `round`, if it was opened.
    pub fn read_pot_snapshot(&self, round: u32) -> (r: Option<crate::types::PotSnapshot>)
        requires
            self.wf(),
        ensures
            match r {
                Some(s) => self@.snapshots.contains_key(round) && s@ == self@.snapshots[round],
                None => !self@.snapshots.contains_key(round),
            },
    {
        match self.snapshots.get(&round) {
            Some(s) => Some(s.copy()),
            None => None,
        }
    }

    /// `player`'s share in `round`, if they had one.
    pub fn read_player_reward(&self, round: u32, player: &AccountId) -> (r: Option<crate::types::PlayerReward>)
        requires
            self.wf(),
        ensures
            match r {
                Some(p) => self@.player_rewards.contains_key(crate::types::RoundPlayer { round, player: *player })
                    && p == self@.player_rewards[crate::types::RoundPlayer { round, player: *player }],
                None => !self@.player_rewards.contains_key(crate::types::RoundPlayer { round, player: *player }),
            },
    {
        match self.player_rewards.get(&crate::types::RoundPlayer { round, player: *player }) {
            Some(p) => Some(*p),
            None => None,
        }
    }
}

} // verus!
