//! The contract's requests on stakes, fights, lendings and decks, as the contract
//! answers them: each goes to the ledger, which keeps the records.
use vstd::prelude::*;
use crate::types::{AccountId, ActionKey, Category, Deck, TokenId};
use crate::error::NFTError;
use crate::contract::NFT;
use crate::stake::Stake;
use crate::fight::{Fight, FightCurrency, SidePosition};
use crate::lending::{Borrowing, BorrowQuote, Lending, pool_apy_spec, touch_fold};
use crate::deck_book::deck_ok;

verus! {

impl NFT {
    /// `user` stakes a Skill or Leader card (see `stake_post`).
    pub fn stake(&mut self, user: AccountId, category: Category, token_id: TokenId, period_index: u32, now: u64) -> (r: Result<(), NFTError>)
        requires
            old(self).wf(),
            old(self).ledger@.stakes.index.len() < u32::MAX,
            old(self).ledger@.stakes.legacy_or_empty().len() < u32::MAX,
        ensures
            final(self).wf(),
            match r {
                Ok(()) => old(self).ledger@.stake_err(user, category, token_id, period_index, now) is None
                    && final(self).ledger@ == old(self).ledger@.stake_post(user, category, token_id, period_index, now),
                Err(e) => old(self).ledger@.stake_err(user, category, token_id, period_index, now) == Some(e)
                    && final(self).ledger@ == old(self).ledger@,
            },
    {
        self.ledger.stake(user, category, token_id, period_index, now)
    }

    /// `user` adds POWER from a staked card to its stake (see `increase_stake_post`).
    pub fn increase_stake_power(&mut self, user: AccountId, category: Category, token_id: TokenId, increase_power: u32) -> (r: Result<(), NFTError>)
        requires
            old(self).wf(),
            old(self).ledger@.stakes.index.len() < u32::MAX,
            old(self).ledger@.stakes.legacy_or_empty().len() < u32::MAX,
        ensures
            final(self).wf(),
            match r {
                Ok(()) => old(self).ledger@.increase_stake_err(user, category, token_id, increase_power) is None
                    && final(self).ledger@ == old(self).ledger@.increase_stake_post(user, category, token_id, increase_power),
                Err(e) => old(self).ledger@.increase_stake_err(user, category, token_id, increase_power) == Some(e)
                    && final(self).ledger@ == old(self).ledger@,
            },
    {
        self.ledger.increase_stake_power(user, category, token_id, increase_power)
    }

    /// `user` closes a stake (see `unstake_post`).
    pub fn unstake(&mut self, user: AccountId, category: Category, token_id: TokenId, now: u64) -> (r: Result<(), NFTError>)
        requires
            old(self).wf(),
        ensures
            final(self).wf(),
            match r {
                Ok(()) => old(self).ledger@.unstake_err(user, category, token_id, now) is None
                    && final(self).ledger@ == old(self).ledger@.unstake_post(user, category, token_id, now),
                Err(e) => old(self).ledger@.unstake_err(user, category, token_id, now) == Some(e)
                    && final(self).ledger@ == old(self).ledger@,
            },
    {
        self.ledger.unstake(user, category, token_id, now)
    }

    /// The stake `user`'s owner holds on a card.
    pub fn read_stake(&self, user: AccountId, category: Category, token_id: TokenId) -> (r: Result<Stake, NFTError>)
        requires
            self.wf(),
        ensures
            match r {
                Ok(s) => self.ledger@.stakes.get(ActionKey { owner: self.ledger@.owner_of(user), category, token_id }) == Some(s),
                Err(e) => self.ledger@.stakes.get(ActionKey { owner: self.ledger@.owner_of(user), category, token_id }) is None
                    && e == NFTError::RecordNotFound,
            },
    {
        self.ledger.read_stake(user, category, token_id)
    }

    /// All stakes, in the order the contract lists them.
    pub fn read_stakes(&self) -> (r: Vec<Stake>)
        requires
            self.wf(),
        ensures
            r@ == self.ledger.stakes.all_spec(self.ledger@.pages_only),
    {
        self.ledger.read_stakes()
    }

    /// `user` opens a fight on a card at the oracle price `price` (see `open_position_post`).
    pub fn open_position(&mut self, user: AccountId, category: Category, token_id: TokenId, currency: FightCurrency,
        side_position: SidePosition, leverage: u32, power_staked: u32, price: i128, now: u64) -> (r: Result<(), NFTError>)
        requires
            old(self).wf(),
            old(self).ledger@.fights.index.len() < u32::MAX,
            old(self).ledger@.fights.legacy_or_empty().len() < u32::MAX,
        ensures
            final(self).wf(),
            match r {
                Ok(()) => old(self).ledger@.open_position_err(user, category, token_id, leverage, power_staked, price, now) is None
                    && final(self).ledger@ == old(self).ledger@.open_position_post(user, category, token_id, currency, side_position, leverage, power_staked, price, now),
                Err(e) => old(self).ledger@.open_position_err(user, category, token_id, leverage, power_staked, price, now) == Some(e)
                    && final(self).ledger@ == old(self).ledger@,
            },
    {
        self.ledger.open_position(user, category, token_id, currency, side_position, leverage, power_staked, price, now)
    }

    /// `user` closes a fight at the oracle price `price` (see `close_position_post`).
    pub fn close_position(&mut self, user: AccountId, category: Category, token_id: TokenId, price: i128, now: u64) -> (r: Result<(), NFTError>)
        requires
            old(self).wf(),
        ensures
            final(self).wf(),
            match r {
                Ok(()) => old(self).ledger@.close_position_err(user, category, token_id, price, now) is None
                    && final(self).ledger@ == old(self).ledger@.close_position_post(user, category, token_id, price, now),
                Err(e) => old(self).ledger@.close_position_err(user, category, token_id, price, now) == Some(e)
                    && final(self).ledger@ == old(self).ledger@,
            },
    {
        self.ledger.close_position(user, category, token_id, price, now)
    }

    /// The fight `user`'s owner has open on a card.
    pub fn read_fight(&self, user: AccountId, category: Category, token_id: TokenId) -> (r: Result<Fight, NFTError>)
        requires
            self.wf(),
        ensures
            match r {
                Ok(f) => self.ledger@.fights.get(ActionKey { owner: self.ledger@.owner_of(user), category, token_id }) == Some(f),
                Err(e) => self.ledger@.fights.get(ActionKey { owner: self.ledger@.owner_of(user), category, token_id }) is None
                    && e == NFTError::RecordNotFound,
            },
    {
        self.ledger.read_fight(user, category, token_id)
    }

    /// All open fights, in the order the contract lists them.
    pub fn read_fights(&self) -> (r: Vec<Fight>)
        requires
            self.wf(),
        ensures
            r@ == self.ledger.fights.all_spec(self.ledger@.pages_only),
    {
        self.ledger.read_fights()
    }

    /// Liquidates a fight that the price `price` has put under water (see
    /// `check_liquidation_post`); anyone may ask for it.
    pub fn check_liquidation(&mut self, user: AccountId, category: Category, token_id: TokenId, price: i128) -> (r: Result<(), NFTError>)
        requires
            old(self).wf(),
        ensures
            final(self).wf(),
            match r {
                Ok(()) => old(self).ledger@.check_liquidation_err(user, category, token_id, price) is None
                    && final(self).ledger@ == old(self).ledger@.check_liquidation_post(user, category, token_id, price),
                Err(e) => old(self).ledger@.check_liquidation_err(user, category, token_id, price) == Some(e)
                    && final(self).ledger@ == old(self).ledger@,
            },
    {
        self.ledger.check_liquidation(user, category, token_id, price)
    }

    /// `user` lends `power` of a Resource or Leader card to the pool (see `lend_post`).
    pub fn lend(&mut self, user: AccountId, category: Category, token_id: TokenId, power: u32, now: u64) -> (r: Result<(), NFTError>)
        requires
            old(self).wf(),
            old(self).ledger@.lendings.index.len() < u32::MAX,
            old(self).ledger@.lendings.legacy_or_empty().len() < u32::MAX,
        ensures
            final(self).wf(),
            match r {
                Ok(()) => old(self).ledger@.lend_err(user, category, token_id, power, now) is None
                    && final(self).ledger@ == old(self).ledger@.lend_post(user, category, token_id, power, now),
                Err(e) => old(self).ledger@.lend_err(user, category, token_id, power, now) == Some(e)
                    && final(self).ledger@ == old(self).ledger@,
            },
    {
        self.ledger.lend(user, category, token_id, power, now)
    }

    /// `user` borrows `power` from the pool against a Resource or Leader card (see
    /// `borrow_post`).
    pub fn borrow(&mut self, user: AccountId, category: Category, token_id: TokenId, power: u32, now: u64) -> (r: Result<(), NFTError>)
        requires
            old(self).wf(),
            old(self).ledger@.borrow_err(user, category, token_id, power, now) is None ==> {
                &&& old(self).ledger@.borrowings.index.len() < u32::MAX
                &&& old(self).ledger@.borrowings.legacy_or_empty().len() < u32::MAX
            },
        ensures
            final(self).wf(),
            match r {
                Ok(()) => old(self).ledger@.borrow_err(user, category, token_id, power, now) is None
                    && final(self).ledger@ == old(self).ledger@.borrow_post(user, category, token_id, power, now),
                Err(e) => old(self).ledger@.borrow_err(user, category, token_id, power, now) == Some(e)
                    && final(self).ledger@ == old(self).ledger@,
            },
    {
        self.ledger.borrow(user, category, token_id, power, now)
    }

    /// `user` repays a borrowing (see `repay_post`).
    pub fn repay(&mut self, user: AccountId, category: Category, token_id: TokenId, now: u64) -> (r: Result<(), NFTError>)
        requires
            old(self).wf(),
        ensures
            final(self).wf(),
            match r {
                Ok(()) => old(self).ledger@.repay_err(user, category, token_id, now) is None
                    && final(self).ledger@ == old(self).ledger@.repay_post(user, category, token_id, now),
                Err(e) => old(self).ledger@.repay_err(user, category, token_id, now) == Some(e)
                    && final(self).ledger@ == old(self).ledger@,
            },
    {
        self.ledger.repay(user, category, token_id, now)
    }

    /// `user` withdraws a lending (see `withdraw_post`).
    pub fn withdraw(&mut self, user: AccountId, category: Category, token_id: TokenId, now: u64) -> (r: Result<(), NFTError>)
        requires
            old(self).wf(),
        ensures
            final(self).wf(),
            match r {
                Ok(()) => old(self).ledger@.withdraw_err(user, category, token_id, now) is None
                    && final(self).ledger@ == old(self).ledger@.withdraw_post(user, category, token_id, now),
                Err(e) => old(self).ledger@.withdraw_err(user, category, token_id, now) == Some(e)
                    && final(self).ledger@ == old(self).ledger@,
            },
    {
        self.ledger.withdraw(user, category, token_id, now)
    }

    /// The pool's current APY.
    pub fn get_current_apy(&self, now: u64) -> (r: Result<u64, NFTError>)
        requires
            self.wf(),
        ensures
            match r {
                Ok(a) => self.ledger@.config is Some && a == pool_apy_spec(self.ledger@.pool(now), self.ledger@.config->0.apy_alpha),
                Err(e) => self.ledger@.config is None && e == NFTError::NotInitialized,
            },
    {
        self.ledger.get_current_apy(now)
    }

    /// What a borrow of `power` against a card would cost and whether it would be allowed.
    pub fn borrow_quote(&self, user: AccountId, category: Category, token_id: TokenId, power: u32, now: u64) -> (r: Result<BorrowQuote, NFTError>)
        requires
            self.wf(),
        ensures
            r == self.ledger@.borrow_quote_spec(user, token_id, power, now),
    {
        self.ledger.borrow_quote(user, category, token_id, power, now)
    }

    /// The lending `user`'s owner has open on a card.
    pub fn read_lending(&self, user: AccountId, category: Category, token_id: TokenId) -> (r: Result<Lending, NFTError>)
        requires
            self.wf(),
        ensures
            match r {
                Ok(l) => self.ledger@.lendings.get(ActionKey { owner: self.ledger@.owner_of(user), category, token_id }) == Some(l),
                Err(e) => self.ledger@.lendings.get(ActionKey { owner: self.ledger@.owner_of(user), category, token_id }) is None
                    && e == NFTError::RecordNotFound,
            },
    {
        self.ledger.read_lending(user, category, token_id)
    }

    /// The borrowing `user`'s owner has open on a card.
    pub fn read_borrowing(&self, user: AccountId, category: Category, token_id: TokenId) -> (r: Result<Borrowing, NFTError>)
        requires
            self.wf(),
        ensures
            match r {
                Ok(b) => self.ledger@.borrowings.get(ActionKey { owner: self.ledger@.owner_of(user), category, token_id }) == Some(b),
                Err(e) => self.ledger@.borrowings.get(ActionKey { owner: self.ledger@.owner_of(user), category, token_id }) is None
                    && e == NFTError::RecordNotFound,
            },
    {
        self.ledger.read_borrowing(user, category, token_id)
    }

    /// All open borrowings, in the order the contract lists them.
    pub fn read_borrowings(&self) -> (r: Vec<Borrowing>)
        requires
            self.wf(),
        ensures
            r@ == self.ledger.borrowings.all_spec(self.ledger@.pages_only),
    {
        self.ledger.read_borrowings()
    }

    /// All open lendings, in the order the contract lists them.
    pub fn read_lendings(&self) -> (r: Vec<Lending>)
        requires
            self.wf(),
        ensures
            r@ == self.ledger.lendings.all_spec(self.ledger@.pages_only),
    {
        self.ledger.read_lendings()
    }

    /// Applies the pending haircuts of a batch of loans (anyone may call it).
    pub fn touch_loans(&mut self, loans: &Vec<(AccountId, Category, TokenId)>, now: u64)
        requires
            old(self).wf(),
        ensures
            final(self).wf(),
            final(self).ledger@ == ({
                let (s, st) = touch_fold(old(self).ledger@, old(self).ledger@.pool(now), loans@);
                s.set_pool(st)
            }),
    {
        self.ledger.touch_loans(loans, now)
    }

    /// `user` adds a card to their deck (see `place_post`).
    pub fn place(&mut self, user: AccountId, token_id: TokenId) -> (r: Result<(), NFTError>)
        requires
            old(self).wf(),
            old(self).ledger@.decks.index.len() < u32::MAX,
            old(self).ledger@.decks.legacy_or_empty().len() < u32::MAX,
        ensures
            final(self).wf(),
            match r {
                Ok(()) => old(self).ledger@.place_err(user, token_id) is None && final(self).ledger@ == old(self).ledger@.place_post(user, token_id),
                Err(e) => old(self).ledger@.place_err(user, token_id) == Some(e) && final(self).ledger@ == old(self).ledger@,
            },
    {
        self.ledger.place(user, token_id)
    }

    /// `user` swaps a card of their deck for another (see `replace_post`).
    pub fn replace(&mut self, user: AccountId, prev_token_id: TokenId, token_id: TokenId) -> (r: Result<(), NFTError>)
        requires
            old(self).wf(),
            old(self).ledger@.decks.index.len() < u32::MAX,
            old(self).ledger@.decks.legacy_or_empty().len() < u32::MAX,
        ensures
            final(self).wf(),
            match r {
                Ok(()) => old(self).ledger@.replace_err(user, prev_token_id, token_id) is None
                    && final(self).ledger@ == old(self).ledger@.replace_post(user, prev_token_id, token_id),
                Err(e) => old(self).ledger@.replace_err(user, prev_token_id, token_id) == Some(e) && final(self).ledger@ == old(self).ledger@,
            },
    {
        self.ledger.replace(user, prev_token_id, token_id)
    }

    /// `user` takes a card out of their deck (see `remove_place_post`).
    pub fn remove_place(&mut self, user: AccountId, token_id: TokenId) -> (r: Result<(), NFTError>)
        requires
            old(self).wf(),
            old(self).ledger@.decks.index.len() < u32::MAX,
            old(self).ledger@.decks.legacy_or_empty().len() < u32::MAX,
        ensures
            final(self).wf(),
            match r {
                Ok(()) => old(self).ledger@.remove_place_err(user, token_id) is None && final(self).ledger@ == old(self).ledger@.remove_place_post(user, token_id),
                Err(e) => old(self).ledger@.remove_place_err(user, token_id) == Some(e) && final(self).ledger@ == old(self).ledger@,
            },
    {
        self.ledger.remove_place(user, token_id)
    }

    /// The deck of the player `user` acts for (an empty one if they never had one), with
    /// its share of the total effective deck power.
    pub fn read_deck(&self, user: AccountId) -> (r: Deck)
        requires
            self.wf(),
        ensures
            r@ == self.ledger@.deck_view(user),
            deck_ok(r@),
    {
        self.ledger.read_deck(user)
    }
}

} // verus!
