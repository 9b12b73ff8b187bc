//! The contract's storage as one value, with its administrator, configuration,
//! users, cards, card catalog and levels, and the events of the current request.
use vstd::prelude::*;
use crate::types::{
    AccountId, ActionKey, Balance, BorrowMeta, Card, CardKey, CardMetadata, Config, ContractVault,
    DeckV, DogstarBalance, Level, PendingReward, PlayerReward, PotBalance, PotSnapshot, PotSnapshotV,
    PotStatus, RoundPlayer, State, TokenId, User, UserClaimableBalance, UserToken, copy_token_ids,
};
use crate::error::NFTError;
use crate::event::Event;
use crate::vec_map::VecMap;
use crate::book::{ActionBook, BookV};
use crate::deck_book::{DeckBook, DeckBookV};
use crate::rounds::{RoundBook, RoundBookV};
use crate::stake::Stake;
use crate::lending::{Lending, Borrowing};
use crate::fight::Fight;
use crate::paged::{
    PAGE_SIZE_STAKES, PAGE_SIZE_FIGHTS, PAGE_SIZE_LENDINGS, PAGE_SIZE_BORROWINGS, PAGE_SIZE_DECKS,
    PAGE_SIZE_ROUNDS,
};

verus! {

/// Everything the contract stores.
pub struct Ledger {
    pub admin: Option<AccountId>,
    pub config: Option<Config>,
    pub balance: Balance,
    pub state: Option<State>,
    pub vault: ContractVault,
    pub user_claimables: VecMap<AccountId, UserClaimableBalance>,
    pub dogstar_claimable: UserClaimableBalance,
    pub levels: Vec<Level>,
    pub users: VecMap<AccountId, User>,
    pub cards: VecMap<CardKey, Card>,
    pub owner_cards: VecMap<AccountId, Vec<TokenId>>,
    pub metadata: VecMap<u32, CardMetadata>,
    pub all_card_ids: Vec<TokenId>,
    pub whitelist: VecMap<AccountId, bool>,
    pub pages_only: bool,
    pub total_effective_deck_power: u32,
    pub stakes: ActionBook<Stake>,
    pub lendings: ActionBook<Lending>,
    pub borrowings: ActionBook<Borrowing>,
    pub fights: ActionBook<Fight>,
    pub borrow_meta: VecMap<ActionKey, BorrowMeta>,
    pub decks: DeckBook,
    pub pot_balance: Option<PotBalance>,
    pub dogstar_balance: DogstarBalance,
    pub dogstar_generic_fee: VecMap<AccountId, i128>,
    pub registered_tokens: Vec<AccountId>,
    pub accumulated_by_token: VecMap<AccountId, i128>,
    pub user_generic_claimable: VecMap<UserToken, i128>,
    pub snapshots: VecMap<u32, PotSnapshot>,
    pub player_rewards: VecMap<RoundPlayer, PlayerReward>,
    pub pending_rewards: VecMap<RoundPlayer, PendingReward>,
    pub current_round: u32,
    pub rounds: RoundBook,
    pub pot_status: VecMap<u32, PotStatus>,
    pub pot_cursor: VecMap<u32, u32>,
    pub pot_total_decks: VecMap<u32, u32>,
    pub pot_in_progress: Option<u32>,
    /// Events published by the current request, in order.
    pub events: Vec<Event>,
}

/// The abstract contents of the storage.
pub struct LedgerV {
    pub admin: Option<AccountId>,
    pub config: Option<Config>,
    pub balance: Balance,
    pub state: Option<State>,
    pub vault: ContractVault,
    pub user_claimables: Map<AccountId, UserClaimableBalance>,
    pub dogstar_claimable: UserClaimableBalance,
    pub levels: Seq<Level>,
    pub users: Map<AccountId, User>,
    pub cards: Map<CardKey, Card>,
    pub owner_cards: Map<AccountId, Seq<TokenId>>,
    pub metadata: Map<u32, CardMetadata>,
    pub all_card_ids: Seq<TokenId>,
    pub whitelist: Map<AccountId, bool>,
    pub pages_only: bool,
    pub total_effective_deck_power: u32,
    pub stakes: BookV<Stake>,
    pub lendings: BookV<Lending>,
    pub borrowings: BookV<Borrowing>,
    pub fights: BookV<Fight>,
    pub borrow_meta: Map<ActionKey, BorrowMeta>,
    pub decks: DeckBookV,
    pub pot_balance: Option<PotBalance>,
    pub dogstar_balance: DogstarBalance,
    pub dogstar_generic_fee: Map<AccountId, i128>,
    pub registered_tokens: Seq<AccountId>,
    pub accumulated_by_token: Map<AccountId, i128>,
    pub user_generic_claimable: Map<UserToken, i128>,
    pub snapshots: Map<u32, PotSnapshotV>,
    pub player_rewards: Map<RoundPlayer, PlayerReward>,
    pub pending_rewards: Map<RoundPlayer, PendingReward>,
    pub current_round: u32,
    pub rounds: RoundBookV,
    pub pot_status: Map<u32, PotStatus>,
    pub pot_cursor: Map<u32, u32>,
    pub pot_total_decks: Map<u32, u32>,
    pub pot_in_progress: Option<u32>,
    pub events: Seq<Event>,
}

impl View for Ledger {
    type V = LedgerV;

    open spec fn view(&self) -> LedgerV {
        LedgerV {
            admin: self.admin,
            config: self.config,
            balance: self.balance,
            state: self.state,
            vault: self.vault,
            user_claimables: self.user_claimables@,
            dogstar_claimable: self.dogstar_claimable,
            levels: self.levels@,
            users: self.users@,
            cards: self.cards@,
            owner_cards: self.owner_cards@.map_values(|v: Vec<TokenId>| v@),
            metadata: self.metadata@,
            all_card_ids: self.all_card_ids@,
            whitelist: self.whitelist@,
            pages_only: self.pages_only,
            total_effective_deck_power: self.total_effective_deck_power,
            stakes: self.stakes@,
            lendings: self.lendings@,
            borrowings: self.borrowings@,
            fights: self.fights@,
            borrow_meta: self.borrow_meta@,
            decks: self.decks@,
            pot_balance: self.pot_balance,
            dogstar_balance: self.dogstar_balance,
            dogstar_generic_fee: self.dogstar_generic_fee@,
            registered_tokens: self.registered_tokens@,
            accumulated_by_token: self.accumulated_by_token@,
            user_generic_claimable: self.user_generic_claimable@,
            snapshots: self.snapshots@.map_values(|s: PotSnapshot| s@),
            player_rewards: self.player_rewards@,
            pending_rewards: self.pending_rewards@,
            current_round: self.current_round,
            rounds: self.rounds@,
            pot_status: self.pot_status@,
            pot_cursor: self.pot_cursor@,
            pot_total_decks: self.pot_total_decks@,
            pot_in_progress: self.pot_in_progress,
            events: self.events@,
        }
    }
}

/// A player record as read: the stored one, or a fresh one owned by the address.
pub open spec fn user_or_default(users: Map<AccountId, User>, a: AccountId) -> User {
    if users.contains_key(a) {
        users[a]
    } else {
        User { owner: a, power: 0, terry: 0, total_history_terry: 0, level: 1 }
    }
}

/// The level whose band holds `balance`: the first band containing it, else the
/// last band whose minimum it reaches, else level 1.
pub open spec fn level_scan(levels: Seq<Level>, balance: int, i: int, best: int) -> int
    decreases levels.len() - i,
{
    if i >= levels.len() || i < 0 {
        best
    } else if balance >= levels[i].minimum_terry {
        if balance <= levels[i].maximum_terry {
            i + 1
        } else {
            level_scan(levels, balance, i + 1, i + 1)
        }
    } else {
        level_scan(levels, balance, i + 1, best)
    }
}

pub open spec fn level_spec(levels: Seq<Level>, balance: int) -> u32 {
    level_scan(levels, balance, 0, 1) as u32
}

proof fn lemma_level_scan_bound(levels: Seq<Level>, balance: int, i: int, best: int)
    requires
        0 <= i <= levels.len(),
        1 <= best,
        best <= i || best == 1,
    ensures
        1 <= level_scan(levels, balance, i, best) <= if levels.len() > 0 { levels.len() as int } else { 1 },
    decreases levels.len() - i,
{
    if i < levels.len() {
        lemma_level_scan_bound(levels, balance, i + 1, i + 1);
        lemma_level_scan_bound(levels, balance, i + 1, best);
    }
}

impl LedgerV {
    pub open spec fn user(self, a: AccountId) -> User {
        user_or_default(self.users, a)
    }

    /// The owner a request acts for: the stored player's owner, else the address itself.
    pub open spec fn owner_of(self, a: AccountId) -> AccountId {
        self.user(a).owner
    }

    pub open spec fn card(self, owner: AccountId, token_id: TokenId) -> Option<Card> {
        let k = CardKey { owner, token_id };
        if self.cards.contains_key(k) {
            Some(self.cards[k])
        } else {
            None
        }
    }

    pub open spec fn owned_cards(self, owner: AccountId) -> Seq<TokenId> {
        if self.owner_cards.contains_key(owner) {
            self.owner_cards[owner]
        } else {
            Seq::empty()
        }
    }

    pub open spec fn pool(self, now: u64) -> State {
        match self.state {
            Some(s) => s,
            None => State::initial(now),
        }
    }

    pub open spec fn pot(self, now: u64) -> PotBalance {
        match self.pot_balance {
            Some(p) => p,
            None => PotBalance::initial(now),
        }
    }

    pub open spec fn claimable(self, a: AccountId) -> UserClaimableBalance {
        if self.user_claimables.contains_key(a) {
            self.user_claimables[a]
        } else {
            UserClaimableBalance::zero()
        }
    }

    /// Writes the pool state and publishes it.
    pub open spec fn set_pool(self, st: State) -> LedgerV {
        LedgerV { state: Some(st), ..self }.emit(Event::State(crate::event::State { state: st }))
    }

    pub open spec fn put_card(self, owner: AccountId, token_id: TokenId, card: Card) -> LedgerV {
        LedgerV { cards: self.cards.insert(CardKey { owner, token_id }, card), ..self }
    }

    pub open spec fn drop_card(self, owner: AccountId, token_id: TokenId) -> LedgerV {
        LedgerV { cards: self.cards.remove(CardKey { owner, token_id }), ..self }
    }

    /// The ledger with `token_id`'s first record dropped from `owner`'s card ids.
    pub open spec fn drop_owner_card(self, owner: AccountId, token_id: TokenId) -> LedgerV {
        LedgerV {
            owner_cards: self.owner_cards.insert(owner, remove_first(self.owned_cards(owner), token_id)),
            ..self
        }
    }

    pub open spec fn with_balance(self, b: Balance) -> LedgerV {
        LedgerV { balance: b, ..self }
    }

    /// The house's TERRY share of an action reward: `reward * haw_ai_percentage / 100`.
    pub open spec fn haw_terry_err(self, reward: i128, pct: u32) -> Option<NFTError> {
        if !crate::math::fits_i128(reward * pct) {
            Some(NFTError::Overflow)
        } else if !crate::math::fits_i128(self.balance.haw_ai_terry + crate::math::trunc_div(reward * pct, 100)) {
            Some(NFTError::Overflow)
        } else {
            None
        }
    }

    pub open spec fn haw_terry_post(self, reward: i128, pct: u32) -> LedgerV {
        self.with_balance(Balance {
            haw_ai_terry: (self.balance.haw_ai_terry + crate::math::trunc_div(reward * pct, 100)) as i128,
            ..self.balance
        })
    }

    pub open spec fn emit(self, e: Event) -> LedgerV {
        LedgerV { events: self.events.push(e), ..self }
    }

    /// The record written for `a`: `u` with its level recomputed from lifetime TERRY.
    pub open spec fn put_user(self, a: AccountId, u: User) -> LedgerV {
        LedgerV {
            users: self.users.insert(a, User { level: level_spec(self.levels, u.total_history_terry as int), ..u }),
            ..self
        }
    }

    /// Whether adding `amount` TERRY to `owner` fits and a level can be computed.
    pub open spec fn mint_terry_err(self, owner: AccountId, amount: i128) -> Option<NFTError> {
        let u = self.user(owner);
        if !(i128::MIN <= u.terry + amount <= i128::MAX) || !(i128::MIN <= u.total_history_terry + amount <= i128::MAX) {
            Some(NFTError::Overflow)
        } else if self.levels.len() == 0 {
            Some(NFTError::LevelsMissing)
        } else {
            None
        }
    }

    /// The ledger after `amount` TERRY is minted to `owner` (balance and lifetime total).
    pub open spec fn mint_terry_post(self, owner: AccountId, amount: i128) -> LedgerV {
        let u = self.user(owner);
        self.put_user(
            owner,
            User {
                terry: (u.terry + amount) as i128,
                total_history_terry: (u.total_history_terry + amount) as i128,
                ..u
            },
        )
    }

    pub open spec fn burn_terry_err(self, owner: AccountId, amount: i128) -> Option<NFTError> {
        let u = self.user(owner);
        if u.terry < amount {
            Some(NFTError::InsufficientTerry)
        } else if !(i128::MIN <= u.terry - amount <= i128::MAX) {
            Some(NFTError::Overflow)
        } else if self.levels.len() == 0 {
            Some(NFTError::LevelsMissing)
        } else {
            None
        }
    }

    pub open spec fn burn_terry_post(self, owner: AccountId, amount: i128) -> LedgerV {
        let u = self.user(owner);
        self.put_user(owner, User { terry: (u.terry - amount) as i128, ..u })
    }
}

impl Ledger {
    pub open spec fn wf(self) -> bool {
        &&& self.user_claimables.inv()
        &&& self.levels@.len() < u32::MAX
        &&& self.users.inv()
        &&& forall|a: AccountId| #[trigger] self.users@.contains_key(a) ==> self.users@[a].owner == a
        &&& self.cards.inv()
        &&& self.owner_cards.inv()
        &&& forall|a: AccountId| #[trigger] self.owner_cards@.contains_key(a) ==> self.owner_cards@[a]@.len() <= u32::MAX
        &&& self.metadata.inv()
        &&& self.all_card_ids@.len() <= u32::MAX
        &&& self.whitelist.inv()
        &&& self.stakes.wf()
        &&& self.lendings.wf()
        &&& self.borrowings.wf()
        &&& self.fights.wf()
        &&& self.borrow_meta.inv()
        &&& self.decks.wf()
        &&& self.dogstar_generic_fee.inv()
        &&& self.registered_tokens@.len() <= u32::MAX
        &&& self.registered_tokens@.no_duplicates()
        &&& self.accumulated_by_token.inv()
        &&& self.user_generic_claimable.inv()
        &&& self.snapshots.inv()
        &&& self.player_rewards.inv()
        &&& self.pending_rewards.inv()
        &&& self.rounds.wf()
        &&& self.pot_status.inv()
        &&& self.pot_cursor.inv()
        &&& self.pot_total_decks.inv()
    }

    /// An empty storage, before initialization.
    pub fn new() -> (r: Ledger)
        ensures
            r.wf(),
            r@.admin is None,
            r@.config is None,
            r@.levels.len() == 0,
            r@.users == Map::<AccountId, User>::empty(),
            r@.cards == Map::<CardKey, Card>::empty(),
            r@.decks.decks == Map::<AccountId, DeckV>::empty(),
            r@.events.len() == 0,
            !r@.pages_only,
            r@.stakes.index.len() == 0,
            r@.fights.index.len() == 0,
            r@.lendings.index.len() == 0,
            r@.borrowings.index.len() == 0,
            r@.decks.index.len() == 0,
            r@.rounds.index.len() == 0,
            r@.stakes.legacy is None,
            r@.fights.legacy is None,
            r@.lendings.legacy is None,
            r@.borrowings.legacy is None,
            r@.decks.legacy is None,
            r@.rounds.legacy is None,
            r@.stakes.page_size == PAGE_SIZE_STAKES,
            r@.fights.page_size == PAGE_SIZE_FIGHTS,
            r@.lendings.page_size == PAGE_SIZE_LENDINGS,
            r@.borrowings.page_size == PAGE_SIZE_BORROWINGS,
            r@.decks.page_size == PAGE_SIZE_DECKS,
            r@.rounds.page_size == PAGE_SIZE_ROUNDS,
            r@.current_round == 0,
            r@.pot_in_progress is None,
            r@.registered_tokens.len() == 0,
    {
        Ledger {
            admin: None,
            config: None,
            balance: Balance::new_zero(),
            state: None,
            vault: ContractVault::new_zero(),
            user_claimables: VecMap::new(),
            dogstar_claimable: UserClaimableBalance::new_zero(),
            levels: Vec::new(),
            users: VecMap::new(),
            cards: VecMap::new(),
            owner_cards: VecMap::new(),
            metadata: VecMap::new(),
            all_card_ids: Vec::new(),
            whitelist: VecMap::new(),
            pages_only: false,
            total_effective_deck_power: 0,
            stakes: ActionBook::new(PAGE_SIZE_STAKES),
            lendings: ActionBook::new(PAGE_SIZE_LENDINGS),
            borrowings: ActionBook::new(PAGE_SIZE_BORROWINGS),
            fights: ActionBook::new(PAGE_SIZE_FIGHTS),
            borrow_meta: VecMap::new(),
            decks: DeckBook::new(PAGE_SIZE_DECKS),
            pot_balance: None,
            dogstar_balance: DogstarBalance { terry: 0, power: 0, xtar: 0 },
            dogstar_generic_fee: VecMap::new(),
            registered_tokens: Vec::new(),
            accumulated_by_token: VecMap::new(),
            user_generic_claimable: VecMap::new(),
            snapshots: VecMap::new(),
            player_rewards: VecMap::new(),
            pending_rewards: VecMap::new(),
            current_round: 0,
            rounds: RoundBook::new(PAGE_SIZE_ROUNDS),
            pot_status: VecMap::new(),
            pot_cursor: VecMap::new(),
            pot_total_decks: VecMap::new(),
            pot_in_progress: None,
            events: Vec::new(),
        }
    }

    /// Publishes `e`.
    pub fn emit(&mut self, e: Event)
        requires
            old(self).wf(),
        ensures
            final(self).wf(),
            final(self)@ == old(self)@.emit(e),
    {
        self.events.push(e);
    }

    /// Takes the events published so far, leaving none.
    pub fn take_events(&mut self) -> (r: Vec<Event>)
        requires
            old(self).wf(),
        ensures
            final(self).wf(),
            r@ == old(self)@.events,
            final(self)@ == (LedgerV { events: Seq::empty(), ..old(self)@ }),
    {
        let mut out: Vec<Event> = Vec::new();
        std::mem::swap(&mut out, &mut self.events);
        out
    }

    pub fn has_administrator(&self) -> (b: bool)
        ensures
            b == self@.admin is Some,
    {
        self.admin.is_some()
    }

    pub fn read_administrator(&self) -> (r: Result<AccountId, NFTError>)
        ensures
            match r {
                Ok(a) => self@.admin == Some(a),
                Err(e) => self@.admin is None && e == NFTError::NotInitialized,
            },
    {
        match self.admin {
            Some(a) => Ok(a),
            None => Err(NFTError::NotInitialized),
        }
    }

    pub fn write_administrator(&mut self, id: AccountId)
        ensures
            final(self)@ == (LedgerV { admin: Some(id), ..old(self)@ }),
    {
        self.admin = Some(id);
    }

    pub fn read_config(&self) -> (r: Result<&Config, NFTError>)
        ensures
            match r {
                Ok(c) => self@.config == Some(*c),
                Err(e) => self@.config is None && e == NFTError::NotInitialized,
            },
    {
        match &self.config {
            Some(c) => Ok(c),
            None => Err(NFTError::NotInitialized),
        }
    }

    pub fn write_config(&mut self, config: Config)
        ensures
            final(self)@ == (LedgerV { config: Some(config), ..old(self)@ }),
    {
        self.config = Some(config);
    }

    pub fn is_pages_only(&self) -> (b: bool)
        ensures
            b == self@.pages_only,
    {
        self.pages_only
    }

    pub fn set_pages_only(&mut self, enabled: bool)
        ensures
            final(self)@ == (LedgerV { pages_only: enabled, ..old(self)@ }),
    {
        self.pages_only = enabled;
    }

    pub fn read_total_effective_deck_power(&self) -> (r: u32)
        ensures
            r == self@.total_effective_deck_power,
    {
        self.total_effective_deck_power
    }

    pub fn write_total_effective_deck_power(&mut self, value: u32)
        ensures
            final(self)@ == (LedgerV { total_effective_deck_power: value, ..old(self)@ }),
    {
        self.total_effective_deck_power = value;
    }

    pub fn read_balance(&self) -> (r: Balance)
        ensures
            r == self@.balance,
    {
        self.balance
    }

    pub fn write_balance(&mut self, balance: Balance)
        ensures
            final(self)@ == (LedgerV { balance, ..old(self)@ }),
    {
        self.balance = balance;
    }

    /// The pool state; before it is first written, a fresh one stamped `now`.
    pub fn read_state(&self, now: u64) -> (r: State)
        ensures
            r == self@.pool(now),
    {
        match self.state {
            Some(s) => s,
            None => State::new_initial(now),
        }
    }

    /// Writes the pool state and publishes it.
    pub fn write_state(&mut self, state: State)
        requires
            old(self).wf(),
        ensures
            final(self).wf(),
            final(self)@ == (LedgerV { state: Some(state), ..old(self)@ }).emit(
                Event::State(crate::event::State { state }),
            ),
    {
        self.state = Some(state);
        self.emit_state_updated(&state);
    }

    pub fn read_contract_vault(&self) -> (r: ContractVault)
        ensures
            r == self@.vault,
    {
        self.vault
    }

    pub fn write_contract_vault(&mut self, vault: ContractVault)
        ensures
            final(self)@ == (LedgerV { vault, ..old(self)@ }),
    {
        self.vault = vault;
    }

    pub fn read_user_claimable_balance(&self, user: &AccountId) -> (r: UserClaimableBalance)
        requires
            self.wf(),
        ensures
            r == self@.claimable(*user),
    {
        match self.user_claimables.get(user) {
            Some(b) => *b,
            None => UserClaimableBalance::new_zero(),
        }
    }

    pub fn write_user_claimable_balance(&mut self, user: AccountId, balance: UserClaimableBalance)
        requires
            old(self).wf(),
        ensures
            final(self).wf(),
            final(self)@ == (LedgerV {
                user_claimables: old(self)@.user_claimables.insert(user, balance),
                ..old(self)@
            }),
    {
        self.user_claimables.insert(user, balance);
    }

    pub fn read_dogstar_claimable(&self) -> (r: UserClaimableBalance)
        ensures
            r == self@.dogstar_claimable,
    {
        self.dogstar_claimable
    }

    pub fn write_dogstar_claimable(&mut self, balance: UserClaimableBalance)
        ensures
            final(self)@ == (LedgerV { dogstar_claimable: balance, ..old(self)@ }),
    {
        self.dogstar_claimable = balance;
    }

    /// Whether `member` is on the whitelist.
    pub fn is_whitelisted(&self, member: &AccountId) -> (b: bool)
        requires
            self.wf(),
        ensures
            b == (self@.whitelist.contains_key(*member) && self@.whitelist[*member]),
    {
        match self.whitelist.get(member) {
            Some(v) => *v,
            None => false,
        }
    }

    /// The player record as read (a fresh one when none is stored).
    pub fn read_user(&self, user: &AccountId) -> (r: User)
        requires
            self.wf(),
        ensures
            r == self@.user(*user),
    {
        match self.users.get(user) {
            Some(u) => *u,
            None => User { owner: *user, power: 0, terry: 0, total_history_terry: 0, level: 1 },
        }
    }

    /// The owner that a request by `user` acts for.
    pub fn owner_of(&self, user: &AccountId) -> (r: AccountId)
        requires
            self.wf(),
        ensures
            r == self@.owner_of(*user),
    {
        self.read_user(user).owner
    }

    /// The level whose band holds `balance` (see `level_scan`).
    pub fn calculate_level_from_balance(&self, balance: i128) -> (r: Result<u32, NFTError>)
        requires
            self.wf(),
        ensures
            match r {
                Ok(l) => self@.levels.len() > 0 && l == level_spec(self@.levels, balance as int),
                Err(e) => self@.levels.len() == 0 && e == NFTError::LevelsMissing,
            },
    {
        let n: usize = self.levels.len();
        if n == 0 {
            return Err(NFTError::LevelsMissing);
        }
        let mut best: u32 = 1;
        let mut i: usize = 0;
        while i < n
            invariant
                n == self.levels@.len(),
                n < u32::MAX,
                i <= n,
                1 <= best,
                best <= i || best == 1,
                level_scan(self.levels@, balance as int, 0, 1) == level_scan(self.levels@, balance as int, i as int, best as int),
            decreases n - i,
        {
            let lvl = &self.levels[i];
            if balance >= lvl.minimum_terry {
                best = (i + 1) as u32;
                if balance <= lvl.maximum_terry {
                    proof {
                        lemma_level_scan_bound(self.levels@, balance as int, 0, 1);
                    }
                    return Ok(best);
                }
            }
            i = i + 1;
        }
        proof {
            lemma_level_scan_bound(self.levels@, balance as int, 0, 1);
        }
        Ok(best)
    }

    /// The level of `user`, from their lifetime TERRY.
    pub fn get_user_level(&self, user: &AccountId) -> (r: Result<u32, NFTError>)
        requires
            self.wf(),
        ensures
            match r {
                Ok(l) => self@.levels.len() > 0 && l == level_spec(self@.levels, self@.user(*user).total_history_terry as int),
                Err(e) => self@.levels.len() == 0 && e == NFTError::LevelsMissing,
            },
    {
        let u = self.read_user(user);
        self.calculate_level_from_balance(u.total_history_terry)
    }

    /// Stores `info` as `user`'s record, its level recomputed from lifetime TERRY.
    pub fn write_user(&mut self, user: AccountId, info: User) -> (r: Result<(), NFTError>)
        requires
            old(self).wf(),
            info.owner == user,
        ensures
            final(self).wf(),
            match r {
                Ok(()) => old(self)@.levels.len() > 0 && final(self)@ == old(self)@.put_user(user, info),
                Err(e) => old(self)@.levels.len() == 0 && e == NFTError::LevelsMissing && final(self)@ == old(self)@,
            },
    {
        let level = self.calculate_level_from_balance(info.total_history_terry)?;
        let mut u = info;
        u.level = level;
        self.users.insert(user, u);
        Ok(())
    }

    /// Adds `amount` TERRY to `owner`'s balance and lifetime total.
    pub fn mint_terry(&mut self, owner: AccountId, amount: i128) -> (r: Result<(), NFTError>)
        requires
            old(self).wf(),
        ensures
            final(self).wf(),
            match r {
                Ok(()) => old(self)@.mint_terry_err(owner, amount) is None && final(self)@ == old(self)@.mint_terry_post(owner, amount),
                Err(e) => old(self)@.mint_terry_err(owner, amount) == Some(e) && final(self)@ == old(self)@,
            },
    {
        let mut u = self.read_user(&owner);
        let terry = match u.terry.checked_add(amount) {
            Some(v) => v,
            None => return Err(NFTError::Overflow),
        };
        let hist = match u.total_history_terry.checked_add(amount) {
            Some(v) => v,
            None => return Err(NFTError::Overflow),
        };
        u.terry = terry;
        u.total_history_terry = hist;
        self.write_user(owner, u)
    }

    /// Whether `mint_terry` would succeed, without minting.
    pub fn mint_terry_check(&self, owner: AccountId, amount: i128) -> (r: Result<(), NFTError>)
        requires
            self.wf(),
        ensures
            match r {
                Ok(()) => self@.mint_terry_err(owner, amount) is None,
                Err(e) => self@.mint_terry_err(owner, amount) == Some(e),
            },
    {
        let u = self.read_user(&owner);
        if u.terry.checked_add(amount).is_none() || u.total_history_terry.checked_add(amount).is_none() {
            return Err(NFTError::Overflow);
        }
        if self.levels.len() == 0 {
            return Err(NFTError::LevelsMissing);
        }
        Ok(())
    }

    /// The house's new TERRY balance after its share of an action reward.
    pub fn haw_terry_check(&self, reward: i128, pct: u32) -> (r: Result<i128, NFTError>)
        ensures
            match r {
                Ok(v) => self@.haw_terry_err(reward, pct) is None
                    && v == self@.balance.haw_ai_terry + crate::math::trunc_div(reward * pct, 100),
                Err(e) => self@.haw_terry_err(reward, pct) == Some(e),
            },
    {
        let x = crate::math::mul_i128(reward, pct as i128)?;
        crate::math::add_i128(self.balance.haw_ai_terry, x / 100)
    }

    /// Takes `amount` TERRY from `owner`, refused where they hold less.
    pub fn burn_terry(&mut self, owner: AccountId, amount: i128) -> (r: Result<(), NFTError>)
        requires
            old(self).wf(),
        ensures
            final(self).wf(),
            match r {
                Ok(()) => old(self)@.burn_terry_err(owner, amount) is None && final(self)@ == old(self)@.burn_terry_post(owner, amount),
                Err(e) => old(self)@.burn_terry_err(owner, amount) == Some(e) && final(self)@ == old(self)@,
            },
    {
        let mut u = self.read_user(&owner);
        if u.terry < amount {
            return Err(NFTError::InsufficientTerry);
        }
        let terry = match u.terry.checked_sub(amount) {
            Some(v) => v,
            None => return Err(NFTError::Overflow),
        };
        u.terry = terry;
        self.write_user(owner, u)
    }

    /// Appends a level; its id is the new number of levels.
    pub fn add_level(&mut self, level: Level) -> (id: u32)
        requires
            old(self).wf(),
            old(self)@.levels.len() + 1 < u32::MAX,
        ensures
            final(self).wf(),
            id == old(self)@.levels.len() + 1,
            final(self)@ == (LedgerV { levels: old(self)@.levels.push(level), ..old(self)@ }),
    {
        self.levels.push(level);
        self.levels.len() as u32
    }

    /// Replaces level `level_id` (counted from 1); other ids are not read by anything
    /// and leave the levels unchanged.
    pub fn update_level(&mut self, level_id: u32, level: Level)
        requires
            old(self).wf(),
        ensures
            final(self).wf(),
            final(self)@ == (if 1 <= level_id <= old(self)@.levels.len() {
                LedgerV { levels: old(self)@.levels.update(level_id - 1, level), ..old(self)@ }
            } else {
                old(self)@
            }),
    {
        if level_id >= 1 && (level_id as usize) <= self.levels.len() {
            self.levels.set((level_id - 1) as usize, level);
        }
    }

    /// The card `owner` holds under `token_id`.
    pub fn read_nft(&self, owner: &AccountId, token_id: &TokenId) -> (r: Option<Card>)
        requires
            self.wf(),
        ensures
            r == self@.card(*owner, *token_id),
    {
        match self.cards.get(&CardKey { owner: *owner, token_id: *token_id }) {
            Some(c) => Some(*c),
            None => None,
        }
    }

    pub fn card_exists(&self, owner: &AccountId, token_id: &TokenId) -> (b: bool)
        requires
            self.wf(),
        ensures
            b == self@.card(*owner, *token_id) is Some,
    {
        self.cards.contains_key(&CardKey { owner: *owner, token_id: *token_id })
    }

    pub fn write_nft(&mut self, owner: AccountId, token_id: TokenId, card: Card)
        requires
            old(self).wf(),
        ensures
            final(self).wf(),
            final(self)@ == (LedgerV {
                cards: old(self)@.cards.insert(CardKey { owner, token_id }, card),
                ..old(self)@
            }),
    {
        self.cards.insert(CardKey { owner, token_id }, card);
    }

    pub fn remove_nft(&mut self, owner: AccountId, token_id: TokenId)
        requires
            old(self).wf(),
        ensures
            final(self).wf(),
            final(self)@ == (LedgerV {
                cards: old(self)@.cards.remove(CardKey { owner, token_id }),
                ..old(self)@
            }),
    {
        self.cards.remove(&CardKey { owner, token_id });
    }

    /// The card ids `owner` is recorded as holding.
    pub fn read_owner_card(&self, owner: &AccountId) -> (r: Vec<TokenId>)
        requires
            self.wf(),
        ensures
            r@ == self@.owned_cards(*owner),
    {
        match self.owner_cards.get(owner) {
            Some(v) => copy_token_ids(v),
            None => Vec::new(),
        }
    }

    pub fn write_owner_cards(&mut self, owner: AccountId, ids: Vec<TokenId>)
        requires
            old(self).wf(),
            ids@.len() <= u32::MAX,
        ensures
            final(self).wf(),
            final(self)@ == (LedgerV {
                owner_cards: old(self)@.owner_cards.insert(owner, ids@),
                ..old(self)@
            }),
    {
        let ghost v = ids@;
        self.owner_cards.insert(owner, ids);
        proof {
            assert(self.owner_cards@.map_values(|v: Vec<TokenId>| v@) =~= old(self).owner_cards@.map_values(|v: Vec<TokenId>| v@).insert(owner, v));
        }
    }

    /// Records that `user` holds `token_id`; refused where the card does not exist.
    /// A card id already recorded is not recorded twice.
    pub fn add_card_to_owner(&mut self, token_id: TokenId, user: AccountId) -> (r: Result<(), NFTError>)
        requires
            old(self).wf(),
            old(self)@.owned_cards(user).len() < u32::MAX,
        ensures
            final(self).wf(),
            match r {
                Ok(()) => old(self)@.card(user, token_id) is Some && final(self)@ == (LedgerV {
                    owner_cards: old(self)@.owner_cards.insert(
                        user,
                        if old(self)@.owned_cards(user).contains(token_id) {
                            old(self)@.owned_cards(user)
                        } else {
                            old(self)@.owned_cards(user).push(token_id)
                        },
                    ),
                    ..old(self)@
                }),
                Err(e) => old(self)@.card(user, token_id) is None && e == NFTError::NotNFT && final(self)@ == old(self)@,
            },
    {
        if self.read_nft(&user, &token_id).is_none() {
            return Err(NFTError::NotNFT);
        }
        let mut cards = self.read_owner_card(&user);
        if !contains_token(&cards, &token_id) {
            cards.push(token_id);
        }
        self.write_owner_cards(user, cards);
        Ok(())
    }

    /// Drops the first record of `token_id` from `owner`'s card ids.
    pub fn remove_owner_card(&mut self, owner: AccountId, token_id: TokenId)
        requires
            old(self).wf(),
        ensures
            final(self).wf(),
            final(self)@ == (LedgerV {
                owner_cards: old(self)@.owner_cards.insert(owner, remove_first(old(self)@.owned_cards(owner), token_id)),
                ..old(self)@
            }),
    {
        let mut cards = self.read_owner_card(&owner);
        match position_of_token(&cards, &token_id) {
            Some(i) => {
                cards.remove(i);
            },
            None => {},
        }
        self.write_owner_cards(owner, cards);
    }

    /// The catalog entry of card kind `token_id`.
    pub fn read_metadata(&self, token_id: u32) -> (r: Result<CardMetadata, NFTError>)
        requires
            self.wf(),
        ensures
            match r {
                Ok(m) => self@.metadata.contains_key(token_id) && m == self@.metadata[token_id],
                Err(e) => !self@.metadata.contains_key(token_id) && e == NFTError::MetadataMissing,
            },
    {
        match self.metadata.get(&token_id) {
            Some(m) => Ok(*m),
            None => Err(NFTError::MetadataMissing),
        }
    }

    /// Writes a catalog entry; a new card kind is appended to the list of all card ids.
    pub fn write_metadata(&mut self, token_id: u32, metadata: CardMetadata)
        requires
            old(self).wf(),
            old(self)@.all_card_ids.len() < u32::MAX,
        ensures
            final(self).wf(),
            final(self)@ == (LedgerV {
                metadata: old(self)@.metadata.insert(token_id, metadata),
                all_card_ids: if old(self)@.metadata.contains_key(token_id) {
                    old(self)@.all_card_ids
                } else {
                    old(self)@.all_card_ids.push(TokenId(token_id))
                },
                ..old(self)@
            }),
    {
        let already: bool = self.metadata.contains_key(&token_id);
        self.metadata.insert(token_id, metadata);
        if !already {
            self.all_card_ids.push(TokenId(token_id));
        }
    }
}

pub(crate) proof fn lemma_level_in_range(levels: Seq<Level>, balance: int)
    requires
        levels.len() < u32::MAX,
    ensures
        1 <= level_spec(levels, balance) <= if levels.len() > 0 { levels.len() as int } else { 1 },
{
    lemma_level_scan_bound(levels, balance, 0, 1);
}

/// Every request acts for its own address: a stored player record is owned by the player
/// it is stored under, and a missing one reads as owned by the address.
pub proof fn lemma_owner_of_self(l: &Ledger, a: AccountId)
    requires
        l.wf(),
    ensures
        l@.owner_of(a) == a,
{
    if l.users@.contains_key(a) {
        assert(l.users@[a].owner == a);
    }
}

/// `s` without its first occurrence of `x`.
pub open spec fn remove_first(s: Seq<TokenId>, x: TokenId) -> Seq<TokenId> {
    if s.contains(x) {
        s.remove(s.index_of_first(x)->0)
    } else {
        s
    }
}

/// The first slot holding `x`.
pub fn position_of_token(v: &Vec<TokenId>, x: &TokenId) -> (r: Option<usize>)
    ensures
        match r {
            Some(i) => i < v@.len() && v@.contains(*x) && v@.index_of_first(*x) == Some(i as int),
            None => !v@.contains(*x),
        },
{
    let mut i: usize = 0;
    while i < v.len()
        invariant
            i <= v@.len(),
            forall|j: int| 0 <= j < i ==> v@[j] != *x,
        decreases v@.len() - i,
    {
        if v[i].0 == x.0 {
            proof {
                assert(v@[i as int] == *x);
                v@.index_of_first_ensures(*x);
                assert(v@.contains(*x));
            }
            return Some(i);
        }
        i = i + 1;
    }
    None
}

pub fn contains_token(v: &Vec<TokenId>, x: &TokenId) -> (b: bool)
    ensures
        b == v@.contains(*x),
{
    position_of_token(v, x).is_some()
}

} // verus!
