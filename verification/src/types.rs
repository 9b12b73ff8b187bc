//! The data the contract keeps: identifiers, cards, users, global balances
//! and the pot bookkeeping records.
use vstd::prelude::*;

verus! {

/// An account (a player, the administrator, a token contract or the
/// contract itself). The host's addresses are mapped one to one onto these ids.
#[derive(Clone, Copy, Debug, PartialEq, Eq, Structural, Hash)]
pub struct AccountId(pub u64);

/// The identifier of a card kind; a player owns at most one card of each id.
#[derive(Clone, Copy, Debug, PartialEq, Eq, Structural, Hash)]
pub struct TokenId(pub u32);

#[derive(Clone, Copy, Debug, PartialEq, Eq, Structural, Hash)]
pub enum Category {
    Leader,
    Resource,
    Skill,
    Weapon,
}

#[derive(Clone, Copy, Debug, PartialEq, Eq, Structural, Hash)]
pub enum Currency {
    Terry,
    Xtar,
}

/// The action that currently holds a card; `Idle` means the card is free.
#[derive(Clone, Copy, Debug, PartialEq, Eq, Structural, Hash)]
pub enum Action {
    Idle,
    Stake,
    Fight,
    Lend,
    Borrow,
    Burn,
    Deck,
    Mint,
}

/// A card held by a player.
#[derive(Clone, Copy, Debug, PartialEq, Eq, Structural)]
pub struct Card {
    pub power: u32,
    pub locked_by_action: Action,
}

/// Default economics of a card kind.
#[derive(Clone, Copy, Debug, PartialEq, Eq, Structural)]
pub struct CardInfo {
    pub initial_power: u32,
    pub max_power: u32,
    pub price_xtar: i128,
    pub price_terry: i128,
}

impl CardInfo {
    /// The defaults every category starts with.
    pub fn get_default_card(_category: Category) -> (r: Self)
        ensures
            r == (CardInfo { initial_power: 1000, max_power: 10000, price_xtar: 100, price_terry: 100 }),
    {
        CardInfo { initial_power: 1000, max_power: 10000, price_terry: 100, price_xtar: 100 }
    }
}

/// Catalog entry of a card kind.
#[derive(Clone, Copy, Debug, PartialEq, Eq, Structural)]
pub struct CardMetadata {
    pub initial_power: u32,
    pub max_power: u32,
    pub level: u32,
    pub category: Category,
    pub price_xtar: i128,
    pub price_terry: i128,
    pub token_id: u32,
}

/// A player's account record.
#[derive(Clone, Copy, Debug, PartialEq, Eq, Structural)]
pub struct User {
    pub owner: AccountId,
    pub power: u32,
    pub terry: i128,
    pub total_history_terry: i128,
    pub level: u32,
}

/// A player level: the band of lifetime TERRY that it covers.
#[derive(Clone, Debug, PartialEq, Eq)]
pub struct Level {
    pub minimum_terry: i128,
    pub maximum_terry: i128,
    pub name: String,
}

/// The contract's parameters, set at initialization.
#[derive(Clone, Debug, PartialEq, Eq)]
pub struct Config {
    pub xtar_token: AccountId,
    pub oracle_contract_id: AccountId,
    pub withdrawable_percentage: u32,
    pub burnable_percentage: u32,
    pub haw_ai_percentage: u32,
    pub terry_per_power: i128,
    pub stake_periods: Vec<u32>,
    pub stake_interest_percentages: Vec<u32>,
    pub power_action_fee: u32,
    pub burn_receive_percentage: u32,
    pub terry_per_deck: i128,
    pub terry_per_fight: i128,
    pub terry_per_lending: i128,
    pub terry_per_stake: i128,
    pub apy_alpha: u32,
    pub power_to_usdc_rate: i128,
    pub dogstar_fee_percentage: u32,
}

/// Balances kept by the house.
#[derive(Clone, Copy, Debug, PartialEq, Eq, Structural)]
pub struct Balance {
    pub admin_terry: i128,
    pub admin_power: u32,
    pub haw_ai_terry: i128,
    pub haw_ai_power: u32,
    pub haw_ai_xtar: i128,
    pub total_deck_power: u32,
}

impl Balance {
    pub open spec fn zero() -> Balance {
        Balance {
            admin_terry: 0,
            admin_power: 0,
            haw_ai_terry: 0,
            haw_ai_power: 0,
            haw_ai_xtar: 0,
            total_deck_power: 0,
        }
    }

    pub fn new_zero() -> (r: Balance)
        ensures
            r == Balance::zero(),
    {
        Balance {
            admin_terry: 0,
            admin_power: 0,
            haw_ai_terry: 0,
            haw_ai_power: 0,
            haw_ai_xtar: 0,
            total_deck_power: 0,
        }
    }
}

/// The lending pool's accumulators.
#[derive(Clone, Copy, Debug, PartialEq, Eq, Structural)]
pub struct State {
    pub total_offer: u64,
    pub total_demand: u64,
    pub total_interest: u64,
    pub total_loan_duration: u64,
    pub total_loan_count: u64,
    pub borrowed_time_seconds: u64,
    pub loans_time_seconds: u64,
    pub last_update_ts: u64,
    pub active_loans: u64,
    pub l_index: u64,
    pub w_total: u64,
    pub total_staked_power: u64,
    pub total_borrowed_power: u64,
}

impl State {
    /// The pool before anything happened, stamped with the time it is first read.
    pub open spec fn initial(now: u64) -> State {
        State {
            total_offer: 0,
            total_demand: 0,
            total_interest: 0,
            total_loan_duration: 0,
            total_loan_count: 0,
            borrowed_time_seconds: 0,
            loans_time_seconds: 0,
            last_update_ts: now,
            active_loans: 0,
            l_index: 0,
            w_total: 0,
            total_staked_power: 0,
            total_borrowed_power: 0,
        }
    }

    pub fn new_initial(now: u64) -> (r: State)
        ensures
            r == State::initial(now),
    {
        State {
            total_offer: 0,
            total_demand: 0,
            total_interest: 0,
            total_loan_duration: 0,
            total_loan_count: 0,
            borrowed_time_seconds: 0,
            loans_time_seconds: 0,
            last_update_ts: now,
            active_loans: 0,
            l_index: 0,
            w_total: 0,
            total_staked_power: 0,
            total_borrowed_power: 0,
        }
    }
}

/// Assets the contract holds for the pot and for the Dogstar fee.
#[derive(Clone, Copy, Debug, PartialEq, Eq, Structural)]
pub struct ContractVault {
    pub haw_ai_pot_terry: i128,
    pub haw_ai_pot_power: u32,
    pub haw_ai_pot_xtar: i128,
    pub dogstar_terry: i128,
    pub dogstar_power: u32,
    pub dogstar_xtar: i128,
    pub total_claimable_terry: i128,
    pub total_claimable_power: u32,
    pub total_claimable_xtar: i128,
}

impl ContractVault {
    pub open spec fn zero() -> ContractVault {
        ContractVault {
            haw_ai_pot_terry: 0,
            haw_ai_pot_power: 0,
            haw_ai_pot_xtar: 0,
            dogstar_terry: 0,
            dogstar_power: 0,
            dogstar_xtar: 0,
            total_claimable_terry: 0,
            total_claimable_power: 0,
            total_claimable_xtar: 0,
        }
    }

    pub fn new_zero() -> (r: ContractVault)
        ensures
            r == ContractVault::zero(),
    {
        ContractVault {
            haw_ai_pot_terry: 0,
            haw_ai_pot_power: 0,
            haw_ai_pot_xtar: 0,
            dogstar_terry: 0,
            dogstar_power: 0,
            dogstar_xtar: 0,
            total_claimable_terry: 0,
            total_claimable_power: 0,
            total_claimable_xtar: 0,
        }
    }
}

/// What a player may claim from the pot.
#[derive(Clone, Copy, Debug, PartialEq, Eq, Structural)]
pub struct UserClaimableBalance {
    pub terry: i128,
    pub power: u32,
    pub xtar: i128,
    pub last_claim_round: u32,
    pub last_claim_timestamp: u64,
}

impl UserClaimableBalance {
    pub open spec fn zero() -> UserClaimableBalance {
        UserClaimableBalance {
            terry: 0,
            power: 0,
            xtar: 0,
            last_claim_round: 0,
            last_claim_timestamp: 0,
        }
    }

    pub fn new_zero() -> (r: UserClaimableBalance)
        ensures
            r == UserClaimableBalance::zero(),
    {
        UserClaimableBalance {
            terry: 0,
            power: 0,
            xtar: 0,
            last_claim_round: 0,
            last_claim_timestamp: 0,
        }
    }
}

/// The pot's accumulation since its last opening.
#[derive(Clone, Copy, Debug, PartialEq, Eq, Structural)]
pub struct PotBalance {
    pub accumulated_terry: i128,
    pub accumulated_power: u32,
    pub accumulated_xtar: i128,
    pub last_opening_round: u32,
    pub total_openings: u32,
    pub last_updated: u64,
}

impl PotBalance {
    pub open spec fn initial(now: u64) -> PotBalance {
        PotBalance {
            accumulated_terry: 0,
            accumulated_power: 0,
            accumulated_xtar: 0,
            last_opening_round: 0,
            total_openings: 0,
            last_updated: now,
        }
    }

    pub fn new_initial(now: u64) -> (r: PotBalance)
        ensures
            r == PotBalance::initial(now),
    {
        PotBalance {
            accumulated_terry: 0,
            accumulated_power: 0,
            accumulated_xtar: 0,
            last_opening_round: 0,
            total_openings: 0,
            last_updated: now,
        }
    }
}

/// Dogstar fees collected (kept alongside the vault for older readers).
#[derive(Clone, Copy, Debug, PartialEq, Eq, Structural)]
pub struct DogstarBalance {
    pub terry: i128,
    pub power: u32,
    pub xtar: i128,
}

/// An amount of a registered generic token.
#[derive(Clone, Copy, Debug, PartialEq, Eq, Structural)]
pub struct GenericTokenAmount {
    pub token: AccountId,
    pub amount: i128,
}

/// The pot as it stood when a round was opened.
#[derive(Clone, Debug, PartialEq, Eq)]
pub struct PotSnapshot {
    pub round_number: u32,
    pub total_terry: i128,
    pub total_power: u32,
    pub total_xtar: i128,
    pub timestamp: u64,
    pub total_participants: u32,
    pub total_effective_power: u32,
    pub generic_tokens: Vec<GenericTokenAmount>,
}

/// The abstract contents of a pot snapshot.
pub struct PotSnapshotV {
    pub round_number: u32,
    pub total_terry: i128,
    pub total_power: u32,
    pub total_xtar: i128,
    pub timestamp: u64,
    pub total_participants: u32,
    pub total_effective_power: u32,
    pub generic_tokens: Seq<GenericTokenAmount>,
}

impl View for PotSnapshot {
    type V = PotSnapshotV;

    open spec fn view(&self) -> PotSnapshotV {
        PotSnapshotV {
            round_number: self.round_number,
            total_terry: self.total_terry,
            total_power: self.total_power,
            total_xtar: self.total_xtar,
            timestamp: self.timestamp,
            total_participants: self.total_participants,
            total_effective_power: self.total_effective_power,
            generic_tokens: self.generic_tokens@,
        }
    }
}

/// A player's share in an opened round.
#[derive(Clone, Copy, Debug, PartialEq, Eq, Structural)]
pub struct PlayerReward {
    pub share_percentage: u32,
    pub effective_power: u32,
    pub round_number: u32,
    pub deck_bonus: u32,
    pub deck_categories: u32,
}

#[derive(Clone, Copy, Debug, PartialEq, Eq, Structural)]
pub enum RewardStatus {
    Pending,
    Claimed,
}

/// A reward owed to a player for a round.
#[derive(Clone, Debug, PartialEq, Eq)]
pub struct PendingReward {
    pub round_number: u32,
    pub terry_amount: i128,
    pub power_amount: u32,
    pub xtar_amount: i128,
    pub generic_tokens: Vec<GenericTokenAmount>,
    pub status: RewardStatus,
}

/// The abstract contents of a pending reward.
pub struct PendingRewardV {
    pub round_number: u32,
    pub terry_amount: i128,
    pub power_amount: u32,
    pub xtar_amount: i128,
    pub generic_tokens: Seq<GenericTokenAmount>,
    pub status: RewardStatus,
}

impl View for PendingReward {
    type V = PendingRewardV;

    open spec fn view(&self) -> PendingRewardV {
        PendingRewardV {
            round_number: self.round_number,
            terry_amount: self.terry_amount,
            power_amount: self.power_amount,
            xtar_amount: self.xtar_amount,
            generic_tokens: self.generic_tokens@,
            status: self.status,
        }
    }
}

/// Stage of a round's resumable opening.
#[derive(Clone, Copy, Debug, PartialEq, Eq, Structural)]
pub enum PotStatus {
    Init,
    Totals,
    Shares,
    Finalized,
}

/// Totals in the pot and what one player may claim.
#[derive(Clone, Debug, PartialEq, Eq)]
pub struct PotOverview {
    pub total_terry: i128,
    pub total_power: u32,
    pub total_xtar: i128,
    pub total_generics: Vec<GenericTokenAmount>,
    pub user_terry: i128,
    pub user_power: u32,
    pub user_xtar: i128,
    pub user_generics: Vec<GenericTokenAmount>,
}

/// A player's deck of up to four cards.
#[derive(Clone, Debug, PartialEq, Eq)]
pub struct Deck {
    pub owner: AccountId,
    pub haw_ai_percentage: u32,
    pub total_power: u32,
    pub bonus: u32,
    pub deck_categories: u32,
    pub token_ids: Vec<TokenId>,
}

/// The abstract contents of a deck.
pub struct DeckV {
    pub owner: AccountId,
    pub haw_ai_percentage: u32,
    pub total_power: u32,
    pub bonus: u32,
    pub deck_categories: u32,
    pub token_ids: Seq<TokenId>,
}

impl View for Deck {
    type V = DeckV;

    open spec fn view(&self) -> DeckV {
        DeckV {
            owner: self.owner,
            haw_ai_percentage: self.haw_ai_percentage,
            total_power: self.total_power,
            bonus: self.bonus,
            deck_categories: self.deck_categories,
            token_ids: self.token_ids@,
        }
    }
}

/// A copy of a list of card ids.
pub fn copy_token_ids(v: &Vec<TokenId>) -> (r: Vec<TokenId>)
    ensures
        r@ == v@,
{
    let mut out: Vec<TokenId> = Vec::new();
    let mut i: usize = 0;
    while i < v.len()
        invariant
            i <= v@.len(),
            out@ == v@.subrange(0, i as int),
        decreases v@.len() - i,
    {
        out.push(v[i]);
        i = i + 1;
        proof {
            assert(out@ =~= v@.subrange(0, i as int));
        }
    }
    proof {
        assert(v@.subrange(0, v@.len() as int) =~= v@);
    }
    out
}

impl Deck {
    /// A copy of this deck.
    pub fn copy(&self) -> (r: Deck)
        ensures
            r@ == self@,
    {
        Deck {
            owner: self.owner,
            haw_ai_percentage: self.haw_ai_percentage,
            total_power: self.total_power,
            bonus: self.bonus,
            deck_categories: self.deck_categories,
            token_ids: copy_token_ids(&self.token_ids),
        }
    }
}

/// A copy of a list of token amounts.
pub fn copy_amounts(v: &Vec<GenericTokenAmount>) -> (r: Vec<GenericTokenAmount>)
    ensures
        r@ == v@,
{
    let mut out: Vec<GenericTokenAmount> = Vec::new();
    let mut i: usize = 0;
    while i < v.len()
        invariant
            i <= v@.len(),
            out@ == v@.subrange(0, i as int),
        decreases v@.len() - i,
    {
        out.push(v[i]);
        i = i + 1;
        proof {
            assert(out@ =~= v@.subrange(0, i as int));
        }
    }
    proof {
        assert(v@.subrange(0, v@.len() as int) =~= v@);
    }
    out
}

impl PotSnapshot {
    /// A copy of this snapshot.
    pub fn copy(&self) -> (r: PotSnapshot)
        ensures
            r@ == self@,
    {
        PotSnapshot {
            round_number: self.round_number,
            total_terry: self.total_terry,
            total_power: self.total_power,
            total_xtar: self.total_xtar,
            timestamp: self.timestamp,
            total_participants: self.total_participants,
            total_effective_power: self.total_effective_power,
            generic_tokens: copy_amounts(&self.generic_tokens),
        }
    }
}

impl PendingReward {
    /// A copy of this reward.
    pub fn copy(&self) -> (r: PendingReward)
        ensures
            r@ == self@,
    {
        PendingReward {
            round_number: self.round_number,
            terry_amount: self.terry_amount,
            power_amount: self.power_amount,
            xtar_amount: self.xtar_amount,
            generic_tokens: copy_amounts(&self.generic_tokens),
            status: self.status,
        }
    }
}

/// Reserve bookkeeping of an open loan.
#[derive(Clone, Copy, Debug, PartialEq, Eq, Structural)]
pub struct BorrowMeta {
    pub last_l_index: u64,
    pub weight: u32,
    pub reserve_remaining: u32,
}

/// The identity of a stake, fight, lending or borrowing: who, which category, which card.
#[derive(Clone, Copy, Debug, PartialEq, Eq, Structural, Hash)]
pub struct ActionKey {
    pub owner: AccountId,
    pub category: Category,
    pub token_id: TokenId,
}

pub type StakeKey = ActionKey;

pub type FightKey = ActionKey;

pub type LendingKey = ActionKey;

pub type BorrowingKey = ActionKey;

/// Index entry of a deck.
#[derive(Clone, Copy, Debug, PartialEq, Eq, Structural, Hash)]
pub struct DeckKey {
    pub owner: AccountId,
}

/// A card as a key of the card table: its holder and its id.
#[derive(Clone, Copy, Debug, PartialEq, Eq, Structural, Hash)]
pub struct CardKey {
    pub owner: AccountId,
    pub token_id: TokenId,
}

/// A (round, player) pair.
#[derive(Clone, Copy, Debug, PartialEq, Eq, Structural, Hash)]
pub struct RoundPlayer {
    pub round: u32,
    pub player: AccountId,
}

/// A (player, token) pair.
#[derive(Clone, Copy, Debug, PartialEq, Eq, Structural, Hash)]
pub struct UserToken {
    pub user: AccountId,
    pub token: AccountId,
}

} // verus!
