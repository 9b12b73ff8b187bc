//! Events the contract publishes, recorded in order during a request.
use vstd::prelude::*;
use crate::types::{AccountId, Action, Category, TokenId, State as PoolState};
use crate::fight::Fight as FightRecord;
use crate::ledger::Ledger;
use crate::types::{PendingReward, PlayerReward, PotSnapshot};

verus! {

/// The pot was opened for a round.
#[derive(Clone, Copy, Debug, PartialEq, Eq, Structural)]
pub struct PotOpen {
    pub round: u32,
    pub total_terry: i128,
    pub total_power: u32,
    pub total_xtar: i128,
    pub total_participants: u32,
    pub total_effective_power: u32,
}

/// A player's share of a round was computed.
#[derive(Clone, Copy, Debug, PartialEq, Eq, Structural)]
pub struct ShareCal {
    pub player: AccountId,
    pub round_number: u32,
    pub share_percentage: u32,
    pub effective_power: u32,
    pub deck_bonus: u32,
    pub deck_categories: u32,
}

/// Dogstar fees were taken from a contribution to the pot.
#[derive(Clone, Copy, Debug, PartialEq, Eq, Structural)]
pub struct FeeAcc {
    pub terry: i128,
    pub power: u32,
    pub xtar: i128,
    pub fee_percentage: u32,
    pub from: Option<AccountId>,
    pub action: Action,
}

/// Dogstar fees were paid out.
#[derive(Clone, Copy, Debug, PartialEq, Eq, Structural)]
pub struct FeeWd {
    pub recipient: AccountId,
    pub terry: i128,
    pub power: u32,
    pub xtar: i128,
}

/// The Dogstar fee percentage changed.
#[derive(Clone, Copy, Debug, PartialEq, Eq, Structural)]
pub struct FeePct {
    pub old_fee: u32,
    pub new_fee: u32,
}

/// A round's reward was claimed.
#[derive(Clone, Copy, Debug, PartialEq, Eq, Structural)]
pub struct RwdCld {
    pub player: AccountId,
    pub round_number: u32,
    pub terry_amount: i128,
    pub power_amount: u32,
    pub xtar_amount: i128,
}

/// A round's reward is pending.
#[derive(Clone, Copy, Debug, PartialEq, Eq, Structural)]
pub struct RewardPd {
    pub player: AccountId,
    pub round_number: u32,
    pub terry_amount: i128,
    pub power_amount: u32,
    pub xtar_amount: i128,
}

/// A player claimed from the pot.
#[derive(Clone, Copy, Debug, PartialEq, Eq, Structural)]
pub struct RwdClaim {
    pub player: AccountId,
    pub terry: i128,
    pub power: u32,
    pub xtar: i128,
}

/// A card was burned.
#[derive(Clone, Copy, Debug, PartialEq, Eq, Structural)]
pub struct Burn {
    pub player: AccountId,
}

/// The step of an action that an event reports.
#[derive(Clone, Copy, Debug, PartialEq, Eq, Structural)]
pub enum Step {
    Open,
    Increase,
    Close,
    Place,
    Replace,
    Remove,
    Complete,
}

/// A stake was opened, increased or closed.
#[derive(Clone, Copy, Debug, PartialEq, Eq, Structural)]
pub struct Stake {
    pub action: Step,
    pub player: AccountId,
    pub owner: AccountId,
    pub category: Category,
    pub token_id: TokenId,
}

/// A lending was opened or withdrawn.
#[derive(Clone, Copy, Debug, PartialEq, Eq, Structural)]
pub struct Lend {
    pub action: Step,
    pub player: AccountId,
    pub owner: AccountId,
    pub category: Category,
    pub token_id: TokenId,
}

/// A borrowing was opened or repaid.
#[derive(Clone, Copy, Debug, PartialEq, Eq, Structural)]
pub struct Borrow {
    pub action: Step,
    pub player: AccountId,
    pub owner: AccountId,
    pub category: Category,
    pub token_id: TokenId,
}

/// The liquidation index moved (a deficit shared pro rata over the reserves).
#[derive(Clone, Copy, Debug, PartialEq, Eq, Structural)]
pub struct IdxUpd {
    pub l_index: u64,
    pub d_l: u64,
    pub deficit: u64,
    pub w_total: u64,
}

/// A loan's pending haircut was applied.
#[derive(Clone, Copy, Debug, PartialEq, Eq, Structural)]
pub struct LoanTch {
    pub player: AccountId,
    pub haircut: u32,
    pub reserve_left: u32,
    pub ownership_lost: bool,
}

/// A loan's collateral was used up.
#[derive(Clone, Copy, Debug, PartialEq, Eq, Structural)]
pub struct LoanLiq {
    pub player: AccountId,
}

/// A deck changed.
#[derive(Clone, Copy, Debug, PartialEq, Eq, Structural)]
pub struct Deck {
    pub action: Step,
    pub player: AccountId,
}

/// A card was minted.
#[derive(Clone, Copy, Debug, PartialEq, Eq, Structural)]
pub struct Mint {
    pub player: AccountId,
}

/// A card changed hands.
#[derive(Clone, Copy, Debug, PartialEq, Eq, Structural)]
pub struct Transfer {
    pub from: AccountId,
    pub to: AccountId,
}

/// A fight was opened or closed.
#[derive(Clone, Copy, Debug, PartialEq, Eq, Structural)]
pub struct Fight {
    pub action: Step,
    pub fight: FightRecord,
}

/// The lending pool's state was written.
#[derive(Clone, Copy, Debug, PartialEq, Eq, Structural)]
pub struct State {
    pub state: PoolState,
}

/// Everything the contract publishes.
#[derive(Clone, Copy, Debug, PartialEq, Eq, Structural)]
pub enum Event {
    PotOpen(PotOpen),
    ShareCal(ShareCal),
    FeeAcc(FeeAcc),
    FeeWd(FeeWd),
    FeePct(FeePct),
    RwdCld(RwdCld),
    RewardPd(RewardPd),
    RwdClaim(RwdClaim),
    Burn(Burn),
    Stake(Stake),
    Lend(Lend),
    Borrow(Borrow),
    IdxUpd(IdxUpd),
    LoanTch(LoanTch),
    LoanLiq(LoanLiq),
    Deck(Deck),
    Mint(Mint),
    Transfer(Transfer),
    Fight(Fight),
    State(State),
    /// The contract was initialized by this administrator.
    Initialized(AccountId),
    /// The administrator changed.
    AdminChanged { admin: AccountId, new_admin: AccountId },
}

/// One helper per published event: each builds the event from its arguments and
/// appends it to the events of the request, leaving the rest of the ledger as it was.
impl Ledger {
    /// The pot was opened for `round` with the totals of `snapshot`.
    pub fn emit_pot_opened(&mut self, round: u32, snapshot: &PotSnapshot)
        requires old(self).wf(),
        ensures
            final(self).wf(),
            final(self)@ == old(self)@.emit(Event::PotOpen(PotOpen {
                round,
                total_terry: snapshot.total_terry,
                total_power: snapshot.total_power,
                total_xtar: snapshot.total_xtar,
                total_participants: snapshot.total_participants,
                total_effective_power: snapshot.total_effective_power,
            })),
    {
        self.emit(Event::PotOpen(PotOpen {
            round,
            total_terry: snapshot.total_terry,
            total_power: snapshot.total_power,
            total_xtar: snapshot.total_xtar,
            total_participants: snapshot.total_participants,
            total_effective_power: snapshot.total_effective_power,
        }));
    }

    /// `player`'s share of a round, as recorded in `reward`.
    pub fn emit_share_calculated(&mut self, player: AccountId, reward: &PlayerReward)
        requires old(self).wf(),
        ensures
            final(self).wf(),
            final(self)@ == old(self)@.emit(Event::ShareCal(ShareCal {
                player,
                round_number: reward.round_number,
                share_percentage: reward.share_percentage,
                effective_power: reward.effective_power,
                deck_bonus: reward.deck_bonus,
                deck_categories: reward.deck_categories,
            })),
    {
        self.emit(Event::ShareCal(ShareCal {
            player,
            round_number: reward.round_number,
            share_percentage: reward.share_percentage,
            effective_power: reward.effective_power,
            deck_bonus: reward.deck_bonus,
            deck_categories: reward.deck_categories,
        }));
    }

    /// Dogstar fees taken from a contribution; a missing action is reported as `Idle`.
    pub fn emit_dogstar_fee_accumulated(
        &mut self,
        terry: i128,
        power: u32,
        xtar: i128,
        fee_percentage: u32,
        from: Option<AccountId>,
        action: Option<Action>,
    )
        requires old(self).wf(),
        ensures
            final(self).wf(),
            final(self)@ == old(self)@.emit(Event::FeeAcc(FeeAcc {
                terry,
                power,
                xtar,
                fee_percentage,
                from,
                action: match action {
                    Some(a) => a,
                    None => Action::Idle,
                },
            })),
    {
        let action_val = match action {
            Some(a) => a,
            None => Action::Idle,
        };
        self.emit(Event::FeeAcc(FeeAcc { terry, power, xtar, fee_percentage, from, action: action_val }));
    }

    /// Dogstar fees paid out to `recipient`.
    pub fn emit_dogstar_fee_withdrawn(&mut self, recipient: AccountId, terry: i128, power: u32, xtar: i128)
        requires old(self).wf(),
        ensures
            final(self).wf(),
            final(self)@ == old(self)@.emit(Event::FeeWd(FeeWd { recipient, terry, power, xtar })),
    {
        self.emit(Event::FeeWd(FeeWd { recipient, terry, power, xtar }));
    }

    /// The Dogstar fee percentage went from `old_fee` to `new_fee`.
    pub fn emit_dogstar_fee_percentage_updated(&mut self, old_fee: u32, new_fee: u32)
        requires old(self).wf(),
        ensures
            final(self).wf(),
            final(self)@ == old(self)@.emit(Event::FeePct(FeePct { old_fee, new_fee })),
    {
        self.emit(Event::FeePct(FeePct { old_fee, new_fee }));
    }

    /// `player` claimed the round reward `reward`.
    pub fn emit_reward_claimed(&mut self, player: AccountId, reward: &PendingReward)
        requires old(self).wf(),
        ensures
            final(self).wf(),
            final(self)@ == old(self)@.emit(Event::RwdCld(RwdCld {
                player,
                round_number: reward.round_number,
                terry_amount: reward.terry_amount,
                power_amount: reward.power_amount,
                xtar_amount: reward.xtar_amount,
            })),
    {
        self.emit(Event::RwdCld(RwdCld {
            player,
            round_number: reward.round_number,
            terry_amount: reward.terry_amount,
            power_amount: reward.power_amount,
            xtar_amount: reward.xtar_amount,
        }));
    }

    /// `player`'s round reward `reward` is left pending.
    pub fn emit_reward_pending(&mut self, player: AccountId, reward: &PendingReward)
        requires old(self).wf(),
        ensures
            final(self).wf(),
            final(self)@ == old(self)@.emit(Event::RewardPd(RewardPd {
                player,
                round_number: reward.round_number,
                terry_amount: reward.terry_amount,
                power_amount: reward.power_amount,
                xtar_amount: reward.xtar_amount,
            })),
    {
        self.emit(Event::RewardPd(RewardPd {
            player,
            round_number: reward.round_number,
            terry_amount: reward.terry_amount,
            power_amount: reward.power_amount,
            xtar_amount: reward.xtar_amount,
        }));
    }

    /// `player` claimed these amounts from the pot.
    pub fn emit_rewards_claimed(&mut self, player: AccountId, terry: i128, power: u32, xtar: i128)
        requires old(self).wf(),
        ensures
            final(self).wf(),
            final(self)@ == old(self)@.emit(Event::RwdClaim(RwdClaim { player, terry, power, xtar })),
    {
        self.emit(Event::RwdClaim(RwdClaim { player, terry, power, xtar }));
    }

    /// `player` burned a card.
    pub fn emit_burn(&mut self, player: AccountId)
        requires old(self).wf(),
        ensures
            final(self).wf(),
            final(self)@ == old(self)@.emit(Event::Burn(Burn { player })),
    {
        self.emit(Event::Burn(Burn { player }));
    }

    /// `player` staked a card.
    pub fn emit_stake(&mut self, player: AccountId, category: Category, token_id: TokenId)
        requires old(self).wf(),
        ensures
            final(self).wf(),
            final(self)@ == old(self)@.emit(Event::Stake(Stake { action: Step::Open, player, owner: player, category, token_id })),
    {
        self.emit(Event::Stake(Stake { action: Step::Open, player, owner: player, category, token_id }));
    }

    /// `player` added power to a stake.
    pub fn emit_stake_increased(&mut self, player: AccountId, category: Category, token_id: TokenId)
        requires old(self).wf(),
        ensures
            final(self).wf(),
            final(self)@ == old(self)@.emit(Event::Stake(Stake { action: Step::Increase, player, owner: player, category, token_id })),
    {
        self.emit(Event::Stake(Stake { action: Step::Increase, player, owner: player, category, token_id }));
    }

    /// `player` closed a stake.
    pub fn emit_unstake(&mut self, player: AccountId, category: Category, token_id: TokenId)
        requires old(self).wf(),
        ensures
            final(self).wf(),
            final(self)@ == old(self)@.emit(Event::Stake(Stake { action: Step::Close, player, owner: player, category, token_id })),
    {
        self.emit(Event::Stake(Stake { action: Step::Close, player, owner: player, category, token_id }));
    }

    /// `player` lent a card.
    pub fn emit_lend(&mut self, player: AccountId, category: Category, token_id: TokenId)
        requires old(self).wf(),
        ensures
            final(self).wf(),
            final(self)@ == old(self)@.emit(Event::Lend(Lend { action: Step::Open, player, owner: player, category, token_id })),
    {
        self.emit(Event::Lend(Lend { action: Step::Open, player, owner: player, category, token_id }));
    }

    /// `player` withdrew a lending.
    pub fn emit_withdraw(&mut self, player: AccountId, category: Category, token_id: TokenId)
        requires old(self).wf(),
        ensures
            final(self).wf(),
            final(self)@ == old(self)@.emit(Event::Lend(Lend { action: Step::Close, player, owner: player, category, token_id })),
    {
        self.emit(Event::Lend(Lend { action: Step::Close, player, owner: player, category, token_id }));
    }

    /// `player` borrowed against a card.
    pub fn emit_borrow(&mut self, player: AccountId, category: Category, token_id: TokenId)
        requires old(self).wf(),
        ensures
            final(self).wf(),
            final(self)@ == old(self)@.emit(Event::Borrow(Borrow { action: Step::Open, player, owner: player, category, token_id })),
    {
        self.emit(Event::Borrow(Borrow { action: Step::Open, player, owner: player, category, token_id }));
    }

    /// `player` repaid a borrowing.
    pub fn emit_repay(&mut self, player: AccountId, category: Category, token_id: TokenId)
        requires old(self).wf(),
        ensures
            final(self).wf(),
            final(self)@ == old(self)@.emit(Event::Borrow(Borrow { action: Step::Close, player, owner: player, category, token_id })),
    {
        self.emit(Event::Borrow(Borrow { action: Step::Close, player, owner: player, category, token_id }));
    }

    /// The liquidation index moved.
    pub fn emit_index_updated(&mut self, l_index: u64, d_l: u64, deficit: u64, w_total: u64)
        requires old(self).wf(),
        ensures
            final(self).wf(),
            final(self)@ == old(self)@.emit(Event::IdxUpd(IdxUpd { l_index, d_l, deficit, w_total })),
    {
        self.emit(Event::IdxUpd(IdxUpd { l_index, d_l, deficit, w_total }));
    }

    /// A haircut was applied to `player`'s loan.
    pub fn emit_loan_touched(&mut self, player: AccountId, haircut: u32, reserve_left: u32, ownership_lost: bool)
        requires old(self).wf(),
        ensures
            final(self).wf(),
            final(self)@ == old(self)@.emit(Event::LoanTch(LoanTch { player, haircut, reserve_left, ownership_lost })),
    {
        self.emit(Event::LoanTch(LoanTch { player, haircut, reserve_left, ownership_lost }));
    }

    /// `player`'s loan collateral was used up.
    pub fn emit_loan_liquidated(&mut self, player: AccountId)
        requires old(self).wf(),
        ensures
            final(self).wf(),
            final(self)@ == old(self)@.emit(Event::LoanLiq(LoanLiq { player })),
    {
        self.emit(Event::LoanLiq(LoanLiq { player }));
    }

    /// `player` placed a card in the deck.
    pub fn emit_deck_place(&mut self, player: AccountId)
        requires old(self).wf(),
        ensures
            final(self).wf(),
            final(self)@ == old(self)@.emit(Event::Deck(Deck { action: Step::Place, player })),
    {
        self.emit(Event::Deck(Deck { action: Step::Place, player }));
    }

    /// `player` replaced a card of the deck.
    pub fn emit_deck_replace(&mut self, player: AccountId)
        requires old(self).wf(),
        ensures
            final(self).wf(),
            final(self)@ == old(self)@.emit(Event::Deck(Deck { action: Step::Replace, player })),
    {
        self.emit(Event::Deck(Deck { action: Step::Replace, player }));
    }

    /// `player` removed a card from the deck.
    pub fn emit_deck_remove(&mut self, player: AccountId)
        requires old(self).wf(),
        ensures
            final(self).wf(),
            final(self)@ == old(self)@.emit(Event::Deck(Deck { action: Step::Remove, player })),
    {
        self.emit(Event::Deck(Deck { action: Step::Remove, player }));
    }

    /// `player`'s deck is complete.
    pub fn emit_deck_completed(&mut self, player: AccountId)
        requires old(self).wf(),
        ensures
            final(self).wf(),
            final(self)@ == old(self)@.emit(Event::Deck(Deck { action: Step::Complete, player })),
    {
        self.emit(Event::Deck(Deck { action: Step::Complete, player }));
    }

    /// A card was minted to `player`.
    pub fn emit_mint(&mut self, player: AccountId)
        requires old(self).wf(),
        ensures
            final(self).wf(),
            final(self)@ == old(self)@.emit(Event::Mint(Mint { player })),
    {
        self.emit(Event::Mint(Mint { player }));
    }

    /// A card went from `from` to `to`.
    pub fn emit_transfer(&mut self, from: AccountId, to: AccountId)
        requires old(self).wf(),
        ensures
            final(self).wf(),
            final(self)@ == old(self)@.emit(Event::Transfer(Transfer { from, to })),
    {
        self.emit(Event::Transfer(Transfer { from, to }));
    }

    /// `fight` was opened.
    pub fn emit_fight_open(&mut self, fight: &FightRecord)
        requires old(self).wf(),
        ensures
            final(self).wf(),
            final(self)@ == old(self)@.emit(Event::Fight(Fight { action: Step::Open, fight: *fight })),
    {
        self.emit(Event::Fight(Fight { action: Step::Open, fight: *fight }));
    }

    /// `fight` was closed.
    pub fn emit_fight_close(&mut self, fight: &FightRecord)
        requires old(self).wf(),
        ensures
            final(self).wf(),
            final(self)@ == old(self)@.emit(Event::Fight(Fight { action: Step::Close, fight: *fight })),
    {
        self.emit(Event::Fight(Fight { action: Step::Close, fight: *fight }));
    }

    /// The lending pool's state became `state`.
    pub fn emit_state_updated(&mut self, state: &PoolState)
        requires old(self).wf(),
        ensures
            final(self).wf(),
            final(self)@ == old(self)@.emit(Event::State(State { state: *state })),
    {
        self.emit(Event::State(State { state: *state }));
    }
}

} // verus!
