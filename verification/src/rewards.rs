//! Read-only views of rewards: what a player has pending per round, what the pot as it
//! stands would give a player, and the eligible players with their shares and cards.
use vstd::prelude::*;
use crate::types::{
    AccountId, Category, GenericTokenAmount, PendingReward, PendingRewardV, RewardStatus,
    RoundPlayer, TokenId,
};
use crate::error::NFTError;
use crate::ledger::{Ledger, LedgerV};
use crate::contract::NFT;
use crate::opening::{share_rows, sum_effective};
use crate::math::{fits_i128, fits_u32, effective_power_spec, calculate_effective_power, mul_i128, trunc_div};

verus! {

/// The rewards of `rounds` that `player` has pending and not yet claimed, in round order.
pub open spec fn unclaimed_in(pr: Map<RoundPlayer, PendingReward>, player: AccountId, rounds: Seq<u32>) -> Seq<PendingRewardV>
    decreases rounds.len(),
{
    if rounds.len() == 0 {
        Seq::empty()
    } else {
        let rest = unclaimed_in(pr, player, rounds.drop_last());
        let k = RoundPlayer { round: rounds.last(), player };
        if pr.contains_key(k) && pr[k].status != RewardStatus::Claimed {
            rest.push(pr[k]@)
        } else {
            rest
        }
    }
}

/// The amount accumulated for `token`, zero if none.
pub open spec fn acc_amount(acc: Map<AccountId, i128>, token: AccountId) -> int {
    if acc.contains_key(token) {
        acc[token] as int
    } else {
        0
    }
}

/// `effective` out of `total`, in basis points; nothing of an empty total.
pub open spec fn share_of(effective: int, total: int) -> int {
    if total > 0 {
        effective * 10000 / total
    } else {
        0
    }
}

/// For each token of `tokens` with a positive accumulated amount: `share` basis points of it.
pub open spec fn generic_shares(acc: Map<AccountId, i128>, tokens: Seq<AccountId>, share: int) -> Seq<GenericTokenAmount>
    decreases tokens.len(),
{
    if tokens.len() == 0 {
        Seq::empty()
    } else {
        let rest = generic_shares(acc, tokens.drop_last(), share);
        let t = tokens.last();
        if acc_amount(acc, t) > 0 {
            rest.push(GenericTokenAmount { token: t, amount: (acc_amount(acc, t) * share / 10000) as i128 })
        } else {
            rest
        }
    }
}

/// Whether some token of `tokens` with a positive accumulated amount overflows when
/// multiplied by `share`.
pub open spec fn generic_shares_overflow(acc: Map<AccountId, i128>, tokens: Seq<AccountId>, share: int) -> bool {
    exists|i: int| 0 <= i < tokens.len() && acc_amount(acc, #[trigger] tokens[i]) > 0
        && !fits_i128(acc_amount(acc, tokens[i]) * share)
}

/// The effective power of the deck of the player `p` acts for.
pub open spec fn deck_effective(s: LedgerV, p: AccountId) -> int {
    let d = s.deck_view(p);
    effective_power_spec(d.total_power, d.bonus) as int
}

/// The sum of the effective powers of the players' decks.
pub open spec fn players_effective(s: LedgerV, players: Seq<AccountId>) -> int
    decreases players.len(),
{
    if players.len() == 0 {
        0
    } else {
        players_effective(s, players.drop_last()) + deck_effective(s, players.last())
    }
}

/// Whether a card of `p`'s deck has no catalog entry.
pub open spec fn deck_uncatalogued(s: LedgerV, p: AccountId) -> bool {
    let ids = s.deck_view(p).token_ids;
    exists|i: int| 0 <= i < ids.len() && !s.metadata.contains_key((#[trigger] ids[i]).0)
}

/// The first failure met reading the players' decks in order: the running total of
/// effective power leaves 32 bits, or a card of the deck has no catalog entry.
pub open spec fn players_scan_err(s: LedgerV, players: Seq<AccountId>) -> Option<NFTError>
    decreases players.len(),
{
    if players.len() == 0 {
        None
    } else {
        match players_scan_err(s, players.drop_last()) {
            Some(e) => Some(e),
            None => if !fits_u32(players_effective(s, players)) {
                Some(NFTError::Overflow)
            } else if deck_uncatalogued(s, players.last()) {
                Some(NFTError::MetadataMissing)
            } else {
                None
            },
        }
    }
}

/// The cards `ids` of `player`'s deck: their id, the power of `player`'s card (0 without
/// one) and the category of the catalog.
pub open spec fn card_details(s: LedgerV, player: AccountId, ids: Seq<TokenId>) -> Seq<(u32, u32, Category)> {
    Seq::new(ids.len(), |i: int| (
        ids[i].0,
        match s.card(player, ids[i]) {
            Some(c) => c.power,
            None => 0u32,
        },
        s.metadata[ids[i].0].category,
    ))
}

impl LedgerV {
    /// The reward stored for `player` in `round`.
    pub open spec fn pending_of(self, round: u32, player: AccountId) -> Option<PendingRewardV> {
        let k = RoundPlayer { round, player };
        if self.pending_rewards.contains_key(k) {
            Some(self.pending_rewards[k]@)
        } else {
            None
        }
    }

    /// `player`'s share of the pot as it stands, in basis points of the eligible
    /// players' total effective power.
    pub open spec fn player_share(self, player: AccountId) -> int {
        share_of(deck_effective(self, player), sum_effective(share_rows(self, self.eligible_players())))
    }

    /// Whether `player`'s potential reward overflows.
    pub open spec fn potential_overflows(self, player: AccountId, now: u64) -> bool {
        let share = self.player_share(player);
        let pot = self.pot(now);
        generic_shares_overflow(self.accumulated_by_token, self.registered_tokens, share)
            || !fits_i128(pot.accumulated_terry * share)
            || !fits_i128(pot.accumulated_xtar * share)
    }

    /// What the pot as it stands would give `player` if the round opened now.
    pub open spec fn potential_reward(self, player: AccountId, now: u64) -> PendingRewardV {
        let share = self.player_share(player);
        let pot = self.pot(now);
        PendingRewardV {
            round_number: self.current_round,
            terry_amount: trunc_div(pot.accumulated_terry * share, 10000) as i128,
            power_amount: (pot.accumulated_power * share / 10000) as u32,
            xtar_amount: trunc_div(pot.accumulated_xtar * share, 10000) as i128,
            generic_tokens: generic_shares(self.accumulated_by_token, self.registered_tokens, share),
            status: RewardStatus::Pending,
        }
    }

    /// Why the eligible players' shares cannot be listed: the scan of their decks fails,
    /// or a share does not fit when scaled to basis points.
    pub open spec fn with_shares_err(self) -> Option<NFTError> {
        let ps = self.eligible_players();
        match players_scan_err(self, ps) {
            Some(e) => Some(e),
            None => if players_effective(self, ps) > 0 && exists|i: int|
                0 <= i < ps.len() && deck_effective(self, #[trigger] ps[i]) * 10000 > u32::MAX {
                Some(NFTError::Overflow)
            } else {
                None
            },
        }
    }

    /// One listed row for player `p` out of the total effective power `total`: the player,
    /// its level, its deck's POWER, its share in basis points, its cards and its bonus.
    pub open spec fn share_row_ok(self, p: AccountId, total: int, row: (AccountId, u32, u32, u32, Vec<(u32, u32, Category)>, u32)) -> bool {
        let d = self.deck_view(p);
        &&& row.0 == p
        &&& row.1 == self.user(p).level
        &&& row.2 == d.total_power
        &&& row.3 as int == share_of(deck_effective(self, p), total)
        &&& row.4@ == card_details(self, p, d.token_ids)
        &&& row.5 == d.bonus
    }
}

proof fn lemma_scan_err_extends(s: LedgerV, ps: Seq<AccountId>, i: int)
    requires
        0 <= i <= ps.len(),
        players_scan_err(s, ps.subrange(0, i)) is Some,
    ensures
        players_scan_err(s, ps) == players_scan_err(s, ps.subrange(0, i)),
    decreases ps.len() - i,
{
    if i == ps.len() {
        assert(ps.subrange(0, i) =~= ps);
    } else {
        assert(ps.subrange(0, i + 1).drop_last() =~= ps.subrange(0, i));
        lemma_scan_err_extends(s, ps, i + 1);
    }
}

proof fn lemma_generic_overflow_prefix(acc: Map<AccountId, i128>, tokens: Seq<AccountId>, share: int, i: int)
    requires
        0 <= i < tokens.len(),
        acc_amount(acc, tokens[i]) > 0,
        !fits_i128(acc_amount(acc, tokens[i]) * share),
    ensures
        generic_shares_overflow(acc, tokens, share),
{
}

impl Ledger {
    /// The reward stored for `player` in `round`, if any.
    pub fn read_pending_reward(&self, round: u32, player: AccountId) -> (r: Option<PendingReward>)
        requires
            self.wf(),
        ensures
            match r {
                Some(x) => self@.pending_of(round, player) == Some(x@),
                None => self@.pending_of(round, player) is None,
            },
    {
        match self.pending_rewards.get(&RoundPlayer { round, player }) {
            Some(x) => Some(x.copy()),
            None => None,
        }
    }

    /// Stores `reward` as `player`'s reward for `round`.
    pub fn write_pending_reward(&mut self, round: u32, player: AccountId, reward: PendingReward)
        requires
            old(self).wf(),
        ensures
            final(self).wf(),
            final(self)@ == (LedgerV {
                pending_rewards: old(self)@.pending_rewards.insert(RoundPlayer { round, player }, reward),
                ..old(self)@
            }),
    {
        self.pending_rewards.insert(RoundPlayer { round, player }, reward);
    }

    /// The total effective power of the eligible players' decks.
    fn eligible_total(&self) -> (r: u128)
        requires
            self.wf(),
        ensures
            r == sum_effective(share_rows(self@, self@.eligible_players())),
    {
        let players = self.get_eligible_players();
        let rows = self.share_rows_of(&players);
        let mut sum: u128 = 0;
        let mut i: usize = 0;
        while i < rows.len()
            invariant
                i <= rows@.len(),
                sum == sum_effective(rows@.subrange(0, i as int)),
                sum <= i * (u32::MAX as int),
            decreases rows@.len() - i,
        {
            proof {
                assert(rows@.subrange(0, i + 1).drop_last() =~= rows@.subrange(0, i as int));
            }
            sum = sum + rows[i].1 as u128;
            i = i + 1;
        }
        proof {
            assert(rows@.subrange(0, rows@.len() as int) =~= rows@);
        }
        sum
    }

    /// `share` basis points of each registered token's positive accumulated amount.
    fn generic_rewards(&self, share: i128) -> (r: Result<Vec<GenericTokenAmount>, NFTError>)
        requires
            self.wf(),
            share >= 0,
        ensures
            match r {
                Ok(v) => !generic_shares_overflow(self@.accumulated_by_token, self@.registered_tokens, share as int)
                    && v@ == generic_shares(self@.accumulated_by_token, self@.registered_tokens, share as int),
                Err(e) => generic_shares_overflow(self@.accumulated_by_token, self@.registered_tokens, share as int)
                    && e == NFTError::Overflow,
            },
    {
        let tokens = self.read_registered_tokens();
        let ghost acc = self@.accumulated_by_token;
        let mut out: Vec<GenericTokenAmount> = Vec::new();
        let mut i: usize = 0;
        while i < tokens.len()
            invariant
                self.wf(),
                acc == self@.accumulated_by_token,
                tokens@ == self@.registered_tokens,
                share >= 0,
                i <= tokens@.len(),
                out@ == generic_shares(acc, tokens@.subrange(0, i as int), share as int),
                forall|j: int| 0 <= j < i ==> !(acc_amount(acc, #[trigger] tokens@[j]) > 0
                    && !fits_i128(acc_amount(acc, tokens@[j]) * share)),
            decreases tokens@.len() - i,
        {
            let t = tokens[i];
            proof {
                assert(tokens@.subrange(0, i + 1).drop_last() =~= tokens@.subrange(0, i as int));
                assert(tokens@.subrange(0, i + 1).last() == t);
            }
            let amt: i128 = self.read_accumulated_by_token(&t);
            if amt > 0 {
                let prod: i128 = match mul_i128(amt, share) {
                    Ok(v) => v,
                    Err(e) => {
                        proof {
                            lemma_generic_overflow_prefix(acc, tokens@, share as int, i as int);
                        }
                        return Err(e);
                    },
                };
                out.push(GenericTokenAmount { token: t, amount: prod / 10000 });
            }
            i = i + 1;
        }
        proof {
            assert(tokens@.subrange(0, tokens@.len() as int) =~= tokens@);
        }
        Ok(out)
    }

    /// The sum of the effective powers of `players`' decks, checked to fit in 32 bits at
    /// each step, and their cards checked to be in the catalog.
    #[verifier::loop_isolation(false)]
    fn scan_players(&self, players: &Vec<AccountId>) -> (r: Result<u32, NFTError>)
        requires
            self.wf(),
        ensures
            match r {
                Ok(t) => players_scan_err(self@, players@) is None && t == players_effective(self@, players@),
                Err(e) => players_scan_err(self@, players@) == Some(e),
            },
    {
        let mut total: u32 = 0;
        let mut i: usize = 0;
        while i < players.len()
            invariant
                self.wf(),
                i <= players@.len(),
                players_scan_err(self@, players@.subrange(0, i as int)) is None,
                total == players_effective(self@, players@.subrange(0, i as int)),
            decreases players@.len() - i,
        {
            let p = players[i];
            proof {
                assert(players@.subrange(0, i + 1).drop_last() =~= players@.subrange(0, i as int));
                assert(players@.subrange(0, i + 1).last() == p);
            }
            let deck = self.read_deck(p);
            let eff: u32 = calculate_effective_power(deck.total_power, deck.bonus);
            let t: u64 = total as u64 + eff as u64;
            if t > u32::MAX as u64 {
                proof {
                    lemma_scan_err_extends(self@, players@, i + 1);
                }
                return Err(NFTError::Overflow);
            }
            let mut k: usize = 0;
            while k < deck.token_ids.len()
                invariant
                    self.wf(),
                    deck@ == self@.deck_view(p),
                    k <= deck@.token_ids.len(),
                    forall|j: int| 0 <= j < k ==> self@.metadata.contains_key((#[trigger] deck@.token_ids[j]).0),
                decreases deck@.token_ids.len() - k,
            {
                let tid = deck.token_ids[k];
                if self.read_metadata(tid.0).is_err() {
                    proof {
                        assert(deck_uncatalogued(self@, p));
                        lemma_scan_err_extends(self@, players@, i + 1);
                    }
                    return Err(NFTError::MetadataMissing);
                }
                k = k + 1;
            }
            total = t as u32;
            i = i + 1;
        }
        proof {
            assert(players@.subrange(0, players@.len() as int) =~= players@);
        }
        Ok(total)
    }

    /// The cards `ids` of `player`'s deck, with their power and category.
    fn card_details_of(&self, player: AccountId, ids: &Vec<TokenId>) -> (r: Vec<(u32, u32, Category)>)
        requires
            self.wf(),
            forall|j: int| 0 <= j < ids@.len() ==> self@.metadata.contains_key((#[trigger] ids@[j]).0),
        ensures
            r@ == card_details(self@, player, ids@),
    {
        let mut out: Vec<(u32, u32, Category)> = Vec::new();
        let mut k: usize = 0;
        while k < ids.len()
            invariant
                self.wf(),
                forall|j: int| 0 <= j < ids@.len() ==> self@.metadata.contains_key((#[trigger] ids@[j]).0),
                k <= ids@.len(),
                out@ == card_details(self@, player, ids@).subrange(0, k as int),
            decreases ids@.len() - k,
        {
            let tid = ids[k];
            let power: u32 = match self.read_nft(&player, &tid) {
                Some(c) => c.power,
                None => 0,
            };
            let category = match self.read_metadata(tid.0) {
                Ok(m) => m.category,
                Err(_) => {
                    proof {
                        assert(self@.metadata.contains_key(ids@[k as int].0));
                    }
                    Category::Resource
                },
            };
            out.push((tid.0, power, category));
            k = k + 1;
            proof {
                assert(out@ =~= card_details(self@, player, ids@).subrange(0, k as int));
            }
        }
        proof {
            assert(card_details(self@, player, ids@).subrange(0, ids@.len() as int) =~= card_details(self@, player, ids@));
        }
        out
    }

    /// The eligible players with their level, their deck's POWER, their share of the total
    /// effective power in basis points, their cards and their bonus; refused as
    /// `with_shares_err` says.
    pub fn get_eligible_players_with_shares(&self) -> (r: Result<Vec<(AccountId, u32, u32, u32, Vec<(u32, u32, Category)>, u32)>, NFTError>)
        requires
            self.wf(),
        ensures
            match r {
                Ok(rows) => self@.with_shares_err() is None
                    && rows@.len() == self@.eligible_players().len()
                    && forall|i: int| 0 <= i < rows@.len() ==> self@.share_row_ok(
                        self@.eligible_players()[i],
                        players_effective(self@, self@.eligible_players()),
                        #[trigger] rows@[i],
                    ),
                Err(e) => self@.with_shares_err() == Some(e),
            },
    {
        let players = self.get_eligible_players();
        let total: u32 = self.scan_players(&players)?;
        if total > 0 {
            let mut k: usize = 0;
            while k < players.len()
                invariant
                    self.wf(),
                    players@ == self@.eligible_players(),
                    players_scan_err(self@, players@) is None,
                    total == players_effective(self@, players@),
                    total > 0,
                    k <= players@.len(),
                    forall|j: int| 0 <= j < k ==> deck_effective(self@, #[trigger] players@[j]) * 10000 <= u32::MAX,
                decreases players@.len() - k,
            {
                let deck = self.read_deck(players[k]);
                let eff: u32 = calculate_effective_power(deck.total_power, deck.bonus);
                if eff > u32::MAX / 10000 {
                    proof {
                        assert(deck_effective(self@, players@[k as int]) * 10000 > u32::MAX);
                    }
                    return Err(NFTError::Overflow);
                }
                k = k + 1;
            }
        }
        let mut out: Vec<(AccountId, u32, u32, u32, Vec<(u32, u32, Category)>, u32)> = Vec::new();
        let mut i: usize = 0;
        while i < players.len()
            invariant
                self.wf(),
                players@ == self@.eligible_players(),
                players_scan_err(self@, players@) is None,
                total == players_effective(self@, players@),
                total > 0 ==> forall|j: int| 0 <= j < players@.len() ==> deck_effective(self@, #[trigger] players@[j]) * 10000 <= u32::MAX,
                i <= players@.len(),
                out@.len() == i,
                forall|j: int| 0 <= j < i ==> self@.share_row_ok(players@[j], total as int, #[trigger] out@[j]),
            decreases players@.len() - i,
        {
            let p = players[i];
            let deck = self.read_deck(p);
            let user = self.read_user(&p);
            let eff: u32 = calculate_effective_power(deck.total_power, deck.bonus);
            proof {
                if deck_uncatalogued(self@, p) {
                    assert(players@.subrange(0, i + 1).drop_last() =~= players@.subrange(0, i as int));
                    assert(players@.subrange(0, i + 1).last() == p);
                    lemma_uncatalogued_fails(self@, players@, i as int);
                }
            }
            let details = self.card_details_of(p, &deck.token_ids);
            let share: u32 = if total > 0 {
                proof {
                    assert(deck_effective(self@, players@[i as int]) * 10000 <= u32::MAX);
                }
                (eff * 10000) / total
            } else {
                0
            };
            out.push((p, user.level, deck.total_power, share, details, deck.bonus));
            proof {
                assert(out@[i as int].4@ == card_details(self@, p, self@.deck_view(p).token_ids));
                assert(self@.share_row_ok(players@[i as int], total as int, out@[i as int]));
            }
            i = i + 1;
        }
        Ok(out)
    }
}

/// A player whose deck has a card without a catalog entry makes the scan of any list
/// holding it fail.
proof fn lemma_uncatalogued_fails(s: LedgerV, ps: Seq<AccountId>, i: int)
    requires
        0 <= i < ps.len(),
        deck_uncatalogued(s, ps[i]),
    ensures
        players_scan_err(s, ps) is Some,
{
    let pre = ps.subrange(0, i + 1);
    assert(pre.drop_last() =~= ps.subrange(0, i));
    assert(pre.last() == ps[i]);
    assert(players_scan_err(s, pre) is Some);
    lemma_scan_err_extends(s, ps, i + 1);
}

impl NFT {
    /// The rewards `player` has pending and not yet claimed, over the opened rounds in order.
    pub fn get_pending_rewards(&self, player: AccountId) -> (r: Vec<PendingReward>)
        requires
            self.wf(),
        ensures
            r@.map_values(|x: PendingReward| x@) == unclaimed_in(
                self.ledger@.pending_rewards,
                player,
                self.ledger@.rounds.all_spec(self.ledger@.pages_only),
            ),
    {
        let rounds = self.ledger.get_all_rounds();
        let ghost pr = self.ledger@.pending_rewards;
        let mut pending: Vec<PendingReward> = Vec::new();
        let mut i: usize = 0;
        while i < rounds.len()
            invariant
                self.wf(),
                pr == self.ledger@.pending_rewards,
                i <= rounds@.len(),
                pending@.map_values(|x: PendingReward| x@) == unclaimed_in(pr, player, rounds@.subrange(0, i as int)),
            decreases rounds@.len() - i,
        {
            let round = rounds[i];
            proof {
                assert(rounds@.subrange(0, i + 1).drop_last() =~= rounds@.subrange(0, i as int));
                assert(rounds@.subrange(0, i + 1).last() == round);
            }
            let ghost before = pending@;
            match self.ledger.read_pending_reward(round, player) {
                Some(reward) => {
                    if reward.status != RewardStatus::Claimed {
                        pending.push(reward);
                        proof {
                            assert(pending@.map_values(|x: PendingReward| x@) =~= before.map_values(|x: PendingReward| x@).push(reward@));
                        }
                    }
                },
                None => {},
            }
            i = i + 1;
        }
        proof {
            assert(rounds@.subrange(0, rounds@.len() as int) =~= rounds@);
        }
        pending
    }

    /// What the pot as it stands at `now` would give `player` if the round opened now: its
    /// deck's share of the eligible players' total effective power, applied to each asset;
    /// `Overflow` where an amount does not fit.
    pub fn get_player_potential_reward(&self, player: AccountId, now: u64) -> (r: Result<PendingReward, NFTError>)
        requires
            self.wf(),
        ensures
            match r {
                Ok(x) => !self.ledger@.potential_overflows(player, now) && x@ == self.ledger@.potential_reward(player, now),
                Err(e) => self.ledger@.potential_overflows(player, now) && e == NFTError::Overflow,
            },
    {
        let current_round = self.ledger.get_current_round();
        let balance = self.ledger.read_pot_balance(now);
        let deck = self.ledger.read_deck(player);
        let total: u128 = self.ledger.eligible_total();
        let effective: u128 = calculate_effective_power(deck.total_power, deck.bonus) as u128;
        let share: u128 = if total > 0 { (effective * 10000) / total } else { 0 };
        proof {
            assert(share == self.ledger@.player_share(player));
            if total > 0 {
                let e: int = effective as int * 10000;
                let t: int = total as int;
                assert(e / t <= e) by (nonlinear_arith)
                    requires
                        e >= 0,
                        t >= 1,
                ;
            }
        }
        let share_i: i128 = share as i128;
        let generic_tokens = match self.ledger.generic_rewards(share_i) {
            Ok(v) => v,
            Err(e) => return Err(e),
        };
        let terry: i128 = match mul_i128(balance.accumulated_terry, share_i) {
            Ok(v) => v,
            Err(e) => return Err(e),
        };
        let xtar: i128 = match mul_i128(balance.accumulated_xtar, share_i) {
            Ok(v) => v,
            Err(e) => return Err(e),
        };
        proof {
            let pw: int = balance.accumulated_power as int;
            let sh: int = share as int;
            assert(pw * sh <= (u32::MAX as int) * (u32::MAX as int * 10000)) by (nonlinear_arith)
                requires
                    0 <= pw <= u32::MAX,
                    0 <= sh <= u32::MAX * 10000,
            ;
        }
        let power: u128 = balance.accumulated_power as u128 * share / 10000;
        Ok(PendingReward {
            round_number: current_round,
            terry_amount: terry / 10000,
            power_amount: power as u32,
            xtar_amount: xtar / 10000,
            generic_tokens,
            status: RewardStatus::Pending,
        })
    }

    /// The eligible players with their shares and cards (see
    /// `Ledger::get_eligible_players_with_shares`).
    pub fn get_eligible_players_with_shares(&self) -> (r: Result<Vec<(AccountId, u32, u32, u32, Vec<(u32, u32, Category)>, u32)>, NFTError>)
        requires
            self.wf(),
        ensures
            match r {
                Ok(rows) => self.ledger@.with_shares_err() is None
                    && rows@.len() == self.ledger@.eligible_players().len()
                    && forall|i: int| 0 <= i < rows@.len() ==> self.ledger@.share_row_ok(
                        self.ledger@.eligible_players()[i],
                        players_effective(self.ledger@, self.ledger@.eligible_players()),
                        #[trigger] rows@[i],
                    ),
                Err(e) => self.ledger@.with_shares_err() == Some(e),
            },
    {
        self.ledger.get_eligible_players_with_shares()
    }
}

} // verus!
