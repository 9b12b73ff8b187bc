//! Opening a round of the pot: the players with a complete deck share it by
//! effective power, in basis points, and their shares become claimable.
use vstd::prelude::*;
use crate::types::{AccountId, DeckKey, PlayerReward, RoundPlayer};
use crate::error::NFTError;
use crate::event::{Event, ShareCal};
use crate::ledger::{Ledger, LedgerV};
use crate::paged::PAGE_SIZE_DECKS;
use crate::math::{fits_u32, effective_power_spec, calculate_effective_power};

verus! {

/// The owners of the complete decks among those the keys `keys` name, in order.
pub open spec fn eligible_in(s: LedgerV, keys: Seq<DeckKey>) -> Seq<AccountId>
    decreases keys.len(),
{
    if keys.len() == 0 {
        Seq::empty()
    } else {
        let rest = eligible_in(s, keys.drop_last());
        let d = s.deck_of(s.owner_of(keys.last().owner));
        if d.token_ids.len() == 4 {
            rest.push(d.owner)
        } else {
            rest
        }
    }
}

/// The eligible players found reading the deck index page by page from `cursor`, until
/// `total` or an empty page.
pub open spec fn eligible_scan(s: LedgerV, cursor: u32, total: u32) -> Seq<AccountId>
    decreases total - cursor,
{
    if cursor >= total {
        Seq::empty()
    } else {
        let page = s.decks.page_spec(cursor, PAGE_SIZE_DECKS, s.pages_only);
        if page.len() == 0 {
            Seq::empty()
        } else if cursor + PAGE_SIZE_DECKS > u32::MAX || cursor + PAGE_SIZE_DECKS >= total {
            eligible_in(s, page)
        } else {
            eligible_in(s, page) + eligible_scan(s, (cursor + PAGE_SIZE_DECKS) as u32, total)
        }
    }
}

/// For each player with a complete deck: the player, the deck's effective power, its bonus
/// and its number of categories.
pub open spec fn share_rows(s: LedgerV, players: Seq<AccountId>) -> Seq<(AccountId, u32, u32, u32)>
    decreases players.len(),
{
    if players.len() == 0 {
        Seq::empty()
    } else {
        let rest = share_rows(s, players.drop_last());
        let p = players.last();
        let d = s.deck_of(s.owner_of(p));
        if d.token_ids.len() == 4 {
            rest.push((p, effective_power_spec(d.total_power, d.bonus), d.bonus, d.deck_categories))
        } else {
            rest
        }
    }
}

/// The sum of the effective powers of `rows`.
pub open spec fn sum_effective(rows: Seq<(AccountId, u32, u32, u32)>) -> int
    decreases rows.len(),
{
    if rows.len() == 0 {
        0
    } else {
        sum_effective(rows.drop_last()) + rows.last().1
    }
}

/// Whether every row's effective power can be scaled to basis points in 32 bits.
pub open spec fn rows_scale(rows: Seq<(AccountId, u32, u32, u32)>) -> bool {
    forall|i: int| 0 <= i < rows.len() ==> (#[trigger] rows[i]).1 * 10000 <= u32::MAX
}

/// A row's reward in `round`: its share of `total` in basis points.
pub open spec fn reward_of(row: (AccountId, u32, u32, u32), total: u32, round: u32) -> PlayerReward {
    PlayerReward {
        share_percentage: if total > 0 { ((row.1 * 10000) / (total as int)) as u32 } else { 0 },
        effective_power: row.1,
        round_number: round,
        deck_bonus: row.2,
        deck_categories: row.3,
    }
}

/// The rewards map after each row's reward is written, in order.
pub open spec fn rewards_fold(pr: Map<RoundPlayer, PlayerReward>, rows: Seq<(AccountId, u32, u32, u32)>, total: u32, round: u32) -> Map<RoundPlayer, PlayerReward>
    decreases rows.len(),
{
    if rows.len() == 0 {
        pr
    } else {
        rewards_fold(pr, rows.drop_last(), total, round).insert(
            RoundPlayer { round, player: rows.last().0 },
            reward_of(rows.last(), total, round),
        )
    }
}

/// The events published for the rows' shares, in order.
pub open spec fn share_events(rows: Seq<(AccountId, u32, u32, u32)>, total: u32, round: u32) -> Seq<Event>
    decreases rows.len(),
{
    if rows.len() == 0 {
        Seq::empty()
    } else {
        let r = reward_of(rows.last(), total, round);
        share_events(rows.drop_last(), total, round).push(Event::ShareCal(ShareCal {
            player: rows.last().0,
            round_number: r.round_number,
            share_percentage: r.share_percentage,
            effective_power: r.effective_power,
            deck_bonus: r.deck_bonus,
            deck_categories: r.deck_categories,
        }))
    }
}

impl LedgerV {
    /// The players with a complete deck, as the deck index lists them.
    pub open spec fn eligible_players(self) -> Seq<AccountId> {
        eligible_scan(self, 0, self.decks.count_spec(self.pages_only) as u32)
    }

    /// The rows of the eligible players' shares.
    pub open spec fn eligible_rows(self) -> Seq<(AccountId, u32, u32, u32)> {
        share_rows(self, self.eligible_players())
    }

    /// Why the shares cannot be computed: the total effective power, or a share scaled to
    /// basis points, overflows.
    pub open spec fn shares_err(self) -> Option<NFTError> {
        let rows = self.eligible_rows();
        if !fits_u32(sum_effective(rows)) || (sum_effective(rows) > 0 && !rows_scale(rows)) {
            Some(NFTError::Overflow)
        } else {
            None
        }
    }

    /// The ledger after the shares `rows` of `round` are recorded: each row's reward is
    /// written and published, and an existing snapshot of the round records the number of
    /// participants and the total effective power.
    pub open spec fn shares_apply(self, rows: Seq<(AccountId, u32, u32, u32)>, round: u32) -> LedgerV {
        let total = sum_effective(rows) as u32;
        LedgerV {
            player_rewards: rewards_fold(self.player_rewards, rows, total, round),
            events: self.events + share_events(rows, total, round),
            snapshots: if self.snapshots.contains_key(round) {
                self.snapshots.insert(round, crate::types::PotSnapshotV {
                    total_participants: rows.len() as u32,
                    total_effective_power: total,
                    ..self.snapshots[round]
                })
            } else {
                self.snapshots
            },
            ..self
        }
    }

    /// The ledger after the shares of `round` are computed for the eligible players.
    pub open spec fn shares_post(self, round: u32) -> LedgerV {
        self.shares_apply(self.eligible_rows(), round)
    }
}

} // verus!

verus! {

impl Ledger {
    /// The owners of the complete decks among those `keys` name, in order.
    fn eligible_of_keys(&self, keys: &Vec<DeckKey>) -> (r: Vec<AccountId>)
        requires
            self.wf(),
        ensures
            r@ == eligible_in(self@, keys@),
    {
        let mut out: Vec<AccountId> = Vec::new();
        let mut j: usize = 0;
        while j < keys.len()
            invariant
                self.wf(),
                j <= keys@.len(),
                out@ == eligible_in(self@, keys@.subrange(0, j as int)),
            decreases keys@.len() - j,
        {
            let key = keys[j];
            proof {
                assert(keys@.subrange(0, j + 1).drop_last() =~= keys@.subrange(0, j as int));
                assert(keys@.subrange(0, j + 1).last() == key);
            }
            let deck = self.read_deck(key.owner);
            if deck.token_ids.len() == 4 {
                out.push(deck.owner);
            }
            j = j + 1;
        }
        proof {
            assert(keys@.subrange(0, keys@.len() as int) =~= keys@);
        }
        out
    }

    /// The players with a complete deck, reading the deck index page by page.
    pub fn get_eligible_players(&self) -> (r: Vec<AccountId>)
        requires
            self.wf(),
        ensures
            r@ == self@.eligible_players(),
    {
        let total: u32 = self.read_decks_count();
        let mut out: Vec<AccountId> = Vec::new();
        let mut cursor: u32 = 0;
        let mut done: bool = false;
        while !done && cursor < total
            invariant
                self.wf(),
                total == self@.decks.count_spec(self@.pages_only),
                out@ + (if done { Seq::<AccountId>::empty() } else { eligible_scan(self@, cursor, total) })
                    == eligible_scan(self@, 0, total),
            decreases (if cursor <= total { total - cursor } else { 0int }) + (if done { 0int } else { 1int }),
        {
            let page = self.read_decks_page(cursor, PAGE_SIZE_DECKS);
            if page.len() == 0 {
                done = true;
                proof {
                    assert(out@ + Seq::<AccountId>::empty() =~= out@);
                }
            } else {
                let mut part = self.eligible_of_keys(&page);
                let ghost before = out@;
                out.append(&mut part);
                if cursor > u32::MAX - PAGE_SIZE_DECKS || cursor + PAGE_SIZE_DECKS >= total {
                    done = true;
                    proof {
                        assert(out@ + Seq::<AccountId>::empty() =~= before + eligible_in(self@, page@));
                    }
                } else {
                    proof {
                        assert(before + (eligible_in(self@, page@) + eligible_scan(self@, (cursor + PAGE_SIZE_DECKS) as u32, total))
                            =~= out@ + eligible_scan(self@, (cursor + PAGE_SIZE_DECKS) as u32, total));
                    }
                    cursor = cursor + PAGE_SIZE_DECKS;
                }
            }
        }
        proof {
            if !done {
                assert(out@ + Seq::<AccountId>::empty() =~= out@);
            }
        }
        out
    }

    pub fn get_eligible_players_count(&self) -> (n: u32)
        requires
            self.wf(),
        ensures
            n == self@.decks.count_spec(self@.pages_only),
    {
        self.read_decks_count()
    }

    /// The eligible players among one page of the deck index.
    pub fn get_eligible_players_page(&self, cursor: u32, limit: u32) -> (r: Vec<AccountId>)
        requires
            self.wf(),
        ensures
            r@ == eligible_in(self@, self@.decks.page_spec(cursor, limit, self@.pages_only)),
    {
        let page = self.read_decks_page(cursor, limit);
        self.eligible_of_keys(&page)
    }

    /// The share rows of `players` (see `share_rows`).
    pub(crate) fn share_rows_of(&self, players: &Vec<AccountId>) -> (r: Vec<(AccountId, u32, u32, u32)>)
        requires
            self.wf(),
        ensures
            r@ == share_rows(self@, players@),
    {
        let mut rows: Vec<(AccountId, u32, u32, u32)> = Vec::new();
        let mut i: usize = 0;
        while i < players.len()
            invariant
                self.wf(),
                i <= players@.len(),
                rows@ == share_rows(self@, players@.subrange(0, i as int)),
            decreases players@.len() - i,
        {
            let p = players[i];
            proof {
                assert(players@.subrange(0, i + 1).drop_last() =~= players@.subrange(0, i as int));
                assert(players@.subrange(0, i + 1).last() == p);
            }
            let deck = self.read_deck(p);
            if deck.token_ids.len() == 4 {
                let eff: u32 = calculate_effective_power(deck.total_power, deck.bonus);
                rows.push((p, eff, deck.bonus, deck.deck_categories));
            }
            i = i + 1;
        }
        proof {
            assert(players@.subrange(0, players@.len() as int) =~= players@);
        }
        rows
    }

    /// The total effective power of `rows`, checked to fit and to allow every share to
    /// be scaled to basis points.
    pub(crate) fn rows_total(rows: &Vec<(AccountId, u32, u32, u32)>) -> (r: Result<u32, NFTError>)
        ensures
            match r {
                Ok(t) => fits_u32(sum_effective(rows@)) && t == sum_effective(rows@)
                    && (sum_effective(rows@) > 0 ==> rows_scale(rows@)),
                Err(e) => e == NFTError::Overflow
                    && (!fits_u32(sum_effective(rows@)) || (sum_effective(rows@) > 0 && !rows_scale(rows@))),
            },
    {
        let mut sum: u128 = 0;
        let mut i: usize = 0;
        while i < rows.len()
            invariant
                i <= rows@.len(),
                sum == sum_effective(rows@.subrange(0, i as int)),
                sum <= i * (u32::MAX as int),
            decreases rows@.len() - i,
        {
            proof {
                assert(rows@.subrange(0, i + 1).drop_last() =~= rows@.subrange(0, i as int));
            }
            sum = sum + rows[i].1 as u128;
            i = i + 1;
        }
        proof {
            assert(rows@.subrange(0, rows@.len() as int) =~= rows@);
        }
        if sum > u32::MAX as u128 {
            return Err(NFTError::Overflow);
        }
        if sum > 0 {
            let mut k: usize = 0;
            while k < rows.len()
                invariant
                    k <= rows@.len(),
                    sum == sum_effective(rows@),
                    sum > 0,
                    sum <= u32::MAX,
                    forall|j: int| 0 <= j < k ==> (#[trigger] rows@[j]).1 * 10000 <= u32::MAX,
                decreases rows@.len() - k,
            {
                if rows[k].1 > u32::MAX / 10000 {
                    proof {
                        assert(rows@[k as int].1 * 10000 > u32::MAX);
                        assert(!rows_scale(rows@));
                    }
                    return Err(NFTError::Overflow);
                }
                k = k + 1;
            }
        }
        Ok(sum as u32)
    }

    /// Records the shares `rows` of `round` (see `shares_apply`).
    pub(crate) fn apply_shares(&mut self, rows: &Vec<(AccountId, u32, u32, u32)>, total: u32, round: u32)
        requires
            old(self).wf(),
            total == sum_effective(rows@),
            total > 0 ==> rows_scale(rows@),
        ensures
            final(self).wf(),
            final(self)@ == old(self)@.shares_apply(rows@, round),
    {
        let ghost s0 = self@;
        let mut i: usize = 0;
        while i < rows.len()
            invariant
                self.wf(),
                i <= rows@.len(),
                total == sum_effective(rows@),
                total > 0 ==> rows_scale(rows@),
                self@ == (LedgerV {
                    player_rewards: rewards_fold(s0.player_rewards, rows@.subrange(0, i as int), total, round),
                    events: s0.events + share_events(rows@.subrange(0, i as int), total, round),
                    ..s0
                }),
            decreases rows@.len() - i,
        {
            let row = rows[i];
            proof {
                assert(rows@.subrange(0, i + 1).drop_last() =~= rows@.subrange(0, i as int));
                assert(rows@.subrange(0, i + 1).last() == row);
                assert(rows@[i as int] == row);
            }
            let share: u32 = if total > 0 { (row.1 * 10000) / total } else { 0 };
            let reward = PlayerReward {
                share_percentage: share,
                effective_power: row.1,
                round_number: round,
                deck_bonus: row.2,
                deck_categories: row.3,
            };
            self.write_player_reward(round, row.0, reward);
            self.emit_share_calculated(row.0, &reward);
            i = i + 1;
            proof {
                assert(self@.events =~= s0.events + share_events(rows@.subrange(0, i as int), total, round));
            }
        }
        proof {
            assert(rows@.subrange(0, rows@.len() as int) =~= rows@);
        }
        let n: u32 = rows.len() as u32;
        match self.snapshots.get(&round) {
            Some(snap) => {
                let mut s2 = snap.copy();
                s2.total_participants = n;
                s2.total_effective_power = total;
                let ghost v = s2@;
                let ghost before = self.snapshots@;
                self.snapshots.insert(round, s2);
                proof {
                    assert(self.snapshots@.map_values(|s: crate::types::PotSnapshot| s@) =~= before.map_values(
                        |s: crate::types::PotSnapshot| s@,
                    ).insert(round, v));
                }
            },
            None => {},
        }
        proof {
            assert(self@ =~= s0.shares_apply(rows@, round));
        }
    }

    /// Computes and records the shares of `round` (see `shares_post`).
    pub fn calculate_player_shares(&mut self, round: u32) -> (r: Result<(), NFTError>)
        requires
            old(self).wf(),
        ensures
            final(self).wf(),
            match r {
                Ok(()) => old(self)@.shares_err() is None && final(self)@ == old(self)@.shares_post(round),
                Err(e) => old(self)@.shares_err() == Some(e) && final(self)@ == old(self)@,
            },
    {
        let players = self.get_eligible_players();
        let rows = self.share_rows_of(&players);
        let total: u32 = Self::rows_total(&rows)?;
        self.apply_shares(&rows, total, round);
        Ok(())
    }
}

} // verus!

verus! {

use crate::types::{UserClaimableBalance, UserToken, GenericTokenAmount, PotSnapshot, PotSnapshotV, PotBalance, ContractVault};
use crate::vec_map::VecMap;
use crate::math::{fits_i128, trunc_div, add_i128, add_u32, mul_i128, mul_u32};

/// A player's claimable balance as stored, else zero.
pub open spec fn claimable_in(uc: Map<AccountId, UserClaimableBalance>, a: AccountId) -> UserClaimableBalance {
    if uc.contains_key(a) {
        uc[a]
    } else {
        UserClaimableBalance::zero()
    }
}

/// A player's claimable amount of a generic token, else zero.
pub open spec fn generic_in(ug: Map<UserToken, i128>, k: UserToken) -> i128 {
    if ug.contains_key(k) {
        ug[k]
    } else {
        0
    }
}

/// `owner`'s generic-token claimables after their share (basis points) of each amount
/// of `gts` is credited, in order; a share that rounds to zero is skipped.
pub open spec fn credit_generics(ug: Map<UserToken, i128>, owner: AccountId, share: u32, gts: Seq<GenericTokenAmount>) -> Result<Map<UserToken, i128>, NFTError>
    decreases gts.len(),
{
    if gts.len() == 0 {
        Ok(ug)
    } else {
        match credit_generics(ug, owner, share, gts.drop_last()) {
            Err(e) => Err(e),
            Ok(ug1) => {
                let g = gts.last();
                if !fits_i128(g.amount * share) {
                    Err(NFTError::Overflow)
                } else {
                    let ts = trunc_div(g.amount * share, 10000);
                    let k = UserToken { user: owner, token: g.token };
                    if ts <= 0 {
                        Ok(ug1)
                    } else if !fits_i128(generic_in(ug1, k) + ts) {
                        Err(NFTError::Overflow)
                    } else {
                        Ok(ug1.insert(k, (generic_in(ug1, k) + ts) as i128))
                    }
                }
            },
        }
    }
}

/// The claimables after `owner`, if they have a reward in `round`, is credited their share
/// of the snapshot `snap`.
pub open spec fn credit_one(
    uc: Map<AccountId, UserClaimableBalance>,
    ug: Map<UserToken, i128>,
    pr: Map<RoundPlayer, PlayerReward>,
    round: u32,
    snap: PotSnapshotV,
    owner: AccountId,
) -> Result<(Map<AccountId, UserClaimableBalance>, Map<UserToken, i128>), NFTError> {
    let k = RoundPlayer { round, player: owner };
    if !pr.contains_key(k) {
        Ok((uc, ug))
    } else {
        let share = pr[k].share_percentage;
        let c = claimable_in(uc, owner);
        if !fits_i128(snap.total_terry * share) || !fits_u32(snap.total_power * share) || !fits_i128(snap.total_xtar * share) {
            Err(NFTError::Overflow)
        } else {
            let ts = trunc_div(snap.total_terry * share, 10000);
            let ps = (snap.total_power * share) / 10000;
            let xs = trunc_div(snap.total_xtar * share, 10000);
            if !fits_i128(c.terry + ts) || !fits_u32(c.power + ps) || !fits_i128(c.xtar + xs) {
                Err(NFTError::Overflow)
            } else {
                match credit_generics(ug, owner, share, snap.generic_tokens) {
                    Err(e) => Err(e),
                    Ok(ug2) => Ok((
                        uc.insert(owner, UserClaimableBalance {
                            terry: (c.terry + ts) as i128,
                            power: (c.power + ps) as u32,
                            xtar: (c.xtar + xs) as i128,
                            last_claim_round: round,
                            ..c
                        }),
                        ug2,
                    )),
                }
            }
        }
    }
}

/// The claimables after each of `owners` is credited in turn.
pub open spec fn credit_fold(
    uc: Map<AccountId, UserClaimableBalance>,
    ug: Map<UserToken, i128>,
    pr: Map<RoundPlayer, PlayerReward>,
    round: u32,
    snap: PotSnapshotV,
    owners: Seq<AccountId>,
) -> Result<(Map<AccountId, UserClaimableBalance>, Map<UserToken, i128>), NFTError>
    decreases owners.len(),
{
    if owners.len() == 0 {
        Ok((uc, ug))
    } else {
        match credit_fold(uc, ug, pr, round, snap, owners.drop_last()) {
            Err(e) => Err(e),
            Ok(acc) => credit_one(acc.0, acc.1, pr, round, snap, owners.last()),
        }
    }
}

/// The amounts of the registered tokens accumulated in the pot, skipping those not above
/// zero.
pub open spec fn generic_snapshot(acc: Map<AccountId, i128>, tokens: Seq<AccountId>) -> Seq<GenericTokenAmount>
    decreases tokens.len(),
{
    if tokens.len() == 0 {
        Seq::empty()
    } else {
        let rest = generic_snapshot(acc, tokens.drop_last());
        let t = tokens.last();
        let amt: i128 = if acc.contains_key(t) { acc[t] } else { 0 };
        if amt > 0 {
            rest.push(GenericTokenAmount { token: t, amount: amt })
        } else {
            rest
        }
    }
}

proof fn lemma_credit_generics_err(ug: Map<UserToken, i128>, owner: AccountId, share: u32, gts: Seq<GenericTokenAmount>, k: int)
    requires
        0 <= k <= gts.len(),
        credit_generics(ug, owner, share, gts.subrange(0, k)) is Err,
    ensures
        credit_generics(ug, owner, share, gts) == credit_generics(ug, owner, share, gts.subrange(0, k)),
    decreases gts.len(),
{
    if k == gts.len() {
        assert(gts.subrange(0, k) =~= gts);
    } else {
        assert(gts.drop_last().subrange(0, k) =~= gts.subrange(0, k));
        lemma_credit_generics_err(ug, owner, share, gts.drop_last(), k);
    }
}

proof fn lemma_credit_fold_err(
    uc: Map<AccountId, UserClaimableBalance>,
    ug: Map<UserToken, i128>,
    pr: Map<RoundPlayer, PlayerReward>,
    round: u32,
    snap: PotSnapshotV,
    owners: Seq<AccountId>,
    k: int,
)
    requires
        0 <= k <= owners.len(),
        credit_fold(uc, ug, pr, round, snap, owners.subrange(0, k)) is Err,
    ensures
        credit_fold(uc, ug, pr, round, snap, owners) == credit_fold(uc, ug, pr, round, snap, owners.subrange(0, k)),
    decreases owners.len(),
{
    if k == owners.len() {
        assert(owners.subrange(0, k) =~= owners);
    } else {
        assert(owners.drop_last().subrange(0, k) =~= owners.subrange(0, k));
        lemma_credit_fold_err(uc, ug, pr, round, snap, owners.drop_last(), k);
    }
}

/// Credits `owner`'s share of each amount of `gts` (see `credit_generics`); on `Err` the
/// map is left in a state the caller discards.
fn credit_generics_into(ug: &mut VecMap<UserToken, i128>, owner: AccountId, share: u32, gts: &Vec<GenericTokenAmount>) -> (r: Result<(), NFTError>)
    requires
        old(ug).inv(),
    ensures
        final(ug).inv(),
        match r {
            Ok(()) => credit_generics(old(ug)@, owner, share, gts@) == Ok::<Map<UserToken, i128>, NFTError>(final(ug)@),
            Err(e) => credit_generics(old(ug)@, owner, share, gts@) == Err::<Map<UserToken, i128>, NFTError>(e),
        },
{
    let ghost ug0 = ug@;
    let mut i: usize = 0;
    while i < gts.len()
        invariant
            ug.inv(),
            i <= gts@.len(),
            ug0 == old(ug)@,
            credit_generics(ug0, owner, share, gts@.subrange(0, i as int)) == Ok::<Map<UserToken, i128>, NFTError>(ug@),
        decreases gts@.len() - i,
    {
        let g = gts[i];
        proof {
            assert(gts@.subrange(0, i + 1).drop_last() =~= gts@.subrange(0, i as int));
            assert(gts@.subrange(0, i + 1).last() == g);
        }
        let m: i128 = match mul_i128(g.amount, share as i128) {
            Ok(v) => v,
            Err(e) => {
                proof {
                    lemma_credit_generics_err(ug0, owner, share, gts@, i + 1);
                }
                return Err(e);
            },
        };
        let ts: i128 = m / 10000;
        if ts > 0 {
            let k = UserToken { user: owner, token: g.token };
            let cur: i128 = match ug.get(&k) {
                Some(v) => *v,
                None => 0,
            };
            let next: i128 = match add_i128(cur, ts) {
                Ok(v) => v,
                Err(e) => {
                    proof {
                        lemma_credit_generics_err(ug0, owner, share, gts@, i + 1);
                    }
                    return Err(e);
                },
            };
            ug.insert(k, next);
        }
        i = i + 1;
    }
    proof {
        assert(gts@.subrange(0, gts@.len() as int) =~= gts@);
    }
    Ok(())
}

/// Credits `owner` their share of `snap` in `round` (see `credit_one`).
fn credit_one_into(
    uc: &mut VecMap<AccountId, UserClaimableBalance>,
    ug: &mut VecMap<UserToken, i128>,
    pr: &VecMap<RoundPlayer, PlayerReward>,
    round: u32,
    snap: &PotSnapshot,
    owner: AccountId,
) -> (r: Result<(), NFTError>)
    requires
        old(uc).inv(),
        old(ug).inv(),
        pr.inv(),
    ensures
        final(uc).inv(),
        final(ug).inv(),
        match r {
            Ok(()) => credit_one(old(uc)@, old(ug)@, pr@, round, snap@, owner) == Ok::<(Map<AccountId, UserClaimableBalance>, Map<UserToken, i128>), NFTError>((final(uc)@, final(ug)@)),
            Err(e) => credit_one(old(uc)@, old(ug)@, pr@, round, snap@, owner) == Err::<(Map<AccountId, UserClaimableBalance>, Map<UserToken, i128>), NFTError>(e),
        },
{
    let share: u32 = match pr.get(&RoundPlayer { round, player: owner }) {
        Some(rw) => rw.share_percentage,
        None => return Ok(()),
    };
    let c: UserClaimableBalance = match uc.get(&owner) {
        Some(v) => *v,
        None => UserClaimableBalance::new_zero(),
    };
    let tm: i128 = mul_i128(snap.total_terry, share as i128)?;
    let pm: u32 = mul_u32(snap.total_power, share)?;
    let xm: i128 = mul_i128(snap.total_xtar, share as i128)?;
    let terry: i128 = add_i128(c.terry, tm / 10000)?;
    let power: u32 = add_u32(c.power, pm / 10000)?;
    let xtar: i128 = add_i128(c.xtar, xm / 10000)?;
    credit_generics_into(ug, owner, share, &snap.generic_tokens)?;
    let mut c2 = c;
    c2.terry = terry;
    c2.power = power;
    c2.xtar = xtar;
    c2.last_claim_round = round;
    uc.insert(owner, c2);
    Ok(())
}


/// The owners of a list of decks.
pub open spec fn owners_of(decks: Seq<crate::types::DeckV>) -> Seq<AccountId> {
    decks.map_values(|d: crate::types::DeckV| d.owner)
}

/// The generic-token accumulators once those of `tokens` are reset to zero.
pub open spec fn zero_tokens(acc: Map<AccountId, i128>, tokens: Seq<AccountId>) -> Map<AccountId, i128> {
    Map::new(|k: AccountId| acc.contains_key(k), |k: AccountId| if tokens.contains(k) { 0 } else { acc[k] })
}

pub(crate) proof fn lemma_push_contains_account(s: Seq<AccountId>, x: AccountId, y: AccountId)
    ensures
        s.push(x).contains(y) <==> (s.contains(y) || y == x),
{
    if s.push(x).contains(y) {
        let j = choose|j: int| 0 <= j < s.push(x).len() && s.push(x)[j] == y;
        if j < s.len() {
            assert(s[j] == y);
        }
    }
    if s.contains(y) {
        let j = choose|j: int| 0 <= j < s.len() && s[j] == y;
        assert(s.push(x)[j] == y);
    }
    if y == x {
        assert(s.push(x)[s.len() as int] == y);
    }
}

impl LedgerV {
    /// The snapshot taken when `round` opens at `now`, before shares are counted.
    pub open spec fn opening_snapshot(self, round: u32, now: u64) -> PotSnapshotV {
        let pot = self.pot(now);
        PotSnapshotV {
            round_number: round,
            total_terry: pot.accumulated_terry,
            total_power: pot.accumulated_power,
            total_xtar: pot.accumulated_xtar,
            timestamp: now,
            total_participants: 0,
            total_effective_power: 0,
            generic_tokens: generic_snapshot(self.accumulated_by_token, self.registered_tokens),
        }
    }

    /// The vault once the pot is moved into it for distribution.
    pub open spec fn opening_vault(self, now: u64) -> ContractVault {
        let pot = self.pot(now);
        ContractVault {
            haw_ai_pot_terry: (self.vault.haw_ai_pot_terry + pot.accumulated_terry) as i128,
            haw_ai_pot_power: (self.vault.haw_ai_pot_power + pot.accumulated_power) as u32,
            haw_ai_pot_xtar: (self.vault.haw_ai_pot_xtar + pot.accumulated_xtar) as i128,
            total_claimable_terry: (self.vault.total_claimable_terry + pot.accumulated_terry) as i128,
            total_claimable_power: (self.vault.total_claimable_power + pot.accumulated_power) as u32,
            total_claimable_xtar: (self.vault.total_claimable_xtar + pot.accumulated_xtar) as i128,
            ..self.vault
        }
    }

    /// Whether moving the pot into the vault overflows.
    pub open spec fn opening_vault_overflows(self, now: u64) -> bool {
        let pot = self.pot(now);
        let v = self.vault;
        !fits_i128(v.haw_ai_pot_terry + pot.accumulated_terry) || !fits_u32(v.haw_ai_pot_power + pot.accumulated_power)
            || !fits_i128(v.haw_ai_pot_xtar + pot.accumulated_xtar) || !fits_i128(v.total_claimable_terry + pot.accumulated_terry)
            || !fits_u32(v.total_claimable_power + pot.accumulated_power) || !fits_i128(v.total_claimable_xtar + pot.accumulated_xtar)
    }

    /// The credits of `round`'s shares to every deck owner.
    pub open spec fn opening_credits(self, round: u32, now: u64) -> Result<(Map<AccountId, UserClaimableBalance>, Map<UserToken, i128>), NFTError> {
        let rows = self.eligible_rows();
        credit_fold(
            self.user_claimables,
            self.user_generic_claimable,
            rewards_fold(self.player_rewards, rows, sum_effective(rows) as u32, round),
            round,
            self.opening_snapshot(round, now),
            owners_of(self.decks.stored_all(self.pages_only)),
        )
    }

    /// Why opening `round` at `now` is refused: the contract is not initialized, the round is
    /// not after the current one, or an amount overflows.
    pub open spec fn open_pot_err(self, round: u32, now: u64) -> Option<NFTError> {
        if self.admin is None {
            Some(NFTError::NotInitialized)
        } else if round <= self.current_round {
            Some(NFTError::RoundAlreadyProcessed)
        } else if self.opening_vault_overflows(now) || self.pot(now).total_openings == u32::MAX
            || self.shares_err() is Some || self.opening_credits(round, now) is Err {
            Some(NFTError::Overflow)
        } else {
            None
        }
    }

    /// The ledger after `round` opens at `now`: the pot moves into the vault and is
    /// snapshotted (with the generic tokens, whose accumulators restart from zero), the
    /// eligible players' shares are recorded and credited to their claimable balances, the
    /// round becomes the current one, and the pot restarts empty.
    pub open spec fn open_pot_post(self, round: u32, now: u64) -> LedgerV {
        let pot = self.pot(now);
        let snap = self.opening_snapshot(round, now);
        let rows = self.eligible_rows();
        let s1 = LedgerV {
            vault: self.opening_vault(now),
            accumulated_by_token: zero_tokens(self.accumulated_by_token, self.registered_tokens),
            snapshots: self.snapshots.insert(round, snap),
            ..self
        }.emit(Event::PotOpen(crate::event::PotOpen {
            round,
            total_terry: snap.total_terry,
            total_power: snap.total_power,
            total_xtar: snap.total_xtar,
            total_participants: 0,
            total_effective_power: 0,
        }));
        let s2 = s1.shares_apply(rows, round);
        let credits = self.opening_credits(round, now)->Ok_0;
        LedgerV {
            user_claimables: credits.0,
            user_generic_claimable: credits.1,
            current_round: round,
            rounds: s2.rounds.add_spec(round, s2.pages_only),
            pot_balance: Some(PotBalance {
                accumulated_terry: 0,
                accumulated_power: 0,
                accumulated_xtar: 0,
                last_opening_round: round,
                total_openings: (pot.total_openings + 1) as u32,
                last_updated: now,
            }),
            ..s2
        }
    }
}

impl Ledger {
    /// The generic tokens accumulated in the pot (see `generic_snapshot`).
    pub fn collect_generics(&self) -> (r: Vec<GenericTokenAmount>)
        requires
            self.wf(),
        ensures
            r@ == generic_snapshot(self@.accumulated_by_token, self@.registered_tokens),
    {
        let mut out: Vec<GenericTokenAmount> = Vec::new();
        let mut i: usize = 0;
        while i < self.registered_tokens.len()
            invariant
                self.wf(),
                i <= self@.registered_tokens.len(),
                out@ == generic_snapshot(self@.accumulated_by_token, self@.registered_tokens.subrange(0, i as int)),
            decreases self@.registered_tokens.len() - i,
        {
            let t = self.registered_tokens[i];
            proof {
                assert(self@.registered_tokens.subrange(0, i + 1).drop_last() =~= self@.registered_tokens.subrange(0, i as int));
                assert(self@.registered_tokens.subrange(0, i + 1).last() == t);
            }
            let amt: i128 = match self.accumulated_by_token.get(&t) {
                Some(v) => *v,
                None => 0,
            };
            if amt > 0 {
                out.push(GenericTokenAmount { token: t, amount: amt });
            }
            i = i + 1;
        }
        proof {
            assert(self@.registered_tokens.subrange(0, self@.registered_tokens.len() as int) =~= self@.registered_tokens);
        }
        out
    }

    /// Resets the accumulators of the registered tokens to zero.
    pub fn zero_registered_tokens(&mut self)
        requires
            old(self).wf(),
        ensures
            final(self).wf(),
            final(self)@ == (LedgerV {
                accumulated_by_token: zero_tokens(old(self)@.accumulated_by_token, old(self)@.registered_tokens),
                ..old(self)@
            }),
    {
        let ghost s0 = self@;
        proof {
            assert(zero_tokens(s0.accumulated_by_token, s0.registered_tokens.subrange(0, 0)) =~= s0.accumulated_by_token);
        }
        let mut i: usize = 0;
        while i < self.registered_tokens.len()
            invariant
                self.wf(),
                i <= s0.registered_tokens.len(),
                self@ == (LedgerV {
                    accumulated_by_token: zero_tokens(s0.accumulated_by_token, s0.registered_tokens.subrange(0, i as int)),
                    ..s0
                }),
            decreases s0.registered_tokens.len() - i,
        {
            let t = self.registered_tokens[i];
            let amt: i128 = match self.accumulated_by_token.get(&t) {
                Some(v) => *v,
                None => 0,
            };
            if amt != 0 {
                self.accumulated_by_token.insert(t, 0);
            }
            proof {
                let p0 = s0.registered_tokens.subrange(0, i as int);
                let p1 = s0.registered_tokens.subrange(0, i + 1);
                assert(p1 =~= p0.push(t));
                assert forall|k: AccountId| p1.contains(k) <==> (p0.contains(k) || k == t) by {
                    lemma_push_contains_account(p0, t, k);
                }
                assert(self@.accumulated_by_token =~= zero_tokens(s0.accumulated_by_token, p1));
            }
            i = i + 1;
        }
        proof {
            assert(s0.registered_tokens.subrange(0, s0.registered_tokens.len() as int) =~= s0.registered_tokens);
        }
    }

    /// Credits every deck owner their share of `snap` in `round` (see `credit_fold`), into
    /// copies of the claimable maps.
    pub fn credit_owners(&self, pr: &VecMap<RoundPlayer, PlayerReward>, round: u32, snap: &PotSnapshot)
        -> (r: Result<(VecMap<AccountId, UserClaimableBalance>, VecMap<UserToken, i128>), NFTError>)
        requires
            self.wf(),
            pr.inv(),
        ensures
            match r {
                Ok(m) => m.0.inv() && m.1.inv() && credit_fold(
                    self@.user_claimables,
                    self@.user_generic_claimable,
                    pr@,
                    round,
                    snap@,
                    owners_of(self@.decks.stored_all(self@.pages_only)),
                ) == Ok::<(Map<AccountId, UserClaimableBalance>, Map<UserToken, i128>), NFTError>((m.0@, m.1@)),
                Err(e) => credit_fold(
                    self@.user_claimables,
                    self@.user_generic_claimable,
                    pr@,
                    round,
                    snap@,
                    owners_of(self@.decks.stored_all(self@.pages_only)),
                ) == Err::<(Map<AccountId, UserClaimableBalance>, Map<UserToken, i128>), NFTError>(e),
            },
    {
        let decks = self.read_decks();
        let ghost owners = owners_of(self@.decks.stored_all(self@.pages_only));
        let mut uc = self.user_claimables.copy();
        let mut ug = self.user_generic_claimable.copy();
        let mut i: usize = 0;
        while i < decks.len()
            invariant
                self.wf(),
                pr.inv(),
                uc.inv(),
                ug.inv(),
                i <= decks@.len(),
                decks@.len() == owners.len(),
                owners == owners_of(self@.decks.stored_all(self@.pages_only)),
                forall|j: int| 0 <= j < decks@.len() ==> (#[trigger] decks@[j]).owner == owners[j],
                credit_fold(self@.user_claimables, self@.user_generic_claimable, pr@, round, snap@, owners.subrange(0, i as int))
                    == Ok::<(Map<AccountId, UserClaimableBalance>, Map<UserToken, i128>), NFTError>((uc@, ug@)),
            decreases decks@.len() - i,
        {
            let owner = decks[i].owner;
            proof {
                assert(owners.subrange(0, i + 1).drop_last() =~= owners.subrange(0, i as int));
                assert(owners.subrange(0, i + 1).last() == owner);
            }
            match credit_one_into(&mut uc, &mut ug, pr, round, snap, owner) {
                Ok(()) => {},
                Err(e) => {
                    proof {
                        lemma_credit_fold_err(self@.user_claimables, self@.user_generic_claimable, pr@, round, snap@, owners, i + 1);
                    }
                    return Err(e);
                },
            }
            i = i + 1;
        }
        proof {
            assert(owners.subrange(0, owners.len() as int) =~= owners);
        }
        Ok((uc, ug))
    }
}


/// Writes the reward of each row into `pr` (see `rewards_fold`).
pub(crate) fn rewards_into(pr: &mut VecMap<RoundPlayer, PlayerReward>, rows: &Vec<(AccountId, u32, u32, u32)>, total: u32, round: u32)
    requires
        old(pr).inv(),
        total > 0 ==> rows_scale(rows@),
    ensures
        final(pr).inv(),
        final(pr)@ == rewards_fold(old(pr)@, rows@, total, round),
{
    let ghost pr0 = pr@;
    let mut i: usize = 0;
    while i < rows.len()
        invariant
            pr.inv(),
            i <= rows@.len(),
            pr0 == old(pr)@,
            total > 0 ==> rows_scale(rows@),
            pr@ == rewards_fold(pr0, rows@.subrange(0, i as int), total, round),
        decreases rows@.len() - i,
    {
        let row = rows[i];
        proof {
            assert(rows@.subrange(0, i + 1).drop_last() =~= rows@.subrange(0, i as int));
            assert(rows@.subrange(0, i + 1).last() == row);
            assert(rows@[i as int] == row);
        }
        let share: u32 = if total > 0 { (row.1 * 10000) / total } else { 0 };
        pr.insert(RoundPlayer { round, player: row.0 }, PlayerReward {
            share_percentage: share,
            effective_power: row.1,
            round_number: round,
            deck_bonus: row.2,
            deck_categories: row.3,
        });
        i = i + 1;
    }
    proof {
        assert(rows@.subrange(0, rows@.len() as int) =~= rows@);
    }
}

} // verus!
