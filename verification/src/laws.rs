//! Properties that hold across the ledger's operations.
use vstd::prelude::*;
use crate::types::{AccountId, ActionKey, Level, TokenId};
use crate::book::{BookV, Record};
use crate::ledger::{LedgerV, level_spec};
use crate::rounds::RoundBookV;
use crate::opening::{reward_of, sum_effective, rows_scale};
use crate::error::NFTError;
use crate::paged::swap_remove_spec;
use crate::math::trunc_div;

verus! {

/// The sum of the rows' shares of `total`, in basis points.
pub open spec fn sum_shares(rows: Seq<(AccountId, u32, u32, u32)>, total: u32, round: u32) -> int
    decreases rows.len(),
{
    if rows.len() == 0 {
        0
    } else {
        sum_shares(rows.drop_last(), total, round) + reward_of(rows.last(), total, round).share_percentage
    }
}

proof fn lemma_shares_scaled(rows: Seq<(AccountId, u32, u32, u32)>, total: u32, round: u32)
    requires
        total > 0,
        rows_scale(rows),
    ensures
        sum_shares(rows, total, round) * total <= sum_effective(rows) * 10000,
    decreases rows.len(),
{
    if rows.len() > 0 {
        let d = rows.drop_last();
        assert forall|i: int| 0 <= i < d.len() implies (#[trigger] d[i]).1 * 10000 <= u32::MAX by {
            assert(d[i] == rows[i]);
        }
        lemma_shares_scaled(d, total, round);
        let e = rows.last().1 as int;
        assert(rows[rows.len() - 1] == rows.last());
        let q = (e * 10000) / (total as int);
        assert(q * total <= e * 10000) by (nonlinear_arith)
            requires
                q == (e * 10000) / (total as int),
                total > 0,
                e >= 0,
        ;
        assert(reward_of(rows.last(), total, round).share_percentage == q);
        assert(sum_shares(rows, total, round) * total == sum_shares(d, total, round) * total + q * total) by (nonlinear_arith)
            requires
                sum_shares(rows, total, round) == sum_shares(d, total, round) + q,
        ;
    }
}

/// The shares of a round never add up to more than the whole pot: each player's share is
/// their effective power over the total, rounded down, in basis points.
pub proof fn law_shares_within_whole(rows: Seq<(AccountId, u32, u32, u32)>, round: u32)
    requires
        sum_effective(rows) > 0,
        sum_effective(rows) <= u32::MAX,
        rows_scale(rows),
    ensures
        sum_shares(rows, sum_effective(rows) as u32, round) <= 10000,
{
    let total = sum_effective(rows) as u32;
    lemma_shares_scaled(rows, total, round);
    let ss = sum_shares(rows, total, round);
    assert(ss <= 10000) by (nonlinear_arith)
        requires
            ss * total <= (total as int) * 10000,
            total > 0,
    ;
}

/// A round is opened at most once: after an opening succeeds, opening the same round again
/// (at any time) is refused.
pub proof fn law_open_pot_once(s: LedgerV, round: u32, now: u64, later: u64)
    requires
        s.open_pot_err(round, now) is None,
    ensures
        s.open_pot_post(round, now).open_pot_err(round, later) == Some(NFTError::RoundAlreadyProcessed),
{
}

/// Opening a round that is not newer than the current one is refused as already
/// processed, whatever the pot holds (and `NFT::open_pot` then changes nothing).
pub proof fn law_old_round_refused(s: LedgerV, round: u32, now: u64)
    requires
        s.admin is Some,
        round <= s.current_round,
    ensures
        s.open_pot_err(round, now) == Some(NFTError::RoundAlreadyProcessed),
{
}

/// A contribution is split without loss: what the pot gains and the Dogstar fee add up to
/// the contribution, for each asset.
pub proof fn law_accumulate_conserves(s: LedgerV, terry: i128, power: u32, xtar: i128, from: Option<AccountId>, action: Option<crate::types::Action>, now: u64)
    requires
        s.accumulate_err(terry, power, xtar) is None,
    ensures
        ({
            let t = s.accumulate_post(terry, power, xtar, from, action, now);
            &&& (t.pot(now).accumulated_terry - s.pot(now).accumulated_terry) + (t.vault.dogstar_terry - s.vault.dogstar_terry) == terry
            &&& (t.pot(now).accumulated_power - s.pot(now).accumulated_power) + (t.vault.dogstar_power - s.vault.dogstar_power) == power
            &&& (t.pot(now).accumulated_xtar - s.pot(now).accumulated_xtar) + (t.vault.dogstar_xtar - s.vault.dogstar_xtar) == xtar
        }),
{
}

/// A claim is paid once: after `player` claims, a new claim is refused for want of rewards
/// until another round is credited to them.
pub proof fn law_claim_once(s: LedgerV, player: AccountId, now: u64)
    requires
        s.claim_err(player) is None,
    ensures
        s.claim_post(player, now).claim_err(player) == Some(NFTError::NoRewardsAvailable),
{
    let t = s.claim_post(player, now);
    assert(!t.has_generic_claim(player)) by {
        if t.has_generic_claim(player) {
            let i = choose|i: int|
                0 <= i < t.registered_tokens.len()
                    && crate::opening::generic_in(t.user_generic_claimable, crate::types::UserToken { user: player, token: #[trigger] t.registered_tokens[i] }) > 0;
            assert(t.registered_tokens.contains(t.registered_tokens[i]));
        }
    }
}

/// A record written under a key is what a read under that key gives back.
pub proof fn law_write_then_read<R: Record>(b: BookV<R>, k: ActionKey, rec: R, pages_only: bool)
    ensures
        b.write_spec(k, rec, pages_only).get(k) == Some(rec),
        b.write_spec(k, rec, pages_only).index.contains(k),
{
    if !b.index.contains(k) {
        assert(b.index.push(k)[b.index.len() as int] == k);
    }
}

/// Removing a record takes its key out of the paged index and keeps every other key there.
pub proof fn law_remove_keeps_others<R: Record>(b: BookV<R>, k: ActionKey, other: ActionKey, pages_only: bool)
    requires
        b.index.no_duplicates(),
        other != k,
    ensures
        !b.remove_spec(k, pages_only).index.contains(k),
        b.remove_spec(k, pages_only).get(k) is None,
        b.index.contains(other) ==> b.remove_spec(k, pages_only).index.contains(other),
{
    let after = b.remove_spec(k, pages_only).index;
    match b.slot(k) {
        Some(p) => {
            let s = b.index;
            assert(0 <= p < s.len() && s[p] == k);
            assert(after == swap_remove_spec(s, p));
            assert(!after.contains(k)) by {
                if after.contains(k) {
                    let j = choose|j: int| 0 <= j < after.len() && after[j] == k;
                    if j == p {
                        assert(after[j] == s[s.len() - 1]);
                        assert(s.len() - 1 != p);
                    } else {
                        assert(after[j] == s[j]);
                    }
                }
            }
            if s.contains(other) {
                let j = choose|j: int| 0 <= j < s.len() && s[j] == other;
                assert(j != p);
                if j == s.len() - 1 {
                    assert(after[p] == other);
                } else {
                    assert(after[j] == other);
                }
            }
        },
        None => {},
    }
}

/// A player's level is always one of the configured levels (or level 1 when there are
/// none).
pub proof fn law_level_in_range(levels: Seq<Level>, balance: int)
    requires
        levels.len() < u32::MAX,
    ensures
        1 <= level_spec(levels, balance) <= if levels.len() > 0 { levels.len() as int } else { 1 },
{
    crate::ledger::lemma_level_in_range(levels, balance);
}

/// A card given away leaves the giver and reaches the receiver unchanged.
pub proof fn law_transfer_moves_card(s: LedgerV, from: AccountId, to: AccountId, token_id: TokenId)
    requires
        s.transfer_err(from, token_id) is None,
        from != to,
    ensures
        s.transfer_post(from, to, token_id).card(to, token_id) == s.card(from, token_id),
        s.transfer_post(from, to, token_id).card(from, token_id) is None,
{
}

/// While a round's opening is under way, no deck changes.
pub proof fn law_decks_frozen(s: LedgerV, user: AccountId, token_id: TokenId, other: TokenId)
    requires
        s.decks_frozen(),
    ensures
        s.place_err(user, token_id) == Some(NFTError::PotInProgress),
        s.remove_place_err(user, token_id) == Some(NFTError::PotInProgress),
        s.replace_err(user, token_id, other) == Some(NFTError::PotInProgress),
{
}

/// Appending only the keys an index lacks never lists a key twice.
proof fn lemma_migrate_index_nodup<K>(idx: Seq<K>, keys: Seq<K>)
    requires
        idx.no_duplicates(),
    ensures
        crate::book::migrate_index(idx, keys).no_duplicates(),
    decreases keys.len(),
{
    if keys.len() > 0 {
        lemma_migrate_index_nodup(idx, keys.drop_last());
        let acc = crate::book::migrate_index(idx, keys.drop_last());
        if !acc.contains(keys.last()) {
            let s = acc.push(keys.last());
            assert forall|a: int, b: int| 0 <= a < s.len() && 0 <= b < s.len() && a != b implies s[a] != s[b] by {
                if a < acc.len() && b < acc.len() {
                } else if a < acc.len() {
                    assert(acc.contains(acc[a]));
                } else {
                    assert(acc.contains(acc[b]));
                }
            }
        }
    }
}

/// Running the same batch of the rounds migration twice leaves the book as running it
/// once, and a paged list of distinct rounds stays free of repeats.
pub proof fn law_migrate_rounds_idempotent(b: RoundBookV, start: u32, limit: u32, pages_only: bool)
    ensures
        b.migrate_spec(start, limit, pages_only).migrate_spec(start, limit, pages_only)
            == b.migrate_spec(start, limit, pages_only),
        b.index.no_duplicates() ==> b.migrate_spec(start, limit, pages_only).index.no_duplicates(),
{
    let all = b.all_spec(pages_only);
    let end = crate::book::migrate_end(all.len() as int, start, limit);
    let from: int = if start >= all.len() { all.len() as int } else { start as int };
    let slice = all.subrange(from, end);
    let m = b.migrate_spec(start, limit, pages_only);
    if pages_only {
        assert forall|i: int| 0 <= i < slice.len() implies b.index.contains(#[trigger] slice[i]) by {
            assert(slice[i] == b.index[from + i]);
        }
        crate::book::lemma_migrate_index_noop(b.index, slice);
        assert(m =~= b);
    } else {
        crate::book::lemma_migrate_idempotent(b.index, slice);
        assert(m.all_spec(pages_only) == all);
    }
    if b.index.no_duplicates() {
        lemma_migrate_index_nodup(b.index, slice);
    }
}

/// A product with a zero factor saturates at nothing.
proof fn lemma_sat_mul_zero(x: int)
    ensures
        crate::math::sat_mul_u64_spec(x, 0) == 0,
        crate::math::sat_mul_u64_spec(0, x) == 0,
{
    assert(x * 0 == 0 && 0 * x == 0) by (nonlinear_arith);
}

/// Lending and withdrawing at once hands the card back unlocked with its POWER less the
/// lending fee (never more than what was lent), takes the lending off the books, and
/// leaves the pool's supply, interest and liquidation index as they were.
pub proof fn law_lend_then_withdraw(s: LedgerV, user: AccountId, category: crate::types::Category, token_id: TokenId, power: u32, now: u64)
    requires
        forall|a: AccountId| s.users.contains_key(a) ==> (#[trigger] s.users[a]).owner == a,
        s.lend_err(user, category, token_id, power, now) is None,
    ensures
        ({
            let c = s.config->0;
            let fee = crate::lending::action_fee_spec(power, c.power_action_fee);
            let p0 = s.card(user, token_id)->0.power;
            let st0 = s.pool(now);
            let t = s.lend_post(user, category, token_id, power, now).withdraw_post(user, category, token_id, now);
            let key = ActionKey { owner: user, category, token_id };
            &&& t.card(user, token_id) == Some(crate::types::Card {
                power: (p0 - crate::math::min_int(power as int, fee as int)) as u32,
                locked_by_action: crate::types::Action::Idle,
            })
            &&& t.pool(now).total_offer == st0.total_offer
            &&& t.pool(now).total_interest == st0.total_interest
            &&& t.pool(now).l_index == st0.l_index
            &&& t.lendings.get(key) is None
        }),
{
    let c = s.config->0;
    let fee = crate::lending::action_fee_spec(power, c.power_action_fee);
    let amount = crate::math::sat_sub_spec(power as int, fee as int);
    assert(s.owner_of(user) == user);
    let st1 = crate::lending::accrue_spec(s.pool(now), now);
    let m = s.lend_post(user, category, token_id, power, now);
    assert(m.owner_of(user) == user);
    let st2 = crate::types::State { total_offer: (st1.total_offer + amount) as u64, ..st1 };
    assert(m.pool(now) == st2);
    assert(m.card(user, token_id) == Some(crate::types::Card {
        power: (s.card(user, token_id)->0.power - power) as u32,
        locked_by_action: crate::types::Action::Lend,
    }));
    let key = ActionKey { owner: user, category, token_id };
    assert(m.lendings.get(key) == Some(crate::lending::Lending { lender: user, category, token_id, power: amount as u32, lent_at: now }));
    let st3 = crate::lending::accrue_spec(st2, now);
    lemma_sat_mul_zero(st2.total_borrowed_power as int);
    lemma_sat_mul_zero(st2.active_loans as int);
    assert(st3 == st2);
    let apy = crate::lending::pool_apy_spec(st3, c.apy_alpha);
    crate::math::law_interest_bounds(amount as u64, apy as u64, 0, amount as u64, apy as u64, 0);
    assert(crate::math::interest_spec(amount as u64, apy as u64, 0) == 0);
    lemma_sat_mul_zero(c.power_action_fee as int);
    assert(crate::lending::interest_fee_spec(0, c.power_action_fee) == 0);
}

/// Borrowing and repaying at once (no interest accrues) gives the pool, the player's
/// POWER and the loan's reserve total back as they were, and leaves the card unlocked with
/// its POWER less the borrowing fee; no borrowing or reserve record of the loan remains.
/// The pool's counters are taken where they do not saturate.
pub proof fn law_borrow_then_repay(s: LedgerV, user: AccountId, category: crate::types::Category, token_id: TokenId, power: u32, now: u64)
    requires
        forall|a: AccountId| s.users.contains_key(a) ==> (#[trigger] s.users[a]).owner == a,
        s.borrow_err(user, category, token_id, power, now) is None,
        ({
            let c = s.config->0;
            let fee = crate::lending::action_fee_spec(power, c.power_action_fee);
            let amount = crate::math::sat_sub_spec(power as int, fee as int);
            let st0 = s.pool(now);
            let st1 = crate::lending::accrue_spec(st0, now);
            let reserve = crate::lending::reserve_spec(amount, crate::lending::horizon_spec(
                crate::lending::borrow_apy_spec(st1, amount, c.apy_alpha) as u64));
            &&& st0.total_borrowed_power + amount <= u64::MAX
            &&& st0.active_loans < u64::MAX
            &&& st0.w_total + reserve <= u64::MAX
        }),
    ensures
        ({
            let c = s.config->0;
            let fee = crate::lending::action_fee_spec(power, c.power_action_fee);
            let st0 = s.pool(now);
            let t = s.borrow_post(user, category, token_id, power, now).repay_post(user, category, token_id, now);
            let key = ActionKey { owner: user, category, token_id };
            &&& t.pool(now).total_offer == st0.total_offer
            &&& t.pool(now).total_borrowed_power == st0.total_borrowed_power
            &&& t.pool(now).active_loans == st0.active_loans
            &&& t.pool(now).w_total == st0.w_total
            &&& t.pool(now).total_interest == st0.total_interest
            &&& t.user(user).power == s.user(user).power
            &&& t.card(user, token_id) == Some(crate::types::Card {
                power: crate::math::sat_sub_spec(s.card(user, token_id)->0.power as int, fee as int) as u32,
                locked_by_action: crate::types::Action::Idle,
            })
            &&& t.borrowings.get(key) is None
            &&& !t.borrow_meta.contains_key(key)
        }),
{
    let c = s.config->0;
    let fee = crate::lending::action_fee_spec(power, c.power_action_fee);
    let amount = crate::math::sat_sub_spec(power as int, fee as int);
    assert(s.owner_of(user) == user);
    let st0 = s.pool(now);
    let st1 = crate::lending::accrue_spec(st0, now);
    let apy0 = crate::lending::borrow_apy_spec(st1, amount, c.apy_alpha);
    let reserve = crate::lending::reserve_spec(amount, crate::lending::horizon_spec(apy0 as u64));
    let m = s.borrow_post(user, category, token_id, power, now);
    assert(m.owner_of(user) == user);
    let st3 = crate::types::State {
        w_total: (st1.w_total + reserve) as u64,
        total_offer: (st1.total_offer - amount) as u64,
        total_borrowed_power: (st1.total_borrowed_power + amount) as u64,
        active_loans: (st1.active_loans + 1) as u64,
        ..st1
    };
    assert(m.pool(now) == st3);
    let key = ActionKey { owner: user, category, token_id };
    assert(m.borrowings.get(key) == Some(crate::lending::Borrowing { borrower: user, category, token_id, power: amount as u32, borrowed_at: now }));
    assert(m.card(user, token_id) == Some(crate::types::Card {
        power: crate::math::sat_sub_spec(s.card(user, token_id)->0.power as int, fee as int) as u32,
        locked_by_action: crate::types::Action::Borrow,
    }));
    assert(m.user(user).power == s.user(user).power + amount);
    assert(m.borrow_meta.contains_key(key) && m.borrow_meta[key].reserve_remaining == reserve as u32);
    let st4 = crate::lending::accrue_spec(st3, now);
    lemma_sat_mul_zero(st3.total_borrowed_power as int);
    lemma_sat_mul_zero(st3.active_loans as int);
    assert(st4 == st3);
    let apy = crate::lending::pool_apy_spec(st4, c.apy_alpha);
    crate::math::law_interest_bounds(amount as u64, apy as u64, 0, amount as u64, apy as u64, 0);
    assert(crate::math::interest_spec(amount as u64, apy as u64, 0) == 0);
}

/// A borrow agrees with its quote taken in the same state (where the pool has nothing to
/// accrue): the borrow goes through only when the quote allows it, with the quoted net
/// and the quoted reserve, which the reserve total then gains; a quote that refuses
/// foretells a refusal for the collateral or the horizon; and a quote that allows can be
/// followed only by a refusal of the house's bookkeeping (an overflow, or no levels).
pub proof fn law_borrow_follows_quote(s: LedgerV, user: AccountId, category: crate::types::Category, token_id: TokenId, power: u32, now: u64)
    requires
        s.config is Some,
        crate::lending::lends_category(category),
        s.card(s.owner_of(user), token_id) is Some,
        s.card(s.owner_of(user), token_id)->0.locked_by_action == crate::types::Action::Idle,
        power > 0,
        crate::math::sat_sub_spec(power as int, crate::lending::action_fee_spec(power, s.config->0.power_action_fee) as int) > 0,
        s.pool(now).total_offer >= crate::math::sat_sub_spec(power as int, crate::lending::action_fee_spec(power, s.config->0.power_action_fee) as int),
        s.pool(now).active_loans == 0 || s.pool(now).last_update_ts == now,
        s.borrow_quote_spec(user, token_id, power, now) is Ok,
    ensures
        ({
            let q = s.borrow_quote_spec(user, token_id, power, now)->Ok_0;
            let c = s.config->0;
            let fee = crate::lending::action_fee_spec(power, c.power_action_fee);
            let amount = crate::math::sat_sub_spec(power as int, fee as int);
            let e = s.borrow_err(user, category, token_id, power, now);
            let t = s.borrow_post(user, category, token_id, power, now);
            let key = ActionKey { owner: s.owner_of(user), category, token_id };
            &&& e is None ==> q.allowed && q.borrow_net == amount && q.fee == fee
                && t.borrow_meta.contains_key(key) && t.borrow_meta[key].reserve_remaining == q.reserve
                && t.pool(now).w_total == crate::math::sat_add_u64_spec(s.pool(now).w_total as int, q.reserve as int)
            &&& !q.allowed ==> e == Some(NFTError::InvalidHorizon) || e == Some(NFTError::ExceedsCollateral)
            &&& q.allowed ==> e is None || e == Some(NFTError::Overflow) || e == Some(NFTError::LevelsMissing)
        }),
{
    let c = s.config->0;
    let fee = crate::lending::action_fee_spec(power, c.power_action_fee);
    let amount = crate::math::sat_sub_spec(power as int, fee as int);
    let st = s.pool(now);
    let st1 = crate::lending::accrue_spec(st, now);
    let dt = crate::math::sat_sub_spec(now as int, st.last_update_ts as int);
    if st.active_loans == 0 {
        lemma_sat_mul_zero(dt);
    } else {
        lemma_sat_mul_zero(st.active_loans as int);
        lemma_sat_mul_zero(st.total_borrowed_power as int);
    }
    assert(st1.loans_time_seconds == st.loans_time_seconds);
    assert(st1.total_offer == st.total_offer);
    assert(st1.total_borrowed_power == st.total_borrowed_power);
    assert(st1.active_loans == st.active_loans);
    let cap = crate::math::min_int(st.total_offer as int, (amount as u32) as int) as u32;
    assert(cap == amount);
    let apy = crate::lending::borrow_apy_spec(st1, amount, c.apy_alpha);
    crate::math::lemma_apy_bounds(
        crate::math::sat_add_u64_spec(st1.total_borrowed_power as int, amount) as u64,
        (st1.total_offer - amount) as u64,
        st1.loans_time_seconds,
        crate::math::sat_add_u64_spec(st1.active_loans as int, 1) as u64,
        c.apy_alpha as u64,
    );
}

/// A page read of a book gives the entries from `cursor` on, at most `limit` of them:
/// none for an empty limit or a cursor past the end, else `min(limit, count - cursor)`
/// entries in order, read from the paged index once it is in use and from the older list
/// before (the index being filled whenever it is in use and the older list is not empty).
pub proof fn law_page_window<R: Record>(b: crate::book::ActionBook<R>, cursor: u32, limit: u32, pages_only: bool)
    requires
        b.wf(),
        !pages_only && b.index_list().count_written() ==> b.index().len() > 0 || b.legacy_or_empty().len() == 0,
    ensures
        ({
            let e = if !pages_only && !b.index_list().count_written() {
                crate::book::keys_of(b.legacy_or_empty())
            } else {
                b.index()
            };
            let page = b.page_spec(cursor, limit, pages_only);
            &&& page.len() == (if limit == 0 || cursor >= e.len() {
                0
            } else {
                crate::math::min_int(limit as int, e.len() - cursor)
            })
            &&& forall|i: int| 0 <= i < page.len() ==> page[i] == #[trigger] e[cursor + i]
        }),
{
    b.lemma_wf_lengths();
}

/// Opening a round moves the whole pot into the vault: the round becomes the current
/// one, the pot's accumulators and every registered token's accumulator restart from
/// zero, one more opening is counted, and the vault's claimable totals grow by exactly
/// what the pot held.
pub proof fn law_open_pot_moves_pot(s: LedgerV, round: u32, now: u64)
    requires
        s.open_pot_err(round, now) is None,
    ensures
        ({
            let pot = s.pot(now);
            let t = s.open_pot_post(round, now);
            &&& t.current_round == round
            &&& t.pot(now).accumulated_terry == 0
            &&& t.pot(now).accumulated_power == 0
            &&& t.pot(now).accumulated_xtar == 0
            &&& t.pot(now).total_openings == pot.total_openings + 1
            &&& t.vault.total_claimable_terry == s.vault.total_claimable_terry + pot.accumulated_terry
            &&& t.vault.total_claimable_power == s.vault.total_claimable_power + pot.accumulated_power
            &&& t.vault.total_claimable_xtar == s.vault.total_claimable_xtar + pot.accumulated_xtar
            &&& forall|i: int| 0 <= i < s.registered_tokens.len() ==>
                crate::rewards::acc_amount(t.accumulated_by_token, #[trigger] s.registered_tokens[i]) == 0
        }),
{
    let t = s.open_pot_post(round, now);
    assert forall|i: int| 0 <= i < s.registered_tokens.len() implies
        crate::rewards::acc_amount(t.accumulated_by_token, #[trigger] s.registered_tokens[i]) == 0 by {
        assert(s.registered_tokens.contains(s.registered_tokens[i]));
    }
}

/// Each registered token that `player` may claim is paid out by one transfer of the
/// whole amount from `this`.
proof fn lemma_generic_payouts_cover(ug: Map<crate::types::UserToken, i128>, player: AccountId, tokens: Seq<AccountId>, this: AccountId, i: int)
    requires
        0 <= i < tokens.len(),
        crate::opening::generic_in(ug, crate::types::UserToken { user: player, token: tokens[i] }) > 0,
    ensures
        crate::contract::generic_payouts(ug, player, tokens, this).contains(crate::contract::TokenCall::Transfer {
            token: tokens[i],
            from: this,
            to: player,
            amount: crate::opening::generic_in(ug, crate::types::UserToken { user: player, token: tokens[i] }),
        }),
    decreases tokens.len(),
{
    let rest = crate::contract::generic_payouts(ug, player, tokens.drop_last(), this);
    let call = crate::contract::TokenCall::Transfer {
        token: tokens[i],
        from: this,
        to: player,
        amount: crate::opening::generic_in(ug, crate::types::UserToken { user: player, token: tokens[i] }),
    };
    if i == tokens.len() - 1 {
        assert(rest.push(call)[rest.len() as int] == call);
    } else {
        assert(tokens.drop_last()[i] == tokens[i]);
        lemma_generic_payouts_cover(ug, player, tokens.drop_last(), this, i);
        let j = choose|j: int| 0 <= j < rest.len() && rest[j] == call;
        let t = tokens.last();
        if crate::opening::generic_in(ug, crate::types::UserToken { user: player, token: t }) > 0 {
            assert(rest.push(crate::contract::TokenCall::Transfer {
                token: t,
                from: this,
                to: player,
                amount: crate::opening::generic_in(ug, crate::types::UserToken { user: player, token: t }),
            })[j] == call);
        }
    }
}

/// A successful claim pays `player` everything claimable: the TERRY is minted to them and
/// the POWER added, their claimable TERRY, POWER and XTAR drop to zero and leave the
/// vault's totals, the XTAR goes out in one transfer from `this` (when positive), and
/// each registered token they may claim goes out in one transfer of the whole amount and
/// is then zero.
pub proof fn law_claim_pays(s: LedgerV, player: AccountId, this: AccountId, now: u64)
    requires
        s.claim_err(player) is None,
    ensures
        ({
            let c = crate::opening::claimable_in(s.user_claimables, player);
            let t = s.claim_post(player, now);
            let calls = s.claim_calls(player, this);
            let left = crate::opening::claimable_in(t.user_claimables, player);
            &&& left.terry == 0 && left.power == 0 && left.xtar == 0
            &&& t.vault.total_claimable_terry == s.vault.total_claimable_terry - c.terry
            &&& t.vault.total_claimable_power == s.vault.total_claimable_power - c.power
            &&& t.vault.total_claimable_xtar == s.vault.total_claimable_xtar - c.xtar
            &&& t.user(player).terry == s.user(player).terry + (if c.terry > 0 { c.terry as int } else { 0 })
            &&& t.user(player).power == s.user(player).power + c.power
            &&& c.xtar > 0 ==> calls[0] == crate::contract::TokenCall::Transfer {
                token: s.config->0.xtar_token,
                from: this,
                to: player,
                amount: c.xtar,
            }
            &&& forall|i: int| 0 <= i < s.registered_tokens.len()
                && crate::opening::generic_in(s.user_generic_claimable, crate::types::UserToken { user: player, token: #[trigger] s.registered_tokens[i] }) > 0
                ==> calls.contains(crate::contract::TokenCall::Transfer {
                    token: s.registered_tokens[i],
                    from: this,
                    to: player,
                    amount: crate::opening::generic_in(s.user_generic_claimable, crate::types::UserToken { user: player, token: s.registered_tokens[i] }),
                }) && crate::opening::generic_in(t.user_generic_claimable, crate::types::UserToken { user: player, token: s.registered_tokens[i] }) == 0
        }),
{
    let c = crate::opening::claimable_in(s.user_claimables, player);
    let xs = if c.xtar > 0 {
        seq![crate::contract::TokenCall::Transfer { token: s.config->0.xtar_token, from: this, to: player, amount: c.xtar }]
    } else {
        Seq::empty()
    };
    let gp = crate::contract::generic_payouts(s.user_generic_claimable, player, s.registered_tokens, this);
    let calls = s.claim_calls(player, this);
    assert(calls == xs + gp);
    assert forall|i: int| 0 <= i < s.registered_tokens.len()
        && crate::opening::generic_in(s.user_generic_claimable, crate::types::UserToken { user: player, token: #[trigger] s.registered_tokens[i] }) > 0
        implies calls.contains(crate::contract::TokenCall::Transfer {
            token: s.registered_tokens[i],
            from: this,
            to: player,
            amount: crate::opening::generic_in(s.user_generic_claimable, crate::types::UserToken { user: player, token: s.registered_tokens[i] }),
        }) && crate::opening::generic_in(s.claim_post(player, now).user_generic_claimable, crate::types::UserToken { user: player, token: s.registered_tokens[i] }) == 0 by {
        lemma_generic_payouts_cover(s.user_generic_claimable, player, s.registered_tokens, this, i);
        let call = crate::contract::TokenCall::Transfer {
            token: s.registered_tokens[i],
            from: this,
            to: player,
            amount: crate::opening::generic_in(s.user_generic_claimable, crate::types::UserToken { user: player, token: s.registered_tokens[i] }),
        };
        let j = choose|j: int| 0 <= j < gp.len() && gp[j] == call;
        assert((xs + gp)[xs.len() + j] == call);
        assert(s.registered_tokens.contains(s.registered_tokens[i]));
    }
}

/// The sign of a fight's result follows its side: with a positive POWER-to-USDC rate, a
/// Long gains and a Short loses when the price rises above the trigger price (and the
/// other way round when it falls). So closing a Short above its trigger price never gives
/// the card back more than the staked POWER.
pub proof fn law_fight_side_sign(s: LedgerV, f: crate::fight::Fight, rate: i128, price: i128, user: AccountId, category: crate::types::Category, token_id: TokenId, now: u64)
    requires
        rate > 0,
        f.trigger_price > 0,
    ensures
        LedgerV::pnl_power_spec(f, rate, price) matches Ok(v) ==> {
            &&& (f.side_position == crate::fight::SidePosition::Long && price >= f.trigger_price ==> v >= 0)
            &&& (f.side_position == crate::fight::SidePosition::Long && price <= f.trigger_price ==> v <= 0)
            &&& (f.side_position == crate::fight::SidePosition::Short && price >= f.trigger_price ==> v <= 0)
            &&& (f.side_position == crate::fight::SidePosition::Short && price <= f.trigger_price ==> v >= 0)
        },
        ({
            let owner = s.owner_of(user);
            let key = ActionKey { owner: s.owner_of(owner), category, token_id };
            let g = s.fights.get(key)->0;
            let t = s.close_position_post(user, category, token_id, price, now);
            (s.close_position_err(user, category, token_id, price, now) is None
                && s.config->0.power_to_usdc_rate == rate
                && g == f
                && f.side_position == crate::fight::SidePosition::Short
                && price >= f.trigger_price)
                ==> (t.card(owner, token_id) matches Some(c) ==> c.power <= s.card(owner, token_id)->0.power + f.power)
        }),
{
    let size = crate::fight::position_size_spec(f.power, rate, f.leverage);
    assert(f.power * rate >= 0) by (nonlinear_arith)
        requires
            rate > 0,
            f.power >= 0,
    ;
    assert(trunc_div(f.power * rate, 10000) >= 0);
    assert(size >= 0) by (nonlinear_arith)
        requires
            size == trunc_div(f.power * rate, 10000) * f.leverage,
            trunc_div(f.power * rate, 10000) >= 0,
            f.leverage >= 0,
    ;
    if LedgerV::pnl_power_spec(f, rate, price) is Ok {
        let d = price - f.trigger_price;
        let prod = size * d;
        assert(d >= 0 ==> prod >= 0) by (nonlinear_arith)
            requires
                size >= 0,
                prod == size * d,
        ;
        assert(d <= 0 ==> prod <= 0) by (nonlinear_arith)
            requires
                size >= 0,
                prod == size * d,
        ;
        let raw = trunc_div(prod, f.trigger_price as int);
        lemma_trunc_div_sign(prod, f.trigger_price as int);
        let pnl = match f.side_position {
            crate::fight::SidePosition::Long => raw,
            crate::fight::SidePosition::Short => -raw,
        };
        assert(pnl >= 0 ==> pnl * 10000 >= 0) by (nonlinear_arith);
        assert(pnl <= 0 ==> pnl * 10000 <= 0) by (nonlinear_arith);
        lemma_trunc_div_sign(pnl * 10000, rate as int);
    }
}

/// Truncating division by a positive number keeps the sign.
proof fn lemma_trunc_div_sign(a: int, d: int)
    requires
        d > 0,
    ensures
        a >= 0 ==> trunc_div(a, d) >= 0,
        a <= 0 ==> trunc_div(a, d) <= 0,
{
    if a >= 0 {
        assert(a / d >= 0) by (nonlinear_arith)
            requires
                a >= 0,
                d > 0,
        ;
    } else {
        assert((-a) / d >= 0) by (nonlinear_arith)
            requires
                -a > 0,
                d > 0,
        ;
    }
}

/// Unstaking pays TERRY for the interest only: the player is minted exactly
/// `terry_per_power * (stake * rate / 100) + terry_per_stake`, and the card gets the stake
/// plus that interest back, unlocked.
pub proof fn law_unstake_pays_interest(s: LedgerV, user: AccountId, category: crate::types::Category, token_id: TokenId, now: u64)
    requires
        s.unstake_err(user, category, token_id, now) is None,
    ensures
        ({
            let owner = s.owner_of(user);
            let st = s.stakes.get(ActionKey { owner: s.owner_of(owner), category, token_id })->0;
            let c = s.config->0;
            let interest = st.power * st.interest_percentage / 100;
            let t = s.unstake_post(user, category, token_id, now);
            &&& t.user(owner).terry == s.user(owner).terry + c.terry_per_power * interest + c.terry_per_stake
            &&& t.card(owner, token_id) == Some(crate::types::Card {
                power: (s.card(owner, token_id)->0.power + st.power + interest) as u32,
                locked_by_action: crate::types::Action::Idle,
            })
        }),
{
}

/// Withdrawing a lending pays the lender the principal and the interest accrued: what the
/// card gains and what the house keeps as its fee add up to the principal plus the
/// interest, and the house keeps no more than the fee rate's share of the interest; where
/// the pool's interest covers it, the pool's interest drops by exactly that interest.
/// (Taken where the fee rate is at most 100% and the card does not reach `u32::MAX`.)
pub proof fn law_withdraw_pays_interest(s: LedgerV, user: AccountId, category: crate::types::Category, token_id: TokenId, now: u64)
    requires
        s.withdraw_err(user, category, token_id, now) is None,
        s.config->0.power_action_fee <= 100,
        ({
            let owner = s.owner_of(user);
            let l = s.lendings.get(ActionKey { owner: s.owner_of(owner), category, token_id })->0;
            let c = s.config->0;
            let st1 = crate::lending::accrue_spec(s.pool(now), now);
            let interest = crate::math::interest_spec(l.power as u64, crate::lending::pool_apy_spec(st1, c.apy_alpha) as u64,
                crate::math::sat_sub_spec(now as int, l.lent_at as int) as u64);
            s.card(owner, token_id)->0.power + l.power + interest <= u32::MAX
        }),
    ensures
        ({
            let owner = s.owner_of(user);
            let l = s.lendings.get(ActionKey { owner: s.owner_of(owner), category, token_id })->0;
            let c = s.config->0;
            let st1 = crate::lending::accrue_spec(s.pool(now), now);
            let interest = crate::math::interest_spec(l.power as u64, crate::lending::pool_apy_spec(st1, c.apy_alpha) as u64,
                crate::math::sat_sub_spec(now as int, l.lent_at as int) as u64);
            let t = s.withdraw_post(user, category, token_id, now);
            let card_gain = t.card(owner, token_id)->0.power - s.card(owner, token_id)->0.power;
            let house_gain = t.balance.haw_ai_power - s.balance.haw_ai_power;
            &&& t.card(owner, token_id) is Some
            &&& t.card(owner, token_id)->0.locked_by_action == crate::types::Action::Idle
            &&& card_gain + house_gain == l.power + interest
            &&& house_gain * 100 <= interest * c.power_action_fee
            &&& (st1.total_interest >= interest ==> t.pool(now).total_interest == st1.total_interest - interest)
        }),
{
    let owner = s.owner_of(user);
    let l = s.lendings.get(ActionKey { owner: s.owner_of(owner), category, token_id })->0;
    let c = s.config->0;
    let st1 = crate::lending::accrue_spec(s.pool(now), now);
    let apy = crate::lending::pool_apy_spec(st1, c.apy_alpha);
    let interest = crate::math::interest_spec(l.power as u64, apy as u64, crate::math::sat_sub_spec(now as int, l.lent_at as int) as u64);
    crate::math::law_interest_bounds(l.power as u64, apy as u64, crate::math::sat_sub_spec(now as int, l.lent_at as int) as u64, 0, 0, 0);
    let p = c.power_action_fee as int;
    let m = crate::math::sat_mul_u64_spec(interest, p);
    assert(interest * p <= interest * 100) by (nonlinear_arith)
        requires
            interest >= 0,
            0 <= p <= 100,
    ;
    assert(interest * p >= 0) by (nonlinear_arith)
        requires
            interest >= 0,
            p >= 0,
    ;
    assert(m <= interest * p);
    assert(m / 100 <= interest && m / 100 >= 0) by (nonlinear_arith)
        requires
            0 <= m <= interest * 100,
    ;
    assert((m / 100) * 100 <= m) by (nonlinear_arith)
        requires
            m >= 0,
    ;
}

/// The POWER of `owner`'s cards `ids`, added up.
pub open spec fn cards_power(s: LedgerV, owner: AccountId, ids: Seq<TokenId>) -> int
    decreases ids.len(),
{
    if ids.len() == 0 {
        0
    } else {
        cards_power(s, owner, ids.drop_last()) + s.card(owner, ids.last())->0.power
    }
}

/// The categories that a successful scan of a deck's cards collects are those of the
/// catalog entries of the cards, in order.
proof fn lemma_scan_categories(s: LedgerV, owner: AccountId, ids: Seq<TokenId>)
    requires
        crate::deck::totals_scan(s, owner, ids) is Ok,
    ensures
        ({
            let cats = crate::deck::totals_scan(s, owner, ids)->Ok_0.1;
            &&& crate::deck::totals_scan(s, owner, ids)->Ok_0.0 == cards_power(s, owner, ids)
            &&& cats.len() == ids.len()
            &&& forall|i: int| 0 <= i < ids.len() ==> #[trigger] cats[i] == s.metadata[ids[i].0].category
        }),
    decreases ids.len(),
{
    if ids.len() > 0 {
        lemma_scan_categories(s, owner, ids.drop_last());
        let prev = crate::deck::totals_scan(s, owner, ids.drop_last())->Ok_0.1;
        let cats = crate::deck::totals_scan(s, owner, ids)->Ok_0.1;
        assert forall|i: int| 0 <= i < ids.len() implies #[trigger] cats[i] == s.metadata[ids[i].0].category by {
            if i < ids.len() - 1 {
                assert(cats[i] == prev[i]);
                assert(ids.drop_last()[i] == ids[i]);
            }
        }
    }
}

/// The number of distinct values counted in order is the size of the set of values.
proof fn lemma_distinct_count_is_set_size(cats: Seq<crate::types::Category>)
    ensures
        crate::deck::distinct_count(cats) == cats.to_set().len(),
        cats.to_set().finite(),
    decreases cats.len(),
{
    broadcast use vstd::seq_lib::group_seq_properties;
    broadcast use vstd::set::group_set_axioms;
    if cats.len() == 0 {
        assert(cats.to_set() =~= Set::<crate::types::Category>::empty());
    } else {
        let d = cats.drop_last();
        lemma_distinct_count_is_set_size(d);
        assert(d.push(cats.last()) =~= cats);
        d.lemma_push_to_set_commute(cats.last());
        assert(d.contains(cats.last()) == d.to_set().contains(cats.last()));
    }
}

/// A complete deck's POWER is the sum of its cards' POWER, and its bonus goes by how many
/// distinct categories its cards span in the catalog: 5 percent for two, 10 for three, 25 for four, none for one; and its effective
/// power is its POWER raised by that bonus, rounded down.
pub proof fn law_deck_bonus(s: LedgerV, owner: AccountId, ids: Seq<TokenId>)
    requires
        ids.len() == 4,
        crate::deck::totals_scan(s, owner, ids) is Ok,
    ensures
        ({
            let cats = Seq::new(4, |i: int| s.metadata[ids[i].0].category).to_set();
            let n = cats.len();
            let expected: int = if n == 2 { 5 } else if n == 3 { 10 } else if n == 4 { 25 } else { 0 };
            let totals = s.deck_totals(owner, ids);
            &&& totals.0 == cards_power(s, owner, ids)
            &&& totals.2 == n
            &&& totals.1 == expected
            &&& crate::math::effective_power_spec(totals.0, totals.1) == ((totals.0 * (100 + expected)) / 100) as u32
        }),
{
    lemma_scan_categories(s, owner, ids);
    let scanned = crate::deck::totals_scan(s, owner, ids)->Ok_0.1;
    let listed = Seq::new(4, |i: int| s.metadata[ids[i].0].category);
    assert(scanned =~= listed);
    lemma_distinct_count_is_set_size(scanned);
    assert(listed.to_set().len() <= 4) by {
        vstd::seq_lib::seq_to_set_is_finite(listed);
        listed.lemma_cardinality_of_set();
    }
}

/// A player's share of an opened round is the snapshot's amount times their share in
/// basis points, rounded toward zero: for each of TERRY, POWER and XTAR the credit times
/// 10000 is within 10000 of `amount * share`, on the side of zero; a player without a
/// share in the round is not credited, and nobody else's claimable balance moves.
pub proof fn law_credit_is_share(
    uc: Map<AccountId, crate::types::UserClaimableBalance>,
    ug: Map<crate::types::UserToken, i128>,
    pr: Map<crate::types::RoundPlayer, crate::types::PlayerReward>,
    round: u32,
    snap: crate::types::PotSnapshotV,
    owner: AccountId,
)
    requires
        crate::opening::credit_one(uc, ug, pr, round, snap, owner) is Ok,
    ensures
        ({
            let uc2 = crate::opening::credit_one(uc, ug, pr, round, snap, owner)->Ok_0.0;
            let k = crate::types::RoundPlayer { round, player: owner };
            let before = crate::opening::claimable_in(uc, owner);
            let after = crate::opening::claimable_in(uc2, owner);
            let share = pr[k].share_percentage as int;
            let dt = after.terry - before.terry;
            let dp = after.power - before.power;
            let dx = after.xtar - before.xtar;
            &&& forall|o: AccountId| o != owner ==> #[trigger] crate::opening::claimable_in(uc2, o) == crate::opening::claimable_in(uc, o)
            &&& !pr.contains_key(k) ==> after == before
            &&& pr.contains_key(k) ==> {
                &&& (snap.total_terry >= 0 ==> 0 <= dt * 10000 <= snap.total_terry * share < dt * 10000 + 10000)
                &&& (snap.total_terry <= 0 ==> dt * 10000 - 10000 < snap.total_terry * share <= dt * 10000 <= 0)
                &&& 0 <= dp * 10000 <= snap.total_power * share < dp * 10000 + 10000
                &&& (snap.total_xtar >= 0 ==> 0 <= dx * 10000 <= snap.total_xtar * share < dx * 10000 + 10000)
                &&& (snap.total_xtar <= 0 ==> dx * 10000 - 10000 < snap.total_xtar * share <= dx * 10000 <= 0)
            }
        }),
{
    let k = crate::types::RoundPlayer { round, player: owner };
    if pr.contains_key(k) {
        let share = pr[k].share_percentage as int;
        lemma_trunc_div_bounds(snap.total_terry * share);
        lemma_trunc_div_bounds(snap.total_xtar * share);
        lemma_trunc_div_bounds(snap.total_power * share);
        assert(snap.total_terry >= 0 ==> snap.total_terry * share >= 0) by (nonlinear_arith)
            requires share >= 0;
        assert(snap.total_terry <= 0 ==> snap.total_terry * share <= 0) by (nonlinear_arith)
            requires share >= 0;
        assert(snap.total_xtar >= 0 ==> snap.total_xtar * share >= 0) by (nonlinear_arith)
            requires share >= 0;
        assert(snap.total_xtar <= 0 ==> snap.total_xtar * share <= 0) by (nonlinear_arith)
            requires share >= 0;
        assert(snap.total_power * share >= 0) by (nonlinear_arith)
            requires share >= 0, snap.total_power >= 0;
    }
}

/// Rounding toward zero after dividing by 10000.
proof fn lemma_trunc_div_bounds(a: int)
    ensures
        a >= 0 ==> 0 <= trunc_div(a, 10000) * 10000 <= a < trunc_div(a, 10000) * 10000 + 10000,
        a <= 0 ==> trunc_div(a, 10000) * 10000 - 10000 < a <= trunc_div(a, 10000) * 10000 <= 0,
        a >= 0 ==> trunc_div(a, 10000) == a / 10000,
{
    if a >= 0 {
        assert(0 <= (a / 10000) * 10000 <= a < (a / 10000) * 10000 + 10000) by (nonlinear_arith)
            requires a >= 0;
    } else {
        let b = -a;
        assert(0 <= (b / 10000) * 10000 <= b < (b / 10000) * 10000 + 10000) by (nonlinear_arith)
            requires b > 0;
    }
}

/// The TERRY that a run of credits adds to the claimable balances of `owners`.
pub open spec fn credited_terry(
    uc0: Map<AccountId, crate::types::UserClaimableBalance>,
    uc1: Map<AccountId, crate::types::UserClaimableBalance>,
    owners: Seq<AccountId>,
) -> int
    decreases owners.len(),
{
    if owners.len() == 0 {
        0
    } else {
        credited_terry(uc0, uc1, owners.drop_last())
            + crate::opening::claimable_in(uc1, owners.last()).terry
            - crate::opening::claimable_in(uc0, owners.last()).terry
    }
}

/// The shares in basis points that `owners` hold in `round`.
pub open spec fn shares_held(pr: Map<crate::types::RoundPlayer, crate::types::PlayerReward>, round: u32, owners: Seq<AccountId>) -> int
    decreases owners.len(),
{
    if owners.len() == 0 {
        0
    } else {
        let k = crate::types::RoundPlayer { round, player: owners.last() };
        shares_held(pr, round, owners.drop_last()) + if pr.contains_key(k) { pr[k].share_percentage as int } else { 0 }
    }
}

proof fn lemma_credited_depends_on_owners(
    uc0: Map<AccountId, crate::types::UserClaimableBalance>,
    x: Map<AccountId, crate::types::UserClaimableBalance>,
    y: Map<AccountId, crate::types::UserClaimableBalance>,
    owners: Seq<AccountId>,
)
    requires
        forall|i: int| 0 <= i < owners.len() ==> crate::opening::claimable_in(x, #[trigger] owners[i]) == crate::opening::claimable_in(y, owners[i]),
    ensures
        credited_terry(uc0, x, owners) == credited_terry(uc0, y, owners),
    decreases owners.len(),
{
    if owners.len() > 0 {
        let d = owners.drop_last();
        assert forall|i: int| 0 <= i < d.len() implies crate::opening::claimable_in(x, #[trigger] d[i]) == crate::opening::claimable_in(y, d[i]) by {
            assert(d[i] == owners[i]);
        }
        lemma_credited_depends_on_owners(uc0, x, y, d);
        assert(owners[owners.len() - 1] == owners.last());
    }
}

proof fn lemma_credit_fold_frame(
    uc: Map<AccountId, crate::types::UserClaimableBalance>,
    ug: Map<crate::types::UserToken, i128>,
    pr: Map<crate::types::RoundPlayer, crate::types::PlayerReward>,
    round: u32,
    snap: crate::types::PotSnapshotV,
    owners: Seq<AccountId>,
    x: AccountId,
)
    requires
        crate::opening::credit_fold(uc, ug, pr, round, snap, owners) is Ok,
        !owners.contains(x),
    ensures
        crate::opening::claimable_in(crate::opening::credit_fold(uc, ug, pr, round, snap, owners)->Ok_0.0, x)
            == crate::opening::claimable_in(uc, x),
    decreases owners.len(),
{
    if owners.len() > 0 {
        let d = owners.drop_last();
        assert forall|i: int| 0 <= i < d.len() implies d[i] != x by {
            assert(d[i] == owners[i]);
        }
        assert(!d.contains(x));
        lemma_credit_fold_frame(uc, ug, pr, round, snap, d, x);
        let acc = crate::opening::credit_fold(uc, ug, pr, round, snap, d)->Ok_0;
        assert(owners[owners.len() - 1] == owners.last());
        law_credit_is_share(acc.0, acc.1, pr, round, snap, owners.last());
    }
}

/// Crediting an opened round to distinct players never pays out more TERRY than their
/// shares of the pot: the TERRY added to all their claimable balances together, times
/// 10000, is at most the snapshot's TERRY times the shares they hold; so when those shares
/// make at most the whole (10000 basis points), the players together get at most the
/// pot's TERRY.
pub proof fn law_credits_within_pot(
    uc: Map<AccountId, crate::types::UserClaimableBalance>,
    ug: Map<crate::types::UserToken, i128>,
    pr: Map<crate::types::RoundPlayer, crate::types::PlayerReward>,
    round: u32,
    snap: crate::types::PotSnapshotV,
    owners: Seq<AccountId>,
)
    requires
        owners.no_duplicates(),
        snap.total_terry >= 0,
        crate::opening::credit_fold(uc, ug, pr, round, snap, owners) is Ok,
    ensures
        ({
            let uc1 = crate::opening::credit_fold(uc, ug, pr, round, snap, owners)->Ok_0.0;
            &&& credited_terry(uc, uc1, owners) * 10000 <= snap.total_terry * shares_held(pr, round, owners)
            &&& shares_held(pr, round, owners) <= 10000 ==> credited_terry(uc, uc1, owners) <= snap.total_terry
        }),
    decreases owners.len(),
{
    let uc1 = crate::opening::credit_fold(uc, ug, pr, round, snap, owners)->Ok_0.0;
    if owners.len() > 0 {
        let d = owners.drop_last();
        let o = owners.last();
        assert(d.no_duplicates()) by {
            assert forall|i: int, j: int| 0 <= i < d.len() && 0 <= j < d.len() && i != j implies d[i] != d[j] by {
                assert(d[i] == owners[i] && d[j] == owners[j]);
            }
        }
        assert(!d.contains(o)) by {
            if d.contains(o) {
                let j = choose|j: int| 0 <= j < d.len() && d[j] == o;
                assert(owners[j] == owners[owners.len() - 1]);
            }
        }
        lemma_shares_held_nonneg(pr, round, d);
        law_credits_within_pot(uc, ug, pr, round, snap, d);
        let acc = crate::opening::credit_fold(uc, ug, pr, round, snap, d)->Ok_0;
        law_credit_is_share(acc.0, acc.1, pr, round, snap, o);
        lemma_credit_fold_frame(uc, ug, pr, round, snap, d, o);
        assert forall|i: int| 0 <= i < d.len() implies crate::opening::claimable_in(uc1, #[trigger] d[i]) == crate::opening::claimable_in(acc.0, d[i]) by {
            assert(d[i] != o) by {
                assert(d.contains(d[i]));
            }
        }
        lemma_credited_depends_on_owners(uc, uc1, acc.0, d);
        let k = crate::types::RoundPlayer { round, player: o };
        let delta = crate::opening::claimable_in(uc1, o).terry - crate::opening::claimable_in(uc, o).terry;
        let sh: int = if pr.contains_key(k) { pr[k].share_percentage as int } else { 0 };
        assert(delta * 10000 <= snap.total_terry * sh);
        let cp = credited_terry(uc, acc.0, d);
        assert(credited_terry(uc, uc1, owners) == cp + delta);
        assert(shares_held(pr, round, owners) == shares_held(pr, round, d) + sh);
        assert((cp + delta) * 10000 <= snap.total_terry * (shares_held(pr, round, d) + sh)) by (nonlinear_arith)
            requires
                cp * 10000 <= snap.total_terry * shares_held(pr, round, d),
                delta * 10000 <= snap.total_terry * sh;
    }
    lemma_shares_held_nonneg(pr, round, owners);
    let c = credited_terry(uc, uc1, owners);
    let h = shares_held(pr, round, owners);
    assert(h <= 10000 ==> c <= snap.total_terry) by (nonlinear_arith)
        requires
            c * 10000 <= snap.total_terry * h,
            snap.total_terry >= 0,
            h >= 0;
}

proof fn lemma_shares_held_nonneg(pr: Map<crate::types::RoundPlayer, crate::types::PlayerReward>, round: u32, owners: Seq<AccountId>)
    ensures
        shares_held(pr, round, owners) >= 0,
    decreases owners.len(),
{
    if owners.len() > 0 {
        lemma_shares_held_nonneg(pr, round, owners.drop_last());
    }
}

/// Truncating division by a positive number keeps the order.
proof fn lemma_trunc_div_mono(a1: int, a2: int, d: int)
    requires
        d > 0,
        a1 <= a2,
    ensures
        trunc_div(a1, d) <= trunc_div(a2, d),
{
    lemma_trunc_div_sign(a1, d);
    lemma_trunc_div_sign(a2, d);
    if a1 >= 0 {
        assert(a1 / d <= a2 / d) by (nonlinear_arith)
            requires
                0 <= a1 <= a2,
                d > 0,
        ;
    } else if a2 <= 0 {
        assert((-a2) / d <= (-a1) / d) by (nonlinear_arith)
            requires
                0 <= -a2 <= -a1,
                d > 0,
        ;
    }
}

/// A fight's result moves with the closing price: with a positive POWER-to-USDC rate, a
/// Long's result never falls and a Short's never rises as the price goes up.
pub proof fn law_fight_result_monotone(f: crate::fight::Fight, rate: i128, p1: i128, p2: i128)
    requires
        rate > 0,
        f.trigger_price > 0,
        p1 <= p2,
        LedgerV::pnl_power_spec(f, rate, p1) is Ok,
        LedgerV::pnl_power_spec(f, rate, p2) is Ok,
    ensures
        ({
            let v1 = LedgerV::pnl_power_spec(f, rate, p1)->Ok_0;
            let v2 = LedgerV::pnl_power_spec(f, rate, p2)->Ok_0;
            &&& f.side_position == crate::fight::SidePosition::Long ==> v1 <= v2
            &&& f.side_position == crate::fight::SidePosition::Short ==> v1 >= v2
        }),
{
    let size = crate::fight::position_size_spec(f.power, rate, f.leverage);
    assert(f.power * rate >= 0) by (nonlinear_arith)
        requires
            rate > 0,
            f.power >= 0,
    ;
    lemma_trunc_div_sign(f.power * rate, 10000);
    assert(size >= 0) by (nonlinear_arith)
        requires
            size == trunc_div(f.power * rate, 10000) * f.leverage,
            trunc_div(f.power * rate, 10000) >= 0,
            f.leverage >= 0,
    ;
    let t = f.trigger_price as int;
    assert(size * (p1 - t) <= size * (p2 - t)) by (nonlinear_arith)
        requires
            size >= 0,
            p1 <= p2,
    ;
    lemma_trunc_div_mono(size * (p1 - t), size * (p2 - t), t);
    let r1 = trunc_div(size * (p1 - t), t);
    let r2 = trunc_div(size * (p2 - t), t);
    assert(r1 * 10000 <= r2 * 10000) by (nonlinear_arith)
        requires
            r1 <= r2,
    ;
    assert((-r2) * 10000 <= (-r1) * 10000) by (nonlinear_arith)
        requires
            r1 <= r2,
    ;
    lemma_trunc_div_mono(r1 * 10000, r2 * 10000, rate as int);
    lemma_trunc_div_mono((-r2) * 10000, (-r1) * 10000, rate as int);
}

/// When a deck is set to four cards (as the fourth card is placed), the stored deck carries
/// the cards' summed POWER, the number of distinct categories and the matching bonus (5,
/// 10 or 25 percent for two, three or four categories); and when the deck was not
/// complete before, the total effective deck power grows by the POWER raised by that
/// bonus (rounded down, capped at `u32::MAX`).
pub proof fn law_complete_deck_bonus(s: LedgerV, owner: AccountId, deck: crate::types::DeckV, ids: Seq<TokenId>)
    requires
        ids.len() == 4,
        crate::deck::totals_scan(s, owner, ids) is Ok,
    ensures
        ({
            let n = Seq::new(4, |i: int| s.metadata[ids[i].0].category).to_set().len();
            let expected: int = if n == 2 { 5 } else if n == 3 { 10 } else if n == 4 { 25 } else { 0 };
            let power = cards_power(s, owner, ids);
            let (t, d) = s.deck_update_post(owner, deck, ids);
            &&& d.token_ids == ids
            &&& d.total_power == power
            &&& d.deck_categories == n
            &&& d.bonus == expected
            &&& deck.token_ids.len() != 4 ==> t.total_effective_deck_power == crate::math::min_int(
                s.total_effective_deck_power + ((power * (100 + expected)) / 100) as u32,
                u32::MAX as int,
            )
        }),
{
    law_deck_bonus(s, owner, ids);
}

/// The size of a fight's result: with a positive rate, the position's size is the staked
/// POWER in USDC (`power * rate / 10000`) times the leverage, and a Long closing at or
/// above its trigger price earns, in POWER, the size's relative gain converted back at the
/// rate, rounded down: `pnl * rate * trigger <= size * (price - trigger) * 10000 <
/// (pnl + 1) * rate * trigger + 10000 * trigger`.
pub proof fn law_fight_result_size(f: crate::fight::Fight, rate: i128, price: i128)
    requires
        rate > 0,
        f.trigger_price > 0,
        price >= f.trigger_price,
        f.side_position == crate::fight::SidePosition::Long,
        LedgerV::pnl_power_spec(f, rate, price) is Ok,
    ensures
        ({
            let v = LedgerV::pnl_power_spec(f, rate, price)->Ok_0;
            let size = ((f.power * rate) / 10000) * f.leverage;
            let t = f.trigger_price as int;
            let gain = size * (price - t) * 10000;
            &&& v * rate * t <= gain
            &&& gain < (v + 1) * rate * t + 10000 * t
        }),
{
    let t = f.trigger_price as int;
    let pr = f.power * rate;
    assert(pr >= 0) by (nonlinear_arith)
        requires
            rate > 0,
            f.power >= 0,
            pr == f.power * rate,
    ;
    let size = (pr / 10000) * f.leverage;
    assert(size >= 0) by (nonlinear_arith)
        requires
            pr >= 0,
            f.leverage >= 0,
            size == (pr / 10000) * f.leverage,
    ;
    assert(crate::fight::position_size_spec(f.power, rate, f.leverage) == size);
    let num = size * (price - t);
    assert(num >= 0) by (nonlinear_arith)
        requires
            size >= 0,
            price >= t,
            num == size * (price - t),
    ;
    let raw = num / t;
    assert(raw * t <= num < raw * t + t && raw >= 0) by (nonlinear_arith)
        requires
            num >= 0,
            t > 0,
            raw == num / t,
    ;
    assert(trunc_div(num, t) == raw);
    let r10 = raw * 10000;
    let v = r10 / (rate as int);
    assert(v * rate <= r10 < v * rate + rate && v >= 0) by (nonlinear_arith)
        requires
            r10 >= 0,
            rate > 0,
            v == r10 / (rate as int),
            r10 == raw * 10000,
            raw >= 0,
    ;
    assert(trunc_div(r10, rate as int) == v);
    assert(v * rate * t <= num * 10000) by (nonlinear_arith)
        requires
            v * rate <= raw * 10000,
            raw * t <= num,
            t > 0,
    ;
    assert(num * 10000 < (v + 1) * rate * t + 10000 * t) by (nonlinear_arith)
        requires
            raw * 10000 < v * rate + rate,
            num < raw * t + t,
            t > 0,
    ;
    assert(size * (price - t) * 10000 == num * 10000);
}

/// Closing a fight splits the stake and its result between the card and the house
/// without loss: the card gains the stake plus the result less the house's cut, the
/// house's POWER grows by that cut, which is nothing on a loss and at most the house's
/// percentage of a gain. (Taken where the card keeps some POWER, stays under its maximum,
/// and the house's percentage is at most 100.)
pub proof fn law_close_splits_result(s: LedgerV, user: AccountId, category: crate::types::Category, token_id: TokenId, price: i128, now: u64)
    requires
        s.close_position_err(user, category, token_id, price, now) is None,
        s.config->0.haw_ai_percentage <= 100,
        ({
            let owner = s.owner_of(user);
            let f = s.fights.get(ActionKey { owner: s.owner_of(owner), category, token_id })->0;
            let pnl = LedgerV::pnl_power_spec(f, s.config->0.power_to_usdc_rate, price)->Ok_0;
            &&& f.power + pnl > 0
            &&& s.card(owner, token_id)->0.power + f.power > 0
            &&& s.card(owner, token_id)->0.power + f.power + pnl <= s.metadata[token_id.0].max_power
        }),
    ensures
        ({
            let owner = s.owner_of(user);
            let f = s.fights.get(ActionKey { owner: s.owner_of(owner), category, token_id })->0;
            let c = s.config->0;
            let pnl = LedgerV::pnl_power_spec(f, c.power_to_usdc_rate, price)->Ok_0;
            let t = s.close_position_post(user, category, token_id, price, now);
            let card_gain = t.card(owner, token_id)->0.power - s.card(owner, token_id)->0.power;
            let house_gain = t.balance.haw_ai_power - s.balance.haw_ai_power;
            &&& t.card(owner, token_id) is Some
            &&& t.card(owner, token_id)->0.locked_by_action == crate::types::Action::Idle
            &&& card_gain + house_gain == f.power + pnl
            &&& pnl <= 0 ==> house_gain == 0
            &&& pnl > 0 ==> 0 <= house_gain * 100 <= pnl * c.haw_ai_percentage
        }),
{
    let owner = s.owner_of(user);
    let f = s.fights.get(ActionKey { owner: s.owner_of(owner), category, token_id })->0;
    let c = s.config->0;
    let pnl = LedgerV::pnl_power_spec(f, c.power_to_usdc_rate, price)->Ok_0;
    if pnl > 0 {
        let m = pnl * c.haw_ai_percentage;
        assert(0 <= m <= pnl * 100) by (nonlinear_arith)
            requires
                pnl > 0,
                0 <= c.haw_ai_percentage <= 100,
                m == pnl * c.haw_ai_percentage,
        ;
        assert(0 <= m / 100 <= pnl && (m / 100) * 100 <= m) by (nonlinear_arith)
            requires
                0 <= m <= pnl * 100,
        ;
        assert(trunc_div(m, 100) == m / 100);
    }
    let nft = s.card(owner, token_id)->0;
    let profit = if pnl > 0 { trunc_div(pnl * c.haw_ai_percentage, 100) } else { 0 };
    let to_user = pnl - profit;
    assert(f.power + to_user > 0 || (pnl > 0 && f.power + to_user >= 0));
    let stake_after = crate::math::max_int(f.power + to_user, 0);
    assert(stake_after == f.power + to_user);
    let final_i = nft.power + stake_after;
    assert(0 < final_i <= s.metadata[token_id.0].max_power);
    let t = s.close_position_post(user, category, token_id, price, now);
    assert(t.card(owner, token_id) == Some(crate::types::Card { power: final_i as u32, locked_by_action: crate::types::Action::Idle }));
    assert(t.balance.haw_ai_power == s.balance.haw_ai_power + profit);
}

/// Staking moves the card's whole POWER out without loss: the stake and the house's fee
/// add up to what the card held, the fee is the fee percentage of it (rounded down), the
/// card is left locked with no POWER, and the stake keeps the period and interest rate at
/// the chosen index of the configuration, from now.
pub proof fn law_stake_conserves(s: LedgerV, user: AccountId, category: crate::types::Category, token_id: TokenId, period_index: u32, now: u64)
    requires
        forall|a: AccountId| s.users.contains_key(a) ==> (#[trigger] s.users[a]).owner == a,
        s.stake_err(user, category, token_id, period_index, now) is None,
    ensures
        ({
            let c = s.config->0;
            let p0 = s.card(user, token_id)->0.power;
            let t = s.stake_post(user, category, token_id, period_index, now);
            let st = t.stakes.get(ActionKey { owner: user, category, token_id })->0;
            let fee = t.balance.haw_ai_power - s.balance.haw_ai_power;
            &&& t.stakes.get(ActionKey { owner: user, category, token_id }) is Some
            &&& st.power + fee == p0
            &&& fee * 100 <= c.power_action_fee * p0 < fee * 100 + 100
            &&& t.card(user, token_id) == Some(crate::types::Card { power: 0, locked_by_action: crate::types::Action::Stake })
            &&& st.period == c.stake_periods@[period_index as int]
            &&& st.interest_percentage == c.stake_interest_percentages@[period_index as int]
            &&& st.staked_time == now
            &&& t.pool(now).total_staked_power == s.pool(now).total_staked_power + st.power
        }),
{
    let c = s.config->0;
    let p0 = s.card(user, token_id)->0.power;
    let m = c.power_action_fee * p0;
    assert(m >= 0) by (nonlinear_arith)
        requires
            m == c.power_action_fee * p0,
            p0 >= 0,
    ;
    assert((m / 100) * 100 <= m < (m / 100) * 100 + 100) by (nonlinear_arith)
        requires
            m >= 0,
    ;
    assert(s.owner_of(user) == user);
    let t = s.stake_post(user, category, token_id, period_index, now);
    assert(t.owner_of(user) == user);
}

/// Staking and then unstaking once the period is over gives the card back what it held,
/// less the staking fee, plus the interest on the stake: the card ends unlocked at
/// `p0 - fee + (p0 - fee) * rate / 100`, and the stake is gone.
pub proof fn law_stake_then_unstake(s: LedgerV, user: AccountId, category: crate::types::Category, token_id: TokenId, period_index: u32, now: u64, later: u64)
    requires
        forall|a: AccountId| s.users.contains_key(a) ==> (#[trigger] s.users[a]).owner == a,
        s.stake_err(user, category, token_id, period_index, now) is None,
        s.stake_post(user, category, token_id, period_index, now).unstake_err(user, category, token_id, later) is None,
    ensures
        ({
            let c = s.config->0;
            let p0 = s.card(user, token_id)->0.power;
            let fee = c.power_action_fee * p0 / 100;
            let staked = p0 - fee;
            let rate = c.stake_interest_percentages@[period_index as int];
            let t = s.stake_post(user, category, token_id, period_index, now).unstake_post(user, category, token_id, later);
            &&& t.card(user, token_id) == Some(crate::types::Card {
                power: (staked + staked * rate / 100) as u32,
                locked_by_action: crate::types::Action::Idle,
            })
            &&& t.stakes.get(ActionKey { owner: user, category, token_id }) is None
        }),
{
    law_stake_conserves(s, user, category, token_id, period_index, now);
    let m = s.stake_post(user, category, token_id, period_index, now);
    assert(m.owner_of(user) == user);
}

/// Minting a card is paid in full and nothing is lost: the new card holds its kind's
/// initial POWER, unlocked; paid in TERRY, the player's TERRY drops by the price and the
/// administrator, the pot and the Dogstar fee together gain exactly the price; paid in
/// XTAR, the XTAR burned and the XTAR moved to the contract add up to the price, both
/// taken from the player.
pub proof fn law_mint_conserves(s: LedgerV, user: AccountId, token_id: TokenId, card_level: u32, currency: crate::types::Currency, this: AccountId, now: u64)
    requires
        forall|a: AccountId| s.users.contains_key(a) ==> (#[trigger] s.users[a]).owner == a,
        s.mint_err(user, token_id, card_level, currency) is None,
    ensures
        ({
            let meta = s.metadata[token_id.0];
            let t = s.mint_post(user, token_id, currency, now);
            let calls = s.mint_calls(user, token_id, currency, this);
            &&& t.card(user, token_id) == Some(crate::types::Card { power: meta.initial_power, locked_by_action: crate::types::Action::Idle })
            &&& currency == crate::types::Currency::Terry ==> {
                &&& t.user(user).terry == s.user(user).terry - meta.price_terry
                &&& (t.balance.admin_terry - s.balance.admin_terry)
                    + (t.pot(now).accumulated_terry - s.pot(now).accumulated_terry)
                    + (t.vault.dogstar_terry - s.vault.dogstar_terry) == meta.price_terry
            }
            &&& currency == crate::types::Currency::Xtar ==> {
                &&& calls.len() == 2
                &&& calls[0] matches crate::contract::TokenCall::Burn { token: _, from: b_from, amount: b } && b_from == user
                &&& calls[1] matches crate::contract::TokenCall::Transfer { token: _, from: t_from, to: t_to, amount: m }
                    && t_from == user && t_to == this
                &&& (calls[0]->Burn_amount + calls[1]->Transfer_amount) == meta.price_xtar
            }
        }),
{
    assert(s.owner_of(user) == user);
    let c = s.config->0;
    let meta = s.metadata[token_id.0];
    if currency == crate::types::Currency::Terry {
        let amount = meta.price_terry;
        let w = trunc_div(c.withdrawable_percentage * amount, 100);
        let s1 = s.put_card(user, token_id, crate::types::Card { power: meta.initial_power, locked_by_action: crate::types::Action::Idle })
            .add_owned(user, token_id);
        let t1 = s1.burn_terry_post(user, amount);
        let t2 = t1.with_balance(crate::types::Balance { admin_terry: (t1.balance.admin_terry + w) as i128, ..t1.balance });
        assert(t2.accumulate_err((amount - w) as i128, 0, 0) == s.accumulate_err((amount - w) as i128, 0, 0));
        law_accumulate_conserves(t2, (amount - w) as i128, 0, 0, Some(user), Some(crate::types::Action::Mint), now);
    }
}

/// Burning a card hands out its value without loss: the player and the pot (with the
/// Dogstar fee) together get exactly the card's TERRY value, half its kind's TERRY price
/// per whole initial POWER it holds, and exactly its POWER value, its kind's initial POWER
/// plus half the card's; and the card is gone. (Taken where the burn percentage is at most
/// 100.)
pub proof fn law_burn_conserves(s: LedgerV, user: AccountId, token_id: TokenId, now: u64)
    requires
        s.burn_err(user, token_id) is None,
        s.config->0.burn_receive_percentage <= 100,
    ensures
        ({
            let meta = s.metadata[token_id.0];
            let p = s.card(user, token_id)->0.power;
            let t = s.burn_post(user, token_id, now);
            &&& (t.user(user).terry - s.user(user).terry)
                + (t.pot(now).accumulated_terry - s.pot(now).accumulated_terry)
                + (t.vault.dogstar_terry - s.vault.dogstar_terry) == trunc_div(meta.price_terry * (p / meta.initial_power), 2)
            &&& (t.user(user).power - s.user(user).power)
                + (t.pot(now).accumulated_power - s.pot(now).accumulated_power)
                + (t.vault.dogstar_power - s.vault.dogstar_power) == meta.initial_power + p / 2
            &&& t.card(user, token_id) is None
        }),
{
    let c = s.config->0;
    let nft = s.card(user, token_id)->0;
    let meta = s.metadata[token_id.0];
    let pct = c.burn_receive_percentage;
    let value = LedgerV::burn_terry_value(meta.price_terry, nft.power, meta.initial_power);
    let receive = trunc_div(value * pct, 100);
    let total_power = meta.initial_power + nft.power / 2;
    let receive_power = (total_power * pct) / 100;
    assert(0 <= receive_power <= total_power) by (nonlinear_arith)
        requires
            receive_power == (total_power * pct) / 100,
            total_power >= 0,
            0 <= pct <= 100,
    ;
    let u = s.user(user);
    let s1 = s.put_user(user, crate::types::User {
        power: (u.power + (receive_power as u32)) as u32,
        terry: (u.terry + receive) as i128,
        total_history_terry: (u.total_history_terry + receive) as i128,
        ..u
    });
    assert(s1.accumulate_err((value - receive) as i128, (total_power - receive_power) as u32, 0)
        == s.accumulate_err((value - receive) as i128, (total_power - receive_power) as u32, 0));
    law_accumulate_conserves(s1, (value - receive) as i128, (total_power - receive_power) as u32, 0, Some(user), Some(crate::types::Action::Burn), now);
}

/// Adding POWER to a stake moves it without loss: what the card gives up is split between
/// the stake and the house's fee (the fee percentage of the increase, rounded down); the
/// card stays locked by the stake.
pub proof fn law_increase_stake_conserves(s: LedgerV, user: AccountId, category: crate::types::Category, token_id: TokenId, increase: u32)
    requires
        forall|a: AccountId| s.users.contains_key(a) ==> (#[trigger] s.users[a]).owner == a,
        s.increase_stake_err(user, category, token_id, increase) is None,
    ensures
        ({
            let c = s.config->0;
            let key = ActionKey { owner: user, category, token_id };
            let t = s.increase_stake_post(user, category, token_id, increase);
            let card_loss = s.card(user, token_id)->0.power - t.card(user, token_id)->0.power;
            let stake_gain = t.stakes.get(key)->0.power - s.stakes.get(key)->0.power;
            let fee = t.balance.haw_ai_power - s.balance.haw_ai_power;
            &&& card_loss == increase
            &&& stake_gain + fee == increase
            &&& fee * 100 <= c.power_action_fee * increase < fee * 100 + 100
            &&& t.card(user, token_id)->0.locked_by_action == crate::types::Action::Stake
        }),
{
    assert(s.owner_of(user) == user);
    let c = s.config->0;
    let m = c.power_action_fee * increase;
    assert(m >= 0) by (nonlinear_arith)
        requires
            m == c.power_action_fee * increase,
    ;
    assert((m / 100) * 100 <= m < (m / 100) * 100 + 100) by (nonlinear_arith)
        requires
            m >= 0,
    ;
    let t = s.increase_stake_post(user, category, token_id, increase);
    assert(t.owner_of(user) == user);
}

/// Lending moves POWER from the card into the pool without loss: the card gives up the
/// amount lent, which the pool's supply and the house's fee share between them, the fee
/// being at most the fee percentage of it; the card is locked
/// by the lending, which records the supplied amount.
pub proof fn law_lend_conserves(s: LedgerV, user: AccountId, category: crate::types::Category, token_id: TokenId, power: u32, now: u64)
    requires
        forall|a: AccountId| s.users.contains_key(a) ==> (#[trigger] s.users[a]).owner == a,
        s.lend_err(user, category, token_id, power, now) is None,
        s.config->0.power_action_fee <= 100,
    ensures
        ({
            let c = s.config->0;
            let t = s.lend_post(user, category, token_id, power, now);
            let card_loss = s.card(user, token_id)->0.power - t.card(user, token_id)->0.power;
            let supply_gain = t.pool(now).total_offer - s.pool(now).total_offer;
            let fee = t.balance.haw_ai_power - s.balance.haw_ai_power;
            &&& card_loss == power
            &&& supply_gain + fee == power
            &&& fee * 100 <= power * c.power_action_fee
            &&& t.card(user, token_id)->0.locked_by_action == crate::types::Action::Lend
            &&& t.lendings.get(ActionKey { owner: user, category, token_id })->0.power == supply_gain
        }),
{
    assert(s.owner_of(user) == user);
    let c = s.config->0;
    let m = power * c.power_action_fee;
    assert(0 <= m <= power * 100) by (nonlinear_arith)
        requires
            m == power * c.power_action_fee,
            c.power_action_fee <= 100,
    ;
    assert((m / 100) * 100 <= m < (m / 100) * 100 + 100 && m / 100 <= power) by (nonlinear_arith)
        requires
            0 <= m <= power * 100,
    ;
    let mm = crate::math::min_int(m, u32::MAX as int);
    assert(0 <= mm <= m);
    assert((mm / 100) * 100 <= mm && mm / 100 <= m / 100) by (nonlinear_arith)
        requires
            0 <= mm <= m,
    ;
    let t = s.lend_post(user, category, token_id, power, now);
    assert(t.owner_of(user) == user);
}

/// Borrowing hands the player the net POWER out of the pool and charges the card the fee:
/// the player's POWER grows by the net, the pool's supply shrinks and its borrowed POWER
/// grows by the same net, the house gains the fee taken from the card, net and fee add up
/// to the POWER asked for, and the card is locked by the borrowing.
pub proof fn law_borrow_conserves(s: LedgerV, user: AccountId, category: crate::types::Category, token_id: TokenId, power: u32, now: u64)
    requires
        forall|a: AccountId| s.users.contains_key(a) ==> (#[trigger] s.users[a]).owner == a,
        s.borrow_err(user, category, token_id, power, now) is None,
        s.config->0.power_action_fee <= 100,
        s.pool(now).total_borrowed_power + power <= u64::MAX,
    ensures
        ({
            let t = s.borrow_post(user, category, token_id, power, now);
            let net = t.user(user).power - s.user(user).power;
            let fee = t.balance.haw_ai_power - s.balance.haw_ai_power;
            &&& net + fee == power
            &&& s.pool(now).total_offer - t.pool(now).total_offer == net
            &&& t.pool(now).total_borrowed_power - s.pool(now).total_borrowed_power == net
            &&& s.card(user, token_id)->0.power - t.card(user, token_id)->0.power == fee
            &&& t.card(user, token_id)->0.locked_by_action == crate::types::Action::Borrow
        }),
{
    assert(s.owner_of(user) == user);
    let c = s.config->0;
    let m = power * c.power_action_fee;
    assert(0 <= m <= power * 100) by (nonlinear_arith)
        requires
            m == power * c.power_action_fee,
            c.power_action_fee <= 100,
    ;
    assert(m / 100 <= power) by (nonlinear_arith)
        requires
            0 <= m <= power * 100,
    ;
    let mm = crate::math::min_int(m, u32::MAX as int);
    assert(0 <= mm <= m);
    assert((mm / 100) * 100 <= mm && mm / 100 <= m / 100) by (nonlinear_arith)
        requires
            0 <= mm <= m,
    ;
    let t = s.borrow_post(user, category, token_id, power, now);
    assert(t.owner_of(user) == user);
}

} // verus!
