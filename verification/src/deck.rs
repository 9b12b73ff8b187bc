//! Decks: up to four cards a player locks together. A complete deck of four
//! earns a bonus by its number of distinct categories, and its effective power
//! is its claim on the pot.
use vstd::prelude::*;
use crate::types::{AccountId, Action, Balance, Card, CardKey, Category, Deck, DeckKey, DeckV, TokenId};
use crate::error::NFTError;
use crate::event::{Event, Step};
use crate::ledger::{Ledger, LedgerV, lemma_owner_of_self};
use crate::deck_book::{deck_ok, with_pct, DeckBook};
use crate::math::{
    fits_u32, min_int, sat_sub_spec, effective_power_spec, calculate_effective_power, deck_bonus_spec,
    deck_bonus,
};

verus! {

/// The deck of a player who never had one.
pub open spec fn empty_deck(owner: AccountId) -> DeckV {
    DeckV { owner, haw_ai_percentage: 0, total_power: 0, bonus: 0, deck_categories: 0, token_ids: Seq::empty() }
}

/// The total POWER and the categories of the cards `ids`, read in order; `Err` at the
/// first card or catalog entry that is missing, or where the total overflows.
pub open spec fn totals_scan(s: LedgerV, owner: AccountId, ids: Seq<TokenId>) -> Result<(int, Seq<Category>), NFTError>
    decreases ids.len(),
{
    if ids.len() == 0 {
        Ok((0, Seq::empty()))
    } else {
        match totals_scan(s, owner, ids.drop_last()) {
            Err(e) => Err(e),
            Ok(acc) => match s.card(owner, ids.last()) {
                None => Err(NFTError::NotNFT),
                Some(c) => if !s.metadata.contains_key(ids.last().0) {
                    Err(NFTError::MetadataMissing)
                } else if !fits_u32(acc.0 + c.power) {
                    Err(NFTError::Overflow)
                } else {
                    Ok((acc.0 + c.power, acc.1.push(s.metadata[ids.last().0].category)))
                },
            },
        }
    }
}

/// How many distinct categories `cats` holds.
pub open spec fn distinct_count(cats: Seq<Category>) -> int
    decreases cats.len(),
{
    if cats.len() == 0 {
        0
    } else {
        distinct_count(cats.drop_last()) + if cats.drop_last().contains(cats.last()) { 0int } else { 1int }
    }
}

/// Why a card `id` cannot join (or stay in) a deck that held `old_ids`: it must exist,
/// be locked by the deck if it was there, and be free if it is new.
pub open spec fn joining_err(s: LedgerV, owner: AccountId, old_ids: Seq<TokenId>, id: TokenId) -> Option<NFTError> {
    match s.card(owner, id) {
        None => Some(NFTError::NotNFT),
        Some(c) => if old_ids.contains(id) {
            if c.locked_by_action != Action::Deck { Some(NFTError::WrongLock) } else { None }
        } else {
            if c.locked_by_action != Action::Idle { Some(NFTError::CardLocked) } else { None }
        },
    }
}

/// The first refusal among the cards `ids` joining a deck that held `old_ids`.
pub open spec fn joining_scan(s: LedgerV, owner: AccountId, old_ids: Seq<TokenId>, ids: Seq<TokenId>) -> Option<NFTError>
    decreases ids.len(),
{
    if ids.len() == 0 {
        None
    } else {
        match joining_scan(s, owner, old_ids, ids.drop_last()) {
            Some(e) => Some(e),
            None => joining_err(s, owner, old_ids, ids.last()),
        }
    }
}

/// Why a card `id` leaving a deck for `new_ids` cannot be released: it must exist and be
/// locked by the deck.
pub open spec fn leaving_err(s: LedgerV, owner: AccountId, new_ids: Seq<TokenId>, id: TokenId) -> Option<NFTError> {
    if new_ids.contains(id) {
        None
    } else {
        match s.card(owner, id) {
            None => Some(NFTError::NotNFT),
            Some(c) => if c.locked_by_action != Action::Deck { Some(NFTError::WrongLock) } else { None },
        }
    }
}

/// The first refusal among the cards `old_ids` of a deck that becomes `new_ids`.
pub open spec fn leaving_scan(s: LedgerV, owner: AccountId, new_ids: Seq<TokenId>, old_ids: Seq<TokenId>) -> Option<NFTError>
    decreases old_ids.len(),
{
    if old_ids.len() == 0 {
        None
    } else {
        match leaving_scan(s, owner, new_ids, old_ids.drop_last()) {
            Some(e) => Some(e),
            None => leaving_err(s, owner, new_ids, old_ids.last()),
        }
    }
}

/// `owner`'s cards that left the deck (in `old_ids`, not in `new_ids`) are released.
pub open spec fn release_left(cards: Map<CardKey, Card>, owner: AccountId, old_ids: Seq<TokenId>, new_ids: Seq<TokenId>) -> Map<CardKey, Card> {
    Map::new(
        |k: CardKey| cards.contains_key(k),
        |k: CardKey|
            if k.owner == owner && old_ids.contains(k.token_id) && !new_ids.contains(k.token_id) {
                Card { locked_by_action: Action::Idle, ..cards[k] }
            } else {
                cards[k]
            },
    )
}

/// `owner`'s cards that joined the deck (in `new_ids`, not in `old_ids`) are locked by it.
pub open spec fn lock_joined(cards: Map<CardKey, Card>, owner: AccountId, old_ids: Seq<TokenId>, new_ids: Seq<TokenId>) -> Map<CardKey, Card> {
    Map::new(
        |k: CardKey| cards.contains_key(k),
        |k: CardKey|
            if k.owner == owner && new_ids.contains(k.token_id) && !old_ids.contains(k.token_id) {
                Card { locked_by_action: Action::Deck, ..cards[k] }
            } else {
                cards[k]
            },
    )
}

impl LedgerV {
    /// `owner`'s deck as stored, else an empty one.
    pub open spec fn deck_of(self, owner: AccountId) -> DeckV {
        if self.decks.decks.contains_key(owner) {
            self.decks.decks[owner]
        } else {
            empty_deck(owner)
        }
    }

    /// The deck of the player `user` acts for, as read: with its share of the total
    /// effective deck power.
    pub open spec fn deck_view(self, user: AccountId) -> DeckV {
        with_pct(self.deck_of(self.owner_of(user)), self.total_effective_deck_power)
    }

    /// A complete deck's total POWER, bonus and number of distinct categories; zeros for an
    /// incomplete one.
    pub open spec fn deck_totals(self, owner: AccountId, ids: Seq<TokenId>) -> (u32, u32, u32) {
        if ids.len() == 4 {
            let (t, cats) = totals_scan(self, owner, ids)->Ok_0;
            let n = distinct_count(cats) as u32;
            (t as u32, deck_bonus_spec(n), n)
        } else {
            (0, 0, 0)
        }
    }

    /// The house's total deck power once a complete deck `old` stops counting.
    pub open spec fn deck_power_without(self, old: DeckV) -> int {
        if old.token_ids.len() == 4 && old.total_power > 0 {
            sat_sub_spec(self.balance.total_deck_power as int, old.total_power as int)
        } else {
            self.balance.total_deck_power as int
        }
    }

    /// The total effective deck power once a complete deck `old` stops counting.
    pub open spec fn effective_without(self, old: DeckV) -> int {
        if old.token_ids.len() == 4 && old.total_power > 0 {
            sat_sub_spec(self.total_effective_deck_power as int, effective_power_spec(old.total_power, old.bonus) as int)
        } else {
            self.total_effective_deck_power as int
        }
    }

    /// Why the totals of a deck that held `old` and now holds `ids` cannot be recomputed.
    pub open spec fn totals_err(self, owner: AccountId, old: DeckV, ids: Seq<TokenId>) -> Option<NFTError> {
        if ids.len() == 4 {
            match totals_scan(self, owner, ids) {
                Err(e) => Some(e),
                Ok(acc) => if !fits_u32(self.deck_power_without(old) + acc.0) { Some(NFTError::Overflow) } else { None },
            }
        } else {
            None
        }
    }

    /// The ledger and the deck once the deck `old` becomes `deck` with totals `totals`: the
    /// old deck stops counting toward the house's totals (floored at zero) and a complete
    /// new one starts counting (the effective total capped at `u32::MAX`) and is
    /// published as completed.
    pub open spec fn apply_totals(self, owner: AccountId, old: DeckV, deck: DeckV, totals: (u32, u32, u32)) -> (LedgerV, DeckV) {
        let b1 = self.deck_power_without(old);
        let te1 = self.effective_without(old);
        if deck.token_ids.len() == 4 {
            let te2 = min_int(te1 + effective_power_spec(totals.0, totals.1), u32::MAX as int);
            (
                LedgerV {
                    balance: Balance { total_deck_power: (b1 + totals.0) as u32, ..self.balance },
                    total_effective_deck_power: te2 as u32,
                    ..self
                }.emit(Event::Deck(crate::event::Deck { action: Step::Complete, player: owner })),
                DeckV { total_power: totals.0, bonus: totals.1, deck_categories: totals.2, ..deck },
            )
        } else {
            (
                LedgerV {
                    balance: Balance { total_deck_power: b1 as u32, ..self.balance },
                    total_effective_deck_power: te1 as u32,
                    ..self
                },
                DeckV { total_power: 0, bonus: 0, deck_categories: 0, ..deck },
            )
        }
    }

    /// The ledger after `d` is stored as `user`'s deck.
    pub open spec fn put_deck(self, user: AccountId, d: DeckV) -> LedgerV {
        LedgerV { decks: self.decks.write_spec(self.owner_of(user), d, self.pages_only), ..self }
    }

    /// Why `owner`'s deck, read as `deck`, cannot be set to `ids`, if it cannot.
    pub open spec fn deck_update_err(self, owner: AccountId, deck: DeckV, ids: Seq<TokenId>) -> Option<NFTError> {
        if ids.len() > 4 {
            Some(NFTError::DeckTooLarge)
        } else if !ids.no_duplicates() {
            Some(NFTError::DuplicateToken)
        } else if joining_scan(self, owner, deck.token_ids, ids) is Some {
            joining_scan(self, owner, deck.token_ids, ids)
        } else if leaving_scan(self, owner, ids, deck.token_ids) is Some {
            leaving_scan(self, owner, ids, deck.token_ids)
        } else {
            self.totals_err(owner, deck, ids)
        }
    }

    /// The ledger and the deck after `owner`'s deck, read as `deck`, is set to `ids`: the
    /// cards that left are released, those that joined are locked, the totals are
    /// recomputed and the deck is stored.
    pub open spec fn deck_update_post(self, owner: AccountId, deck: DeckV, ids: Seq<TokenId>) -> (LedgerV, DeckV) {
        let s1 = LedgerV {
            cards: lock_joined(release_left(self.cards, owner, deck.token_ids, ids), owner, deck.token_ids, ids),
            ..self
        };
        let r = s1.apply_totals(owner, deck, DeckV { token_ids: ids, ..deck }, self.deck_totals(owner, ids));
        (r.0.put_deck(owner, r.1), r.1)
    }
}

} // verus!

verus! {

proof fn lemma_push_contains(s: Seq<TokenId>, x: TokenId, y: TokenId)
    ensures
        s.push(x).contains(y) <==> (s.contains(y) || y == x),
{
    if s.push(x).contains(y) {
        let j = choose|j: int| 0 <= j < s.push(x).len() && s.push(x)[j] == y;
        if j < s.len() {
            assert(s[j] == y);
        }
    }
    if s.contains(y) {
        let j = choose|j: int| 0 <= j < s.len() && s[j] == y;
        assert(s.push(x)[j] == y);
    }
    if y == x {
        assert(s.push(x)[s.len() as int] == y);
    }
}

proof fn lemma_totals_err_prefix(s: LedgerV, owner: AccountId, ids: Seq<TokenId>, k: int)
    requires
        0 <= k <= ids.len(),
        totals_scan(s, owner, ids.subrange(0, k)) is Err,
    ensures
        totals_scan(s, owner, ids) == totals_scan(s, owner, ids.subrange(0, k)),
    decreases ids.len(),
{
    if k == ids.len() {
        assert(ids.subrange(0, k) =~= ids);
    } else {
        assert(ids.drop_last().subrange(0, k) =~= ids.subrange(0, k));
        lemma_totals_err_prefix(s, owner, ids.drop_last(), k);
    }
}

proof fn lemma_joining_err_prefix(s: LedgerV, owner: AccountId, old_ids: Seq<TokenId>, ids: Seq<TokenId>, k: int)
    requires
        0 <= k <= ids.len(),
        joining_scan(s, owner, old_ids, ids.subrange(0, k)) is Some,
    ensures
        joining_scan(s, owner, old_ids, ids) == joining_scan(s, owner, old_ids, ids.subrange(0, k)),
    decreases ids.len(),
{
    if k == ids.len() {
        assert(ids.subrange(0, k) =~= ids);
    } else {
        assert(ids.drop_last().subrange(0, k) =~= ids.subrange(0, k));
        lemma_joining_err_prefix(s, owner, old_ids, ids.drop_last(), k);
    }
}

proof fn lemma_leaving_err_prefix(s: LedgerV, owner: AccountId, new_ids: Seq<TokenId>, old_ids: Seq<TokenId>, k: int)
    requires
        0 <= k <= old_ids.len(),
        leaving_scan(s, owner, new_ids, old_ids.subrange(0, k)) is Some,
    ensures
        leaving_scan(s, owner, new_ids, old_ids) == leaving_scan(s, owner, new_ids, old_ids.subrange(0, k)),
    decreases old_ids.len(),
{
    if k == old_ids.len() {
        assert(old_ids.subrange(0, k) =~= old_ids);
    } else {
        assert(old_ids.drop_last().subrange(0, k) =~= old_ids.subrange(0, k));
        lemma_leaving_err_prefix(s, owner, new_ids, old_ids.drop_last(), k);
    }
}

proof fn lemma_joining_all(s: LedgerV, owner: AccountId, old_ids: Seq<TokenId>, ids: Seq<TokenId>)
    requires
        joining_scan(s, owner, old_ids, ids) is None,
    ensures
        forall|j: int| 0 <= j < ids.len() ==> joining_err(s, owner, old_ids, #[trigger] ids[j]) is None,
    decreases ids.len(),
{
    if ids.len() > 0 {
        lemma_joining_all(s, owner, old_ids, ids.drop_last());
        assert forall|j: int| 0 <= j < ids.len() implies joining_err(s, owner, old_ids, #[trigger] ids[j]) is None by {
            if j < ids.len() - 1 {
                assert(ids.drop_last()[j] == ids[j]);
            }
        }
    }
}

proof fn lemma_leaving_all(s: LedgerV, owner: AccountId, new_ids: Seq<TokenId>, old_ids: Seq<TokenId>)
    requires
        leaving_scan(s, owner, new_ids, old_ids) is None,
    ensures
        forall|j: int| 0 <= j < old_ids.len() ==> leaving_err(s, owner, new_ids, #[trigger] old_ids[j]) is None,
    decreases old_ids.len(),
{
    if old_ids.len() > 0 {
        lemma_leaving_all(s, owner, new_ids, old_ids.drop_last());
        assert forall|j: int| 0 <= j < old_ids.len() implies leaving_err(s, owner, new_ids, #[trigger] old_ids[j]) is None by {
            if j < old_ids.len() - 1 {
                assert(old_ids.drop_last()[j] == old_ids[j]);
            }
        }
    }
}

/// Whether some card appears twice in `ids`.
fn has_duplicates(ids: &Vec<TokenId>) -> (b: bool)
    ensures
        b == !ids@.no_duplicates(),
{
    let n: usize = ids.len();
    let mut i: usize = 0;
    while i < n
        invariant
            n == ids@.len(),
            i <= n,
            forall|a: int, b: int| 0 <= a < i && 0 <= b < n && a != b ==> ids@[a] != ids@[b],
        decreases n - i,
    {
        let mut j: usize = 0;
        while j < n
            invariant
                n == ids@.len(),
                i < n,
                j <= n,
                forall|a: int, b: int| 0 <= a < i && 0 <= b < n && a != b ==> ids@[a] != ids@[b],
                forall|b: int| 0 <= b < j && b != i ==> ids@[i as int] != ids@[b],
            decreases n - j,
        {
            if j != i && ids[i].0 == ids[j].0 {
                return true;
            }
            j = j + 1;
        }
        i = i + 1;
    }
    false
}

/// The slot of the first `x` in `ids`.
fn index_of_token(ids: &Vec<TokenId>, x: TokenId) -> (r: Option<usize>)
    ensures
        match r {
            Some(i) => ids@.contains(x) && i as int == ids@.index_of_first(x)->0 && i < ids@.len(),
            None => !ids@.contains(x),
        },
{
    crate::ledger::position_of_token(ids, &x)
}

impl Ledger {
    /// The deck of the player `user` acts for (an empty one if they never had one), with
    /// its share of the total effective deck power.
    pub fn read_deck(&self, user: AccountId) -> (r: Deck)
        requires
            self.wf(),
        ensures
            r@ == self@.deck_view(user),
            deck_ok(r@),
    {
        let owner = self.owner_of(&user);
        let mut deck = match self.decks.stored(&owner) {
            Some(d) => d,
            None => Deck {
                owner,
                haw_ai_percentage: 0,
                total_power: 0,
                bonus: 0,
                deck_categories: 0,
                token_ids: Vec::new(),
            },
        };
        proof {
            assert(deck@.token_ids =~= self@.deck_of(owner).token_ids);
        }
        deck.haw_ai_percentage = DeckBook::share(&deck, self.total_effective_deck_power);
        deck
    }

    /// Stores `deck` as the deck of the player `user` acts for.
    fn write_deck(&mut self, user: AccountId, deck: Deck)
        requires
            old(self).wf(),
            deck_ok(deck@),
            old(self)@.decks.index.len() < u32::MAX,
            old(self)@.decks.legacy_or_empty().len() < u32::MAX,
        ensures
            final(self).wf(),
            final(self)@ == old(self)@.put_deck(user, deck@),
    {
        let owner = self.owner_of(&user);
        let po = self.pages_only;
        self.decks.write(owner, deck, po);
    }

    /// The totals a deck holding `ids` gets (see `deck_totals`), checked against the
    /// house's total deck power once `old` stops counting.
    fn deck_totals_check(&self, owner: AccountId, prev: &Deck, ids: &Vec<TokenId>) -> (r: Result<(u32, u32, u32), NFTError>)
        requires
            self.wf(),
        ensures
            match r {
                Ok(t) => self@.totals_err(owner, prev@, ids@) is None && t == self@.deck_totals(owner, ids@),
                Err(e) => self@.totals_err(owner, prev@, ids@) == Some(e),
            },
    {
        if ids.len() != 4 {
            return Ok((0, 0, 0));
        }
        let mut total: u32 = 0;
        let mut uniq: Vec<Category> = Vec::new();
        let ghost mut cats: Seq<Category> = Seq::empty();
        let mut i: usize = 0;
        while i < 4
            invariant
                self.wf(),
                ids@.len() == 4,
                i <= 4,
                totals_scan(self@, owner, ids@.subrange(0, i as int)) == Ok::<(int, Seq<Category>), NFTError>((total as int, cats)),
                uniq@.len() == distinct_count(cats),
                forall|c: Category| uniq@.contains(c) <==> cats.contains(c),
                uniq@.len() <= i,
            decreases 4 - i,
        {
            let id = ids[i];
            proof {
                assert(ids@.subrange(0, i + 1).drop_last() =~= ids@.subrange(0, i as int));
                assert(ids@.subrange(0, i + 1).last() == id);
            }
            let card = match self.read_nft(&owner, &id) {
                Some(c) => c,
                None => {
                    proof {
                        lemma_totals_err_prefix(self@, owner, ids@, i + 1);
                    }
                    return Err(NFTError::NotNFT);
                },
            };
            let meta = match self.read_metadata(id.0) {
                Ok(m) => m,
                Err(e) => {
                    proof {
                        lemma_totals_err_prefix(self@, owner, ids@, i + 1);
                    }
                    return Err(e);
                },
            };
            total = match total.checked_add(card.power) {
                Some(v) => v,
                None => {
                    proof {
                        lemma_totals_err_prefix(self@, owner, ids@, i + 1);
                    }
                    return Err(NFTError::Overflow);
                },
            };
            let mut seen: bool = false;
            let mut k: usize = 0;
            while k < uniq.len()
                invariant
                    k <= uniq@.len(),
                    seen == uniq@.subrange(0, k as int).contains(meta.category),
                decreases uniq@.len() - k,
            {
                if uniq[k] == meta.category {
                    seen = true;
                }
                proof {
                    assert(uniq@.subrange(0, k + 1) =~= uniq@.subrange(0, k as int).push(uniq@[k as int]));
                    lemma_push_contains_cat(uniq@.subrange(0, k as int), uniq@[k as int], meta.category);
                }
                k = k + 1;
            }
            proof {
                assert(uniq@.subrange(0, uniq@.len() as int) =~= uniq@);
                let c2 = cats.push(meta.category);
                assert(c2.drop_last() =~= cats);
                assert(c2.last() == meta.category);
                assert forall|c: Category| (if seen { uniq@ } else { uniq@.push(meta.category) }).contains(c) <==> c2.contains(c) by {
                    lemma_push_contains_cat(cats, meta.category, c);
                    lemma_push_contains_cat(uniq@, meta.category, c);
                }
                cats = c2;
            }
            if !seen {
                uniq.push(meta.category);
            }
            i = i + 1;
        }
        proof {
            assert(ids@.subrange(0, 4) =~= ids@);
        }
        let n: u32 = uniq.len() as u32;
        let base: u32 = if prev.token_ids.len() == 4 && prev.total_power > 0 {
            self.balance.total_deck_power.saturating_sub(prev.total_power)
        } else {
            self.balance.total_deck_power
        };
        if base.checked_add(total).is_none() {
            return Err(NFTError::Overflow);
        }
        Ok((total, deck_bonus(n), n))
    }

    /// Replaces the deck `old`'s part of the house totals by that of `deck` with totals
    /// `totals` (see `apply_totals`).
    fn apply_deck_totals(&mut self, owner: AccountId, prev: &Deck, deck: &mut Deck, totals: (u32, u32, u32))
        requires
            old(self).wf(),
            deck_ok(prev@),
            old(deck)@.token_ids.len() == 4 ==> fits_u32(old(self)@.deck_power_without(prev@) + totals.0),
            totals.1 <= 25,
        ensures
            final(self).wf(),
            (final(self)@, final(deck)@) == old(self)@.apply_totals(owner, prev@, old(deck)@, totals),
    {
        if prev.token_ids.len() == 4 && prev.total_power > 0 {
            self.balance.total_deck_power = self.balance.total_deck_power.saturating_sub(prev.total_power);
            let old_eff: u32 = calculate_effective_power(prev.total_power, prev.bonus);
            self.total_effective_deck_power = self.total_effective_deck_power.saturating_sub(old_eff);
        }
        if deck.token_ids.len() == 4 {
            deck.total_power = totals.0;
            deck.bonus = totals.1;
            deck.deck_categories = totals.2;
            self.balance.total_deck_power = self.balance.total_deck_power + totals.0;
            let eff: u32 = calculate_effective_power(totals.0, totals.1);
            self.total_effective_deck_power = self.total_effective_deck_power.saturating_add(eff);
            self.emit_deck_completed(owner);
        } else {
            deck.total_power = 0;
            deck.bonus = 0;
            deck.deck_categories = 0;
        }
    }
}

proof fn lemma_push_contains_cat(s: Seq<Category>, x: Category, y: Category)
    ensures
        s.push(x).contains(y) <==> (s.contains(y) || y == x),
{
    if s.push(x).contains(y) {
        let j = choose|j: int| 0 <= j < s.push(x).len() && s.push(x)[j] == y;
        if j < s.len() {
            assert(s[j] == y);
        }
    }
    if s.contains(y) {
        let j = choose|j: int| 0 <= j < s.len() && s[j] == y;
        assert(s.push(x)[j] == y);
    }
    if y == x {
        assert(s.push(x)[s.len() as int] == y);
    }
}


impl Ledger {
    /// The first refusal among the cards `ids` joining a deck that held `old_ids`.
    fn check_joining(&self, owner: AccountId, old_ids: &Vec<TokenId>, ids: &Vec<TokenId>) -> (r: Result<(), NFTError>)
        requires
            self.wf(),
        ensures
            match r {
                Ok(()) => joining_scan(self@, owner, old_ids@, ids@) is None,
                Err(e) => joining_scan(self@, owner, old_ids@, ids@) == Some(e),
            },
    {
        let mut i: usize = 0;
        while i < ids.len()
            invariant
                self.wf(),
                i <= ids@.len(),
                joining_scan(self@, owner, old_ids@, ids@.subrange(0, i as int)) is None,
            decreases ids@.len() - i,
        {
            let id = ids[i];
            proof {
                assert(ids@.subrange(0, i + 1).drop_last() =~= ids@.subrange(0, i as int));
            }
            let card = match self.read_nft(&owner, &id) {
                Some(c) => c,
                None => {
                    proof {
                        lemma_joining_err_prefix(self@, owner, old_ids@, ids@, i + 1);
                    }
                    return Err(NFTError::NotNFT);
                },
            };
            if crate::ledger::contains_token(old_ids, &id) {
                if card.locked_by_action != Action::Deck {
                    proof {
                        lemma_joining_err_prefix(self@, owner, old_ids@, ids@, i + 1);
                    }
                    return Err(NFTError::WrongLock);
                }
            } else {
                if card.locked_by_action != Action::Idle {
                    proof {
                        lemma_joining_err_prefix(self@, owner, old_ids@, ids@, i + 1);
                    }
                    return Err(NFTError::CardLocked);
                }
            }
            i = i + 1;
        }
        proof {
            assert(ids@.subrange(0, ids@.len() as int) =~= ids@);
        }
        Ok(())
    }

    /// The first refusal among the cards of a deck `old_ids` that becomes `ids`.
    fn check_leaving(&self, owner: AccountId, ids: &Vec<TokenId>, old_ids: &Vec<TokenId>) -> (r: Result<(), NFTError>)
        requires
            self.wf(),
        ensures
            match r {
                Ok(()) => leaving_scan(self@, owner, ids@, old_ids@) is None,
                Err(e) => leaving_scan(self@, owner, ids@, old_ids@) == Some(e),
            },
    {
        let mut i: usize = 0;
        while i < old_ids.len()
            invariant
                self.wf(),
                i <= old_ids@.len(),
                leaving_scan(self@, owner, ids@, old_ids@.subrange(0, i as int)) is None,
            decreases old_ids@.len() - i,
        {
            let id = old_ids[i];
            proof {
                assert(old_ids@.subrange(0, i + 1).drop_last() =~= old_ids@.subrange(0, i as int));
            }
            if !crate::ledger::contains_token(ids, &id) {
                match self.read_nft(&owner, &id) {
                    Some(c) => {
                        if c.locked_by_action != Action::Deck {
                            proof {
                                lemma_leaving_err_prefix(self@, owner, ids@, old_ids@, i + 1);
                            }
                            return Err(NFTError::WrongLock);
                        }
                    },
                    None => {
                        proof {
                            lemma_leaving_err_prefix(self@, owner, ids@, old_ids@, i + 1);
                        }
                        return Err(NFTError::NotNFT);
                    },
                }
            }
            i = i + 1;
        }
        proof {
            assert(old_ids@.subrange(0, old_ids@.len() as int) =~= old_ids@);
        }
        Ok(())
    }

    /// Releases the cards of `old_ids` that are not in `ids`, then locks the cards of `ids`
    /// that were not in `old_ids`.
    fn relock_deck_cards(&mut self, owner: AccountId, old_ids: &Vec<TokenId>, ids: &Vec<TokenId>)
        requires
            old(self).wf(),
            joining_scan(old(self)@, owner, old_ids@, ids@) is None,
            leaving_scan(old(self)@, owner, ids@, old_ids@) is None,
        ensures
            final(self).wf(),
            final(self)@ == (LedgerV {
                cards: lock_joined(release_left(old(self)@.cards, owner, old_ids@, ids@), owner, old_ids@, ids@),
                ..old(self)@
            }),
    {
        let ghost s0 = self@;
        let ghost c0 = self@.cards;
        proof {
            lemma_joining_all(s0, owner, old_ids@, ids@);
            lemma_leaving_all(s0, owner, ids@, old_ids@);
            assert(release_left(c0, owner, old_ids@.subrange(0, 0), ids@) =~= c0);
        }
        let mut i: usize = 0;
        while i < old_ids.len()
            invariant
                self.wf(),
                i <= old_ids@.len(),
                forall|j: int| 0 <= j < old_ids@.len() ==> leaving_err(s0, owner, ids@, #[trigger] old_ids@[j]) is None,
                self@ == (LedgerV { cards: release_left(c0, owner, old_ids@.subrange(0, i as int), ids@), ..s0 }),
                c0 == s0.cards,
            decreases old_ids@.len() - i,
        {
            let id = old_ids[i];
            proof {
                assert(leaving_err(s0, owner, ids@, old_ids@[i as int]) is None);
            }
            if !crate::ledger::contains_token(ids, &id) {
                let card = self.read_nft(&owner, &id).unwrap();
                self.write_nft(owner, id, Card { locked_by_action: Action::Idle, ..card });
            }
            proof {
                let p0 = old_ids@.subrange(0, i as int);
                let p1 = old_ids@.subrange(0, i + 1);
                assert(p1 =~= p0.push(id));
                assert forall|t: TokenId| p1.contains(t) <==> (p0.contains(t) || t == id) by {
                    lemma_push_contains(p0, id, t);
                }
                assert(self@.cards =~= release_left(c0, owner, p1, ids@));
            }
            i = i + 1;
        }
        proof {
            assert(old_ids@.subrange(0, old_ids@.len() as int) =~= old_ids@);
        }
        let ghost c1 = self@.cards;
        proof {
            assert(lock_joined(c1, owner, old_ids@, ids@.subrange(0, 0)) =~= c1);
        }
        let mut k: usize = 0;
        while k < ids.len()
            invariant
                self.wf(),
                k <= ids@.len(),
                forall|j: int| 0 <= j < ids@.len() ==> joining_err(s0, owner, old_ids@, #[trigger] ids@[j]) is None,
                c1 == release_left(c0, owner, old_ids@, ids@),
                c0 == s0.cards,
                self@ == (LedgerV { cards: lock_joined(c1, owner, old_ids@, ids@.subrange(0, k as int)), ..s0 }),
            decreases ids@.len() - k,
        {
            let id = ids[k];
            proof {
                assert(joining_err(s0, owner, old_ids@, ids@[k as int]) is None);
            }
            if !crate::ledger::contains_token(old_ids, &id) {
                let card = self.read_nft(&owner, &id).unwrap();
                self.write_nft(owner, id, Card { locked_by_action: Action::Deck, ..card });
            }
            proof {
                let p0 = ids@.subrange(0, k as int);
                let p1 = ids@.subrange(0, k + 1);
                assert(p1 =~= p0.push(id));
                assert forall|t: TokenId| p1.contains(t) <==> (p0.contains(t) || t == id) by {
                    lemma_push_contains(p0, id, t);
                }
                assert(self@.cards =~= lock_joined(c1, owner, old_ids@, p1));
            }
            k = k + 1;
        }
        proof {
            assert(ids@.subrange(0, ids@.len() as int) =~= ids@);
        }
    }
}


/// The total effective deck power after counting, from `idx` up to `end`, each complete
/// deck the index lists (capped at `u32::MAX` at every step), starting from `te`.
pub open spec fn rebuild_fold(s: LedgerV, te: int, idx: int, end: int) -> int
    decreases end - idx,
{
    if idx >= end {
        te
    } else {
        let add = if 0 <= idx < s.decks.index.len() {
            let d = s.deck_of(s.decks.index[idx].owner);
            if d.token_ids.len() == 4 { effective_power_spec(d.total_power, d.bonus) as int } else { 0 }
        } else {
            0
        };
        rebuild_fold(s, min_int(te + add, u32::MAX as int), idx + 1, end)
    }
}

impl LedgerV {
    pub open spec fn place_err(self, user: AccountId, token_id: TokenId) -> Option<NFTError> {
        let owner = self.owner_of(user);
        let deck = self.deck_view(owner);
        if self.decks_frozen() {
            Some(NFTError::PotInProgress)
        } else if deck.token_ids.len() >= 4 {
            Some(NFTError::DeckFull)
        } else if deck.token_ids.contains(token_id) {
            Some(NFTError::TokenInDeck)
        } else if self.deck_update_err(owner, deck, deck.token_ids.push(token_id)) is Some {
            self.deck_update_err(owner, deck, deck.token_ids.push(token_id))
        } else {
            match self.config {
                None => Some(NFTError::NotInitialized),
                Some(c) => if self.mint_terry_err(owner, c.terry_per_deck) is Some {
                    self.mint_terry_err(owner, c.terry_per_deck)
                } else {
                    self.haw_terry_err(c.terry_per_deck, c.haw_ai_percentage)
                },
            }
        }
    }

    /// The ledger after `user` adds a card to their deck: the card is locked, the totals
    /// recomputed, and the player earns the deck reward (the house's share is counted).
    pub open spec fn place_post(self, user: AccountId, token_id: TokenId) -> LedgerV {
        let owner = self.owner_of(user);
        let deck = self.deck_view(owner);
        let c = self.config->0;
        self.deck_update_post(owner, deck, deck.token_ids.push(token_id)).0
            .emit(Event::Deck(crate::event::Deck { action: Step::Place, player: owner }))
            .mint_terry_post(owner, c.terry_per_deck)
            .haw_terry_post(c.terry_per_deck, c.haw_ai_percentage)
    }

    pub open spec fn replace_err(self, user: AccountId, prev_token_id: TokenId, token_id: TokenId) -> Option<NFTError> {
        let owner = self.owner_of(user);
        let deck = self.deck_view(owner);
        if self.decks_frozen() {
            Some(NFTError::PotInProgress)
        } else if !deck.token_ids.contains(prev_token_id) {
            Some(NFTError::TokenNotInDeck)
        } else if deck.token_ids.contains(token_id) {
            Some(NFTError::TokenInDeck)
        } else {
            self.deck_update_err(owner, deck, deck.token_ids.update(deck.token_ids.index_of_first(prev_token_id)->0, token_id))
        }
    }

    /// The ledger after `user` swaps a card of their deck for another, in the same slot.
    pub open spec fn replace_post(self, user: AccountId, prev_token_id: TokenId, token_id: TokenId) -> LedgerV {
        let owner = self.owner_of(user);
        let deck = self.deck_view(owner);
        self.deck_update_post(owner, deck, deck.token_ids.update(deck.token_ids.index_of_first(prev_token_id)->0, token_id)).0
            .emit(Event::Deck(crate::event::Deck { action: Step::Replace, player: owner }))
    }

    pub open spec fn remove_place_err(self, user: AccountId, token_id: TokenId) -> Option<NFTError> {
        let owner = self.owner_of(user);
        let deck = self.deck_view(owner);
        if self.decks_frozen() {
            Some(NFTError::PotInProgress)
        } else if deck.token_ids.len() == 0 {
            Some(NFTError::DeckEmpty)
        } else if !deck.token_ids.contains(token_id) {
            Some(NFTError::TokenNotInDeck)
        } else if self.deck_update_err(owner, deck, deck.token_ids.remove(deck.token_ids.index_of_first(token_id)->0)) is Some {
            self.deck_update_err(owner, deck, deck.token_ids.remove(deck.token_ids.index_of_first(token_id)->0))
        } else {
            match self.config {
                None => Some(NFTError::NotInitialized),
                Some(c) => if self.mint_terry_err(owner, c.terry_per_deck) is Some {
                    self.mint_terry_err(owner, c.terry_per_deck)
                } else {
                    self.haw_terry_err(c.terry_per_deck, c.haw_ai_percentage)
                },
            }
        }
    }

    /// The ledger after `user` takes a card out of their deck: the card is released, the
    /// totals recomputed, and the player earns the deck reward.
    pub open spec fn remove_place_post(self, user: AccountId, token_id: TokenId) -> LedgerV {
        let owner = self.owner_of(user);
        let deck = self.deck_view(owner);
        let c = self.config->0;
        self.deck_update_post(owner, deck, deck.token_ids.remove(deck.token_ids.index_of_first(token_id)->0)).0
            .emit(Event::Deck(crate::event::Deck { action: Step::Remove, player: owner }))
            .mint_terry_post(owner, c.terry_per_deck)
            .haw_terry_post(c.terry_per_deck, c.haw_ai_percentage)
    }

    /// The ledger after the totals of `user`'s deck are recomputed from its cards' current
    /// POWER.
    pub open spec fn recompute_post(self, user: AccountId) -> LedgerV {
        let d = self.deck_view(user);
        let r = self.apply_totals(user, d, d, self.deck_totals(user, d.token_ids));
        r.0.put_deck(user, r.1)
    }

    /// The total effective deck power after one batch of a rebuild from `start`, and where
    /// the next batch starts.
    pub open spec fn rebuild_spec(self, start: u32, limit: u32) -> (u32, u32) {
        let count = self.decks.count_spec(self.pages_only);
        let te0: int = if start == 0 { 0 } else { self.total_effective_deck_power as int };
        if count == 0 {
            (te0 as u32, 0)
        } else if start >= count {
            (te0 as u32, count as u32)
        } else {
            let end = min_int(min_int(start + limit, u32::MAX as int), count);
            (rebuild_fold(self, te0, start as int, end) as u32, end as u32)
        }
    }
}

impl Ledger {
    /// Whether `owner`'s deck, read as `deck`, can be set to `ids`; the totals it would get.
    fn check_deck_update(&self, owner: AccountId, deck: &Deck, ids: &Vec<TokenId>) -> (r: Result<(u32, u32, u32), NFTError>)
        requires
            self.wf(),
        ensures
            match r {
                Ok(t) => self@.deck_update_err(owner, deck@, ids@) is None && t == self@.deck_totals(owner, ids@),
                Err(e) => self@.deck_update_err(owner, deck@, ids@) == Some(e),
            },
    {
        if ids.len() > 4 {
            return Err(NFTError::DeckTooLarge);
        }
        if has_duplicates(ids) {
            return Err(NFTError::DuplicateToken);
        }
        self.check_joining(owner, &deck.token_ids, ids)?;
        self.check_leaving(owner, ids, &deck.token_ids)?;
        self.deck_totals_check(owner, deck, ids)
    }

    /// Sets `owner`'s deck, read as `deck`, to `ids` once `check_deck_update` accepted it.
    fn apply_deck_update(&mut self, owner: AccountId, deck: Deck, ids: Vec<TokenId>, totals: (u32, u32, u32)) -> (r: Deck)
        requires
            old(self).wf(),
            deck_ok(deck@),
            old(self)@.decks.index.len() < u32::MAX,
            old(self)@.decks.legacy_or_empty().len() < u32::MAX,
            old(self)@.deck_update_err(owner, deck@, ids@) is None,
            totals == old(self)@.deck_totals(owner, ids@),
        ensures
            final(self).wf(),
            final(self)@ == old(self)@.deck_update_post(owner, deck@, ids@).0,
            r@ == old(self)@.deck_update_post(owner, deck@, ids@).1,
    {
        proof {
            if ids@.len() == 4 {
                assert(totals.1 <= 25);
            }
        }
        self.relock_deck_cards(owner, &deck.token_ids, &ids);
        let prev = deck.copy();
        let mut next = deck;
        next.token_ids = ids;
        self.apply_deck_totals(owner, &prev, &mut next, totals);
        let out = next.copy();
        self.write_deck(owner, next);
        out
    }

    /// `user` adds a card to their deck (see `place_post`).
    pub fn place(&mut self, user: AccountId, token_id: TokenId) -> (r: Result<(), NFTError>)
        requires
            old(self).wf(),
            old(self)@.decks.index.len() < u32::MAX,
            old(self)@.decks.legacy_or_empty().len() < u32::MAX,
        ensures
            final(self).wf(),
            match r {
                Ok(()) => old(self)@.place_err(user, token_id) is None && final(self)@ == old(self)@.place_post(user, token_id),
                Err(e) => old(self)@.place_err(user, token_id) == Some(e) && final(self)@ == old(self)@,
            },
    {
        if self.decks_frozen() {
            return Err(NFTError::PotInProgress);
        }
        let owner = self.owner_of(&user);
        let deck = self.read_deck(owner);
        if deck.token_ids.len() >= 4 {
            return Err(NFTError::DeckFull);
        }
        if crate::ledger::contains_token(&deck.token_ids, &token_id) {
            return Err(NFTError::TokenInDeck);
        }
        let mut ids = crate::types::copy_token_ids(&deck.token_ids);
        ids.push(token_id);
        let totals = self.check_deck_update(owner, &deck, &ids)?;
        let (reward, pct) = {
            let c = self.read_config()?;
            (c.terry_per_deck, c.haw_ai_percentage)
        };
        self.mint_terry_check(owner, reward)?;
        let haw: i128 = self.haw_terry_check(reward, pct)?;
        let ghost s0 = self@;
        self.apply_deck_update(owner, deck, ids, totals);
        self.emit_deck_place(owner);
        match self.mint_terry(owner, reward) {
            Ok(()) => {},
            Err(e) => {
                proof {
                    assert(false);
                }
                return Err(e);
            },
        }
        self.balance.haw_ai_terry = haw;
        proof {
            assert(self@ =~= s0.place_post(user, token_id));
        }
        Ok(())
    }

    /// `user` swaps a card of their deck for another (see `replace_post`).
    pub fn replace(&mut self, user: AccountId, prev_token_id: TokenId, token_id: TokenId) -> (r: Result<(), NFTError>)
        requires
            old(self).wf(),
            old(self)@.decks.index.len() < u32::MAX,
            old(self)@.decks.legacy_or_empty().len() < u32::MAX,
        ensures
            final(self).wf(),
            match r {
                Ok(()) => old(self)@.replace_err(user, prev_token_id, token_id) is None
                    && final(self)@ == old(self)@.replace_post(user, prev_token_id, token_id),
                Err(e) => old(self)@.replace_err(user, prev_token_id, token_id) == Some(e) && final(self)@ == old(self)@,
            },
    {
        if self.decks_frozen() {
            return Err(NFTError::PotInProgress);
        }
        let owner = self.owner_of(&user);
        let deck = self.read_deck(owner);
        let slot = match index_of_token(&deck.token_ids, prev_token_id) {
            Some(i) => i,
            None => return Err(NFTError::TokenNotInDeck),
        };
        if crate::ledger::contains_token(&deck.token_ids, &token_id) {
            return Err(NFTError::TokenInDeck);
        }
        let mut ids = crate::types::copy_token_ids(&deck.token_ids);
        ids.set(slot, token_id);
        let totals = self.check_deck_update(owner, &deck, &ids)?;
        self.apply_deck_update(owner, deck, ids, totals);
        self.emit_deck_replace(owner);
        Ok(())
    }

    /// Sets `user`'s deck to `token_ids` in one step.
    pub fn update_deck(&mut self, user: AccountId, token_ids: Vec<TokenId>) -> (r: Result<(), NFTError>)
        requires
            old(self).wf(),
            old(self)@.decks.index.len() < u32::MAX,
            old(self)@.decks.legacy_or_empty().len() < u32::MAX,
        ensures
            final(self).wf(),
            match r {
                Ok(()) => !old(self)@.decks_frozen()
                    && old(self)@.deck_update_err(old(self)@.owner_of(user), old(self)@.deck_view(old(self)@.owner_of(user)), token_ids@) is None
                    && final(self)@ == old(self)@.deck_update_post(old(self)@.owner_of(user), old(self)@.deck_view(old(self)@.owner_of(user)), token_ids@).0,
                Err(e) => final(self)@ == old(self)@ && (if old(self)@.decks_frozen() {
                    e == NFTError::PotInProgress
                } else {
                    old(self)@.deck_update_err(old(self)@.owner_of(user), old(self)@.deck_view(old(self)@.owner_of(user)), token_ids@) == Some(e)
                }),
            },
    {
        if self.decks_frozen() {
            return Err(NFTError::PotInProgress);
        }
        let owner = self.owner_of(&user);
        let deck = self.read_deck(owner);
        let totals = self.check_deck_update(owner, &deck, &token_ids)?;
        self.apply_deck_update(owner, deck, token_ids, totals);
        Ok(())
    }

    /// `user` takes a card out of their deck (see `remove_place_post`).
    pub fn remove_place(&mut self, user: AccountId, token_id: TokenId) -> (r: Result<(), NFTError>)
        requires
            old(self).wf(),
            old(self)@.decks.index.len() < u32::MAX,
            old(self)@.decks.legacy_or_empty().len() < u32::MAX,
        ensures
            final(self).wf(),
            match r {
                Ok(()) => old(self)@.remove_place_err(user, token_id) is None && final(self)@ == old(self)@.remove_place_post(user, token_id),
                Err(e) => old(self)@.remove_place_err(user, token_id) == Some(e) && final(self)@ == old(self)@,
            },
    {
        if self.decks_frozen() {
            return Err(NFTError::PotInProgress);
        }
        let owner = self.owner_of(&user);
        let deck = self.read_deck(owner);
        if deck.token_ids.len() == 0 {
            return Err(NFTError::DeckEmpty);
        }
        let slot = match index_of_token(&deck.token_ids, token_id) {
            Some(i) => i,
            None => return Err(NFTError::TokenNotInDeck),
        };
        let mut ids = crate::types::copy_token_ids(&deck.token_ids);
        ids.remove(slot);
        let totals = self.check_deck_update(owner, &deck, &ids)?;
        let (reward, pct) = {
            let c = self.read_config()?;
            (c.terry_per_deck, c.haw_ai_percentage)
        };
        self.mint_terry_check(owner, reward)?;
        let haw: i128 = self.haw_terry_check(reward, pct)?;
        let ghost s0 = self@;
        self.apply_deck_update(owner, deck, ids, totals);
        self.emit_deck_remove(owner);
        match self.mint_terry(owner, reward) {
            Ok(()) => {},
            Err(e) => {
                proof {
                    assert(false);
                }
                return Err(e);
            },
        }
        self.balance.haw_ai_terry = haw;
        proof {
            assert(self@ =~= s0.remove_place_post(user, token_id));
        }
        Ok(())
    }

    /// Recomputes the totals of `owner`'s deck after a card's POWER changed (see
    /// `recompute_post`).
    pub fn recompute_deck_after_power_change(&mut self, owner: AccountId) -> (r: Result<(), NFTError>)
        requires
            old(self).wf(),
            old(self)@.decks.index.len() < u32::MAX,
            old(self)@.decks.legacy_or_empty().len() < u32::MAX,
        ensures
            final(self).wf(),
            match r {
                Ok(()) => old(self)@.totals_err(owner, old(self)@.deck_view(owner), old(self)@.deck_view(owner).token_ids) is None
                    && final(self)@ == old(self)@.recompute_post(owner),
                Err(e) => old(self)@.totals_err(owner, old(self)@.deck_view(owner), old(self)@.deck_view(owner).token_ids) == Some(e)
                    && final(self)@ == old(self)@,
            },
    {
        let deck = self.read_deck(owner);
        let totals = self.deck_totals_check(owner, &deck, &deck.token_ids)?;
        proof {
            if deck@.token_ids.len() == 4 {
                assert(totals.1 <= 25);
            }
        }
        let prev = deck.copy();
        let mut next = deck;
        self.apply_deck_totals(owner, &prev, &mut next, totals);
        self.write_deck(owner, next);
        Ok(())
    }

    /// One batch of a rebuild of the total effective deck power from the complete decks
    /// the index lists; the total restarts from zero at `start == 0`. Returns where the
    /// next batch starts (see `rebuild_spec`).
    pub fn rebuild_total_effective_deck_power(&mut self, start: u32, limit: u32) -> (next: u32)
        requires
            old(self).wf(),
        ensures
            final(self).wf(),
            next == old(self)@.rebuild_spec(start, limit).1,
            final(self)@ == (LedgerV { total_effective_deck_power: old(self)@.rebuild_spec(start, limit).0, ..old(self)@ }),
    {
        let ghost s0 = self@;
        let count: u32 = self.decks.count(self.pages_only);
        if start == 0 {
            self.total_effective_deck_power = 0;
        }
        if count == 0 {
            return 0;
        }
        if start >= count {
            return count;
        }
        let sum: u32 = start.saturating_add(limit);
        let end: u32 = if sum < count { sum } else { count };
        let ghost te0: int = self.total_effective_deck_power as int;
        let mut idx: u32 = start;
        while idx < end
            invariant
                self.wf(),
                start <= idx <= end,
                self@ == (LedgerV { total_effective_deck_power: self@.total_effective_deck_power, ..s0 }),
                rebuild_fold(s0, self@.total_effective_deck_power as int, idx as int, end as int)
                    == rebuild_fold(s0, te0, start as int, end as int),
            decreases end - idx,
        {
            match self.decks.index_at(idx) {
                Some(key) => {
                    proof {
                        lemma_owner_of_self(self, key.owner);
                    }
                    let deck = self.read_deck(key.owner);
                    if deck.token_ids.len() == 4 {
                        let eff: u32 = calculate_effective_power(deck.total_power, deck.bonus);
                        self.total_effective_deck_power = self.total_effective_deck_power.saturating_add(eff);
                    }
                },
                None => {},
            }
            idx = idx + 1;
        }
        end
    }

    /// Every deck, with its share: in index order when `pages_only` is on, else the older
    /// list.
    pub fn read_decks(&self) -> (r: Vec<Deck>)
        requires
            self.wf(),
        ensures
            r@.len() == self@.decks.stored_all(self@.pages_only).len(),
            forall|i: int| 0 <= i < r@.len() ==> (#[trigger] r@[i])@ == with_pct(
                self@.decks.stored_all(self@.pages_only)[i],
                self@.total_effective_deck_power,
            ),
    {
        self.decks.read_all(self.total_effective_deck_power, self.pages_only)
    }

    pub fn read_decks_count(&self) -> (n: u32)
        requires
            self.wf(),
        ensures
            n == self@.decks.count_spec(self@.pages_only),
    {
        self.decks.count(self.pages_only)
    }

    pub fn read_decks_page(&self, cursor: u32, limit: u32) -> (r: Vec<DeckKey>)
        requires
            self.wf(),
        ensures
            r@ == self@.decks.page_spec(cursor, limit, self@.pages_only),
    {
        self.decks.page(cursor, limit, self.pages_only)
    }

    pub fn migrate_decks_to_pages(&mut self, start: u32, limit: u32) -> (next: u32)
        requires
            old(self).wf(),
            old(self)@.decks.index.len() + old(self)@.decks.stored_all(old(self)@.pages_only).len() <= u32::MAX,
        ensures
            final(self).wf(),
            next == crate::book::migrate_end(old(self)@.decks.stored_all(old(self)@.pages_only).len() as int, start, limit),
            final(self)@ == (LedgerV { decks: final(self)@.decks, ..old(self)@ }),
            final(self)@.decks.decks == old(self)@.decks.decks,
            final(self)@.decks.legacy == old(self)@.decks.legacy,
            final(self)@.decks.index == crate::book::migrate_index(
                old(self)@.decks.index,
                crate::deck_book::nonempty_deck_keys(
                    old(self)@.decks.stored_all(old(self)@.pages_only).subrange(
                        if start >= old(self)@.decks.stored_all(old(self)@.pages_only).len() {
                            old(self)@.decks.stored_all(old(self)@.pages_only).len() as int
                        } else {
                            start as int
                        },
                        next as int,
                    ),
                ),
            ),
    {
        let po = self.pages_only;
        self.decks.migrate(start, limit, po)
    }
}

} // verus!
