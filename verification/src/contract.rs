//! The contract's requests: administration, levels, users, cards, the pot's
//! opening and claims. Authorization and token movements are the host's; each
//! request here states what it decides and what it changes in the ledger.
use vstd::prelude::*;
use crate::types::{
    AccountId, Balance, Config, ContractVault, Level, PotBalance, PotSnapshot, State, User, UserClaimableBalance,
};
use crate::error::NFTError;
use crate::event::Event;
use crate::ledger::{Ledger, LedgerV};
use crate::math::{fits_i128, fits_u32, trunc_div};

verus! {

/// The ten levels every contract starts with: the lifetime TERRY band of each.
pub open spec fn default_level_bounds() -> Seq<(int, int)> {
    seq![
        (0int, 1000int),
        (1001int, 5000int),
        (5001int, 25000int),
        (25001int, 200000int),
        (200001int, 500000int),
        (500001int, 2000000int),
        (2000001int, 5000000int),
        (5000001int, 10000000int),
        (10000001int, 15000000int),
        (15000001int, i128::MAX as int),
    ]
}

/// The names of the ten default levels.
pub open spec fn default_level_names() -> Seq<Seq<char>> {
    seq![
        "PLASTICLOVER"@,
        "SHITCOINER"@,
        "MEMECE0"@,
        "CRYPTOBRO"@,
        "CHIEF"@,
        "BOSS"@,
        "DIVINE"@,
        "LEGEND"@,
        "IMMORTAL"@,
        "Level 10"@,
    ]
}

/// The `j`-th default level.
fn default_level(j: usize) -> (r: Level)
    requires
        j < 10,
    ensures
        r.minimum_terry == default_level_bounds()[j as int].0,
        r.maximum_terry == default_level_bounds()[j as int].1,
        r.name@ == default_level_names()[j as int],
{
    let (lo, hi, name): (i128, i128, &str) = match j {
        0 => (0, 1000, "PLASTICLOVER"),
        1 => (1001, 5000, "SHITCOINER"),
        2 => (5001, 25000, "MEMECE0"),
        3 => (25001, 200000, "CRYPTOBRO"),
        4 => (200001, 500000, "CHIEF"),
        5 => (500001, 2000000, "BOSS"),
        6 => (2000001, 5000000, "DIVINE"),
        7 => (5000001, 10000000, "LEGEND"),
        8 => (10000001, 15000000, "IMMORTAL"),
        _ => (15000001, i128::MAX, "Level 10"),
    };
    Level { minimum_terry: lo, maximum_terry: hi, name: String::from_str(name) }
}

/// Whether `new` is `old` followed by the ten default levels.
pub open spec fn default_levels_added(old: Seq<Level>, new: Seq<Level>) -> bool {
    &&& new.len() == old.len() + 10
    &&& forall|i: int| 0 <= i < old.len() ==> new[i] == old[i]
    &&& forall|j: int|
        0 <= j < 10 ==> (#[trigger] new[old.len() + j]).minimum_terry == default_level_bounds()[j].0
            && new[old.len() + j].maximum_terry == default_level_bounds()[j].1
            && new[old.len() + j].name@ == default_level_names()[j]
}

/// The contract: everything it stores, and the requests it answers.
pub struct NFT {
    pub ledger: Ledger,
}

impl NFT {
    pub open spec fn wf(&self) -> bool {
        self.ledger.wf()
    }

    /// A contract that was not initialized yet.
    pub fn new() -> (r: NFT)
        ensures
            r.wf(),
            r.ledger@.admin is None,
            r.ledger@.levels.len() == 0,
    {
        NFT { ledger: Ledger::new() }
    }

    /// Sets the administrator and the configuration, zeroes the house balances and the
    /// vault, appends the ten default levels, and publishes the initialization; refused
    /// when there is an administrator already.
    pub fn initialize(&mut self, admin: AccountId, config: Config) -> (r: Result<(), NFTError>)
        requires
            old(self).wf(),
            old(self).ledger@.admin is None ==> old(self).ledger@.levels.len() + 10 < u32::MAX,
        ensures
            final(self).wf(),
            match r {
                Ok(()) => old(self).ledger@.admin is None
                    && final(self).ledger@ == (LedgerV {
                        admin: Some(admin),
                        config: Some(config),
                        balance: Balance::zero(),
                        vault: ContractVault::zero(),
                        levels: final(self).ledger@.levels,
                        events: old(self).ledger@.events.push(Event::Initialized(admin)),
                        ..old(self).ledger@
                    })
                    && default_levels_added(old(self).ledger@.levels, final(self).ledger@.levels),
                Err(e) => old(self).ledger@.admin is Some && e == NFTError::AlreadyInitialized
                    && final(self).ledger@ == old(self).ledger@,
            },
    {
        if self.ledger.has_administrator() {
            return Err(NFTError::AlreadyInitialized);
        }
        let ghost s0 = self.ledger@;
        self.ledger.admin = Some(admin);
        self.ledger.config = Some(config);
        self.ledger.balance = Balance::new_zero();
        self.ledger.vault = ContractVault::new_zero();
        let ghost l0 = self.ledger@.levels;
        let mut j: usize = 0;
        while j < 10
            invariant
                self.ledger.wf(),
                j <= 10,
                l0 == s0.levels,
                l0.len() + 10 < u32::MAX,
                self.ledger@.levels.len() == l0.len() + j,
                forall|i: int| 0 <= i < l0.len() ==> self.ledger@.levels[i] == l0[i],
                forall|k: int|
                    0 <= k < j ==> (#[trigger] self.ledger@.levels[l0.len() + k]).minimum_terry == default_level_bounds()[k].0
                        && self.ledger@.levels[l0.len() + k].maximum_terry == default_level_bounds()[k].1
                        && self.ledger@.levels[l0.len() + k].name@ == default_level_names()[k],
                self.ledger@ == (LedgerV { levels: self.ledger@.levels, ..s0 }).with_admin_config(admin, config),
            decreases 10 - j,
        {
            let level = default_level(j);
            self.ledger.add_level(level);
            j = j + 1;
        }
        self.ledger.emit(Event::Initialized(admin));
        Ok(())
    }
}

impl LedgerV {
    /// This ledger with the administrator and configuration set and the house balances and
    /// vault zeroed.
    pub open spec fn with_admin_config(self, admin: AccountId, config: Config) -> LedgerV {
        LedgerV { admin: Some(admin), config: Some(config), balance: Balance::zero(), vault: ContractVault::zero(), ..self }
    }
}


impl NFT {
    /// Opens `round` at `now` (see `open_pot_post`); refused as `open_pot_err` says.
    #[verifier::rlimit(60)]
    #[verifier::spinoff_prover]
    pub fn open_pot(&mut self, round: u32, now: u64) -> (r: Result<(), NFTError>)
        requires
            old(self).wf(),
            old(self).ledger@.admin is Some && round > old(self).ledger@.current_round ==> {
                &&& old(self).ledger@.rounds.index.len() < u32::MAX
                &&& old(self).ledger@.rounds.legacy_or_empty().len() < u32::MAX
            },
        ensures
            final(self).wf(),
            match r {
                Ok(()) => old(self).ledger@.open_pot_err(round, now) is None
                    && final(self).ledger@ == old(self).ledger@.open_pot_post(round, now),
                Err(e) => old(self).ledger@.open_pot_err(round, now) == Some(e) && final(self).ledger@ == old(self).ledger@,
            },
    {
        if !self.ledger.has_administrator() {
            return Err(NFTError::NotInitialized);
        }
        if round <= self.ledger.current_round {
            return Err(NFTError::RoundAlreadyProcessed);
        }
        let pot = self.ledger.read_pot_balance(now);
        let v = self.ledger.vault;
        let pot_terry: i128 = match v.haw_ai_pot_terry.checked_add(pot.accumulated_terry) {
            Some(x) => x,
            None => return Err(NFTError::Overflow),
        };
        let pot_power: u32 = match v.haw_ai_pot_power.checked_add(pot.accumulated_power) {
            Some(x) => x,
            None => return Err(NFTError::Overflow),
        };
        let pot_xtar: i128 = match v.haw_ai_pot_xtar.checked_add(pot.accumulated_xtar) {
            Some(x) => x,
            None => return Err(NFTError::Overflow),
        };
        let claim_terry: i128 = match v.total_claimable_terry.checked_add(pot.accumulated_terry) {
            Some(x) => x,
            None => return Err(NFTError::Overflow),
        };
        let claim_power: u32 = match v.total_claimable_power.checked_add(pot.accumulated_power) {
            Some(x) => x,
            None => return Err(NFTError::Overflow),
        };
        let claim_xtar: i128 = match v.total_claimable_xtar.checked_add(pot.accumulated_xtar) {
            Some(x) => x,
            None => return Err(NFTError::Overflow),
        };
        if pot.total_openings == u32::MAX {
            return Err(NFTError::Overflow);
        }
        let players = self.ledger.get_eligible_players();
        let rows = self.ledger.share_rows_of(&players);
        let total: u32 = Ledger::rows_total(&rows)?;
        let mut pr = self.ledger.player_rewards.copy();
        crate::opening::rewards_into(&mut pr, &rows, total, round);
        let gts = self.ledger.collect_generics();
        let snap = PotSnapshot {
            round_number: round,
            total_terry: pot.accumulated_terry,
            total_power: pot.accumulated_power,
            total_xtar: pot.accumulated_xtar,
            timestamp: now,
            total_participants: 0,
            total_effective_power: 0,
            generic_tokens: gts,
        };
        let (uc, ug) = match self.ledger.credit_owners(&pr, round, &snap) {
            Ok(m) => m,
            Err(_) => return Err(NFTError::Overflow),
        };
        let ghost s0 = self.ledger@;
        self.ledger.vault.haw_ai_pot_terry = pot_terry;
        self.ledger.vault.haw_ai_pot_power = pot_power;
        self.ledger.vault.haw_ai_pot_xtar = pot_xtar;
        self.ledger.vault.total_claimable_terry = claim_terry;
        self.ledger.vault.total_claimable_power = claim_power;
        self.ledger.vault.total_claimable_xtar = claim_xtar;
        self.ledger.zero_registered_tokens();
        let snap_copy = snap.copy();
        self.ledger.write_pot_snapshot(round, snap_copy);
        self.ledger.emit_pot_opened(round, &snap);
        self.ledger.apply_shares(&rows, total, round);
        self.ledger.user_claimables = uc;
        self.ledger.user_generic_claimable = ug;
        self.ledger.current_round = round;
        let po = self.ledger.pages_only;
        self.ledger.rounds.add(round, po);
        self.ledger.pot_balance = Some(PotBalance {
            accumulated_terry: 0,
            accumulated_power: 0,
            accumulated_xtar: 0,
            last_opening_round: round,
            total_openings: pot.total_openings + 1,
            last_updated: now,
        });
        proof {
            assert(self.ledger@ =~= s0.open_pot_post(round, now));
        }
        Ok(())
    }
}

} // verus!

verus! {

use crate::types::UserToken;
use crate::opening::{generic_in, claimable_in};
use crate::event::{RwdClaim, FeeWd, FeePct};

/// A token movement the host performs once a request has succeeded.
#[derive(Clone, Copy, Debug, PartialEq, Eq, Structural)]
pub enum TokenCall {
    /// Moves `amount` of `token` from `from` to `to`.
    Transfer { token: AccountId, from: AccountId, to: AccountId, amount: i128 },
    /// Burns `amount` of `token` held by `from`.
    Burn { token: AccountId, from: AccountId, amount: i128 },
}

/// The transfers paying `player` each of `tokens` they may claim, in order, from `this`.
pub open spec fn generic_payouts(ug: Map<UserToken, i128>, player: AccountId, tokens: Seq<AccountId>, this: AccountId) -> Seq<TokenCall>
    decreases tokens.len(),
{
    if tokens.len() == 0 {
        Seq::empty()
    } else {
        let rest = generic_payouts(ug, player, tokens.drop_last(), this);
        let t = tokens.last();
        let amt = generic_in(ug, UserToken { user: player, token: t });
        if amt > 0 {
            rest.push(TokenCall::Transfer { token: t, from: this, to: player, amount: amt })
        } else {
            rest
        }
    }
}

/// The transfers paying out the Dogstar fees of each of `tokens`, in order, from `this`.
pub open spec fn fee_payouts(fees: Map<AccountId, i128>, claimer: AccountId, tokens: Seq<AccountId>, this: AccountId) -> Seq<TokenCall>
    decreases tokens.len(),
{
    if tokens.len() == 0 {
        Seq::empty()
    } else {
        let rest = fee_payouts(fees, claimer, tokens.drop_last(), this);
        let t = tokens.last();
        let amt: i128 = if fees.contains_key(t) { fees[t] } else { 0 };
        if amt > 0 {
            rest.push(TokenCall::Transfer { token: t, from: this, to: claimer, amount: amt })
        } else {
            rest
        }
    }
}

impl LedgerV {
    /// Whether `player` may claim some amount of a registered generic token.
    pub open spec fn has_generic_claim(self, player: AccountId) -> bool {
        exists|i: int|
            0 <= i < self.registered_tokens.len()
                && generic_in(self.user_generic_claimable, UserToken { user: player, token: #[trigger] self.registered_tokens[i] }) > 0
    }

    /// Whether some registered generic token has Dogstar fees.
    pub open spec fn has_generic_fee(self) -> bool {
        exists|i: int|
            0 <= i < self.registered_tokens.len() && self.dogstar_generic_fee.contains_key(#[trigger] self.registered_tokens[i])
                && self.dogstar_generic_fee[self.registered_tokens[i]] > 0
    }

    /// Why `player`'s claim is refused, if it is.
    pub open spec fn claim_err(self, player: AccountId) -> Option<NFTError> {
        let c = claimable_in(self.user_claimables, player);
        let s1 = if c.terry > 0 { self.mint_terry_post(player, c.terry) } else { self };
        if self.config is None {
            Some(NFTError::NotInitialized)
        } else if c.terry == 0 && c.power == 0 && c.xtar == 0 && !self.has_generic_claim(player) {
            Some(NFTError::NoRewardsAvailable)
        } else if c.terry > 0 && self.mint_terry_err(player, c.terry) is Some {
            self.mint_terry_err(player, c.terry)
        } else if c.power > 0 && !fits_u32(s1.user(player).power + c.power) {
            Some(NFTError::Overflow)
        } else if c.power > 0 && s1.levels.len() == 0 {
            Some(NFTError::LevelsMissing)
        } else if !fits_i128(self.vault.total_claimable_terry - c.terry) || self.vault.total_claimable_power < c.power
            || !fits_i128(self.vault.total_claimable_xtar - c.xtar) {
            Some(NFTError::Overflow)
        } else {
            None
        }
    }

    /// The ledger after `player` claims at `now`: their TERRY is minted, their POWER added,
    /// their claimable balance zeroed (stamped `now`) and taken from the vault's totals, the
    /// claim published, and their generic-token claimables zeroed.
    pub open spec fn claim_post(self, player: AccountId, now: u64) -> LedgerV {
        let c = claimable_in(self.user_claimables, player);
        let s1 = if c.terry > 0 { self.mint_terry_post(player, c.terry) } else { self };
        let s2 = if c.power > 0 {
            s1.put_user(player, User { power: (s1.user(player).power + c.power) as u32, ..s1.user(player) })
        } else {
            s1
        };
        LedgerV {
            user_claimables: s2.user_claimables.insert(player, UserClaimableBalance {
                terry: 0,
                power: 0,
                xtar: 0,
                last_claim_timestamp: now,
                ..c
            }),
            vault: ContractVault {
                total_claimable_terry: (s2.vault.total_claimable_terry - c.terry) as i128,
                total_claimable_power: (s2.vault.total_claimable_power - c.power) as u32,
                total_claimable_xtar: (s2.vault.total_claimable_xtar - c.xtar) as i128,
                ..s2.vault
            },
            user_generic_claimable: Map::new(
                |k: UserToken| s2.user_generic_claimable.contains_key(k),
                |k: UserToken|
                    if k.user == player && s2.registered_tokens.contains(k.token) && s2.user_generic_claimable[k] > 0 {
                        0
                    } else {
                        s2.user_generic_claimable[k]
                    },
            ),
            ..s2
        }.emit(Event::RwdClaim(RwdClaim { player, terry: c.terry, power: c.power, xtar: c.xtar }))
    }

    /// The token movements of `player`'s claim: the XTAR, then each generic token.
    pub open spec fn claim_calls(self, player: AccountId, this: AccountId) -> Seq<TokenCall> {
        let c = claimable_in(self.user_claimables, player);
        let xtar = if c.xtar > 0 {
            seq![TokenCall::Transfer { token: self.config->0.xtar_token, from: this, to: player, amount: c.xtar }]
        } else {
            Seq::empty()
        };
        xtar + generic_payouts(self.user_generic_claimable, player, self.registered_tokens, this)
    }
}

impl Ledger {
    /// Whether `player` may claim some registered generic token.
    fn has_generic_claim(&self, player: AccountId) -> (b: bool)
        requires
            self.wf(),
        ensures
            b == self@.has_generic_claim(player),
    {
        let mut i: usize = 0;
        while i < self.registered_tokens.len()
            invariant
                self.wf(),
                i <= self@.registered_tokens.len(),
                forall|j: int| 0 <= j < i ==> generic_in(self@.user_generic_claimable, UserToken { user: player, token: #[trigger] self@.registered_tokens[j] }) <= 0,
            decreases self@.registered_tokens.len() - i,
        {
            let t = self.registered_tokens[i];
            let amt: i128 = match self.user_generic_claimable.get(&UserToken { user: player, token: t }) {
                Some(v) => *v,
                None => 0,
            };
            if amt > 0 {
                return true;
            }
            i = i + 1;
        }
        false
    }

    /// Pays out and zeroes `player`'s generic-token claimables; the transfers, in order.
    fn sweep_generic_claims(&mut self, player: AccountId, this: AccountId) -> (calls: Vec<TokenCall>)
        requires
            old(self).wf(),
        ensures
            final(self).wf(),
            calls@ == generic_payouts(old(self)@.user_generic_claimable, player, old(self)@.registered_tokens, this),
            final(self)@ == (LedgerV {
                user_generic_claimable: Map::new(
                    |k: UserToken| old(self)@.user_generic_claimable.contains_key(k),
                    |k: UserToken|
                        if k.user == player && old(self)@.registered_tokens.contains(k.token) && old(self)@.user_generic_claimable[k] > 0 {
                            0
                        } else {
                            old(self)@.user_generic_claimable[k]
                        },
                ),
                ..old(self)@
            }),
    {
        let ghost s0 = self@;
        let ghost toks = s0.registered_tokens;
        let mut calls: Vec<TokenCall> = Vec::new();
        let mut i: usize = 0;
        proof {
            assert(Map::new(
                |k: UserToken| s0.user_generic_claimable.contains_key(k),
                |k: UserToken|
                    if k.user == player && toks.subrange(0, 0).contains(k.token) && s0.user_generic_claimable[k] > 0 {
                        0
                    } else {
                        s0.user_generic_claimable[k]
                    },
            ) =~= s0.user_generic_claimable);
        }
        while i < self.registered_tokens.len()
            invariant
                self.wf(),
                i <= toks.len(),
                toks == s0.registered_tokens,
                toks.no_duplicates(),
                calls@ == generic_payouts(s0.user_generic_claimable, player, toks.subrange(0, i as int), this),
                self@ == (LedgerV {
                    user_generic_claimable: Map::new(
                        |k: UserToken| s0.user_generic_claimable.contains_key(k),
                        |k: UserToken|
                            if k.user == player && toks.subrange(0, i as int).contains(k.token) && s0.user_generic_claimable[k] > 0 {
                                0
                            } else {
                                s0.user_generic_claimable[k]
                            },
                    ),
                    ..s0
                }),
            decreases toks.len() - i,
        {
            let t = self.registered_tokens[i];
            let k = UserToken { user: player, token: t };
            let ghost p0 = toks.subrange(0, i as int);
            proof {
                assert(toks.subrange(0, i + 1).drop_last() =~= p0);
                assert(toks.subrange(0, i + 1).last() == t);
                assert(!p0.contains(t)) by {
                    if p0.contains(t) {
                        let j = choose|j: int| 0 <= j < p0.len() && p0[j] == t;
                        assert(toks[j] == toks[i as int]);
                    }
                }
            }
            let amt: i128 = match self.user_generic_claimable.get(&k) {
                Some(v) => *v,
                None => 0,
            };
            if amt > 0 {
                calls.push(TokenCall::Transfer { token: t, from: this, to: player, amount: amt });
                self.user_generic_claimable.insert(k, 0);
            }
            i = i + 1;
            proof {
                let p1 = toks.subrange(0, i as int);
                assert(p1 =~= p0.push(t));
                assert forall|x: AccountId| p1.contains(x) <==> (p0.contains(x) || x == t) by {
                    if p1.contains(x) {
                        let j = choose|j: int| 0 <= j < p1.len() && p1[j] == x;
                        if j < p0.len() {
                            assert(p0[j] == x);
                        }
                    }
                    if p0.contains(x) {
                        let j = choose|j: int| 0 <= j < p0.len() && p0[j] == x;
                        assert(p1[j] == x);
                    }
                    if x == t {
                        assert(p1[p0.len() as int] == x);
                    }
                }
                assert(self@.user_generic_claimable =~= Map::new(
                    |kk: UserToken| s0.user_generic_claimable.contains_key(kk),
                    |kk: UserToken|
                        if kk.user == player && p1.contains(kk.token) && s0.user_generic_claimable[kk] > 0 {
                            0
                        } else {
                            s0.user_generic_claimable[kk]
                        },
                ));
            }
        }
        proof {
            assert(toks.subrange(0, toks.len() as int) =~= toks);
        }
        calls
    }
}

impl NFT {
    /// `player` claims their share of the opened rounds at `now` (see `claim_post`); returns
    /// the TERRY, POWER and XTAR claimed and the transfers the host makes from the contract
    /// account `this` (see `claim_calls`).
    #[verifier::rlimit(40)]
    pub fn claim_haw_ai_pot_share(&mut self, player: AccountId, this: AccountId, now: u64)
        -> (r: Result<((i128, u32, i128), Vec<TokenCall>), NFTError>)
        requires
            old(self).wf(),
        ensures
            final(self).wf(),
            match r {
                Ok(out) => old(self).ledger@.claim_err(player) is None
                    && final(self).ledger@ == old(self).ledger@.claim_post(player, now)
                    && out.0 == (
                        claimable_in(old(self).ledger@.user_claimables, player).terry,
                        claimable_in(old(self).ledger@.user_claimables, player).power,
                        claimable_in(old(self).ledger@.user_claimables, player).xtar,
                    )
                    && out.1@ == old(self).ledger@.claim_calls(player, this),
                Err(e) => old(self).ledger@.claim_err(player) == Some(e) && final(self).ledger@ == old(self).ledger@,
            },
    {
        let c = self.ledger.read_user_claimable_balance(&player);
        let xtar_token = self.ledger.read_config()?.xtar_token;
        if c.terry == 0 && c.power == 0 && c.xtar == 0 && !self.ledger.has_generic_claim(player) {
            return Err(NFTError::NoRewardsAvailable);
        }
        if c.terry > 0 {
            self.ledger.mint_terry_check(player, c.terry)?;
        }
        let u = self.ledger.read_user(&player);
        let new_power: u32 = if c.power > 0 {
            match u.power.checked_add(c.power) {
                Some(v) => v,
                None => return Err(NFTError::Overflow),
            }
        } else {
            u.power
        };
        if c.power > 0 && self.ledger.levels.len() == 0 {
            return Err(NFTError::LevelsMissing);
        }
        let vt: i128 = match self.ledger.vault.total_claimable_terry.checked_sub(c.terry) {
            Some(v) => v,
            None => return Err(NFTError::Overflow),
        };
        let vp: u32 = match self.ledger.vault.total_claimable_power.checked_sub(c.power) {
            Some(v) => v,
            None => return Err(NFTError::Overflow),
        };
        let vx: i128 = match self.ledger.vault.total_claimable_xtar.checked_sub(c.xtar) {
            Some(v) => v,
            None => return Err(NFTError::Overflow),
        };
        let ghost s0 = self.ledger@;
        let mut calls: Vec<TokenCall> = Vec::new();
        if c.terry > 0 {
            match self.ledger.mint_terry(player, c.terry) {
                Ok(()) => {},
                Err(e) => {
                    proof {
                        assert(false);
                    }
                    return Err(e);
                },
            }
        }
        if c.power > 0 {
            let mut u2 = self.ledger.read_user(&player);
            u2.power = new_power;
            proof {
                lemma_owner_field(&self.ledger, player);
            }
            match self.ledger.write_user(player, u2) {
                Ok(()) => {},
                Err(e) => {
                    proof {
                        assert(false);
                    }
                    return Err(e);
                },
            }
        }
        if c.xtar > 0 {
            calls.push(TokenCall::Transfer { token: xtar_token, from: this, to: player, amount: c.xtar });
        }
        let mut c2 = c;
        c2.terry = 0;
        c2.power = 0;
        c2.xtar = 0;
        c2.last_claim_timestamp = now;
        self.ledger.user_claimables.insert(player, c2);
        self.ledger.vault.total_claimable_terry = vt;
        self.ledger.vault.total_claimable_power = vp;
        self.ledger.vault.total_claimable_xtar = vx;
        let mut rest = self.ledger.sweep_generic_claims(player, this);
        self.ledger.emit_rewards_claimed(player, c.terry, c.power, c.xtar);
        calls.append(&mut rest);
        proof {
            assert(self.ledger@ =~= s0.claim_post(player, now));
            assert(calls@ =~= s0.claim_calls(player, this));
        }
        Ok(((c.terry, c.power, c.xtar), calls))
    }

    /// The older name of `claim_haw_ai_pot_share`.
    pub fn claim_all_pending_rewards(&mut self, player: AccountId, this: AccountId, now: u64)
        -> (r: Result<((i128, u32, i128), Vec<TokenCall>), NFTError>)
        requires
            old(self).wf(),
        ensures
            final(self).wf(),
            match r {
                Ok(out) => old(self).ledger@.claim_err(player) is None
                    && final(self).ledger@ == old(self).ledger@.claim_post(player, now)
                    && out.0 == (
                        claimable_in(old(self).ledger@.user_claimables, player).terry,
                        claimable_in(old(self).ledger@.user_claimables, player).power,
                        claimable_in(old(self).ledger@.user_claimables, player).xtar,
                    )
                    && out.1@ == old(self).ledger@.claim_calls(player, this),
                Err(e) => old(self).ledger@.claim_err(player) == Some(e) && final(self).ledger@ == old(self).ledger@,
            },
    {
        self.claim_haw_ai_pot_share(player, this, now)
    }
}

/// A player record read from a well-formed ledger is owned by the player.
proof fn lemma_owner_field(l: &Ledger, a: AccountId)
    requires
        l.wf(),
    ensures
        l@.user(a).owner == a,
{
    crate::ledger::lemma_owner_of_self(l, a);
}

} // verus!

verus! {

use crate::types::{Action, GenericTokenAmount};
use crate::math::{add_i128, mul_i128};

/// `s` without the occurrences of `x`.
pub open spec fn without(s: Seq<AccountId>, x: AccountId) -> Seq<AccountId>
    decreases s.len(),
{
    if s.len() == 0 {
        Seq::empty()
    } else if s.last() == x {
        without(s.drop_last(), x)
    } else {
        without(s.drop_last(), x).push(s.last())
    }
}

proof fn lemma_without(s: Seq<AccountId>, x: AccountId)
    requires
        s.no_duplicates(),
    ensures
        without(s, x).no_duplicates(),
        forall|y: AccountId| #[trigger] without(s, x).contains(y) ==> s.contains(y) && y != x,
        without(s, x).len() <= s.len(),
    decreases s.len(),
{
    if s.len() > 0 {
        let d = s.drop_last();
        assert forall|a: int, b: int| 0 <= a < d.len() && 0 <= b < d.len() && a != b implies d[a] != d[b] by {
            assert(d[a] == s[a] && d[b] == s[b]);
        }
        lemma_without(d, x);
        if s.last() != x {
            let w = without(d, x);
            assert(!w.contains(s.last())) by {
                if w.contains(s.last()) {
                    assert(d.contains(s.last()));
                    let j = choose|j: int| 0 <= j < d.len() && d[j] == s.last();
                    assert(s[j] == s[s.len() - 1]);
                }
            }
            assert forall|a: int, b: int| 0 <= a < w.len() + 1 && 0 <= b < w.len() + 1 && a != b implies w.push(s.last())[a]
                != w.push(s.last())[b] by {
                if a < w.len() && b < w.len() {
                } else if a < w.len() {
                    assert(w.contains(w[a]));
                } else {
                    assert(w.contains(w[b]));
                }
            }
            assert forall|y: AccountId| w.push(s.last()).contains(y) implies s.contains(y) && y != x by {
                let j = choose|j: int| 0 <= j < w.push(s.last()).len() && w.push(s.last())[j] == y;
                if j < w.len() {
                    assert(w.push(s.last())[j] == w[j]);
                    assert(w.contains(y));
                    assert(d.contains(y) && y != x);
                    let k = choose|k: int| 0 <= k < d.len() && d[k] == y;
                    assert(s[k] == y);
                } else {
                    assert(s[s.len() - 1] == y);
                }
            }
        } else {
            assert forall|y: AccountId| without(d, x).contains(y) implies s.contains(y) && y != x by {
                assert(d.contains(y) && y != x);
                let k = choose|k: int| 0 <= k < d.len() && d[k] == y;
                assert(s[k] == y);
            }
        }
    }
}

impl LedgerV {
    pub open spec fn dogstar_claim_err(self, claimer: AccountId) -> Option<NFTError> {
        let v = self.vault;
        let u = self.user(claimer);
        let s1 = if v.dogstar_terry > 0 {
            self.put_user(claimer, User { terry: (u.terry + v.dogstar_terry) as i128, ..u })
        } else {
            self
        };
        if self.admin is None {
            Some(NFTError::NotInitialized)
        } else if self.admin != Some(claimer) {
            Some(NFTError::NotAuthorized)
        } else if self.config is None {
            Some(NFTError::NotInitialized)
        } else if v.dogstar_terry == 0 && v.dogstar_power == 0 && v.dogstar_xtar == 0 && !self.has_generic_fee() {
            Some(NFTError::NoFeesAvailable)
        } else if v.dogstar_terry > 0 && !fits_i128(u.terry + v.dogstar_terry) {
            Some(NFTError::Overflow)
        } else if (v.dogstar_terry > 0 || v.dogstar_power > 0) && self.levels.len() == 0 {
            Some(NFTError::LevelsMissing)
        } else if v.dogstar_power > 0 && !fits_u32(s1.user(claimer).power + v.dogstar_power) {
            Some(NFTError::Overflow)
        } else {
            None
        }
    }

    /// The ledger after the administrator `claimer` claims the Dogstar fees: the TERRY and
    /// POWER fees go to their account, every fee claimed is zeroed and the withdrawal is
    /// published.
    pub open spec fn dogstar_claim_post(self, claimer: AccountId) -> LedgerV {
        let v = self.vault;
        let u = self.user(claimer);
        let s1 = if v.dogstar_terry > 0 {
            self.put_user(claimer, User { terry: (u.terry + v.dogstar_terry) as i128, ..u })
        } else {
            self
        };
        let s2 = if v.dogstar_power > 0 {
            s1.put_user(claimer, User { power: (s1.user(claimer).power + v.dogstar_power) as u32, ..s1.user(claimer) })
        } else {
            s1
        };
        LedgerV {
            dogstar_generic_fee: Map::new(
                |k: AccountId| s2.dogstar_generic_fee.contains_key(k),
                |k: AccountId| if s2.registered_tokens.contains(k) && s2.dogstar_generic_fee[k] > 0 { 0 } else { s2.dogstar_generic_fee[k] },
            ),
            vault: ContractVault {
                dogstar_terry: if v.dogstar_terry > 0 { 0 } else { v.dogstar_terry },
                dogstar_power: if v.dogstar_power > 0 { 0 } else { v.dogstar_power },
                dogstar_xtar: if v.dogstar_xtar > 0 { 0 } else { v.dogstar_xtar },
                ..v
            },
            ..s2
        }.emit(Event::FeeWd(FeeWd { recipient: claimer, terry: v.dogstar_terry, power: v.dogstar_power, xtar: v.dogstar_xtar }))
    }

    /// The token movements of the Dogstar fee claim: the XTAR, then each generic token.
    pub open spec fn dogstar_claim_calls(self, claimer: AccountId, this: AccountId) -> Seq<TokenCall> {
        let x = self.vault.dogstar_xtar;
        let xtar = if x > 0 {
            seq![TokenCall::Transfer { token: self.config->0.xtar_token, from: this, to: claimer, amount: x }]
        } else {
            Seq::empty()
        };
        xtar + fee_payouts(self.dogstar_generic_fee, claimer, self.registered_tokens, this)
    }

    pub open spec fn accumulate_pot_err(self, terry: i128, power: u32, xtar: i128) -> Option<NFTError> {
        if xtar < 0 {
            Some(NFTError::NegativeContribution)
        } else if self.admin is None {
            Some(NFTError::NotInitialized)
        } else {
            self.accumulate_err(terry, power, xtar)
        }
    }

    /// The XTAR movement of a contribution: from `from`, else the administrator.
    pub open spec fn accumulate_pot_calls(self, xtar: i128, from: Option<AccountId>, this: AccountId) -> Seq<TokenCall> {
        if xtar > 0 {
            seq![TokenCall::Transfer {
                token: self.config->0.xtar_token,
                from: match from { Some(a) => a, None => self.admin->0 },
                to: this,
                amount: xtar,
            }]
        } else {
            Seq::empty()
        }
    }

    pub open spec fn accumulate_token_err(self, token: AccountId, amount: i128, now: u64) -> Option<NFTError> {
        if self.admin is None {
            Some(NFTError::NotInitialized)
        } else if amount < 0 {
            Some(NFTError::NegativeContribution)
        } else if !self.registered_tokens.contains(token) {
            Some(NFTError::TokenNotRegistered)
        } else {
            match self.config {
                None => Some(NFTError::NotInitialized),
                Some(c) => {
                    let fee = trunc_div(amount * c.dogstar_fee_percentage, 10000);
                    let net = amount - fee;
                    if !fits_i128(amount * c.dogstar_fee_percentage) {
                        Some(NFTError::Overflow)
                    } else if token == c.xtar_token {
                        if !fits_i128(self.pot(now).accumulated_xtar + net) || !fits_i128(self.vault.dogstar_xtar + fee) {
                            Some(NFTError::Overflow)
                        } else {
                            None
                        }
                    } else if !fits_i128(generic_acc(self.accumulated_by_token, token) + net) {
                        Some(NFTError::Overflow)
                    } else if fee > 0 && !fits_i128(generic_acc(self.dogstar_generic_fee, token) + fee) {
                        Some(NFTError::Overflow)
                    } else {
                        None
                    }
                },
            }
        }
    }

    /// The ledger after `amount` of a registered token is added to the pot at `now`: the
    /// Dogstar fee (basis points) is set apart, XTAR goes to the pot, another token to its
    /// own accumulator.
    pub open spec fn accumulate_token_post(self, token: AccountId, amount: i128, now: u64) -> LedgerV {
        let c = self.config->0;
        let fee = trunc_div(amount * c.dogstar_fee_percentage, 10000);
        let net = amount - fee;
        if token == c.xtar_token {
            let pot = self.pot(now);
            LedgerV {
                pot_balance: Some(PotBalance { accumulated_xtar: (pot.accumulated_xtar + net) as i128, last_updated: now, ..pot }),
                vault: ContractVault { dogstar_xtar: (self.vault.dogstar_xtar + fee) as i128, ..self.vault },
                ..self
            }
        } else {
            LedgerV {
                accumulated_by_token: self.accumulated_by_token.insert(token, (generic_acc(self.accumulated_by_token, token) + net) as i128),
                dogstar_generic_fee: if fee > 0 {
                    self.dogstar_generic_fee.insert(token, (generic_acc(self.dogstar_generic_fee, token) + fee) as i128)
                } else {
                    self.dogstar_generic_fee
                },
                ..self
            }
        }
    }
}

/// Whether `x` is in `v`.
fn contains_account(v: &Vec<AccountId>, x: &AccountId) -> (b: bool)
    ensures
        b == v@.contains(*x),
{
    let mut i: usize = 0;
    while i < v.len()
        invariant
            i <= v@.len(),
            forall|j: int| 0 <= j < i ==> v@[j] != *x,
        decreases v@.len() - i,
    {
        if v[i].0 == x.0 {
            proof {
                assert(v@[i as int] == *x);
            }
            return true;
        }
        i = i + 1;
    }
    false
}

/// An amount kept per token, else zero.
pub open spec fn generic_acc(m: Map<AccountId, i128>, token: AccountId) -> i128 {
    if m.contains_key(token) {
        m[token]
    } else {
        0
    }
}

} // verus!

verus! {

impl Ledger {
    /// Whether some registered generic token has Dogstar fees.
    fn has_generic_fee(&self) -> (b: bool)
        requires
            self.wf(),
        ensures
            b == self@.has_generic_fee(),
    {
        let mut i: usize = 0;
        while i < self.registered_tokens.len()
            invariant
                self.wf(),
                i <= self@.registered_tokens.len(),
                forall|j: int| 0 <= j < i ==> !(self@.dogstar_generic_fee.contains_key(#[trigger] self@.registered_tokens[j])
                    && self@.dogstar_generic_fee[self@.registered_tokens[j]] > 0),
            decreases self@.registered_tokens.len() - i,
        {
            let t = self.registered_tokens[i];
            match self.dogstar_generic_fee.get(&t) {
                Some(v) => {
                    if *v > 0 {
                        return true;
                    }
                },
                None => {},
            }
            i = i + 1;
        }
        false
    }

    /// Pays out and zeroes the Dogstar fees of the registered generic tokens; the
    /// transfers, in order.
    fn sweep_generic_fees(&mut self, claimer: AccountId, this: AccountId) -> (calls: Vec<TokenCall>)
        requires
            old(self).wf(),
        ensures
            final(self).wf(),
            calls@ == fee_payouts(old(self)@.dogstar_generic_fee, claimer, old(self)@.registered_tokens, this),
            final(self)@ == (LedgerV {
                dogstar_generic_fee: Map::new(
                    |k: AccountId| old(self)@.dogstar_generic_fee.contains_key(k),
                    |k: AccountId|
                        if old(self)@.registered_tokens.contains(k) && old(self)@.dogstar_generic_fee[k] > 0 {
                            0
                        } else {
                            old(self)@.dogstar_generic_fee[k]
                        },
                ),
                ..old(self)@
            }),
    {
        let ghost s0 = self@;
        let ghost toks = s0.registered_tokens;
        let ghost f0 = s0.dogstar_generic_fee;
        let mut calls: Vec<TokenCall> = Vec::new();
        let mut i: usize = 0;
        proof {
            assert(Map::new(
                |k: AccountId| f0.contains_key(k),
                |k: AccountId| if toks.subrange(0, 0).contains(k) && f0[k] > 0 { 0 } else { f0[k] },
            ) =~= f0);
        }
        while i < self.registered_tokens.len()
            invariant
                self.wf(),
                i <= toks.len(),
                toks == s0.registered_tokens,
                f0 == s0.dogstar_generic_fee,
                toks.no_duplicates(),
                calls@ == fee_payouts(f0, claimer, toks.subrange(0, i as int), this),
                self@ == (LedgerV {
                    dogstar_generic_fee: Map::new(
                        |k: AccountId| f0.contains_key(k),
                        |k: AccountId| if toks.subrange(0, i as int).contains(k) && f0[k] > 0 { 0 } else { f0[k] },
                    ),
                    ..s0
                }),
            decreases toks.len() - i,
        {
            let t = self.registered_tokens[i];
            let ghost p0 = toks.subrange(0, i as int);
            proof {
                assert(toks.subrange(0, i + 1).drop_last() =~= p0);
                assert(toks.subrange(0, i + 1).last() == t);
                assert(!p0.contains(t)) by {
                    if p0.contains(t) {
                        let j = choose|j: int| 0 <= j < p0.len() && p0[j] == t;
                        assert(toks[j] == toks[i as int]);
                    }
                }
            }
            let amt: i128 = match self.dogstar_generic_fee.get(&t) {
                Some(v) => *v,
                None => 0,
            };
            if amt > 0 {
                calls.push(TokenCall::Transfer { token: t, from: this, to: claimer, amount: amt });
                self.dogstar_generic_fee.insert(t, 0);
            }
            i = i + 1;
            proof {
                let p1 = toks.subrange(0, i as int);
                assert(p1 =~= p0.push(t));
                assert forall|x: AccountId| p1.contains(x) <==> (p0.contains(x) || x == t) by {
                    if p1.contains(x) {
                        let j = choose|j: int| 0 <= j < p1.len() && p1[j] == x;
                        if j < p0.len() {
                            assert(p0[j] == x);
                        }
                    }
                    if p0.contains(x) {
                        let j = choose|j: int| 0 <= j < p0.len() && p0[j] == x;
                        assert(p1[j] == x);
                    }
                    if x == t {
                        assert(p1[p0.len() as int] == x);
                    }
                }
                assert(self@.dogstar_generic_fee =~= Map::new(
                    |k: AccountId| f0.contains_key(k),
                    |k: AccountId| if p1.contains(k) && f0[k] > 0 { 0 } else { f0[k] },
                ));
            }
        }
        proof {
            assert(toks.subrange(0, toks.len() as int) =~= toks);
        }
        calls
    }
}

impl NFT {
    /// The administrator `claimer` takes the Dogstar fees (see `dogstar_claim_post`); the
    /// transfers the host makes from `this` (see `dogstar_claim_calls`).
    #[verifier::rlimit(40)]
    pub fn claim_dogstar_fees(&mut self, claimer: AccountId, this: AccountId) -> (r: Result<Vec<TokenCall>, NFTError>)
        requires
            old(self).wf(),
        ensures
            final(self).wf(),
            match r {
                Ok(calls) => old(self).ledger@.dogstar_claim_err(claimer) is None
                    && final(self).ledger@ == old(self).ledger@.dogstar_claim_post(claimer)
                    && calls@ == old(self).ledger@.dogstar_claim_calls(claimer, this),
                Err(e) => old(self).ledger@.dogstar_claim_err(claimer) == Some(e) && final(self).ledger@ == old(self).ledger@,
            },
    {
        let admin = self.ledger.read_administrator()?;
        if admin.0 != claimer.0 {
            return Err(NFTError::NotAuthorized);
        }
        let xtar_token = self.ledger.read_config()?.xtar_token;
        let v = self.ledger.vault;
        if v.dogstar_terry == 0 && v.dogstar_power == 0 && v.dogstar_xtar == 0 && !self.ledger.has_generic_fee() {
            return Err(NFTError::NoFeesAvailable);
        }
        let u = self.ledger.read_user(&claimer);
        let new_terry: i128 = if v.dogstar_terry > 0 {
            match u.terry.checked_add(v.dogstar_terry) {
                Some(x) => x,
                None => return Err(NFTError::Overflow),
            }
        } else {
            u.terry
        };
        if (v.dogstar_terry > 0 || v.dogstar_power > 0) && self.ledger.levels.len() == 0 {
            return Err(NFTError::LevelsMissing);
        }
        let new_power: u32 = if v.dogstar_power > 0 {
            match u.power.checked_add(v.dogstar_power) {
                Some(x) => x,
                None => return Err(NFTError::Overflow),
            }
        } else {
            u.power
        };
        let ghost s0 = self.ledger@;
        proof {
            lemma_owner_field(&self.ledger, claimer);
        }
        if v.dogstar_terry > 0 {
            let mut u1 = self.ledger.read_user(&claimer);
            u1.terry = new_terry;
            match self.ledger.write_user(claimer, u1) {
                Ok(()) => {},
                Err(e) => {
                    proof {
                        assert(false);
                    }
                    return Err(e);
                },
            }
        }
        if v.dogstar_power > 0 {
            let mut u2 = self.ledger.read_user(&claimer);
            proof {
                lemma_owner_field(&self.ledger, claimer);
            }
            u2.power = new_power;
            match self.ledger.write_user(claimer, u2) {
                Ok(()) => {},
                Err(e) => {
                    proof {
                        assert(false);
                    }
                    return Err(e);
                },
            }
        }
        let mut calls: Vec<TokenCall> = Vec::new();
        if v.dogstar_xtar > 0 {
            calls.push(TokenCall::Transfer { token: xtar_token, from: this, to: claimer, amount: v.dogstar_xtar });
        }
        let mut rest = self.ledger.sweep_generic_fees(claimer, this);
        calls.append(&mut rest);
        if v.dogstar_terry > 0 {
            self.ledger.vault.dogstar_terry = 0;
        }
        if v.dogstar_power > 0 {
            self.ledger.vault.dogstar_power = 0;
        }
        if v.dogstar_xtar > 0 {
            self.ledger.vault.dogstar_xtar = 0;
        }
        self.ledger.emit_dogstar_fee_withdrawn(claimer, v.dogstar_terry, v.dogstar_power, v.dogstar_xtar);
        proof {
            assert(self.ledger@ =~= s0.dogstar_claim_post(claimer));
            assert(calls@ =~= s0.dogstar_claim_calls(claimer, this));
        }
        Ok(calls)
    }

    /// Adds a contribution to the pot, less the Dogstar fee (see `accumulate_post`); the
    /// XTAR, if any, comes from `from` (else the administrator) to `this`.
    pub fn accumulate_pot(&mut self, terry: i128, power: u32, xtar: i128, from: Option<AccountId>, action: Option<Action>,
        this: AccountId, now: u64) -> (r: Result<Vec<TokenCall>, NFTError>)
        requires
            old(self).wf(),
        ensures
            final(self).wf(),
            match r {
                Ok(calls) => old(self).ledger@.accumulate_pot_err(terry, power, xtar) is None
                    && final(self).ledger@ == old(self).ledger@.accumulate_post(terry, power, xtar, from, action, now)
                    && calls@ == old(self).ledger@.accumulate_pot_calls(xtar, from, this),
                Err(e) => old(self).ledger@.accumulate_pot_err(terry, power, xtar) == Some(e) && final(self).ledger@ == old(self).ledger@,
            },
    {
        if xtar < 0 {
            return Err(NFTError::NegativeContribution);
        }
        let admin = self.ledger.read_administrator()?;
        let xtar_token = self.ledger.read_config()?.xtar_token;
        let ghost s0 = self.ledger@;
        self.ledger.accumulate_pot_internal(terry, power, xtar, from, action, now)?;
        let mut calls: Vec<TokenCall> = Vec::new();
        if xtar > 0 {
            let source = match from {
                Some(a) => a,
                None => admin,
            };
            calls.push(TokenCall::Transfer { token: xtar_token, from: source, to: this, amount: xtar });
        }
        proof {
            assert(calls@ =~= s0.accumulate_pot_calls(xtar, from, this));
        }
        Ok(calls)
    }

    /// The administrator adds non-negative amounts to the pot (see `accumulate_pot`).
    pub fn contribute_to_pot(&mut self, terry: i128, power: u32, xtar: i128, this: AccountId, now: u64) -> (r: Result<Vec<TokenCall>, NFTError>)
        requires
            old(self).wf(),
        ensures
            final(self).wf(),
            match r {
                Ok(calls) => old(self).ledger@.admin is Some && terry >= 0 && xtar >= 0
                    && old(self).ledger@.accumulate_pot_err(terry, power, xtar) is None
                    && final(self).ledger@ == old(self).ledger@.accumulate_post(terry, power, xtar, None, None, now)
                    && calls@ == old(self).ledger@.accumulate_pot_calls(xtar, None, this),
                Err(e) => final(self).ledger@ == old(self).ledger@ && e == (if old(self).ledger@.admin is None {
                    NFTError::NotInitialized
                } else if terry < 0 || xtar < 0 {
                    NFTError::NegativeContribution
                } else {
                    old(self).ledger@.accumulate_pot_err(terry, power, xtar)->0
                }),
            },
    {
        self.ledger.read_administrator()?;
        if terry < 0 || xtar < 0 {
            return Err(NFTError::NegativeContribution);
        }
        self.accumulate_pot(terry, power, xtar, None, None, this, now)
    }

    /// The administrator adds `amount` of a registered token to the pot at `now` (see
    /// `accumulate_token_post`); the amount comes from the administrator to `this`.
    pub fn accumulate_pot_token(&mut self, token: AccountId, amount: i128, this: AccountId, now: u64) -> (r: Result<Vec<TokenCall>, NFTError>)
        requires
            old(self).wf(),
        ensures
            final(self).wf(),
            match r {
                Ok(calls) => old(self).ledger@.accumulate_token_err(token, amount, now) is None
                    && final(self).ledger@ == old(self).ledger@.accumulate_token_post(token, amount, now)
                    && calls@ == seq![TokenCall::Transfer { token, from: old(self).ledger@.admin->0, to: this, amount }],
                Err(e) => old(self).ledger@.accumulate_token_err(token, amount, now) == Some(e) && final(self).ledger@ == old(self).ledger@,
            },
    {
        let admin = self.ledger.read_administrator()?;
        if amount < 0 {
            return Err(NFTError::NegativeContribution);
        }
        if !contains_account(&self.ledger.registered_tokens, &token) {
            return Err(NFTError::TokenNotRegistered);
        }
        let (pct, xtar_token) = {
            let c = self.ledger.read_config()?;
            (c.dogstar_fee_percentage, c.xtar_token)
        };
        let m: i128 = mul_i128(amount, pct as i128)?;
        let fee: i128 = m / 10000;
        let net: i128 = amount - fee;
        let ghost s0 = self.ledger@;
        if token.0 == xtar_token.0 {
            let mut pot = self.ledger.read_pot_balance(now);
            let px: i128 = add_i128(pot.accumulated_xtar, net)?;
            let vx: i128 = add_i128(self.ledger.vault.dogstar_xtar, fee)?;
            pot.accumulated_xtar = px;
            pot.last_updated = now;
            self.ledger.pot_balance = Some(pot);
            self.ledger.vault.dogstar_xtar = vx;
        } else {
            let cur: i128 = self.ledger.read_accumulated_by_token(&token);
            let next: i128 = add_i128(cur, net)?;
            let fcur: i128 = self.ledger.read_dogstar_generic_fee(&token);
            if fee > 0 {
                let fnext: i128 = add_i128(fcur, fee)?;
                self.ledger.write_accumulated_by_token(token, next);
                self.ledger.write_dogstar_generic_fee(token, fnext);
            } else {
                self.ledger.write_accumulated_by_token(token, next);
            }
        }
        let mut calls: Vec<TokenCall> = Vec::new();
        calls.push(TokenCall::Transfer { token, from: admin, to: this, amount });
        proof {
            assert(self.ledger@ =~= s0.accumulate_token_post(token, amount, now));
        }
        Ok(calls)
    }

    /// The administrator registers a generic token for the pot; one registered already
    /// stays registered once.
    pub fn register_token(&mut self, token: AccountId) -> (r: Result<(), NFTError>)
        requires
            old(self).wf(),
            old(self).ledger@.registered_tokens.len() < u32::MAX,
        ensures
            final(self).wf(),
            match r {
                Ok(()) => old(self).ledger@.admin is Some && final(self).ledger@ == (LedgerV {
                    registered_tokens: if old(self).ledger@.registered_tokens.contains(token) {
                        old(self).ledger@.registered_tokens
                    } else {
                        old(self).ledger@.registered_tokens.push(token)
                    },
                    ..old(self).ledger@
                }),
                Err(e) => old(self).ledger@.admin is None && e == NFTError::NotInitialized && final(self).ledger@ == old(self).ledger@,
            },
    {
        self.ledger.read_administrator()?;
        if !contains_account(&self.ledger.registered_tokens, &token) {
            let ghost s = self.ledger.registered_tokens@;
            self.ledger.registered_tokens.push(token);
            proof {
                assert forall|a: int, b: int| 0 <= a < s.len() + 1 && 0 <= b < s.len() + 1 && a != b implies s.push(token)[a]
                    != s.push(token)[b] by {
                    if a < s.len() && b < s.len() {
                    } else if a < s.len() {
                        assert(s.contains(s[a]));
                    } else {
                        assert(s.contains(s[b]));
                    }
                }
            }
        }
        Ok(())
    }

    /// The administrator removes a generic token from the pot's registry.
    pub fn unregister_token(&mut self, token: AccountId) -> (r: Result<(), NFTError>)
        requires
            old(self).wf(),
        ensures
            final(self).wf(),
            match r {
                Ok(()) => old(self).ledger@.admin is Some && final(self).ledger@ == (LedgerV {
                    registered_tokens: without(old(self).ledger@.registered_tokens, token),
                    ..old(self).ledger@
                }),
                Err(e) => old(self).ledger@.admin is None && e == NFTError::NotInitialized && final(self).ledger@ == old(self).ledger@,
            },
    {
        self.ledger.read_administrator()?;
        let ghost toks = self.ledger@.registered_tokens;
        let mut kept: Vec<AccountId> = Vec::new();
        let mut i: usize = 0;
        while i < self.ledger.registered_tokens.len()
            invariant
                i <= toks.len(),
                toks == self.ledger@.registered_tokens,
                kept@ == without(toks.subrange(0, i as int), token),
            decreases toks.len() - i,
        {
            let t = self.ledger.registered_tokens[i];
            proof {
                assert(toks.subrange(0, i + 1).drop_last() =~= toks.subrange(0, i as int));
                assert(toks.subrange(0, i + 1).last() == t);
            }
            if t.0 != token.0 {
                kept.push(t);
            }
            i = i + 1;
        }
        proof {
            assert(toks.subrange(0, toks.len() as int) =~= toks);
            lemma_without(toks, token);
        }
        self.ledger.registered_tokens = kept;
        Ok(())
    }

    /// The administrator sets the Dogstar fee, in basis points, at most 5000; the change is
    /// published.
    pub fn update_dogstar_fee_percentage(&mut self, fee_percentage: u32) -> (r: Result<(), NFTError>)
        requires
            old(self).wf(),
        ensures
            final(self).wf(),
            match r {
                Ok(()) => old(self).ledger@.admin is Some && fee_percentage <= 5000 && old(self).ledger@.config is Some
                    && final(self).ledger@ == (LedgerV {
                        config: Some(Config { dogstar_fee_percentage: fee_percentage, ..old(self).ledger@.config->0 }),
                        ..old(self).ledger@
                    }).emit(Event::FeePct(FeePct {
                        old_fee: old(self).ledger@.config->0.dogstar_fee_percentage,
                        new_fee: fee_percentage,
                    })),
                Err(e) => final(self).ledger@ == old(self).ledger@ && e == (if old(self).ledger@.admin is None {
                    NFTError::NotInitialized
                } else if fee_percentage > 5000 {
                    NFTError::FeeTooHigh
                } else {
                    NFTError::NotInitialized
                }),
            },
    {
        self.ledger.read_administrator()?;
        if fee_percentage > 5000 {
            return Err(NFTError::FeeTooHigh);
        }
        let mut config = match self.ledger.config.take() {
            Some(c) => c,
            None => return Err(NFTError::NotInitialized),
        };
        let old_fee: u32 = config.dogstar_fee_percentage;
        config.dogstar_fee_percentage = fee_percentage;
        self.ledger.config = Some(config);
        self.ledger.emit_dogstar_fee_percentage_updated(old_fee, fee_percentage);
        Ok(())
    }
}

} // verus!

verus! {

use crate::types::{Card, CardMetadata, DogstarBalance, PlayerReward, RoundPlayer, TokenId};

/// A copy of a list of numbers.
fn copy_u32s(v: &Vec<u32>) -> (r: Vec<u32>)
    ensures
        r@ == v@,
{
    let mut out: Vec<u32> = Vec::new();
    let mut i: usize = 0;
    while i < v.len()
        invariant
            i <= v@.len(),
            out@ == v@.subrange(0, i as int),
        decreases v@.len() - i,
    {
        out.push(v[i]);
        i = i + 1;
        proof {
            assert(out@ =~= v@.subrange(0, i as int));
        }
    }
    proof {
        assert(v@.subrange(0, v@.len() as int) =~= v@);
    }
    out
}

/// The fields of a configuration, its lists as sequences.
pub open spec fn config_fields(c: Config) -> (AccountId, AccountId, u32, u32, u32, i128, Seq<u32>, Seq<u32>, u32, u32, i128, i128, i128, i128, u32, i128, u32) {
    (c.xtar_token, c.oracle_contract_id, c.withdrawable_percentage, c.burnable_percentage, c.haw_ai_percentage,
        c.terry_per_power, c.stake_periods@, c.stake_interest_percentages@, c.power_action_fee, c.burn_receive_percentage,
        c.terry_per_deck, c.terry_per_fight, c.terry_per_lending, c.terry_per_stake, c.apy_alpha, c.power_to_usdc_rate,
        c.dogstar_fee_percentage)
}

impl NFT {
    /// The administrator appends a level; returns its id (the new number of levels).
    pub fn add_new_level(&mut self, level: Level) -> (r: Result<u32, NFTError>)
        requires
            old(self).wf(),
            old(self).ledger@.levels.len() + 1 < u32::MAX,
        ensures
            final(self).wf(),
            match r {
                Ok(id) => old(self).ledger@.admin is Some && id == old(self).ledger@.levels.len() + 1
                    && final(self).ledger@ == (LedgerV { levels: old(self).ledger@.levels.push(level), ..old(self).ledger@ }),
                Err(e) => old(self).ledger@.admin is None && e == NFTError::NotInitialized && final(self).ledger@ == old(self).ledger@,
            },
    {
        self.ledger.read_administrator()?;
        Ok(self.ledger.add_level(level))
    }

    /// Appends a level; returns its id.
    pub fn add_level(&mut self, level: Level) -> (id: u32)
        requires
            old(self).wf(),
            old(self).ledger@.levels.len() + 1 < u32::MAX,
        ensures
            final(self).wf(),
            id == old(self).ledger@.levels.len() + 1,
            final(self).ledger@ == (LedgerV { levels: old(self).ledger@.levels.push(level), ..old(self).ledger@ }),
    {
        self.ledger.add_level(level)
    }

    /// The administrator replaces level `level_id` (counted from 1).
    pub fn update_level(&mut self, level_id: u32, level: Level) -> (r: Result<(), NFTError>)
        requires
            old(self).wf(),
        ensures
            final(self).wf(),
            match r {
                Ok(()) => old(self).ledger@.admin is Some && final(self).ledger@ == (if 1 <= level_id <= old(self).ledger@.levels.len() {
                    LedgerV { levels: old(self).ledger@.levels.update(level_id - 1, level), ..old(self).ledger@ }
                } else {
                    old(self).ledger@
                }),
                Err(e) => old(self).ledger@.admin is None && e == NFTError::NotInitialized && final(self).ledger@ == old(self).ledger@,
            },
    {
        self.ledger.read_administrator()?;
        self.ledger.update_level(level_id, level);
        Ok(())
    }

    /// The administrator mints `amount` TERRY to `player`.
    pub fn mint_terry(&mut self, player: AccountId, amount: i128) -> (r: Result<(), NFTError>)
        requires
            old(self).wf(),
        ensures
            final(self).wf(),
            match r {
                Ok(()) => old(self).ledger@.admin is Some && old(self).ledger@.mint_terry_err(player, amount) is None
                    && final(self).ledger@ == old(self).ledger@.mint_terry_post(player, amount),
                Err(e) => final(self).ledger@ == old(self).ledger@ && e == (if old(self).ledger@.admin is None {
                    NFTError::NotInitialized
                } else {
                    old(self).ledger@.mint_terry_err(player, amount)->0
                }),
            },
    {
        self.ledger.read_administrator()?;
        self.ledger.mint_terry(player, amount)
    }

    /// The TERRY balance of `player`.
    pub fn terry_balance(&self, player: AccountId) -> (r: i128)
        requires
            self.wf(),
        ensures
            r == self.ledger@.user(player).terry,
    {
        self.ledger.read_user(&player).terry
    }

    /// The administrator creates `address`'s player record with 100 POWER.
    pub fn create_user(&mut self, address: AccountId) -> (r: Result<(), NFTError>)
        requires
            old(self).wf(),
        ensures
            final(self).wf(),
            match r {
                Ok(()) => old(self).ledger@.admin is Some && old(self).ledger@.levels.len() > 0
                    && final(self).ledger@ == old(self).ledger@.put_user(
                        address,
                        User { owner: address, power: 100, terry: 0, total_history_terry: 0, level: 1 },
                    ),
                Err(e) => final(self).ledger@ == old(self).ledger@ && e == (if old(self).ledger@.admin is None {
                    NFTError::NotInitialized
                } else {
                    NFTError::LevelsMissing
                }),
            },
    {
        self.ledger.read_administrator()?;
        self.ledger.write_user(address, User { owner: address, power: 100, terry: 0, total_history_terry: 0, level: 1 })
    }

    /// The administrator puts `members` on the whitelist.
    pub fn add_to_whitelist(&mut self, members: &Vec<AccountId>) -> (r: Result<(), NFTError>)
        requires
            old(self).wf(),
        ensures
            final(self).wf(),
            match r {
                Ok(()) => old(self).ledger@.admin is Some && final(self).ledger@ == (LedgerV {
                    whitelist: Map::new(
                        |a: AccountId| old(self).ledger@.whitelist.contains_key(a) || members@.contains(a),
                        |a: AccountId| if members@.contains(a) { true } else { old(self).ledger@.whitelist[a] },
                    ),
                    ..old(self).ledger@
                }),
                Err(e) => old(self).ledger@.admin is None && e == NFTError::NotInitialized && final(self).ledger@ == old(self).ledger@,
            },
    {
        self.ledger.read_administrator()?;
        let ghost s0 = self.ledger@;
        let mut i: usize = 0;
        proof {
            assert(Map::new(
                |a: AccountId| s0.whitelist.contains_key(a) || members@.subrange(0, 0).contains(a),
                |a: AccountId| if members@.subrange(0, 0).contains(a) { true } else { s0.whitelist[a] },
            ) =~= s0.whitelist);
        }
        while i < members.len()
            invariant
                self.wf(),
                i <= members@.len(),
                self.ledger@ == (LedgerV {
                    whitelist: Map::new(
                        |a: AccountId| s0.whitelist.contains_key(a) || members@.subrange(0, i as int).contains(a),
                        |a: AccountId| if members@.subrange(0, i as int).contains(a) { true } else { s0.whitelist[a] },
                    ),
                    ..s0
                }),
            decreases members@.len() - i,
        {
            let m = members[i];
            self.ledger.whitelist.insert(m, true);
            proof {
                let p0 = members@.subrange(0, i as int);
                let p1 = members@.subrange(0, i + 1);
                assert(p1 =~= p0.push(m));
                assert forall|x: AccountId| p1.contains(x) <==> (p0.contains(x) || x == m) by {
                    crate::opening::lemma_push_contains_account(p0, m, x);
                }
                assert(self.ledger@.whitelist =~= Map::new(
                    |a: AccountId| s0.whitelist.contains_key(a) || p1.contains(a),
                    |a: AccountId| if p1.contains(a) { true } else { s0.whitelist[a] },
                ));
            }
            i = i + 1;
        }
        proof {
            assert(members@.subrange(0, members@.len() as int) =~= members@);
        }
        Ok(())
    }

    /// The administrator takes `members` off the whitelist.
    pub fn remove_from_whitelist(&mut self, members: &Vec<AccountId>) -> (r: Result<(), NFTError>)
        requires
            old(self).wf(),
        ensures
            final(self).wf(),
            match r {
                Ok(()) => old(self).ledger@.admin is Some && final(self).ledger@ == (LedgerV {
                    whitelist: Map::new(
                        |a: AccountId| old(self).ledger@.whitelist.contains_key(a) && !members@.contains(a),
                        |a: AccountId| old(self).ledger@.whitelist[a],
                    ),
                    ..old(self).ledger@
                }),
                Err(e) => old(self).ledger@.admin is None && e == NFTError::NotInitialized && final(self).ledger@ == old(self).ledger@,
            },
    {
        self.ledger.read_administrator()?;
        let ghost s0 = self.ledger@;
        let mut i: usize = 0;
        proof {
            assert(Map::new(
                |a: AccountId| s0.whitelist.contains_key(a) && !members@.subrange(0, 0).contains(a),
                |a: AccountId| s0.whitelist[a],
            ) =~= s0.whitelist);
        }
        while i < members.len()
            invariant
                self.wf(),
                i <= members@.len(),
                self.ledger@ == (LedgerV {
                    whitelist: Map::new(
                        |a: AccountId| s0.whitelist.contains_key(a) && !members@.subrange(0, i as int).contains(a),
                        |a: AccountId| s0.whitelist[a],
                    ),
                    ..s0
                }),
            decreases members@.len() - i,
        {
            let m = members[i];
            self.ledger.whitelist.remove(&m);
            proof {
                let p0 = members@.subrange(0, i as int);
                let p1 = members@.subrange(0, i + 1);
                assert(p1 =~= p0.push(m));
                assert forall|x: AccountId| p1.contains(x) <==> (p0.contains(x) || x == m) by {
                    crate::opening::lemma_push_contains_account(p0, m, x);
                }
                assert(self.ledger@.whitelist =~= Map::new(
                    |a: AccountId| s0.whitelist.contains_key(a) && !p1.contains(a),
                    |a: AccountId| s0.whitelist[a],
                ));
            }
            i = i + 1;
        }
        proof {
            assert(members@.subrange(0, members@.len() as int) =~= members@);
        }
        Ok(())
    }

    /// The administrator writes the catalog entry of card kind `id`.
    pub fn create_metadata(&mut self, card: CardMetadata, id: u32) -> (r: Result<(), NFTError>)
        requires
            old(self).wf(),
            old(self).ledger@.all_card_ids.len() < u32::MAX,
        ensures
            final(self).wf(),
            match r {
                Ok(()) => old(self).ledger@.admin is Some && final(self).ledger@ == (LedgerV {
                    metadata: old(self).ledger@.metadata.insert(id, card),
                    all_card_ids: if old(self).ledger@.metadata.contains_key(id) {
                        old(self).ledger@.all_card_ids
                    } else {
                        old(self).ledger@.all_card_ids.push(TokenId(id))
                    },
                    ..old(self).ledger@
                }),
                Err(e) => old(self).ledger@.admin is None && e == NFTError::NotInitialized && final(self).ledger@ == old(self).ledger@,
            },
    {
        self.ledger.read_administrator()?;
        self.ledger.write_metadata(id, card);
        Ok(())
    }

    /// The catalog entry of card kind `id`.
    pub fn get_card(&self, id: u32) -> (r: Result<CardMetadata, NFTError>)
        requires
            self.wf(),
        ensures
            match r {
                Ok(m) => self.ledger@.metadata.contains_key(id) && m == self.ledger@.metadata[id],
                Err(e) => !self.ledger@.metadata.contains_key(id) && e == NFTError::MetadataMissing,
            },
    {
        self.ledger.read_metadata(id)
    }

    /// The administrator hands the contract to `new_admin`; the change is published.
    pub fn set_admin(&mut self, new_admin: AccountId) -> (r: Result<(), NFTError>)
        requires
            old(self).wf(),
        ensures
            final(self).wf(),
            match r {
                Ok(()) => old(self).ledger@.admin is Some && final(self).ledger@ == (LedgerV {
                    admin: Some(new_admin),
                    ..old(self).ledger@
                }).emit(Event::AdminChanged { admin: old(self).ledger@.admin->0, new_admin }),
                Err(e) => old(self).ledger@.admin is None && e == NFTError::NotInitialized && final(self).ledger@ == old(self).ledger@,
            },
    {
        let admin = self.ledger.read_administrator()?;
        self.ledger.admin = Some(new_admin);
        self.ledger.emit(Event::AdminChanged { admin, new_admin });
        Ok(())
    }

    /// Whether there is an administrator (whose signature the host checks).
    pub fn check_admin(&self) -> (r: Result<bool, NFTError>)
        ensures
            match r {
                Ok(b) => self.ledger@.admin is Some && b,
                Err(e) => self.ledger@.admin is None && e == NFTError::NotInitialized,
            },
    {
        self.ledger.read_administrator()?;
        Ok(true)
    }

    /// The administrator.
    pub fn check_admin_address(&self) -> (r: Result<AccountId, NFTError>)
        ensures
            match r {
                Ok(a) => self.ledger@.admin == Some(a),
                Err(e) => self.ledger@.admin is None && e == NFTError::NotInitialized,
            },
    {
        self.ledger.read_administrator()
    }

    /// Fees are claimed by `claim_dogstar_fees`; this request only checks for an
    /// administrator.
    pub fn release_dogstar_fees(&self) -> (r: Result<(), NFTError>)
        ensures
            match r {
                Ok(()) => self.ledger@.admin is Some,
                Err(e) => self.ledger@.admin is None && e == NFTError::NotInitialized,
            },
    {
        self.ledger.read_administrator()?;
        Ok(())
    }

    pub fn card(&self, owner: AccountId, token_id: TokenId) -> (r: Option<Card>)
        requires
            self.wf(),
        ensures
            r == self.ledger@.card(owner, token_id),
    {
        self.ledger.read_nft(&owner, &token_id)
    }

    pub fn card_exists(&self, owner: AccountId, token_id: TokenId) -> (b: bool)
        requires
            self.wf(),
        ensures
            b == self.ledger@.card(owner, token_id) is Some,
    {
        self.ledger.card_exists(&owner, &token_id)
    }

    pub fn admin_balance(&self) -> (r: Balance)
        ensures
            r == self.ledger@.balance,
    {
        self.ledger.read_balance()
    }

    /// The lending pool's state (a fresh one stamped `now` before it is first written).
    pub fn admin_state(&self, now: u64) -> (r: State)
        ensures
            r == self.ledger@.pool(now),
    {
        self.ledger.read_state(now)
    }

    /// A copy of the configuration.
    pub fn config(&self) -> (r: Result<Config, NFTError>)
        ensures
            match r {
                Ok(c) => self.ledger@.config is Some && config_fields(c) == config_fields(self.ledger@.config->0),
                Err(e) => self.ledger@.config is None && e == NFTError::NotInitialized,
            },
    {
        let c = self.ledger.read_config()?;
        Ok(Config {
            xtar_token: c.xtar_token,
            oracle_contract_id: c.oracle_contract_id,
            withdrawable_percentage: c.withdrawable_percentage,
            burnable_percentage: c.burnable_percentage,
            haw_ai_percentage: c.haw_ai_percentage,
            terry_per_power: c.terry_per_power,
            stake_periods: copy_u32s(&c.stake_periods),
            stake_interest_percentages: copy_u32s(&c.stake_interest_percentages),
            power_action_fee: c.power_action_fee,
            burn_receive_percentage: c.burn_receive_percentage,
            terry_per_deck: c.terry_per_deck,
            terry_per_fight: c.terry_per_fight,
            terry_per_lending: c.terry_per_lending,
            terry_per_stake: c.terry_per_stake,
            apy_alpha: c.apy_alpha,
            power_to_usdc_rate: c.power_to_usdc_rate,
            dogstar_fee_percentage: c.dogstar_fee_percentage,
        })
    }

    /// The player record of `player` (a fresh one when none is stored).
    pub fn read_user(&self, player: AccountId) -> (r: User)
        requires
            self.wf(),
        ensures
            r == self.ledger@.user(player),
    {
        self.ledger.read_user(&player)
    }

    /// The pot (an empty one stamped `now` before it is first written) and the Dogstar
    /// balance.
    pub fn get_current_pot_state(&self, now: u64) -> (r: (PotBalance, DogstarBalance))
        ensures
            r == (self.ledger@.pot(now), self.ledger@.dogstar_balance),
    {
        (self.ledger.read_pot_balance(now), self.ledger.read_dogstar_balance())
    }

    pub fn view_claimable_balance(&self, player: AccountId) -> (r: UserClaimableBalance)
        requires
            self.wf(),
        ensures
            r == self.ledger@.claimable(player),
    {
        self.ledger.read_user_claimable_balance(&player)
    }

    pub fn view_vault_status(&self) -> (r: ContractVault)
        ensures
            r == self.ledger@.vault,
    {
        self.ledger.read_contract_vault()
    }

    /// The snapshot taken when `round` opened.
    pub fn get_historical_snapshot(&self, round: u32) -> (r: Option<PotSnapshot>)
        requires
            self.wf(),
        ensures
            match r {
                Some(s) => self.ledger@.snapshots.contains_key(round) && s@ == self.ledger@.snapshots[round],
                None => !self.ledger@.snapshots.contains_key(round),
            },
    {
        match self.ledger.snapshots.get(&round) {
            Some(s) => Some(s.copy()),
            None => None,
        }
    }

    /// `player`'s share in `round`.
    pub fn get_player_participation(&self, player: AccountId, round: u32) -> (r: Option<PlayerReward>)
        requires
            self.wf(),
        ensures
            match r {
                Some(p) => self.ledger@.player_rewards.contains_key(RoundPlayer { round, player })
                    && p == self.ledger@.player_rewards[RoundPlayer { round, player }],
                None => !self.ledger@.player_rewards.contains_key(RoundPlayer { round, player }),
            },
    {
        match self.ledger.player_rewards.get(&RoundPlayer { round, player }) {
            Some(p) => Some(*p),
            None => None,
        }
    }

    /// The last opened round.
    pub fn get_current_round(&self) -> (r: u32)
        ensures
            r == self.ledger@.current_round,
    {
        self.ledger.current_round
    }

    /// The opened rounds, in order.
    pub fn get_all_rounds(&self) -> (r: Vec<u32>)
        requires
            self.wf(),
        ensures
            r@ == self.ledger@.rounds.all_spec(self.ledger@.pages_only),
    {
        self.ledger.rounds.all(self.ledger.pages_only)
    }

    /// The players with a complete deck.
    pub fn get_eligible_players(&self) -> (r: Vec<AccountId>)
        requires
            self.wf(),
        ensures
            r@ == self.ledger@.eligible_players(),
    {
        self.ledger.get_eligible_players()
    }
}

} // verus!

verus! {

use crate::types::Currency;
use crate::ledger::level_spec;
use crate::math::min_int;

impl LedgerV {
    /// The ledger with `token_id` recorded among `owner`'s cards (once).
    pub open spec fn add_owned(self, owner: AccountId, token_id: TokenId) -> LedgerV {
        LedgerV {
            owner_cards: self.owner_cards.insert(
                owner,
                if self.owned_cards(owner).contains(token_id) {
                    self.owned_cards(owner)
                } else {
                    self.owned_cards(owner).push(token_id)
                },
            ),
            ..self
        }
    }

    pub open spec fn mint_err(self, user: AccountId, token_id: TokenId, card_level: u32, currency: Currency) -> Option<NFTError> {
        let to = self.owner_of(user);
        if self.levels.len() == 0 {
            Some(NFTError::LevelsMissing)
        } else if level_spec(self.levels, self.user(to).total_history_terry as int) < card_level {
            Some(NFTError::UserLevelTooLow)
        } else if self.card(to, token_id) is Some {
            Some(NFTError::TokenExists)
        } else if !self.metadata.contains_key(token_id.0) {
            Some(NFTError::MetadataMissing)
        } else {
            match self.config {
                None => Some(NFTError::NotInitialized),
                Some(c) => {
                    let meta = self.metadata[token_id.0];
                    match currency {
                        Currency::Terry => {
                            let amount = meta.price_terry;
                            let w = trunc_div(c.withdrawable_percentage * amount, 100);
                            if self.user(to).terry < amount {
                                Some(NFTError::InsufficientTerry)
                            } else if !fits_i128(c.withdrawable_percentage * amount) || !fits_i128(amount - w) {
                                Some(NFTError::Overflow)
                            } else if self.burn_terry_err(to, amount) is Some {
                                self.burn_terry_err(to, amount)
                            } else if !fits_i128(self.balance.admin_terry + w) {
                                Some(NFTError::Overflow)
                            } else {
                                self.accumulate_err((amount - w) as i128, 0, 0)
                            }
                        },
                        Currency::Xtar => {
                            let price = meta.price_xtar;
                            let b = trunc_div(c.burnable_percentage * price, 100);
                            if !fits_i128(c.burnable_percentage * price) || !fits_i128(price - b) {
                                Some(NFTError::Overflow)
                            } else if !fits_i128(self.vault.haw_ai_pot_xtar + (price - b)) || !fits_i128(self.balance.haw_ai_xtar + (price - b)) {
                                Some(NFTError::Overflow)
                            } else {
                                self.accumulate_err(0, 0, (price - b) as i128)
                            }
                        },
                    }
                },
            }
        }
    }

    /// The ledger after `user` mints card `token_id` at `now`: the card is created at its
    /// initial POWER and recorded as theirs. Paid in TERRY, the price is burned from their
    /// balance, the withdrawable part credited to the house and the rest contributed to the
    /// pot; paid in XTAR, the burnable part is burned and the rest goes to the vault and
    /// the pot. The mint is published.
    pub open spec fn mint_post(self, user: AccountId, token_id: TokenId, currency: Currency, now: u64) -> LedgerV {
        let to = self.owner_of(user);
        let c = self.config->0;
        let meta = self.metadata[token_id.0];
        let s1 = self.put_card(to, token_id, Card { power: meta.initial_power, locked_by_action: crate::types::Action::Idle })
            .add_owned(to, token_id);
        let s2 = match currency {
            Currency::Terry => {
                let amount = meta.price_terry;
                let w = trunc_div(c.withdrawable_percentage * amount, 100);
                let t1 = s1.burn_terry_post(to, amount);
                let t2 = t1.with_balance(Balance { admin_terry: (t1.balance.admin_terry + w) as i128, ..t1.balance });
                t2.accumulate_post((amount - w) as i128, 0, 0, Some(to), Some(crate::types::Action::Mint), now)
            },
            Currency::Xtar => {
                let price = meta.price_xtar;
                let haw = price - trunc_div(c.burnable_percentage * price, 100);
                let x1 = LedgerV { vault: ContractVault { haw_ai_pot_xtar: (s1.vault.haw_ai_pot_xtar + haw) as i128, ..s1.vault }, ..s1 };
                let x2 = x1.with_balance(Balance { haw_ai_xtar: (x1.balance.haw_ai_xtar + haw) as i128, ..x1.balance });
                x2.accumulate_post(0, 0, haw as i128, Some(to), Some(crate::types::Action::Mint), now)
            },
        };
        s2.emit(Event::Mint(crate::event::Mint { player: to }))
    }

    /// The token movements of a mint paid in XTAR: the burnable part is burned, the rest
    /// moves to `this`.
    pub open spec fn mint_calls(self, user: AccountId, token_id: TokenId, currency: Currency, this: AccountId) -> Seq<TokenCall> {
        let to = self.owner_of(user);
        let c = self.config->0;
        let price = self.metadata[token_id.0].price_xtar;
        let b = trunc_div(c.burnable_percentage * price, 100);
        match currency {
            Currency::Terry => Seq::empty(),
            Currency::Xtar => seq![
                TokenCall::Burn { token: c.xtar_token, from: to, amount: b as i128 },
                TokenCall::Transfer { token: c.xtar_token, from: to, to: this, amount: (price - b) as i128 },
            ],
        }
    }

    pub open spec fn transfer_err(self, from: AccountId, token_id: TokenId) -> Option<NFTError> {
        match self.card(from, token_id) {
            None => Some(NFTError::NotNFT),
            Some(c) => if c.locked_by_action != crate::types::Action::Idle { Some(NFTError::CardLocked) } else { None },
        }
    }

    /// The ledger after `from` gives card `token_id` to `to`: it leaves `from`'s cards and
    /// is appended to `to`'s, unchanged; the transfer is published.
    /// The ledger after `card` moves from `from`'s holdings to the end of `to`'s.
    pub open spec fn move_nft_post(self, from: AccountId, to: AccountId, token_id: TokenId, card: Card) -> LedgerV {
        let s1 = self.drop_owner_card(from, token_id).drop_card(from, token_id).put_card(to, token_id, card);
        LedgerV { owner_cards: s1.owner_cards.insert(to, s1.owned_cards(to).push(token_id)), ..s1 }
    }

    pub open spec fn transfer_post(self, from: AccountId, to: AccountId, token_id: TokenId) -> LedgerV {
        self.move_nft_post(from, to, token_id, self.card(from, token_id)->0)
            .emit(Event::Transfer(crate::event::Transfer { from, to }))
    }

    pub open spec fn add_power_err(self, player: AccountId, token_id: u32, amount: u32) -> Option<NFTError> {
        match self.card(player, TokenId(token_id)) {
            None => Some(NFTError::NotNFT),
            Some(c) => if c.locked_by_action != crate::types::Action::Idle {
                Some(NFTError::CardLocked)
            } else if !self.metadata.contains_key(token_id) {
                Some(NFTError::MetadataMissing)
            } else if self.user(player).power < amount {
                Some(NFTError::InsufficientPower)
            } else if self.levels.len() == 0 {
                Some(NFTError::LevelsMissing)
            } else {
                None
            },
        }
    }

    /// The ledger after `player` moves `amount` of their POWER onto a free card, which
    /// is capped at its kind's maximum POWER.
    pub open spec fn add_power_post(self, player: AccountId, token_id: u32, amount: u32) -> LedgerV {
        let c = self.card(player, TokenId(token_id))->0;
        let max = self.metadata[token_id].max_power;
        let u = self.user(player);
        self.put_card(player, TokenId(token_id), Card { power: min_int(c.power + amount, max as int) as u32, ..c })
            .put_user(player, User { power: (u.power - amount) as u32, ..u })
    }
}

impl NFT {
    /// `user` mints card `token_id` (see `mint_post`); the token movements the host makes,
    /// from `user` to `this` (see `mint_calls`).
    #[verifier::rlimit(40)]
    pub fn mint(&mut self, user: AccountId, token_id: TokenId, card_level: u32, buy_currency: Currency, this: AccountId, now: u64)
        -> (r: Result<Vec<TokenCall>, NFTError>)
        requires
            old(self).wf(),
            old(self).ledger@.owned_cards(old(self).ledger@.owner_of(user)).len() < u32::MAX,
        ensures
            final(self).wf(),
            match r {
                Ok(calls) => old(self).ledger@.mint_err(user, token_id, card_level, buy_currency) is None
                    && final(self).ledger@ == old(self).ledger@.mint_post(user, token_id, buy_currency, now)
                    && calls@ == old(self).ledger@.mint_calls(user, token_id, buy_currency, this),
                Err(e) => old(self).ledger@.mint_err(user, token_id, card_level, buy_currency) == Some(e)
                    && final(self).ledger@ == old(self).ledger@,
            },
    {
        let to = self.ledger.owner_of(&user);
        let level: u32 = self.ledger.get_user_level(&to)?;
        if level < card_level {
            return Err(NFTError::UserLevelTooLow);
        }
        if self.ledger.card_exists(&to, &token_id) {
            return Err(NFTError::TokenExists);
        }
        let meta = self.ledger.read_metadata(token_id.0)?;
        let (wpct, bpct, xtar_token) = {
            let c = self.ledger.read_config()?;
            (c.withdrawable_percentage, c.burnable_percentage, c.xtar_token)
        };
        let u = self.ledger.read_user(&to);
        let mut calls: Vec<TokenCall> = Vec::new();
        match buy_currency {
            Currency::Terry => {
                let amount: i128 = meta.price_terry;
                if u.terry < amount {
                    return Err(NFTError::InsufficientTerry);
                }
                let m: i128 = mul_i128(wpct as i128, amount)?;
                let w: i128 = m / 100;
                let haw: i128 = match amount.checked_sub(w) {
                    Some(v) => v,
                    None => return Err(NFTError::Overflow),
                };
                if u.terry.checked_sub(amount).is_none() {
                    return Err(NFTError::Overflow);
                }
                let admin_terry: i128 = add_i128(self.ledger.balance.admin_terry, w)?;
                self.ledger.accumulate_check(haw, 0, 0)?;
                let ghost s0 = self.ledger@;
                self.ledger.write_nft(to, token_id, Card { power: meta.initial_power, locked_by_action: crate::types::Action::Idle });
                match self.ledger.add_card_to_owner(token_id, to) {
                    Ok(()) => {},
                    Err(e) => {
                        proof {
                            assert(false);
                        }
                        return Err(e);
                    },
                }
                match self.ledger.burn_terry(to, amount) {
                    Ok(()) => {},
                    Err(e) => {
                        proof {
                            assert(false);
                        }
                        return Err(e);
                    },
                }
                self.ledger.balance.admin_terry = admin_terry;
                match self.ledger.accumulate_pot_internal(haw, 0, 0, Some(to), Some(crate::types::Action::Mint), now) {
                    Ok(()) => {},
                    Err(e) => {
                        proof {
                            assert(false);
                        }
                        return Err(e);
                    },
                }
                self.ledger.emit_mint(to);
                proof {
                    assert(self.ledger@ =~= s0.mint_post(user, token_id, buy_currency, now));
                    assert(calls@ =~= s0.mint_calls(user, token_id, buy_currency, this));
                }
            },
            Currency::Xtar => {
                let price: i128 = meta.price_xtar;
                let m: i128 = mul_i128(bpct as i128, price)?;
                let b: i128 = m / 100;
                let haw: i128 = match price.checked_sub(b) {
                    Some(v) => v,
                    None => return Err(NFTError::Overflow),
                };
                let pot_xtar: i128 = add_i128(self.ledger.vault.haw_ai_pot_xtar, haw)?;
                let house_xtar: i128 = add_i128(self.ledger.balance.haw_ai_xtar, haw)?;
                self.ledger.accumulate_check(0, 0, haw)?;
                let ghost s0 = self.ledger@;
                self.ledger.write_nft(to, token_id, Card { power: meta.initial_power, locked_by_action: crate::types::Action::Idle });
                match self.ledger.add_card_to_owner(token_id, to) {
                    Ok(()) => {},
                    Err(e) => {
                        proof {
                            assert(false);
                        }
                        return Err(e);
                    },
                }
                calls.push(TokenCall::Burn { token: xtar_token, from: to, amount: b });
                calls.push(TokenCall::Transfer { token: xtar_token, from: to, to: this, amount: haw });
                self.ledger.vault.haw_ai_pot_xtar = pot_xtar;
                self.ledger.balance.haw_ai_xtar = house_xtar;
                match self.ledger.accumulate_pot_internal(0, 0, haw, Some(to), Some(crate::types::Action::Mint), now) {
                    Ok(()) => {},
                    Err(e) => {
                        proof {
                            assert(false);
                        }
                        return Err(e);
                    },
                }
                self.ledger.emit_mint(to);
                proof {
                    assert(self.ledger@ =~= s0.mint_post(user, token_id, buy_currency, now));
                    assert(calls@ =~= s0.mint_calls(user, token_id, buy_currency, this));
                }
            },
        }
        Ok(calls)
    }

    /// `from` gives a free card to `to` (see `transfer_post`).
    pub fn transfer(&mut self, from: AccountId, to: AccountId, token_id: TokenId) -> (r: Result<(), NFTError>)
        requires
            old(self).wf(),
            old(self).ledger@.owned_cards(to).len() < u32::MAX,
        ensures
            final(self).wf(),
            match r {
                Ok(()) => old(self).ledger@.transfer_err(from, token_id) is None
                    && final(self).ledger@ == old(self).ledger@.transfer_post(from, to, token_id),
                Err(e) => old(self).ledger@.transfer_err(from, token_id) == Some(e) && final(self).ledger@ == old(self).ledger@,
            },
    {
        let card = match self.ledger.read_nft(&from, &token_id) {
            Some(c) => c,
            None => return Err(NFTError::NotNFT),
        };
        if card.locked_by_action != crate::types::Action::Idle {
            return Err(NFTError::CardLocked);
        }
        Self::move_nft(&mut self.ledger, from, to, token_id, card);
        self.ledger.emit_transfer(from, to);
        Ok(())
    }

    /// Moves `card` from `from` to `to`, keeping both owners' lists of cards in step.
    fn move_nft(ledger: &mut Ledger, from: AccountId, to: AccountId, token_id: TokenId, card: Card)
        requires
            old(ledger).wf(),
            old(ledger)@.owned_cards(to).len() < u32::MAX,
        ensures
            final(ledger).wf(),
            final(ledger)@ == old(ledger)@.move_nft_post(from, to, token_id, card),
    {
        let ghost s0 = ledger@;
        ledger.remove_owner_card(from, token_id);
        ledger.remove_nft(from, token_id);
        ledger.write_nft(to, token_id, card);
        let mut ids = ledger.read_owner_card(&to);
        proof {
            if from == to && s0.owned_cards(from).contains(token_id) {
                s0.owned_cards(from).index_of_first_ensures(token_id);
            }
        }
        ids.push(token_id);
        ledger.write_owner_cards(to, ids);
        proof {
            assert(ledger@ =~= s0.move_nft_post(from, to, token_id, card));
        }
    }

    /// `player` moves POWER from their account onto one of their free cards (see
    /// `add_power_post`).
    pub fn add_power_to_card(&mut self, player: AccountId, token_id: u32, amount: u32) -> (r: Result<(), NFTError>)
        requires
            old(self).wf(),
        ensures
            final(self).wf(),
            match r {
                Ok(()) => old(self).ledger@.add_power_err(player, token_id, amount) is None
                    && final(self).ledger@ == old(self).ledger@.add_power_post(player, token_id, amount),
                Err(e) => old(self).ledger@.add_power_err(player, token_id, amount) == Some(e) && final(self).ledger@ == old(self).ledger@,
            },
    {
        let card = match self.ledger.read_nft(&player, &TokenId(token_id)) {
            Some(c) => c,
            None => return Err(NFTError::NotNFT),
        };
        if card.locked_by_action != crate::types::Action::Idle {
            return Err(NFTError::CardLocked);
        }
        let meta = self.ledger.read_metadata(token_id)?;
        let u = self.ledger.read_user(&player);
        if u.power < amount {
            return Err(NFTError::InsufficientPower);
        }
        if self.ledger.levels.len() == 0 {
            return Err(NFTError::LevelsMissing);
        }
        let sum: u64 = card.power as u64 + amount as u64;
        let capped: u32 = if sum < meta.max_power as u64 { sum as u32 } else { meta.max_power };
        let ghost s0 = self.ledger@;
        self.ledger.write_nft(player, TokenId(token_id), Card { power: capped, ..card });
        let mut u2 = self.ledger.read_user(&player);
        proof {
            lemma_owner_field(&self.ledger, player);
        }
        u2.power = u.power - amount;
        match self.ledger.write_user(player, u2) {
            Ok(()) => {},
            Err(e) => {
                proof {
                    assert(false);
                }
                return Err(e);
            },
        }
        proof {
            assert(self.ledger@ =~= s0.add_power_post(player, token_id, amount));
        }
        Ok(())
    }
}

} // verus!

verus! {

/// The ledger after the first `k` mints of a batch, or the refusal of the first one that
/// fails.
pub open spec fn batch_fold(s: LedgerV, to: Seq<AccountId>, amounts: Seq<i128>, k: nat) -> Result<LedgerV, NFTError>
    decreases k,
{
    if k == 0 {
        Ok(s)
    } else {
        match batch_fold(s, to, amounts, (k - 1) as nat) {
            Err(e) => Err(e),
            Ok(s1) => match s1.mint_terry_err(to[k - 1], amounts[k - 1]) {
                Some(e) => Err(e),
                None => Ok(s1.mint_terry_post(to[k - 1], amounts[k - 1])),
            },
        }
    }
}

proof fn lemma_batch_err(s: LedgerV, to: Seq<AccountId>, amounts: Seq<i128>, k: nat, n: nat)
    requires
        k <= n,
        batch_fold(s, to, amounts, k) is Err,
    ensures
        batch_fold(s, to, amounts, n) == batch_fold(s, to, amounts, k),
    decreases n,
{
    if k < n {
        lemma_batch_err(s, to, amounts, k, (n - 1) as nat);
    }
}

proof fn lemma_batch_users(s: LedgerV, to: Seq<AccountId>, amounts: Seq<i128>, k: nat)
    requires
        batch_fold(s, to, amounts, k) is Ok,
    ensures
        batch_fold(s, to, amounts, k)->Ok_0 == (LedgerV { users: batch_fold(s, to, amounts, k)->Ok_0.users, ..s }),
    decreases k,
{
    if k > 0 {
        lemma_batch_users(s, to, amounts, (k - 1) as nat);
    }
}

impl LedgerV {
    pub open spec fn batch_mint_err(self, to: Seq<AccountId>, amounts: Seq<i128>) -> Option<NFTError> {
        if self.admin is None {
            Some(NFTError::NotInitialized)
        } else if to.len() != amounts.len() {
            Some(NFTError::MismatchedLengths)
        } else if to.len() > 100 {
            Some(NFTError::BatchTooLarge)
        } else if exists|i: int| 0 <= i < amounts.len() && (#[trigger] amounts[i] <= 0 || amounts[i] > 1000000000) {
            Some(NFTError::InvalidAmount)
        } else {
            match batch_fold(self, to, amounts, to.len()) {
                Err(e) => Some(e),
                Ok(_) => None,
            }
        }
    }
}

impl NFT {
    /// The administrator mints TERRY to several players at once: at most 100, each amount
    /// in `1..=1_000_000_000`, minted in order (see `batch_fold`); all or nothing.
    pub fn batch_mint_terry(&mut self, to_addresses: &Vec<AccountId>, amounts: &Vec<i128>) -> (r: Result<(), NFTError>)
        requires
            old(self).wf(),
        ensures
            final(self).wf(),
            match r {
                Ok(()) => old(self).ledger@.batch_mint_err(to_addresses@, amounts@) is None
                    && final(self).ledger@ == batch_fold(old(self).ledger@, to_addresses@, amounts@, to_addresses@.len())->Ok_0,
                Err(e) => old(self).ledger@.batch_mint_err(to_addresses@, amounts@) == Some(e) && final(self).ledger@ == old(self).ledger@,
            },
    {
        self.ledger.read_administrator()?;
        if to_addresses.len() != amounts.len() {
            return Err(NFTError::MismatchedLengths);
        }
        if to_addresses.len() > 100 {
            return Err(NFTError::BatchTooLarge);
        }
        let mut k: usize = 0;
        while k < amounts.len()
            invariant
                self.wf(),
                self.ledger@ == old(self).ledger@,
                old(self).ledger@.admin is Some,
                to_addresses@.len() == amounts@.len(),
                to_addresses@.len() <= 100,
                k <= amounts@.len(),
                forall|i: int| 0 <= i < k ==> !(#[trigger] amounts@[i] <= 0 || amounts@[i] > 1000000000),
            decreases amounts@.len() - k,
        {
            if amounts[k] <= 0 || amounts[k] > 1000000000 {
                proof {
                    assert(amounts@[k as int] <= 0 || amounts@[k as int] > 1000000000);
                }
                return Err(NFTError::InvalidAmount);
            }
            k = k + 1;
        }
        let ghost s0 = self.ledger@;
        let saved = self.ledger.users.copy();
        proof {
            assert(!(exists|j: int| 0 <= j < amounts@.len() && (#[trigger] amounts@[j] <= 0 || amounts@[j] > 1000000000)));
        }
        let mut i: usize = 0;
        while i < to_addresses.len()
            invariant
                self.wf(),
                saved.inv(),
                saved@ == s0.users,
                forall|a: AccountId| #[trigger] saved@.contains_key(a) ==> saved@[a].owner == a,
                s0 == old(self).ledger@,
                old(self).ledger@.batch_mint_err(to_addresses@, amounts@) == (match batch_fold(s0, to_addresses@, amounts@, to_addresses@.len()) {
                    Err(e) => Some(e),
                    Ok(_) => None::<NFTError>,
                }),
                i <= to_addresses@.len(),
                to_addresses@.len() == amounts@.len(),
                batch_fold(s0, to_addresses@, amounts@, i as nat) == Ok::<LedgerV, NFTError>(self.ledger@),
                self.ledger@ == (LedgerV { users: self.ledger@.users, ..s0 }),
            decreases to_addresses@.len() - i,
        {
            match self.ledger.mint_terry(to_addresses[i], amounts[i]) {
                Ok(()) => {},
                Err(e) => {
                    proof {
                        lemma_batch_err(s0, to_addresses@, amounts@, (i + 1) as nat, to_addresses@.len());
                    }
                    self.ledger.users = saved;
                    proof {
                        assert(self.ledger@ =~= s0);
                    }
                    return Err(e);
                },
            }
            i = i + 1;
        }
        proof {
            assert(batch_fold(s0, to_addresses@, amounts@, to_addresses@.len()) == Ok::<LedgerV, NFTError>(self.ledger@));
        }
        Ok(())
    }

    /// `user` burns card `token_id` at `now` (see `burn_post`).
    pub fn burn(&mut self, user: AccountId, token_id: TokenId, now: u64) -> (r: Result<(), NFTError>)
        requires
            old(self).wf(),
        ensures
            final(self).wf(),
            match r {
                Ok(()) => old(self).ledger@.burn_err(user, token_id) is None
                    && final(self).ledger@ == old(self).ledger@.burn_post(user, token_id, now),
                Err(e) => old(self).ledger@.burn_err(user, token_id) == Some(e) && final(self).ledger@ == old(self).ledger@,
            },
    {
        self.ledger.burn(user, token_id, now)
    }
}

} // verus!

verus! {

use crate::types::PotOverview;
use crate::opening::generic_snapshot;

/// The cards `player` holds among `ids`, with their catalog entries, in order.
pub open spec fn cards_with_state(s: LedgerV, player: AccountId, ids: Seq<TokenId>) -> Seq<(CardMetadata, Card)>
    decreases ids.len(),
{
    if ids.len() == 0 {
        Seq::empty()
    } else {
        let rest = cards_with_state(s, player, ids.drop_last());
        match s.card(player, ids.last()) {
            Some(c) => rest.push((s.metadata[ids.last().0], c)),
            None => rest,
        }
    }
}

/// `player`'s claimable amounts of each of `tokens` that are above zero, in order.
pub open spec fn user_generics(ug: Map<UserToken, i128>, player: AccountId, tokens: Seq<AccountId>) -> Seq<GenericTokenAmount>
    decreases tokens.len(),
{
    if tokens.len() == 0 {
        Seq::empty()
    } else {
        let rest = user_generics(ug, player, tokens.drop_last());
        let amt = generic_in(ug, UserToken { user: player, token: tokens.last() });
        if amt > 0 {
            rest.push(GenericTokenAmount { token: tokens.last(), amount: amt })
        } else {
            rest
        }
    }
}

impl LedgerV {
    /// Whether every card kind of the catalog list has its entry.
    pub open spec fn catalog_complete(self) -> bool {
        forall|i: int| 0 <= i < self.all_card_ids.len() ==> self.metadata.contains_key(#[trigger] self.all_card_ids[i].0)
    }

    /// Whether every card kind `player` holds has its catalog entry.
    pub open spec fn owned_described(self, player: AccountId) -> bool {
        forall|i: int| 0 <= i < self.owned_cards(player).len() ==> self.metadata.contains_key(#[trigger] self.owned_cards(player)[i].0)
    }
}

impl NFT {
    /// The catalog entries of every card kind, in the order they were created.
    pub fn get_all_cards(&self) -> (r: Result<Vec<CardMetadata>, NFTError>)
        requires
            self.wf(),
        ensures
            match r {
                Ok(v) => self.ledger@.catalog_complete()
                    && v@ == self.ledger@.all_card_ids.map_values(|t: TokenId| self.ledger@.metadata[t.0]),
                Err(e) => !self.ledger@.catalog_complete() && e == NFTError::MetadataMissing,
            },
    {
        let ghost ids = self.ledger@.all_card_ids;
        let mut out: Vec<CardMetadata> = Vec::new();
        let mut i: usize = 0;
        while i < self.ledger.all_card_ids.len()
            invariant
                self.wf(),
                ids == self.ledger@.all_card_ids,
                i <= ids.len(),
                forall|j: int| 0 <= j < i ==> self.ledger@.metadata.contains_key(#[trigger] ids[j].0),
                out@ == ids.subrange(0, i as int).map_values(|t: TokenId| self.ledger@.metadata[t.0]),
            decreases ids.len() - i,
        {
            let t = self.ledger.all_card_ids[i];
            let m = match self.ledger.read_metadata(t.0) {
                Ok(m) => m,
                Err(e) => {
                    proof {
                        assert(!self.ledger@.metadata.contains_key(ids[i as int].0));
                    }
                    return Err(e);
                },
            };
            out.push(m);
            i = i + 1;
            proof {
                assert(out@ =~= ids.subrange(0, i as int).map_values(|t: TokenId| self.ledger@.metadata[t.0]));
            }
        }
        proof {
            assert(ids.subrange(0, ids.len() as int) =~= ids);
        }
        Ok(out)
    }

    /// The cards `player` holds, each with its catalog entry, in the order recorded.
    pub fn get_player_cards_with_state(&self, player: AccountId) -> (r: Result<Vec<(CardMetadata, Card)>, NFTError>)
        requires
            self.wf(),
        ensures
            match r {
                Ok(v) => self.ledger@.owned_described(player)
                    && v@ == cards_with_state(self.ledger@, player, self.ledger@.owned_cards(player)),
                Err(e) => !self.ledger@.owned_described(player) && e == NFTError::MetadataMissing,
            },
    {
        let ids = self.ledger.read_owner_card(&player);
        let mut out: Vec<(CardMetadata, Card)> = Vec::new();
        let mut i: usize = 0;
        while i < ids.len()
            invariant
                self.wf(),
                ids@ == self.ledger@.owned_cards(player),
                i <= ids@.len(),
                forall|j: int| 0 <= j < i ==> self.ledger@.metadata.contains_key(#[trigger] ids@[j].0),
                out@ == cards_with_state(self.ledger@, player, ids@.subrange(0, i as int)),
            decreases ids@.len() - i,
        {
            let t = ids[i];
            proof {
                assert(ids@.subrange(0, i + 1).drop_last() =~= ids@.subrange(0, i as int));
                assert(ids@.subrange(0, i + 1).last() == t);
            }
            let m = match self.ledger.read_metadata(t.0) {
                Ok(m) => m,
                Err(e) => {
                    proof {
                        assert(!self.ledger@.metadata.contains_key(ids@[i as int].0));
                    }
                    return Err(e);
                },
            };
            match self.ledger.read_nft(&player, &t) {
                Some(c) => out.push((m, c)),
                None => {},
            }
            i = i + 1;
        }
        proof {
            assert(ids@.subrange(0, ids@.len() as int) =~= ids@);
        }
        Ok(out)
    }

    /// The pot's totals (an empty pot stamped `now` before it is first written), the
    /// accumulated generic tokens, and what `user` may claim.
    pub fn view_pot_overview(&self, user: AccountId, now: u64) -> (r: PotOverview)
        requires
            self.wf(),
        ensures
            r.total_terry == self.ledger@.pot(now).accumulated_terry,
            r.total_power == self.ledger@.pot(now).accumulated_power,
            r.total_xtar == self.ledger@.pot(now).accumulated_xtar,
            r.total_generics@ == generic_snapshot(self.ledger@.accumulated_by_token, self.ledger@.registered_tokens),
            r.user_terry == self.ledger@.claimable(user).terry,
            r.user_power == self.ledger@.claimable(user).power,
            r.user_xtar == self.ledger@.claimable(user).xtar,
            r.user_generics@ == user_generics(self.ledger@.user_generic_claimable, user, self.ledger@.registered_tokens),
    {
        let pot = self.ledger.read_pot_balance(now);
        let total_generics = self.ledger.collect_generics();
        let claim = self.ledger.read_user_claimable_balance(&user);
        let ghost toks = self.ledger@.registered_tokens;
        let mut mine: Vec<GenericTokenAmount> = Vec::new();
        let mut i: usize = 0;
        while i < self.ledger.registered_tokens.len()
            invariant
                self.wf(),
                toks == self.ledger@.registered_tokens,
                i <= toks.len(),
                mine@ == user_generics(self.ledger@.user_generic_claimable, user, toks.subrange(0, i as int)),
            decreases toks.len() - i,
        {
            let t = self.ledger.registered_tokens[i];
            proof {
                assert(toks.subrange(0, i + 1).drop_last() =~= toks.subrange(0, i as int));
                assert(toks.subrange(0, i + 1).last() == t);
            }
            let amt: i128 = match self.ledger.user_generic_claimable.get(&UserToken { user, token: t }) {
                Some(v) => *v,
                None => 0,
            };
            if amt > 0 {
                mine.push(GenericTokenAmount { token: t, amount: amt });
            }
            i = i + 1;
        }
        proof {
            assert(toks.subrange(0, toks.len() as int) =~= toks);
        }
        PotOverview {
            total_terry: pot.accumulated_terry,
            total_power: pot.accumulated_power,
            total_xtar: pot.accumulated_xtar,
            total_generics,
            user_terry: claim.terry,
            user_power: claim.power,
            user_xtar: claim.xtar,
            user_generics: mine,
        }
    }
}

} // verus!
