use nft::contract::{TokenCall, NFT};
use nft::error::NFTError;
use nft::fight::{get_liquidation_price, Fight, FightCurrency, SidePosition};
use nft::lending::{Borrowing, Lending};
use nft::math::{calculate_apy, calculate_effective_power, calculate_interest};
use nft::oracle::{asset_symbol, price_or_zero, PriceData};
use nft::paged::{PAGE_SIZE_BORROWINGS, PAGE_SIZE_FIGHTS, PAGE_SIZE_LENDINGS, PAGE_SIZE_STAKES};
use nft::stake::Stake;
use nft::types::{
    AccountId, Action, ActionKey, Card, CardInfo, CardMetadata, Category, Config, Currency, Deck, PendingReward, PlayerReward,
    PotSnapshot, PotStatus, RewardStatus, TokenId, User,
};

const ADMIN: AccountId = AccountId(1);
const XTAR: AccountId = AccountId(2);
const GENERIC: AccountId = AccountId(3);
const THIS: AccountId = AccountId(100);
const NOW: u64 = 1_000;

fn base_config() -> Config {
    Config {
        xtar_token: XTAR,
        oracle_contract_id: AccountId(99),
        withdrawable_percentage: 0,
        burnable_percentage: 0,
        haw_ai_percentage: 0,
        terry_per_power: 0,
        stake_periods: vec![],
        stake_interest_percentages: vec![],
        power_action_fee: 0,
        burn_receive_percentage: 0,
        terry_per_deck: 0,
        terry_per_fight: 0,
        terry_per_lending: 0,
        terry_per_stake: 0,
        apy_alpha: 0,
        power_to_usdc_rate: 0,
        dogstar_fee_percentage: 0,
    }
}

fn init_contract() -> NFT {
    init_with(base_config())
}

fn init_with(cfg: Config) -> NFT {
    let mut nft = NFT::new();
    nft.initialize(ADMIN, cfg).unwrap();
    nft
}

fn four_ids() -> Vec<TokenId> {
    vec![TokenId(1), TokenId(2), TokenId(3), TokenId(4)]
}

fn write_decks(nft: &mut NFT, players: &[(AccountId, u32)], bonus: u32) {
    let mut decks: Vec<Deck> = Vec::new();
    for (owner, power) in players.iter() {
        let deck = Deck {
            owner: *owner,
            token_ids: four_ids(),
            total_power: *power,
            haw_ai_percentage: 0,
            bonus,
            deck_categories: 4,
        };
        nft.ledger.decks.load_stored(*owner, deck.clone());
        decks.push(deck);
    }
    nft.ledger.decks.set_legacy(decks);
}

fn write_user_entry(nft: &mut NFT, owner: AccountId, power: u32) {
    nft.ledger
        .write_user(owner, User { owner, power, terry: 0, total_history_terry: 0, level: 1 })
        .unwrap();
}

fn stake_record(owner: AccountId, category: Category, token: u32, power: u32, n: u32) -> Stake {
    Stake { owner, category, token_id: TokenId(token), power, period: n, interest_percentage: n, staked_time: n }
}

fn fight_record(owner: AccountId, category: Category, token: u32, power: u32) -> Fight {
    Fight {
        owner,
        category,
        token_id: TokenId(token),
        currency: FightCurrency::BTC,
        power,
        trigger_price: 0,
        side_position: SidePosition::Long,
        leverage: 1,
        amount_asset: 1,
    }
}

fn key(owner: AccountId, category: Category, token: u32) -> ActionKey {
    ActionKey { owner, category, token_id: TokenId(token) }
}

#[test]
fn migrate_stakes_idempotent_and_pos() {
    let mut nft = init_contract();
    let owner1 = AccountId(10);
    let owner2 = AccountId(11);
    let stakes = vec![
        stake_record(owner1, Category::Skill, 1, 10, 1),
        stake_record(owner2, Category::Leader, 2, 20, 2),
    ];
    nft.ledger.stakes.set_legacy(stakes.clone());
    nft.ledger.migrate_stakes_to_pages(0, 10);
    let count = nft.ledger.read_stakes_count();
    assert_eq!(count, stakes.len() as u32);
    nft.ledger.migrate_stakes_to_pages(0, 10);
    assert_eq!(nft.ledger.read_stakes_count(), count);
    for (idx, s) in stakes.iter().enumerate() {
        let pos = nft.ledger.stakes.index_position(&key(s.owner, s.category, s.token_id.0)).unwrap();
        assert_eq!(pos, idx as u32);
        let page_vec = nft.ledger.stakes.index_page(pos / PAGE_SIZE_STAKES);
        let k = page_vec[(pos % PAGE_SIZE_STAKES) as usize];
        assert_eq!(k.owner, s.owner);
        assert_eq!(k.category, s.category);
        assert_eq!(k.token_id, s.token_id);
    }
}

#[test]
fn pages_only_skips_legacy_stakes() {
    let mut nft = init_contract();
    let owner = AccountId(10);
    write_user_entry(&mut nft, owner, 0);
    nft.ledger.set_pages_only(true);
    nft.ledger.write_stake(owner, Category::Skill, TokenId(3), stake_record(owner, Category::Skill, 3, 5, 1));
    assert!(!nft.ledger.stakes.has_legacy());
}

#[test]
fn pages_only_skips_legacy_fights() {
    let mut nft = init_contract();
    let owner = AccountId(10);
    write_user_entry(&mut nft, owner, 0);
    nft.ledger.set_pages_only(true);
    nft.ledger.write_fight(owner, Category::Skill, TokenId(1), fight_record(owner, Category::Skill, 1, 10));
    assert!(!nft.ledger.fights.has_legacy());
}

#[test]
fn pages_only_skips_legacy_lendings_and_borrowings() {
    let mut nft = init_contract();
    let owner = AccountId(10);
    write_user_entry(&mut nft, owner, 0);
    nft.ledger.set_pages_only(true);
    nft.ledger.write_lending(
        owner,
        Category::Skill,
        TokenId(1),
        Lending { lender: owner, category: Category::Skill, token_id: TokenId(1), power: 10, lent_at: 1 },
    );
    nft.ledger.write_borrowing(
        owner,
        Category::Skill,
        TokenId(2),
        Borrowing { borrower: owner, category: Category::Skill, token_id: TokenId(2), power: 10, borrowed_at: 1 },
    );
    assert!(!nft.ledger.lendings.has_legacy());
    assert!(!nft.ledger.borrowings.has_legacy());
}

#[test]
fn pages_only_rounds_skip_legacy() {
    let mut nft = init_contract();
    nft.ledger.set_pages_only(true);
    nft.ledger.add_round(1);
    assert!(!nft.ledger.rounds.has_legacy());
    assert_eq!(nft.ledger.get_rounds_count(), 1);
}

#[test]
fn paged_reads_return_empty_when_cursor_out_of_range() {
    let mut nft = init_contract();
    nft.ledger.set_pages_only(true);
    assert!(nft.ledger.read_stakes_page(10, 5).is_empty());
    assert!(nft.ledger.read_decks_page(10, 5).is_empty());
}

#[test]
fn migrate_fights_idempotent_and_pos() {
    let mut nft = init_contract();
    let owner1 = AccountId(10);
    let owner2 = AccountId(11);
    let mut second = fight_record(owner2, Category::Leader, 2, 20);
    second.currency = FightCurrency::ETH;
    second.side_position = SidePosition::Short;
    let fights = vec![fight_record(owner1, Category::Skill, 1, 10), second];
    nft.ledger.fights.set_legacy(fights.clone());
    nft.ledger.migrate_fights_to_pages(0, 10);
    let count = nft.ledger.read_fights_count();
    assert_eq!(count, fights.len() as u32);
    nft.ledger.migrate_fights_to_pages(0, 10);
    assert_eq!(nft.ledger.read_fights_count(), count);
    for (idx, f) in fights.iter().enumerate() {
        let pos = nft.ledger.fights.index_position(&key(f.owner, f.category, f.token_id.0)).unwrap();
        assert_eq!(pos, idx as u32);
        let page_vec = nft.ledger.fights.index_page(pos / PAGE_SIZE_FIGHTS);
        let k = page_vec[(pos % PAGE_SIZE_FIGHTS) as usize];
        assert_eq!(k.owner, f.owner);
        assert_eq!(k.category, f.category);
        assert_eq!(k.token_id, f.token_id);
    }
}

#[test]
fn fights_swap_remove_updates_pos() {
    let mut nft = init_contract();
    let owner = AccountId(10);
    write_user_entry(&mut nft, owner, 0);
    for t in 1..=3u32 {
        nft.ledger.write_fight(owner, Category::Skill, TokenId(t), fight_record(owner, Category::Skill, t, 10));
    }
    nft.ledger.remove_fight(owner, Category::Skill, TokenId(2)).unwrap();
    assert_eq!(nft.ledger.read_fights_count(), 2);
    let page = nft.ledger.read_fights_page(0, PAGE_SIZE_FIGHTS);
    assert_eq!(page.len(), 2);
    assert!(page.iter().any(|k| k.token_id.0 == 1));
    assert!(page.iter().any(|k| k.token_id.0 == 3));
    for k in page.iter() {
        let pos = nft.ledger.fights.index_position(k).unwrap();
        let page_vec = nft.ledger.fights.index_page(pos / PAGE_SIZE_FIGHTS);
        assert_eq!(page_vec[(pos % PAGE_SIZE_FIGHTS) as usize].token_id, k.token_id);
    }
}

#[test]
fn migrate_lendings_idempotent_and_pos() {
    let mut nft = init_contract();
    let owner1 = AccountId(10);
    let owner2 = AccountId(11);
    let lendings = vec![
        Lending { lender: owner1, category: Category::Skill, token_id: TokenId(1), power: 10, lent_at: 1 },
        Lending { lender: owner2, category: Category::Leader, token_id: TokenId(2), power: 20, lent_at: 2 },
    ];
    nft.ledger.lendings.set_legacy(lendings.clone());
    nft.ledger.migrate_lendings_to_pages(0, 10);
    let count = nft.ledger.read_lendings_count();
    assert_eq!(count, lendings.len() as u32);
    nft.ledger.migrate_lendings_to_pages(0, 10);
    assert_eq!(nft.ledger.read_lendings_count(), count);
    for (idx, l) in lendings.iter().enumerate() {
        let pos = nft.ledger.lendings.index_position(&key(l.lender, l.category, l.token_id.0)).unwrap();
        assert_eq!(pos, idx as u32);
        let page_vec = nft.ledger.lendings.index_page(pos / PAGE_SIZE_LENDINGS);
        let k = page_vec[(pos % PAGE_SIZE_LENDINGS) as usize];
        assert_eq!(k.owner, l.lender);
        assert_eq!(k.category, l.category);
        assert_eq!(k.token_id, l.token_id);
    }
}

#[test]
fn migrate_borrowings_idempotent_and_pos() {
    let mut nft = init_contract();
    let owner1 = AccountId(10);
    let owner2 = AccountId(11);
    let borrowings = vec![
        Borrowing { borrower: owner1, category: Category::Skill, token_id: TokenId(3), power: 30, borrowed_at: 1 },
        Borrowing { borrower: owner2, category: Category::Leader, token_id: TokenId(4), power: 40, borrowed_at: 2 },
    ];
    nft.ledger.borrowings.set_legacy(borrowings.clone());
    nft.ledger.migrate_borrowings_to_pages(0, 10);
    let count = nft.ledger.read_borrowings_count();
    assert_eq!(count, borrowings.len() as u32);
    nft.ledger.migrate_borrowings_to_pages(0, 10);
    assert_eq!(nft.ledger.read_borrowings_count(), count);
    for (idx, b) in borrowings.iter().enumerate() {
        let pos = nft.ledger.borrowings.index_position(&key(b.borrower, b.category, b.token_id.0)).unwrap();
        assert_eq!(pos, idx as u32);
        let page_vec = nft.ledger.borrowings.index_page(pos / PAGE_SIZE_BORROWINGS);
        let k = page_vec[(pos % PAGE_SIZE_BORROWINGS) as usize];
        assert_eq!(k.owner, b.borrower);
        assert_eq!(k.category, b.category);
        assert_eq!(k.token_id, b.token_id);
    }
}

#[test]
fn migrate_decks_idempotent_and_pos() {
    let mut nft = init_contract();
    let p1 = AccountId(10);
    let p2 = AccountId(11);
    write_decks(&mut nft, &[(p1, 100), (p2, 200)], 10);
    nft.ledger.migrate_decks_to_pages(0, 10);
    let count = nft.ledger.decks.index_count();
    assert_eq!(count, 2);
    nft.ledger.migrate_decks_to_pages(0, 10);
    assert_eq!(nft.ledger.decks.index_count(), count);
    assert_eq!(nft.ledger.decks.index_position(&p1), Some(0));
    assert_eq!(nft.ledger.decks.index_position(&p2), Some(1));
}

#[test]
fn migrate_rounds_idempotent() {
    let mut nft = init_contract();
    nft.ledger.rounds.set_legacy(vec![1u32, 2u32, 3u32]);
    nft.ledger.migrate_rounds_to_pages(0, 10);
    let count = nft.ledger.get_rounds_count();
    assert_eq!(count, 3);
    nft.ledger.migrate_rounds_to_pages(0, 10);
    assert_eq!(nft.ledger.get_rounds_count(), count);
}

#[test]
fn lendings_swap_remove_updates_pos() {
    let mut nft = init_contract();
    let owner = AccountId(10);
    write_user_entry(&mut nft, owner, 0);
    for t in 1..=3u32 {
        nft.ledger.write_lending(
            owner,
            Category::Skill,
            TokenId(t),
            Lending { lender: owner, category: Category::Skill, token_id: TokenId(t), power: 10, lent_at: 1 },
        );
    }
    nft.ledger.remove_lending(owner, Category::Skill, TokenId(2));
    assert_eq!(nft.ledger.read_lendings_count(), 2);
    let page = nft.ledger.read_lendings_page(0, PAGE_SIZE_LENDINGS);
    assert_eq!(page.len(), 2);
    assert!(page.iter().any(|k| k.token_id.0 == 1));
    assert!(page.iter().any(|k| k.token_id.0 == 3));
    for k in page.iter() {
        let pos = nft.ledger.lendings.index_position(k).unwrap();
        let page_vec = nft.ledger.lendings.index_page(pos / PAGE_SIZE_LENDINGS);
        assert_eq!(page_vec[(pos % PAGE_SIZE_LENDINGS) as usize].token_id, k.token_id);
    }
}

#[test]
fn borrowings_swap_remove_updates_pos() {
    let mut nft = init_contract();
    let owner = AccountId(10);
    write_user_entry(&mut nft, owner, 0);
    for t in 1..=3u32 {
        nft.ledger.write_borrowing(
            owner,
            Category::Skill,
            TokenId(t),
            Borrowing { borrower: owner, category: Category::Skill, token_id: TokenId(t), power: 10, borrowed_at: 1 },
        );
    }
    nft.ledger.remove_borrowing(owner, Category::Skill, TokenId(2));
    assert_eq!(nft.ledger.read_borrowings_count(), 2);
    let page = nft.ledger.read_borrowings_page(0, PAGE_SIZE_BORROWINGS);
    assert_eq!(page.len(), 2);
    assert!(page.iter().any(|k| k.token_id.0 == 1));
    assert!(page.iter().any(|k| k.token_id.0 == 3));
    for k in page.iter() {
        let pos = nft.ledger.borrowings.index_position(k).unwrap();
        let page_vec = nft.ledger.borrowings.index_page(pos / PAGE_SIZE_BORROWINGS);
        assert_eq!(page_vec[(pos % PAGE_SIZE_BORROWINGS) as usize].token_id, k.token_id);
    }
}

#[test]
fn stakes_page_boundaries() {
    let mut nft = init_contract();
    let owner = AccountId(10);
    write_user_entry(&mut nft, owner, 0);
    let total = PAGE_SIZE_STAKES + 1;
    for t in 0..total {
        nft.ledger.write_stake(owner, Category::Skill, TokenId(t + 1), stake_record(owner, Category::Skill, t + 1, 5, 1));
    }
    assert_eq!(nft.ledger.read_stakes_count(), total);
    assert_eq!(nft.ledger.read_stakes_page(0, PAGE_SIZE_STAKES).len(), PAGE_SIZE_STAKES as usize);
    assert_eq!(nft.ledger.read_stakes_page(PAGE_SIZE_STAKES, PAGE_SIZE_STAKES).len(), 1);
}

#[test]
fn stakes_swap_remove_updates_pos() {
    let mut nft = init_contract();
    let owner = AccountId(10);
    write_user_entry(&mut nft, owner, 0);
    for t in 1..=3u32 {
        nft.ledger.write_stake(owner, Category::Skill, TokenId(t), stake_record(owner, Category::Skill, t, 5, 1));
    }
    nft.ledger.remove_stake(owner, Category::Skill, TokenId(2));
    assert_eq!(nft.ledger.read_stakes_count(), 2);
    let page = nft.ledger.read_stakes_page(0, PAGE_SIZE_STAKES);
    assert_eq!(page.len(), 2);
    assert!(page.iter().any(|k| k.token_id.0 == 1));
    assert!(page.iter().any(|k| k.token_id.0 == 3));
    for k in page.iter() {
        let pos = nft.ledger.stakes.index_position(k).unwrap();
        let page_vec = nft.ledger.stakes.index_page(pos / PAGE_SIZE_STAKES);
        assert_eq!(page_vec[(pos % PAGE_SIZE_STAKES) as usize].token_id, k.token_id);
    }
}

#[test]
#[should_panic(expected = "Card locked by action")]
fn add_power_to_locked_card_fails() {
    let mut nft = init_contract();
    let owner = AccountId(10);
    nft.ledger.write_metadata(
        1,
        CardMetadata {
            initial_power: 10,
            max_power: 100,
            level: 1,
            category: Category::Skill,
            price_xtar: 0,
            price_terry: 0,
            token_id: 1,
        },
    );
    write_user_entry(&mut nft, owner, 10);
    nft.ledger.write_nft(owner, TokenId(1), Card { power: 10, locked_by_action: Action::Stake });
    match nft.add_power_to_card(owner, 1, 5) {
        Err(NFTError::CardLocked) => panic!("Card locked by action"),
        other => panic!("unexpected answer {:?}", other),
    }
}

#[test]
#[should_panic]
fn deck_mutations_blocked_during_pot() {
    let mut nft = init_contract();
    let owner = AccountId(10);
    nft.ledger.set_current_round(1);
    nft.ledger.write_pot_status(2, PotStatus::Totals);
    nft.ledger.place(owner, TokenId(1)).unwrap();
}

#[test]
fn multi_asset_pot_accumulate_snapshot_and_claim() {
    let mut nft = init_contract();
    nft.register_token(GENERIC).unwrap();
    nft.register_token(XTAR).unwrap();
    let p1 = AccountId(10);
    let p2 = AccountId(11);
    write_decks(&mut nft, &[(p1, 100), (p2, 300)], 0);
    nft.accumulate_pot_token(XTAR, 1000, THIS, NOW).unwrap();
    nft.accumulate_pot_token(GENERIC, 2000, THIS, NOW).unwrap();
    nft.open_pot(1, NOW).unwrap();

    let ((terry1, power1, xtar1), calls1) = nft.claim_haw_ai_pot_share(p1, THIS, NOW).unwrap();
    assert_eq!(terry1, 0);
    assert_eq!(power1, 0);
    assert_eq!(xtar1, 250);
    assert_eq!(nft.ledger.read_user_generic_claimable(&p1, &GENERIC), 0);
    assert!(calls1.contains(&TokenCall::Transfer { token: GENERIC, from: THIS, to: p1, amount: 500 }));

    let ((_, _, xtar2), _) = nft.claim_haw_ai_pot_share(p2, THIS, NOW).unwrap();
    assert_eq!(xtar2, 750);
    assert_eq!(nft.ledger.read_user_generic_claimable(&p2, &GENERIC), 0);
}

#[test]
fn no_eligible_players_no_claim() {
    let mut nft = init_contract();
    nft.register_token(GENERIC).unwrap();
    nft.register_token(XTAR).unwrap();
    let p = AccountId(10);
    let deck = Deck {
        owner: p,
        token_ids: vec![TokenId(1), TokenId(2), TokenId(3)],
        total_power: 100,
        haw_ai_percentage: 0,
        bonus: 0,
        deck_categories: 3,
    };
    nft.ledger.decks.load_stored(p, deck.clone());
    nft.ledger.decks.set_legacy(vec![deck]);
    nft.accumulate_pot_token(XTAR, 1000, THIS, NOW).unwrap();
    nft.accumulate_pot_token(GENERIC, 500, THIS, NOW).unwrap();
    nft.open_pot(1, NOW).unwrap();
    assert_eq!(nft.claim_haw_ai_pot_share(p, THIS, NOW).unwrap_err(), NFTError::NoRewardsAvailable);
}

#[test]
fn multiple_openings_claim_sweeps_all() {
    let mut nft = init_contract();
    nft.register_token(GENERIC).unwrap();
    nft.register_token(XTAR).unwrap();
    let p = AccountId(10);
    write_decks(&mut nft, &[(p, 100)], 0);
    nft.accumulate_pot_token(XTAR, 100, THIS, NOW).unwrap();
    nft.accumulate_pot_token(GENERIC, 50, THIS, NOW).unwrap();
    nft.open_pot(1, NOW).unwrap();
    nft.accumulate_pot_token(XTAR, 200, THIS, NOW).unwrap();
    nft.accumulate_pot_token(GENERIC, 150, THIS, NOW).unwrap();
    nft.open_pot(2, NOW).unwrap();
    let ((_, _, xtar_claimed), _) = nft.claim_haw_ai_pot_share(p, THIS, NOW).unwrap();
    assert_eq!(xtar_claimed, 300);
    assert_eq!(nft.ledger.read_user_generic_claimable(&p, &GENERIC), 0);
}

#[test]
fn bonus_impacts_share_and_snapshot_with_multiple_generics() {
    let mut nft = init_contract();
    let generic_a = GENERIC;
    let generic_b = AccountId(4);
    nft.register_token(generic_a).unwrap();
    nft.register_token(generic_b).unwrap();
    nft.register_token(XTAR).unwrap();
    let p1 = AccountId(10);
    let p2 = AccountId(11);
    let d1 = Deck { owner: p1, token_ids: four_ids(), total_power: 100, haw_ai_percentage: 0, bonus: 0, deck_categories: 4 };
    let d2 = Deck { owner: p2, token_ids: four_ids(), total_power: 100, haw_ai_percentage: 0, bonus: 100, deck_categories: 4 };
    nft.ledger.decks.load_stored(p1, d1.clone());
    nft.ledger.decks.load_stored(p2, d2.clone());
    nft.ledger.decks.set_legacy(vec![d1, d2]);
    nft.accumulate_pot_token(XTAR, 300, THIS, NOW).unwrap();
    nft.accumulate_pot_token(generic_a, 900, THIS, NOW).unwrap();
    nft.accumulate_pot_token(generic_b, 300, THIS, NOW).unwrap();
    nft.open_pot(1, NOW).unwrap();

    let snap = nft.ledger.read_pot_snapshot(1).unwrap();
    assert_eq!(snap.total_xtar, 300);
    let mut found_a = false;
    let mut found_b = false;
    for g in snap.generic_tokens.iter() {
        if g.token == generic_a {
            assert_eq!(g.amount, 900);
            found_a = true;
        }
        if g.token == generic_b {
            assert_eq!(g.amount, 300);
            found_b = true;
        }
    }
    assert!(found_a && found_b);

    let ((_, _, xtar1), _) = nft.claim_haw_ai_pot_share(p1, THIS, NOW).unwrap();
    assert_eq!(xtar1, 99);
    assert_eq!(nft.ledger.read_user_generic_claimable(&p1, &generic_a), 0);
    assert_eq!(nft.ledger.read_user_generic_claimable(&p1, &generic_b), 0);

    let ((_, _, xtar2), _) = nft.claim_haw_ai_pot_share(p2, THIS, NOW).unwrap();
    assert_eq!(xtar2, 199);
    assert_eq!(nft.ledger.read_user_generic_claimable(&p2, &generic_a), 0);
    assert_eq!(nft.ledger.read_user_generic_claimable(&p2, &generic_b), 0);
}

#[test]
fn view_pot_overview_totals_and_user_claimables() {
    let mut nft = init_contract();
    nft.register_token(GENERIC).unwrap();
    nft.register_token(XTAR).unwrap();
    let p1 = AccountId(10);
    write_decks(&mut nft, &[(p1, 100)], 0);
    nft.accumulate_pot_token(XTAR, 300, THIS, NOW).unwrap();
    nft.accumulate_pot_token(GENERIC, 700, THIS, NOW).unwrap();

    let pre = nft.view_pot_overview(p1, NOW);
    assert_eq!(pre.total_xtar, 300);
    assert!(pre.total_generics.iter().any(|g| g.token == GENERIC && g.amount == 700));
    assert_eq!(pre.user_xtar, 0);
    assert!(pre.user_generics.is_empty());

    nft.open_pot(1, NOW).unwrap();

    let post = nft.view_pot_overview(p1, NOW);
    assert_eq!(post.total_xtar, 0);
    assert!(post.total_generics.is_empty());
    assert_eq!(post.user_xtar, 300);
    assert!(post.user_generics.iter().any(|g| g.token == GENERIC && g.amount == 700));
}

// ---- formulas -------------------------------------------------------------

#[test]
fn apy_follows_utilization_and_time_factor() {
    assert_eq!(calculate_apy(100, 99, 0, 0, 0), 150_000);
    assert_eq!(calculate_apy(100, 99, 0, 0, 1_000_000), 149_982);
    assert_eq!(calculate_apy(0, 1_000, 0, 0, 0), 0);
    assert!(calculate_apy(u64::MAX, 0, u64::MAX, 1, u64::MAX) <= 300_000);
}

#[test]
fn interest_over_a_year() {
    assert_eq!(calculate_interest(1_000, 100_000, 31_536_000), 100);
    assert_eq!(calculate_interest(1_000, 100_000, 0), 0);
}

#[test]
fn effective_power_applies_bonus() {
    assert_eq!(calculate_effective_power(100, 25), 125);
    assert_eq!(calculate_effective_power(100, 10), 110);
    assert_eq!(calculate_effective_power(100, 0), 100);
}

#[test]
fn default_card_info() {
    let c = CardInfo::get_default_card(Category::Weapon);
    assert_eq!(c.initial_power, 1000);
    assert_eq!(c.max_power, 10000);
    assert_eq!(c.price_terry, 100);
    assert_eq!(c.price_xtar, 100);
}

#[test]
fn liquidation_prices() {
    let mut f = fight_record(AccountId(10), Category::Skill, 1, 10);
    f.trigger_price = 1000;
    f.leverage = 10;
    assert_eq!(get_liquidation_price(&f), Ok(900));
    f.side_position = SidePosition::Short;
    assert_eq!(get_liquidation_price(&f), Ok(1100));
    f.leverage = 0;
    assert_eq!(get_liquidation_price(&f), Err(NFTError::DivisionByZero));
}

// ---- initialization, levels and administration ----------------------------

#[test]
fn initialize_once_with_default_levels() {
    let mut nft = init_contract();
    assert_eq!(nft.ledger.levels.len(), 10);
    assert_eq!(nft.ledger.levels[0].name, "PLASTICLOVER");
    assert_eq!(nft.ledger.levels[9].maximum_terry, i128::MAX);
    assert_eq!(nft.initialize(ADMIN, base_config()), Err(NFTError::AlreadyInitialized));
    assert_eq!(nft.ledger.calculate_level_from_balance(0), Ok(1));
    assert_eq!(nft.ledger.calculate_level_from_balance(2_000), Ok(2));
    assert_eq!(nft.ledger.calculate_level_from_balance(20_000_000), Ok(10));
}

#[test]
fn admin_requests_need_initialization() {
    let mut nft = NFT::new();
    assert_eq!(nft.mint_terry(AccountId(10), 5), Err(NFTError::NotInitialized));
    assert_eq!(nft.create_user(AccountId(10)), Err(NFTError::NotInitialized));
    assert_eq!(nft.check_admin(), Err(NFTError::NotInitialized));
}

#[test]
fn set_admin_and_whitelist() {
    let mut nft = init_contract();
    nft.set_admin(AccountId(7)).unwrap();
    assert_eq!(nft.check_admin_address(), Ok(AccountId(7)));
    nft.add_to_whitelist(&vec![AccountId(10), AccountId(11)]).unwrap();
    assert!(nft.ledger.is_whitelisted(&AccountId(10)));
    nft.remove_from_whitelist(&vec![AccountId(10)]).unwrap();
    assert!(!nft.ledger.is_whitelisted(&AccountId(10)));
    assert!(nft.ledger.is_whitelisted(&AccountId(11)));
}

#[test]
fn batch_mint_checks_and_mints() {
    let mut nft = init_contract();
    let a = AccountId(10);
    let b = AccountId(11);
    assert_eq!(nft.batch_mint_terry(&vec![a, b], &vec![5]), Err(NFTError::MismatchedLengths));
    assert_eq!(nft.batch_mint_terry(&vec![a], &vec![0]), Err(NFTError::InvalidAmount));
    assert_eq!(nft.batch_mint_terry(&vec![a], &vec![1_000_000_001]), Err(NFTError::InvalidAmount));
    let many: Vec<AccountId> = (0..101u64).map(AccountId).collect();
    let amounts: Vec<i128> = vec![1; 101];
    assert_eq!(nft.batch_mint_terry(&many, &amounts), Err(NFTError::BatchTooLarge));
    nft.batch_mint_terry(&vec![a, b, a], &vec![5, 7, 1]).unwrap();
    assert_eq!(nft.terry_balance(a), 6);
    assert_eq!(nft.terry_balance(b), 7);
    assert_eq!(nft.read_user(a).total_history_terry, 6);
}

#[test]
fn dogstar_fee_capped() {
    let mut nft = init_contract();
    assert_eq!(nft.update_dogstar_fee_percentage(5_001), Err(NFTError::FeeTooHigh));
    nft.update_dogstar_fee_percentage(1_000).unwrap();
    assert_eq!(nft.config().unwrap().dogstar_fee_percentage, 1_000);
}

#[test]
fn contribution_split_between_pot_and_fee() {
    let mut cfg = base_config();
    cfg.dogstar_fee_percentage = 1_000;
    let mut nft = init_with(cfg);
    let calls = nft.contribute_to_pot(1_000, 100, 50, THIS, NOW).unwrap();
    let (pot, _) = nft.get_current_pot_state(NOW);
    let vault = nft.view_vault_status();
    assert_eq!(pot.accumulated_terry, 900);
    assert_eq!(vault.dogstar_terry, 100);
    assert_eq!(pot.accumulated_power, 90);
    assert_eq!(vault.dogstar_power, 10);
    assert_eq!(pot.accumulated_xtar, 45);
    assert_eq!(vault.dogstar_xtar, 5);
    assert_eq!(calls, vec![TokenCall::Transfer { token: XTAR, from: ADMIN, to: THIS, amount: 50 }]);
    assert_eq!(nft.contribute_to_pot(-1, 0, 0, THIS, NOW), Err(NFTError::NegativeContribution));
}

#[test]
fn dogstar_fees_claimed_by_admin_only() {
    let mut cfg = base_config();
    cfg.dogstar_fee_percentage = 1_000;
    let mut nft = init_with(cfg);
    assert_eq!(nft.claim_dogstar_fees(ADMIN, THIS), Err(NFTError::NoFeesAvailable));
    nft.contribute_to_pot(1_000, 0, 0, THIS, NOW).unwrap();
    assert_eq!(nft.claim_dogstar_fees(AccountId(10), THIS), Err(NFTError::NotAuthorized));
    nft.claim_dogstar_fees(ADMIN, THIS).unwrap();
    assert_eq!(nft.terry_balance(ADMIN), 100);
    assert_eq!(nft.view_vault_status().dogstar_terry, 0);
}

#[test]
fn token_registry() {
    let mut nft = init_contract();
    assert_eq!(nft.accumulate_pot_token(GENERIC, 10, THIS, NOW), Err(NFTError::TokenNotRegistered));
    nft.register_token(GENERIC).unwrap();
    nft.register_token(GENERIC).unwrap();
    assert_eq!(nft.ledger.read_registered_tokens(), vec![GENERIC]);
    assert_eq!(nft.accumulate_pot_token(GENERIC, -1, THIS, NOW), Err(NFTError::NegativeContribution));
    nft.unregister_token(GENERIC).unwrap();
    assert!(nft.ledger.read_registered_tokens().is_empty());
}

// ---- laws on concrete values -----------------------------------------------

#[test]
fn a_round_opens_once() {
    let mut nft = init_contract();
    nft.open_pot(1, NOW).unwrap();
    assert_eq!(nft.get_current_round(), 1);
    assert_eq!(nft.open_pot(1, NOW + 1), Err(NFTError::RoundAlreadyProcessed));
    assert_eq!(nft.get_all_rounds(), vec![1]);
}

#[test]
fn a_claim_is_paid_once() {
    let mut nft = init_contract();
    nft.register_token(XTAR).unwrap();
    let p = AccountId(10);
    write_decks(&mut nft, &[(p, 100)], 0);
    nft.accumulate_pot_token(XTAR, 40, THIS, NOW).unwrap();
    nft.open_pot(1, NOW).unwrap();
    nft.claim_haw_ai_pot_share(p, THIS, NOW).unwrap();
    assert_eq!(nft.claim_haw_ai_pot_share(p, THIS, NOW).unwrap_err(), NFTError::NoRewardsAvailable);
}

#[test]
fn shares_never_exceed_the_whole() {
    let mut nft = init_contract();
    write_decks(&mut nft, &[(AccountId(10), 1), (AccountId(11), 1), (AccountId(12), 1)], 0);
    nft.open_pot(1, NOW).unwrap();
    let total: u32 = (10..13u64)
        .map(|a| nft.get_player_participation(AccountId(a), 1).unwrap().share_percentage)
        .sum();
    assert_eq!(total, 9_999);
}

// ---- cards ------------------------------------------------------------------

fn catalog(nft: &mut NFT, id: u32, category: Category, price_terry: i128) {
    nft.create_metadata(
        CardMetadata {
            initial_power: 10,
            max_power: 50,
            level: 1,
            category,
            price_xtar: 100,
            price_terry,
            token_id: id,
        },
        id,
    )
    .unwrap();
}

#[test]
fn mint_transfer_and_burn() {
    let mut cfg = base_config();
    cfg.burn_receive_percentage = 50;
    cfg.burnable_percentage = 10;
    let mut nft = init_with(cfg);
    let p = AccountId(10);
    let q = AccountId(11);
    catalog(&mut nft, 1, Category::Skill, 30);
    assert_eq!(nft.mint(p, TokenId(1), 1, Currency::Terry, THIS, NOW), Err(NFTError::InsufficientTerry));
    assert_eq!(nft.mint(p, TokenId(1), 2, Currency::Terry, THIS, NOW), Err(NFTError::UserLevelTooLow));
    nft.mint_terry(p, 30).unwrap();
    nft.mint(p, TokenId(1), 1, Currency::Terry, THIS, NOW).unwrap();
    assert_eq!(nft.card(p, TokenId(1)), Some(Card { power: 10, locked_by_action: Action::Idle }));
    assert_eq!(nft.terry_balance(p), 0);
    assert_eq!(nft.mint(p, TokenId(1), 1, Currency::Terry, THIS, NOW), Err(NFTError::TokenExists));

    let calls = nft.mint(q, TokenId(1), 1, Currency::Xtar, THIS, NOW).unwrap();
    assert_eq!(
        calls,
        vec![
            TokenCall::Burn { token: XTAR, from: q, amount: 10 },
            TokenCall::Transfer { token: XTAR, from: q, to: THIS, amount: 90 },
        ]
    );

    nft.transfer(p, AccountId(12), TokenId(1)).unwrap();
    assert!(!nft.card_exists(p, TokenId(1)));
    assert_eq!(nft.card(AccountId(12), TokenId(1)), Some(Card { power: 10, locked_by_action: Action::Idle }));
    assert_eq!(nft.transfer(p, q, TokenId(1)), Err(NFTError::NotNFT));

    nft.burn(q, TokenId(1), NOW).unwrap();
    assert!(!nft.card_exists(q, TokenId(1)));
    let u = nft.read_user(q);
    assert_eq!(u.terry, 7);
    assert_eq!(u.power, 7);
}

#[test]
fn add_power_caps_at_max() {
    let mut nft = init_contract();
    let p = AccountId(10);
    catalog(&mut nft, 1, Category::Skill, 0);
    write_user_entry(&mut nft, p, 100);
    nft.ledger.write_nft(p, TokenId(1), Card { power: 45, locked_by_action: Action::Idle });
    assert_eq!(nft.add_power_to_card(p, 1, 200), Err(NFTError::InsufficientPower));
    nft.add_power_to_card(p, 1, 20).unwrap();
    assert_eq!(nft.card(p, TokenId(1)).unwrap().power, 50);
    assert_eq!(nft.read_user(p).power, 80);
}

#[test]
fn catalog_reads() {
    let mut nft = init_contract();
    catalog(&mut nft, 1, Category::Skill, 0);
    catalog(&mut nft, 2, Category::Leader, 0);
    let all = nft.get_all_cards().unwrap();
    assert_eq!(all.len(), 2);
    assert_eq!(all[1].category, Category::Leader);
    assert_eq!(nft.get_card(3), Err(NFTError::MetadataMissing));
}

// ---- actions ----------------------------------------------------------------

#[test]
fn stake_and_unstake_with_interest() {
    let mut cfg = base_config();
    cfg.power_action_fee = 10;
    cfg.stake_periods = vec![100];
    cfg.stake_interest_percentages = vec![10];
    let mut nft = init_with(cfg);
    let p = AccountId(10);
    nft.ledger.write_nft(p, TokenId(5), Card { power: 100, locked_by_action: Action::Idle });
    assert_eq!(nft.stake(p, Category::Weapon, TokenId(5), 0, NOW), Err(NFTError::InvalidCategory));
    assert_eq!(nft.stake(p, Category::Skill, TokenId(5), 1, NOW), Err(NFTError::InvalidPeriod));
    nft.stake(p, Category::Skill, TokenId(5), 0, NOW).unwrap();
    assert_eq!(nft.card(p, TokenId(5)), Some(Card { power: 0, locked_by_action: Action::Stake }));
    assert_eq!(nft.read_stake(p, Category::Skill, TokenId(5)).unwrap().power, 90);
    assert_eq!(nft.unstake(p, Category::Skill, TokenId(5), NOW + 99), Err(NFTError::LockedPeriod));
    nft.unstake(p, Category::Skill, TokenId(5), NOW + 100).unwrap();
    assert_eq!(nft.card(p, TokenId(5)), Some(Card { power: 99, locked_by_action: Action::Idle }));
    assert_eq!(nft.read_stake(p, Category::Skill, TokenId(5)), Err(NFTError::RecordNotFound));
}

#[test]
fn fight_open_and_close_with_profit() {
    let mut cfg = base_config();
    cfg.power_to_usdc_rate = 10_000;
    let mut nft = init_with(cfg);
    let p = AccountId(10);
    nft.create_metadata(
        CardMetadata {
            initial_power: 10,
            max_power: 5_000,
            level: 1,
            category: Category::Skill,
            price_xtar: 0,
            price_terry: 0,
            token_id: 7,
        },
        7,
    )
    .unwrap();
    nft.ledger.write_nft(p, TokenId(7), Card { power: 1_000, locked_by_action: Action::Idle });
    assert_eq!(
        nft.open_position(p, Category::Skill, TokenId(7), FightCurrency::BTC, SidePosition::Long, 0, 100, 1_000, NOW),
        Err(NFTError::InvalidLeverage)
    );
    nft.ledger
        .open_position(p, Category::Skill, TokenId(7), FightCurrency::BTC, SidePosition::Long, 2, 100, 1_000, NOW)
        .unwrap();
    let f = nft.ledger.read_fight(p, Category::Skill, TokenId(7)).unwrap();
    assert_eq!(f.amount_asset, 200_000);
    assert_eq!(nft.card(p, TokenId(7)), Some(Card { power: 900, locked_by_action: Action::Fight }));
    assert_eq!(nft.ledger.check_liquidation(p, Category::Skill, TokenId(7), 1_000), Err(NFTError::NotLiquidatable));
    nft.close_position(p, Category::Skill, TokenId(7), 1_100, NOW).unwrap();
    assert_eq!(nft.card(p, TokenId(7)), Some(Card { power: 1_020, locked_by_action: Action::Idle }));
    assert_eq!(nft.ledger.read_fight(p, Category::Skill, TokenId(7)), Err(NFTError::RecordNotFound));
}

#[test]
fn deck_of_four_distinct_categories() {
    let mut nft = init_contract();
    let p = AccountId(10);
    let cats = [Category::Leader, Category::Resource, Category::Skill, Category::Weapon];
    for (i, c) in cats.iter().enumerate() {
        let id = (i + 1) as u32;
        catalog(&mut nft, id, *c, 0);
        nft.ledger.write_nft(p, TokenId(id), Card { power: 10 * id, locked_by_action: Action::Idle });
    }
    for id in 1..=4u32 {
        nft.place(p, TokenId(id)).unwrap();
    }
    let deck = nft.read_deck(p);
    assert_eq!(deck.total_power, 100);
    assert_eq!(deck.deck_categories, 4);
    assert_eq!(deck.bonus, 25);
    assert_eq!(deck.haw_ai_percentage, 10_000);
    assert_eq!(nft.ledger.read_total_effective_deck_power(), 125);
    assert_eq!(nft.card(p, TokenId(2)).unwrap().locked_by_action, Action::Deck);
    assert_eq!(nft.place(p, TokenId(5)), Err(NFTError::DeckFull));
    assert_eq!(nft.get_eligible_players(), vec![p]);

    nft.ledger.remove_place(p, TokenId(2)).unwrap();
    let deck = nft.read_deck(p);
    assert_eq!(deck.token_ids, vec![TokenId(1), TokenId(3), TokenId(4)]);
    assert_eq!(deck.bonus, 0);
    assert_eq!(nft.ledger.read_total_effective_deck_power(), 0);
    assert_eq!(nft.card(p, TokenId(2)).unwrap().locked_by_action, Action::Idle);
    assert_eq!(nft.ledger.remove_place(p, TokenId(2)), Err(NFTError::TokenNotInDeck));
}

// ---- reward views -----------------------------------------------------------

#[test]
fn potential_reward_follows_effective_power() {
    let mut nft = init_contract();
    nft.register_token(GENERIC).unwrap();
    nft.register_token(XTAR).unwrap();
    let p1 = AccountId(10);
    let p2 = AccountId(11);
    let d1 = Deck { owner: p1, token_ids: four_ids(), total_power: 100, haw_ai_percentage: 0, bonus: 0, deck_categories: 4 };
    let d2 = Deck { owner: p2, token_ids: four_ids(), total_power: 100, haw_ai_percentage: 0, bonus: 100, deck_categories: 4 };
    nft.ledger.decks.load_stored(p1, d1.clone());
    nft.ledger.decks.load_stored(p2, d2.clone());
    nft.ledger.decks.set_legacy(vec![d1, d2]);
    nft.accumulate_pot_token(XTAR, 300, THIS, NOW).unwrap();
    nft.accumulate_pot_token(GENERIC, 900, THIS, NOW).unwrap();

    let r1 = nft.get_player_potential_reward(p1, NOW).unwrap();
    assert_eq!(r1.xtar_amount, 99);
    assert_eq!(r1.terry_amount, 0);
    assert_eq!(r1.power_amount, 0);
    assert_eq!(r1.generic_tokens.len(), 1);
    assert_eq!(r1.generic_tokens[0].token, GENERIC);
    assert_eq!(r1.generic_tokens[0].amount, 299);
    assert_eq!(r1.status, RewardStatus::Pending);
    assert_eq!(r1.round_number, nft.get_current_round());

    let r2 = nft.get_player_potential_reward(p2, NOW).unwrap();
    assert_eq!(r2.xtar_amount, 199);
    assert_eq!(r2.generic_tokens[0].amount, 599);

    let outsider = nft.get_player_potential_reward(AccountId(50), NOW).unwrap();
    assert_eq!(outsider.xtar_amount, 0);
    assert_eq!(outsider.generic_tokens.len(), 1);
    assert_eq!(outsider.generic_tokens[0].amount, 0);
}

#[test]
fn pending_rewards_skip_claimed_rounds() {
    let mut nft = init_contract();
    nft.open_pot(1, NOW).unwrap();
    nft.open_pot(2, NOW).unwrap();
    nft.open_pot(3, NOW).unwrap();
    let p1 = AccountId(10);
    let reward = |round: u32, status: RewardStatus| PendingReward {
        round_number: round,
        terry_amount: 5,
        power_amount: 6,
        xtar_amount: 7,
        generic_tokens: vec![],
        status,
    };
    nft.ledger.write_pending_reward(1, p1, reward(1, RewardStatus::Pending));
    nft.ledger.write_pending_reward(2, p1, reward(2, RewardStatus::Claimed));
    nft.ledger.write_pending_reward(3, p1, reward(3, RewardStatus::Pending));
    nft.ledger.write_pending_reward(3, AccountId(11), reward(3, RewardStatus::Pending));

    let pending = nft.get_pending_rewards(p1);
    assert_eq!(pending.len(), 2);
    assert_eq!(pending[0].round_number, 1);
    assert_eq!(pending[1].round_number, 3);
    assert!(nft.get_pending_rewards(AccountId(12)).is_empty());
    assert!(nft.ledger.read_pending_reward(2, p1).is_some());
    assert!(nft.ledger.read_pending_reward(4, p1).is_none());
}

#[test]
fn eligible_players_listed_with_shares_and_cards() {
    let mut nft = init_contract();
    let p1 = AccountId(10);
    let p2 = AccountId(11);
    write_decks(&mut nft, &[(p1, 100), (p2, 300)], 0);
    assert_eq!(nft.get_eligible_players_with_shares(), Err(NFTError::MetadataMissing));

    catalog(&mut nft, 1, Category::Leader, 0);
    catalog(&mut nft, 2, Category::Resource, 0);
    catalog(&mut nft, 3, Category::Skill, 0);
    catalog(&mut nft, 4, Category::Weapon, 0);
    let rows = nft.get_eligible_players_with_shares().unwrap();
    assert_eq!(rows.len(), 2);
    let (player, level, total_power, share, cards, bonus) = &rows[0];
    assert_eq!(*player, p1);
    assert_eq!(*level, 1);
    assert_eq!(*total_power, 100);
    assert_eq!(*share, 2500);
    assert_eq!(*bonus, 0);
    assert_eq!(cards.len(), 4);
    assert_eq!(cards[0], (1, 0, Category::Leader));
    assert_eq!(cards[3], (4, 0, Category::Weapon));
    assert_eq!(rows[1].0, p2);
    assert_eq!(rows[1].3, 7500);
}

#[test]
fn storage_writes_read_back() {
    let mut nft = init_contract();
    assert!(nft.ledger.stakes.has_room());
    assert!(nft.ledger.decks.has_room());
    assert!(nft.ledger.rounds.has_room());
    let p = AccountId(10);
    nft.ledger.write_accumulated_by_token(GENERIC, 42);
    assert_eq!(nft.ledger.read_accumulated_by_token(&GENERIC), 42);
    nft.ledger.write_dogstar_generic_fee(GENERIC, 7);
    assert_eq!(nft.ledger.read_dogstar_generic_fee(&GENERIC), 7);
    nft.ledger.write_user_generic_claimable(p, GENERIC, 9);
    assert_eq!(nft.ledger.read_user_generic_claimable(&p, &GENERIC), 9);
    nft.ledger.write_registered_tokens(vec![GENERIC, XTAR]);
    assert_eq!(nft.ledger.read_registered_tokens(), vec![GENERIC, XTAR]);
    let reward = PlayerReward { share_percentage: 2500, effective_power: 100, round_number: 3, deck_bonus: 0, deck_categories: 4 };
    nft.ledger.write_player_reward(3, p, reward);
    assert_eq!(nft.ledger.read_player_reward(3, &p), Some(reward));
    let snap = PotSnapshot {
        round_number: 3,
        total_terry: 1,
        total_power: 2,
        total_xtar: 3,
        timestamp: NOW,
        total_participants: 0,
        total_effective_power: 0,
        generic_tokens: vec![],
    };
    nft.ledger.write_pot_snapshot(3, snap);
    assert_eq!(nft.ledger.read_pot_snapshot(3).unwrap().total_xtar, 3);
    assert!(nft.ledger.read_pot_snapshot(4).is_none());
}

#[test]
fn lend_then_withdraw_returns_the_power() {
    let mut nft = init_contract();
    let p = AccountId(10);
    nft.ledger.write_nft(p, TokenId(8), Card { power: 100, locked_by_action: Action::Idle });
    assert_eq!(nft.lend(p, Category::Skill, TokenId(8), 40, NOW), Err(NFTError::InvalidCategory));
    assert_eq!(nft.lend(p, Category::Resource, TokenId(8), 140, NOW), Err(NFTError::InsufficientPower));
    nft.lend(p, Category::Resource, TokenId(8), 40, NOW).unwrap();
    assert_eq!(nft.card(p, TokenId(8)), Some(Card { power: 60, locked_by_action: Action::Lend }));
    let lending = nft.read_lending(p, Category::Resource, TokenId(8)).unwrap();
    assert_eq!(lending.power, 40);
    assert_eq!(lending.lent_at, NOW);
    assert_eq!(nft.read_lendings().len(), 1);
    assert_eq!(nft.admin_state(NOW).total_offer, 40);
    nft.withdraw(p, Category::Resource, TokenId(8), NOW).unwrap();
    assert_eq!(nft.card(p, TokenId(8)), Some(Card { power: 100, locked_by_action: Action::Idle }));
    assert_eq!(nft.read_lending(p, Category::Resource, TokenId(8)), Err(NFTError::RecordNotFound));
    assert_eq!(nft.withdraw(p, Category::Resource, TokenId(8), NOW), Err(NFTError::WrongLock));
}

#[test]
fn oracle_symbols_and_missing_price() {
    assert_eq!(asset_symbol(FightCurrency::BTC), "BTC");
    assert_eq!(asset_symbol(FightCurrency::ETH), "ETH");
    assert_eq!(asset_symbol(FightCurrency::XLM), "XLM");
    assert_eq!(asset_symbol(FightCurrency::SOL), "SOL");
    assert_eq!(price_or_zero(Some(PriceData { price: 65_000, timestamp: NOW })), 65_000);
    assert_eq!(price_or_zero(None), 0);
}

#[test]
fn migrate_rounds_partial_batch_twice() {
    let mut nft = init_contract();
    nft.ledger.rounds.set_legacy(vec![1u32, 2u32, 3u32]);
    assert_eq!(nft.ledger.migrate_rounds_to_pages(0, 2), 2);
    assert_eq!(nft.ledger.migrate_rounds_to_pages(0, 2), 2);
    assert_eq!(nft.ledger.get_rounds_count(), 2);
    assert_eq!(nft.ledger.get_rounds_page(0, 10), vec![1u32, 2u32]);
    assert_eq!(nft.ledger.migrate_rounds_to_pages(0, 10), 3);
    assert_eq!(nft.ledger.migrate_rounds_to_pages(0, 10), 3);
    assert_eq!(nft.ledger.get_rounds_count(), 3);
    assert_eq!(nft.ledger.get_rounds_page(0, 10), vec![1u32, 2u32, 3u32]);
}

#[test]
fn migrate_rounds_out_of_order_batches() {
    let mut nft = init_contract();
    nft.ledger.rounds.set_legacy(vec![1u32, 2u32, 3u32]);
    nft.ledger.migrate_rounds_to_pages(2, 1);
    nft.ledger.migrate_rounds_to_pages(0, 10);
    nft.ledger.migrate_rounds_to_pages(0, 10);
    assert_eq!(nft.ledger.get_rounds_count(), 3);
    assert_eq!(nft.ledger.get_rounds_page(0, 10), vec![3u32, 1u32, 2u32]);
}

#[test]
fn borrow_follows_quote_then_repay_restores() {
    let mut nft = init_contract();
    let lender = AccountId(10);
    let borrower = AccountId(11);
    nft.ledger.write_nft(lender, TokenId(8), Card { power: 1000, locked_by_action: Action::Idle });
    nft.ledger.write_nft(borrower, TokenId(9), Card { power: 1000, locked_by_action: Action::Idle });
    nft.lend(lender, Category::Resource, TokenId(8), 500, NOW).unwrap();
    let before = nft.admin_state(NOW);
    let power_before = nft.read_user(borrower).power;

    let quote = nft.borrow_quote(borrower, Category::Resource, TokenId(9), 100, NOW).unwrap();
    assert!(quote.allowed);
    assert_eq!(quote.borrow_net, 100);
    nft.borrow(borrower, Category::Resource, TokenId(9), 100, NOW).unwrap();
    assert_eq!(nft.card(borrower, TokenId(9)), Some(Card { power: 1000, locked_by_action: Action::Borrow }));
    assert_eq!(nft.read_user(borrower).power, power_before + 100);
    let during = nft.admin_state(NOW);
    assert_eq!(during.total_offer, before.total_offer - 100);
    assert_eq!(during.w_total, before.w_total + quote.reserve);

    nft.repay(borrower, Category::Resource, TokenId(9), NOW).unwrap();
    let after = nft.admin_state(NOW);
    assert_eq!(after.total_offer, before.total_offer);
    assert_eq!(after.total_borrowed_power, before.total_borrowed_power);
    assert_eq!(after.active_loans, before.active_loans);
    assert_eq!(after.w_total, before.w_total);
    assert_eq!(after.total_interest, before.total_interest);
    assert_eq!(nft.read_user(borrower).power, power_before);
    assert_eq!(nft.card(borrower, TokenId(9)), Some(Card { power: 1000, locked_by_action: Action::Idle }));
    assert_eq!(nft.read_borrowing(borrower, Category::Resource, TokenId(9)), Err(NFTError::RecordNotFound));
}

#[test]
fn interest_and_apy_examples() {
    assert_eq!(calculate_interest(1_000, 300_000, 0), 0);
    assert_eq!(calculate_interest(1_000_000, 100_000, 31_536_000), 100_000);
    assert!(calculate_apy(100, 100, 0, 0, 0) <= calculate_apy(200, 100, 0, 0, 0));
    assert!(calculate_apy(100, 200, 0, 0, 0) <= calculate_apy(100, 100, 0, 0, 0));
}
