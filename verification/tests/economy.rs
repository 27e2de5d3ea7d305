use clicker_core::cost::cost_for_level;
use clicker_core::engine::GameState;
use clicker_core::errors::GameError;
use clicker_core::upgrades::{UnitType, UpgradeAxis, Upgrades};

#[test]
fn cost_matches_geometric_curve_exactly() {
    // floor(3000 * 1.2^L), computed over the integers.
    assert_eq!(cost_for_level(0), Some(3000));
    assert_eq!(cost_for_level(1), Some(3600));
    assert_eq!(cost_for_level(2), Some(4320));
    assert_eq!(cost_for_level(3), Some(5184));
    assert_eq!(cost_for_level(4), Some(6220));
    assert_eq!(cost_for_level(5), Some(7464));
    assert_eq!(cost_for_level(10), Some(18575));
    assert_eq!(cost_for_level(20), Some(115012));
    assert_eq!(cost_for_level(70), Some(1046666870));
}

#[test]
fn cost_is_strictly_increasing() {
    let mut prev = cost_for_level(0).unwrap();
    for level in 1..60u32 {
        let next = cost_for_level(level).unwrap();
        assert!(next > prev);
        prev = next;
    }
}

#[test]
fn cost_outgrows_the_coin_type() {
    // The last affordable level for a 32-bit balance, and the first beyond.
    assert_eq!(cost_for_level(77), Some(3750396635));
    assert_eq!(cost_for_level(78), None);
    assert_eq!(cost_for_level(83), None);
    assert_eq!(cost_for_level(84), None);
    assert_eq!(cost_for_level(u32::MAX), None);
}

#[test]
fn get_cost_reads_the_addressed_counter() {
    let mut up = Upgrades::new();
    assert_eq!(up.get_cost(UpgradeAxis::Attack, Some(UnitType::Small)), Some(3000));
    up.small_attack = 10;
    assert_eq!(up.get_cost(UpgradeAxis::Attack, Some(UnitType::Small)), Some(18575));
    assert_eq!(up.get_cost(UpgradeAxis::Attack, Some(UnitType::Medium)), Some(3000));
    assert_eq!(up.get_cost(UpgradeAxis::CoinRate, None), Some(3000));
    // An invalid selector addresses no counter and reads as level zero.
    assert_eq!(up.get_cost(UpgradeAxis::Attack, None), Some(3000));
}

#[test]
fn purchase_without_funds_changes_nothing() {
    let mut state = GameState::new();
    state.coins = 2999;
    let r = state.purchase_upgrade(UpgradeAxis::Hp, Some(UnitType::Small));
    assert_eq!(r, Err(GameError::InsufficientFunds));
    assert_eq!(state.coins, 2999);
    assert_eq!(state.upgrades, Upgrades::new());
    assert_eq!(state.max_player_base_hp, 1_000_000);
    assert!(!state.save_pending);
}

#[test]
fn zero_coin_purchase_fails_on_every_axis() {
    let axes = [
        (UpgradeAxis::Attack, Some(UnitType::Small)),
        (UpgradeAxis::Attack, Some(UnitType::Medium)),
        (UpgradeAxis::Attack, Some(UnitType::Large)),
        (UpgradeAxis::Hp, Some(UnitType::Small)),
        (UpgradeAxis::Hp, Some(UnitType::Medium)),
        (UpgradeAxis::Hp, Some(UnitType::Large)),
        (UpgradeAxis::Speed, Some(UnitType::Small)),
        (UpgradeAxis::Speed, Some(UnitType::Medium)),
        (UpgradeAxis::Speed, Some(UnitType::Large)),
        (UpgradeAxis::CoinRate, None),
        (UpgradeAxis::BaseHp, None),
    ];
    for (axis, unit) in axes {
        let mut state = GameState::new();
        let fresh = GameState::new();
        let r = state.purchase_upgrade(axis, unit);
        assert_eq!(r, Err(GameError::InsufficientFunds));
        assert_eq!(state.coins, fresh.coins);
        assert_eq!(state.stage, fresh.stage);
        assert_eq!(state.upgrades, fresh.upgrades);
        assert_eq!(state.player_base_hp, fresh.player_base_hp);
        assert_eq!(state.max_player_base_hp, fresh.max_player_base_hp);
        assert_eq!(state.enemy_base_hp, fresh.enemy_base_hp);
        assert_eq!(state.max_enemy_base_hp, fresh.max_enemy_base_hp);
        assert_eq!(state.player_units.len(), 0);
        assert_eq!(state.enemy_units.len(), 0);
        assert_eq!(state.click_count, 0);
        assert_eq!(state.type_count, 0);
        assert!(!state.save_pending);
    }
}

#[test]
fn invalid_selector_is_rejected_without_debit() {
    let mut state = GameState::new();
    state.coins = 10_000;
    let r = state.purchase_upgrade(UpgradeAxis::Attack, None);
    assert_eq!(r, Err(GameError::InvalidAxis));
    assert_eq!(state.coins, 10_000);
    assert_eq!(state.upgrades, Upgrades::new());
}

#[test]
fn successful_purchase_debits_and_raises_the_counter() {
    let mut state = GameState::new();
    state.coins = 5000;
    let r = state.purchase_upgrade(UpgradeAxis::Speed, Some(UnitType::Large));
    assert_eq!(r, Ok(true));
    assert_eq!(state.coins, 2000);
    assert_eq!(state.upgrades.large_speed, 10);
    assert!(state.save_pending);
}

#[test]
fn base_hp_purchase_heals_to_the_grown_cap() {
    let mut state = GameState::new();
    state.coins = 3000;
    state.player_base_hp = 250_000;
    let r = state.purchase_upgrade(UpgradeAxis::BaseHp, None);
    assert_eq!(r, Ok(true));
    assert_eq!(state.coins, 0);
    assert_eq!(state.upgrades.base_hp, 10);
    assert_eq!(state.max_player_base_hp, 1_100_000);
    assert_eq!(state.player_base_hp, state.max_player_base_hp);
    assert!(state.max_player_base_hp > 1_000_000);

    // Again: the cap keeps growing strictly, the base keeps being healed.
    state.coins = 18575;
    let r2 = state.purchase_upgrade(UpgradeAxis::BaseHp, None);
    assert_eq!(r2, Ok(true));
    assert_eq!(state.max_player_base_hp, 1_210_000);
    assert_eq!(state.player_base_hp, 1_210_000);
}

#[test]
fn auto_buy_needs_its_flat_fee() {
    let mut state = GameState::new();
    state.coins = 4999;
    assert_eq!(
        state.start_auto_buy(UpgradeAxis::CoinRate, None, 10_000),
        Err(GameError::InsufficientFunds)
    );
    assert_eq!(state.coins, 4999);
    state.coins = 5000;
    assert_eq!(state.start_auto_buy(UpgradeAxis::CoinRate, None, 10_000), Ok(()));
    assert_eq!(state.coins, 0);
    let cfg = state.get_auto_buy();
    assert!(cfg.enabled);
    assert_eq!(cfg.axis, Some(UpgradeAxis::CoinRate));
    assert_eq!(cfg.remaining_ms, 10_000);
    assert_eq!(state.stop_auto_buy(), Ok(()));
    assert!(!state.get_auto_buy().enabled);
    assert_eq!(state.get_auto_buy().remaining_ms, 0);
}

#[test]
fn auto_buy_spends_during_ticks_and_expires() {
    let mut state = GameState::new();
    state.coins = 5000 + 3000 + 18575;
    assert_eq!(state.start_auto_buy(UpgradeAxis::CoinRate, None, 100), Ok(()));
    // First tick: affordable, buys at level 0 for 3000.
    state.update(16);
    assert_eq!(state.upgrades.coin_rate, 10);
    assert_eq!(state.coins, 18575);
    // Second tick: still affordable, buys at level 10 for 18575.
    state.update(16);
    assert_eq!(state.upgrades.coin_rate, 20);
    assert_eq!(state.coins, 0);
    // Run out the countdown: disabled, no further change.
    state.coins = 100_000;
    state.update(100);
    assert!(!state.auto_buy.enabled);
    let coins_after_expiry = state.coins;
    state.update(16);
    assert_eq!(state.coins, coins_after_expiry);
    assert_eq!(state.upgrades.coin_rate, 20);
}

#[test]
fn error_messages_match_the_surfaces() {
    assert_eq!(GameError::InsufficientFunds.describe(), "Not enough coins");
    assert_eq!(GameError::InvalidAxis.describe(), "Invalid upgrade type");
    assert_eq!(GameError::NotConfigured.describe(), "No server URL configured");
    assert_eq!(GameError::NotRegistered.describe(), "Not registered to server");
    assert_eq!(GameError::NotFound.describe(), "Player not found");
    assert_eq!(GameError::InvalidInput.describe(), "Player name is required");
}
