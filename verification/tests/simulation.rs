use clicker_core::engine::GameState;
use clicker_core::unit::Unit;
use clicker_core::upgrades::{UnitType, UpgradeAxis};

fn spawn_small(state: &mut GameState) -> u64 {
    state.spawn_unit(UnitType::Small);
    state.player_units.last().unwrap().id
}

#[test]
fn spawn_derives_stats_from_current_levels() {
    let mut state = GameState::new();
    state.spawn_unit(UnitType::Small);
    state.spawn_unit(UnitType::Medium);
    state.spawn_unit(UnitType::Large);
    let s = &state.player_units[0];
    let m = &state.player_units[1];
    let l = &state.player_units[2];
    assert_eq!((s.hp, s.attack, s.speed), (10_000, 5_000, 100_000));
    assert_eq!((m.hp, m.attack, m.speed), (30_000, 15_000, 80_000));
    assert_eq!((l.hp, l.attack, l.speed), (100_000, 50_000, 60_000));
    assert_eq!(state.type_count, 1);
    assert_eq!(state.click_count, 1);
    assert_eq!(state.player_units[0].position, 0);
    assert!(s.is_player && m.is_player && l.is_player);
    // Ids are assigned monotonically and never reused.
    assert_eq!((s.id, m.id, l.id), (0, 1, 2));
    assert_eq!(state.next_unit_id, 3);
}

#[test]
fn upgrades_apply_at_spawn_and_never_retroactively() {
    let mut state = GameState::new();
    state.spawn_unit(UnitType::Small);
    let before = state.player_units[0].attack;
    assert_eq!(before, 5_000);

    state.coins = 3000;
    assert_eq!(state.purchase_upgrade(UpgradeAxis::Attack, Some(UnitType::Small)), Ok(true));

    // The already-spawned unit is frozen; a new spawn picks up the bonus.
    assert_eq!(state.player_units[0].attack, 5_000);
    state.spawn_unit(UnitType::Small);
    assert_eq!(state.player_units[1].attack, 5_500);
    assert_eq!(state.player_units[1].hp, 10_000);
}

#[test]
fn stage_clear_awards_advances_and_repositions() {
    let mut state = GameState::new();
    state.spawn_unit(UnitType::Large);
    state.player_units[0].position = 900_000;
    state.enemy_base_hp = 0;
    state.coins = 0;
    state.update(16);

    assert_eq!(state.stage, 2);
    // max(10, 20 * stage / 2) at the cleared stage 1.
    assert_eq!(state.coins, 10);
    // New enemy base cap: 500 * (1 + (stage - 1) * 0.5) HP.
    assert_eq!(state.max_enemy_base_hp, 750_000);
    assert_eq!(state.enemy_base_hp, 750_000);
    assert_eq!(state.enemy_units.len(), 0);
    assert!(!state.stage_clear);
    assert!(state.save_pending);

    // The survivor was pulled back, damaged, and knocked leftward.
    assert_eq!(state.player_units.len(), 1);
    let u = &state.player_units[0];
    assert!(u.position <= 400_000);
    // 35% of the Small unit's (unupgraded) 10 HP, off the Large's 100 HP.
    assert_eq!(u.hp, 100_000 - 3_500);
    assert!(u.knockback_velocity < 0);
    assert!(350 <= u.knockback_ms && u.knockback_ms <= 849);
    assert_eq!(u.knockback_total_ms, u.knockback_ms);
    // Derived stats survived untouched.
    assert_eq!(u.attack, 50_000);
    assert_eq!(u.max_hp, 100_000);
}

#[test]
fn reposition_removes_units_the_damage_kills() {
    let mut state = GameState::new();
    let id = spawn_small(&mut state);
    // 35% of Small max HP is 3.5 HP; a unit at 3 HP does not survive it.
    state.player_units[0].hp = 3_000;
    state.enemy_base_hp = 0;
    state.update(16);
    assert_eq!(state.stage, 2);
    assert!(state.player_units.iter().all(|u: &Unit| u.id != id));
    assert!(state.player_units.iter().all(|u: &Unit| u.hp > 0 && u.position <= 400_000));
}

#[test]
fn defeat_resets_the_battlefield_only() {
    let mut state = GameState::new();
    state.spawn_unit(UnitType::Small);
    state.coins = 77;
    state.stage = 5;
    state.max_enemy_base_hp = 750_000;
    state.enemy_base_hp = 600_000;
    state.player_base_hp = 0;
    state.update(16);
    assert_eq!(state.stage, 5);
    assert_eq!(state.coins, 77);
    assert_eq!(state.player_units.len(), 0);
    assert_eq!(state.enemy_units.len(), 0);
    assert_eq!(state.player_base_hp, state.max_player_base_hp);
    assert_eq!(state.enemy_base_hp, 750_000);
    assert!(state.save_pending);
}

#[test]
fn enemies_spawn_on_the_interval_with_stage_scaled_stats() {
    let mut state = GameState::new();
    // At stage 1 the interval is max(1000, 3000 - min(2000, 2)) = 2998 ms.
    state.update(2_997);
    assert_eq!(state.enemy_units.len(), 0);
    state.update(1);
    assert_eq!(state.enemy_units.len(), 1);
    let e = &state.enemy_units[0];
    assert!(!e.is_player);
    // Spawned at the enemy base, it already marched for this tick's one
    // millisecond.
    assert_eq!(e.position, 1_000_000 - e.speed / 1000);
    // Stage 1 multiplier is exactly 1: base stats as written.
    match e.unit_type {
        UnitType::Small => assert_eq!((e.hp, e.attack, e.speed), (15_000, 4_000, 90_000)),
        UnitType::Medium => assert_eq!((e.hp, e.attack, e.speed), (40_000, 12_000, 70_000)),
        UnitType::Large => assert_eq!((e.hp, e.attack, e.speed), (120_000, 40_000, 50_000)),
    }
    assert_eq!(e.hp, e.max_hp);
}

#[test]
fn combat_kills_award_coins_and_remove_the_corpse() {
    let mut state = GameState::new();
    state.spawn_unit(UnitType::Large);
    // A feeble enemy standing in attack range (10 units).
    state.enemy_units.push(Unit {
        id: 999,
        unit_type: UnitType::Small,
        position: 5_000,
        hp: 100,
        max_hp: 100,
        attack: 0,
        speed: 0,
        is_player: false,
        target_id: None,
        knockback_velocity: 0,
        knockback_ms: 0,
        knockback_total_ms: 0,
    });
    state.next_unit_id = 1000;
    // 50 HP/s over one second kills the 0.1-HP enemy in one tick.
    state.update(1000);
    assert_eq!(state.enemy_units.len(), 0);
    assert_eq!(state.coins, 1);
    assert_eq!(state.player_units.len(), 1);
}

#[test]
fn untargeted_units_march_and_strike_the_base() {
    let mut state = GameState::new();
    state.spawn_unit(UnitType::Small);
    // No enemies: the unit marches right at 100 units/s.
    state.update(1000);
    assert_eq!(state.player_units[0].position, 100_000);
    // At the far edge it attacks the enemy base instead.
    state.player_units[0].position = 1_000_000;
    let base_before = state.enemy_base_hp;
    state.update(1000);
    assert_eq!(state.player_units[0].position, 1_000_000);
    assert_eq!(state.enemy_base_hp, base_before - 5_000);
}

#[test]
fn positions_stay_clamped_to_the_field() {
    let mut state = GameState::new();
    state.spawn_unit(UnitType::Small);
    state.player_units[0].position = 999_999;
    state.update(1000);
    assert!(state.player_units[0].position <= 1_000_000);
    assert!(state.player_units[0].position >= 0);
}

#[test]
fn thousand_idle_ticks_leave_stage_and_coins_alone() {
    let mut state = GameState::new();
    for _ in 0..1000 {
        state.update(16);
    }
    // With no player units, nothing can drive the enemy base to zero and
    // nothing earns a coin.
    assert_eq!(state.stage, 1);
    assert_eq!(state.coins, 0);
    assert_eq!(state.player_units.len(), 0);
    assert_eq!(state.click_count, 0);
    assert_eq!(state.type_count, 0);
}

#[test]
fn advance_feeds_inputs_and_the_timed_large_spawn() {
    let mut state = GameState::new();
    state.advance(2, 3, true, 16);
    assert_eq!(state.player_units.len(), 6);
    assert_eq!(state.type_count, 3);
    assert_eq!(state.click_count, 2);
    let larges = state.player_units.iter().filter(|u| matches!(u.unit_type, UnitType::Large)).count();
    assert_eq!(larges, 1);
}

fn enemy_at(id: u64, position: i64) -> Unit {
    Unit {
        id,
        unit_type: UnitType::Small,
        position,
        hp: 1_000_000,
        max_hp: 1_000_000,
        attack: 0,
        speed: 0,
        is_player: false,
        target_id: None,
        knockback_velocity: 0,
        knockback_ms: 0,
        knockback_total_ms: 0,
    }
}

#[test]
fn out_of_range_units_approach_their_target() {
    let mut state = GameState::new();
    state.spawn_unit(UnitType::Small);
    state.enemy_units.push(enemy_at(50, 500_000));
    state.next_unit_id = 51;
    state.update(1000);
    // 100 units/s toward the target, which is far out of attack range.
    assert_eq!(state.player_units[0].position, 100_000);
    assert_eq!(state.player_units[0].target_id, Some(50));
}

#[test]
fn equidistant_targets_resolve_to_the_lowest_id() {
    let mut state = GameState::new();
    state.spawn_unit(UnitType::Small);
    state.player_units[0].position = 500_000;
    state.enemy_units.push(enemy_at(60, 400_000));
    state.enemy_units.push(enemy_at(50, 600_000));
    state.next_unit_id = 61;
    state.update(1);
    // Both stand 100 units away; the tie goes to the lower id.
    assert_eq!(state.player_units[0].target_id, Some(50));
}

#[test]
fn dangling_targets_are_cleared_and_reacquired() {
    let mut state = GameState::new();
    state.spawn_unit(UnitType::Small);
    state.player_units[0].target_id = Some(12345);
    state.enemy_units.push(enemy_at(77, 900_000));
    state.next_unit_id = 12346;
    state.update(1);
    // The stale reference does not resolve; the live enemy is acquired.
    assert_eq!(state.player_units[0].target_id, Some(77));
}

#[test]
fn knockback_displaces_for_its_duration_only() {
    let mut state = GameState::new();
    state.spawn_unit(UnitType::Small);
    state.player_units[0].position = 500_000;
    state.player_units[0].knockback_velocity = -100_000;
    state.player_units[0].knockback_ms = 500;
    state.player_units[0].knockback_total_ms = 500;
    // Mid-knockback: displaced by velocity, and by ordinary marching.
    state.update(250);
    let u = state.player_units[0];
    assert_eq!(u.knockback_ms, 250);
    assert_eq!(u.knockback_velocity, -100_000);
    // -100 units/s for 0.25 s, then +100 units/s marching for 0.25 s.
    assert_eq!(u.position, 500_000 - 25_000 + 25_000);
    // Expiry zeroes the knockback fields.
    state.update(250);
    let u = state.player_units[0];
    assert_eq!(u.knockback_ms, 0);
    assert_eq!(u.knockback_velocity, 0);
    assert_eq!(u.knockback_total_ms, 0);
}

#[test]
fn sanitize_rebuilds_the_cursor_and_drops_garbage() {
    let mut state = GameState::new();
    let intruder = Unit {
        id: 7,
        unit_type: UnitType::Small,
        position: 2_000_000,
        hp: 5_000,
        max_hp: 10_000,
        attack: -3,
        speed: 100_000,
        is_player: false,
        target_id: None,
        knockback_velocity: 0,
        knockback_ms: 0,
        knockback_total_ms: 0,
    };
    let corpse = Unit { hp: 0, id: 8, ..intruder };
    let duplicate = Unit { position: 10, ..intruder };
    state.player_units.push(intruder);
    state.player_units.push(corpse);
    state.player_units.push(duplicate);
    state.enemy_units.push(Unit { id: 7, hp: 1, ..intruder });
    state.stage = 0;
    state.next_unit_id = 0;
    state.sanitize_loaded();

    assert_eq!(state.stage, 1);
    // The corpse and the duplicated id are gone; the survivor is repaired.
    assert_eq!(state.player_units.len(), 1);
    let u = &state.player_units[0];
    assert_eq!(u.id, 7);
    assert_eq!(u.position, 1_000_000);
    assert_eq!(u.attack, 0);
    assert!(u.is_player);
    // The enemy copy of id 7 lost to the player's.
    assert_eq!(state.enemy_units.len(), 0);
    // The cursor is recomputed as one past the largest surviving id.
    assert_eq!(state.next_unit_id, 8);
}
