use clicker_core::client::MultiplayerClient;
use clicker_core::engine::{GameState, PlayerProgress};
use clicker_core::errors::GameError;
use clicker_core::store::{normalize_name, ProfileStore};
use clicker_core::upgrades::Upgrades;

#[test]
fn normalize_trims_and_lowercases() {
    assert_eq!(normalize_name("  Ada "), "ada");
    assert_eq!(normalize_name("ADA LOVELACE"), "ada lovelace");
    assert_eq!(normalize_name("   "), "");
}

#[test]
fn progress_round_trips_through_a_fresh_state() {
    let mut source = GameState::new();
    source.stage = 9;
    source.coins = 4321;
    source.upgrades.medium_hp = 30;
    source.upgrades.coin_rate = 10;
    source.max_player_base_hp = 1_331_000;
    source.max_enemy_base_hp = 1_000_000;
    let exported = source.export_progress();

    let mut fresh = GameState::new();
    fresh.spawn_unit(clicker_core::upgrades::UnitType::Small);
    let units_before = fresh.player_units.len();
    let base_before = fresh.player_base_hp;
    fresh.import_progress(&exported);

    assert_eq!(fresh.export_progress(), exported);
    assert_eq!(fresh.stage, 9);
    assert_eq!(fresh.coins, 4321);
    assert_eq!(fresh.upgrades, exported.upgrades);
    assert_eq!(fresh.max_player_base_hp, 1_331_000);
    assert_eq!(fresh.max_enemy_base_hp, 1_000_000);
    // Units, current base HP and the counters are never touched by an
    // import; the current HP catches up at the next natural full heal.
    assert_eq!(fresh.player_units.len(), units_before);
    assert_eq!(fresh.player_base_hp, base_before);
    assert_eq!(fresh.click_count, 0);
    assert_eq!(fresh.type_count, 1);
}

#[test]
fn pull_applies_only_strictly_newer_timestamps() {
    let mut client = MultiplayerClient::new();
    // Nothing recorded yet: the first pull always applies.
    assert!(client.mark_remote_update(100));
    assert_eq!(client.last_remote_update, Some(100));
    // Pulling the same server state again applies at most once.
    assert!(!client.mark_remote_update(100));
    assert_eq!(client.last_remote_update, Some(100));
    // Older state is discarded as stale.
    assert!(!client.mark_remote_update(99));
    assert_eq!(client.last_remote_update, Some(100));
    // Strictly newer state wins.
    assert!(client.mark_remote_update(101));
    assert_eq!(client.last_remote_update, Some(101));
}

#[test]
fn client_gates_calls_on_configuration_and_identity() {
    let mut client = MultiplayerClient::new();
    assert!(!client.is_connected());
    assert_eq!(client.check_can_register(), Err(GameError::NotConfigured));
    assert_eq!(client.check_can_sync(), Err(GameError::NotRegistered));

    client.set_server_url(String::from("http://localhost:8080"));
    assert_eq!(client.get_server_url(), "http://localhost:8080");
    assert_eq!(client.check_can_register(), Ok(()));
    // Registered but unconfigured is reported as NotConfigured.
    assert_eq!(client.check_can_sync(), Err(GameError::NotRegistered));
    assert!(!client.is_connected());

    let mut store = ProfileStore::new();
    let res = store.register("Ada", 500).unwrap();
    client.apply_register_result(&res);
    assert!(client.is_connected());
    assert_eq!(client.check_can_sync(), Ok(res.player_id.clone()));
    assert_eq!(client.last_remote_update, Some(500));

    client.set_server_url(String::new());
    assert_eq!(client.check_can_sync(), Err(GameError::NotConfigured));
}

#[test]
fn registering_a_name_twice_returns_the_same_profile() {
    let mut store = ProfileStore::new();
    let first = store.register("Ada", 1000).unwrap();
    assert_eq!(first.message, "Account created!");
    assert_eq!(first.player_name, "Ada");
    assert_eq!(first.player_id.len(), 36);
    assert_eq!(first.progress.stage, 1);
    assert_eq!(first.progress.coins, 0);
    assert_eq!(first.progress.upgrades, Upgrades::new());
    assert_eq!(first.last_update, 1000);

    // Case-insensitively the same name, later, with surrounding spaces.
    let second = store.register("  aDa ", 2000).unwrap();
    assert_eq!(second.message, "Welcome back! Progress loaded.");
    assert_eq!(second.player_id, first.player_id);
    assert_eq!(second.last_update, 1000);
    assert_eq!(store.profiles.len(), 1);
}

#[test]
fn distinct_names_get_distinct_ids() {
    let mut store = ProfileStore::new();
    let a = store.register("Ada", 1).unwrap();
    let b = store.register("Grace", 2).unwrap();
    assert_ne!(a.player_id, b.player_id);
    assert_eq!(store.profiles.len(), 2);
}

#[test]
fn empty_names_are_rejected() {
    let mut store = ProfileStore::new();
    assert!(matches!(store.register("", 1), Err(GameError::InvalidInput)));
    assert!(matches!(store.register("   ", 1), Err(GameError::InvalidInput)));
    assert_eq!(store.profiles.len(), 0);
}

#[test]
fn sync_overwrites_progress_and_stamps_the_time() {
    let mut store = ProfileStore::new();
    let reg = store.register("Ada", 1000).unwrap();
    let mut progress = PlayerProgress::default();
    progress.stage = 4;
    progress.coins = 250;
    progress.upgrades.small_attack = 20;

    let unknown = String::from("no-such-id");
    assert!(matches!(store.sync(&unknown, &progress, 2000), Err(GameError::NotFound)));

    let updated = store.sync(&reg.player_id, &progress, 2000).unwrap();
    assert_eq!(updated.player_id, reg.player_id);
    assert_eq!(updated.player_name, "Ada");
    assert_eq!(updated.progress, progress);
    assert_eq!(updated.last_update, 2000);

    let fetched = store.get(&reg.player_id).unwrap();
    assert_eq!(fetched.progress, progress);
    assert_eq!(fetched.last_update, 2000);
    assert!(matches!(store.get(&unknown), Err(GameError::NotFound)));
}

#[test]
fn listing_projects_summaries_only() {
    let mut store = ProfileStore::new();
    let a = store.register("Ada", 10).unwrap();
    let g = store.register("Grace", 20).unwrap();
    let list = store.list();
    assert_eq!(list.len(), 2);
    assert_eq!(list[0].player_id, a.player_id);
    assert_eq!(list[0].player_name, "Ada");
    assert_eq!(list[0].stage, 1);
    assert_eq!(list[0].last_update, 10);
    assert_eq!(list[1].player_id, g.player_id);
    assert_eq!(list[1].last_update, 20);

    let health = store.health(99);
    assert_eq!(health.status, "ok");
    assert_eq!(health.timestamp, 99);
    assert_eq!(health.player_count, 2);
}

#[test]
fn rebuilding_from_files_keeps_one_profile_per_id() {
    let profile = |id: &str, name: &str, coins: u32, ts: i64| {
        let mut progress = PlayerProgress::default();
        progress.coins = coins;
        clicker_core::client::PlayerProfile {
            player_id: String::from(id),
            player_name: String::from(name),
            progress,
            last_update: ts,
        }
    };
    let mut files = Vec::new();
    files.push(profile("alpha", "Ada", 0, 10));
    files.push(profile("beta", "Grace", 5, 20));
    // A second file for the same id, as an interleaved write could leave.
    files.push(profile("alpha", "Ada", 9, 30));

    let rebuilt = ProfileStore::from_profiles(&files);
    assert_eq!(rebuilt.profiles.len(), 2);
    let ada = rebuilt.get(&String::from("alpha")).unwrap();
    // The later file for the id replaced the earlier one.
    assert_eq!(ada.progress.coins, 9);
    assert_eq!(ada.last_update, 30);
}

#[test]
fn import_clamps_unusable_payloads() {
    let mut state = GameState::new();
    let mut p = PlayerProgress::default();
    p.stage = 0;
    p.max_player_base_hp = -5;
    state.import_progress(&p);
    assert_eq!(state.stage, 1);
    assert_eq!(state.max_player_base_hp, 0);
}
