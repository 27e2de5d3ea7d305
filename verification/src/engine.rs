//! The aggregate battlefield state and the commands that mutate it: the
//! purchase rule, the auto-buy configuration, and the exportable progress
//! subset. The per-tick state machine lives in the second half of this
//! module.

use vstd::prelude::*;
use crate::combat::{ids_distinct, side_wf, sides_disjoint};
use crate::cost::upgrade_cost;
use crate::errors::GameError;
use crate::num::clip_i64;
use crate::unit::Unit;
use crate::upgrades::{selector_is_valid, UnitType, UpgradeAxis, Upgrades};

verus! {

/// A timed order to spend spare coins on one fixed upgrade selector, tick
/// by tick, while the countdown runs.
#[derive(Clone, Copy, Debug)]
pub struct AutoBuyConfig {
    pub enabled: bool,
    pub axis: Option<UpgradeAxis>,
    pub unit: Option<UnitType>,
    pub remaining_ms: u32,
}

impl Default for AutoBuyConfig {
    fn default() -> (r: Self)
        ensures
            r.enabled == false,
            r.axis is None,
            r.unit is None,
            r.remaining_ms == 0,
    {
        AutoBuyConfig { enabled: false, axis: None, unit: None, remaining_ms: 0 }
    }
}

/// The exportable subset of the game state: what synchronization carries.
/// Battlefield unit state is never transmitted.
#[derive(Clone, Copy, Debug, PartialEq, Eq, Structural)]
pub struct PlayerProgress {
    pub stage: u32,
    pub coins: u32,
    pub upgrades: Upgrades,
    pub max_player_base_hp: i64,
    pub max_enemy_base_hp: i64,
}

impl Default for PlayerProgress {
    /// The progress of a brand-new profile: stage 1, no coins, no
    /// upgrades, the default base-HP caps.
    fn default() -> (r: Self)
        ensures
            r == PlayerProgress::spec_default(),
    {
        PlayerProgress {
            stage: 1,
            coins: 0,
            upgrades: crate::upgrades::Upgrades::new(),
            max_player_base_hp: 1_000_000,
            max_enemy_base_hp: 500_000,
        }
    }
}

impl PlayerProgress {
    /// The default progress value.
    pub open spec fn spec_default() -> PlayerProgress {
        (PlayerProgress {
            stage: 1,
            coins: 0,
            upgrades: Upgrades::spec_zero(),
            max_player_base_hp: 1_000_000,
            max_enemy_base_hp: 500_000,
        })
    }

    /// A progress payload a game state can absorb without clamping.
    pub open spec fn wf(self) -> bool {
        &&& self.stage >= 1
        &&& self.max_player_base_hp >= 0
        &&& self.max_enemy_base_hp >= 0
    }
}

/// The aggregate root. Mutated by the tick function and the explicit
/// commands only; the shell persists it whenever `save_pending` is set.
#[verifier::ext_equal]
pub struct GameState {
    pub player_units: Vec<Unit>,
    pub enemy_units: Vec<Unit>,
    pub player_base_hp: i64,
    pub enemy_base_hp: i64,
    pub max_player_base_hp: i64,
    pub max_enemy_base_hp: i64,
    pub coins: u32,
    pub stage: u32,
    pub click_count: u32,
    pub type_count: u32,
    pub upgrades: Upgrades,
    pub auto_buy: AutoBuyConfig,
    pub next_unit_id: u64,
    pub enemy_spawn_timer_ms: u32,
    pub stage_clear: bool,
    pub save_timer_ms: u32,
    pub save_pending: bool,
}

impl GameState {
    /// The structural invariant every command preserves: both rosters are
    /// well-formed, ids are unique and below the cursor, the stage count
    /// has started, and the caps are not negative.
    pub open spec fn wf(self) -> bool {
        &&& side_wf(self.player_units@, self.next_unit_id as int, true)
        &&& side_wf(self.enemy_units@, self.next_unit_id as int, false)
        &&& ids_distinct(self.player_units@)
        &&& ids_distinct(self.enemy_units@)
        &&& sides_disjoint(self.player_units@, self.enemy_units@)
        &&& self.stage >= 1
        &&& self.max_player_base_hp >= 0
        &&& self.max_enemy_base_hp >= 0
    }

    /// Everything outside the player roster.
    pub open spec fn same_but_player_units(self, other: GameState) -> bool {
        &&& self.enemy_units@ == other.enemy_units@
        &&& self.player_base_hp == other.player_base_hp
        &&& self.enemy_base_hp == other.enemy_base_hp
        &&& self.max_player_base_hp == other.max_player_base_hp
        &&& self.max_enemy_base_hp == other.max_enemy_base_hp
        &&& self.coins == other.coins
        &&& self.stage == other.stage
        &&& self.click_count == other.click_count
        &&& self.type_count == other.type_count
        &&& self.upgrades == other.upgrades
        &&& self.auto_buy == other.auto_buy
        &&& self.next_unit_id == other.next_unit_id
        &&& self.enemy_spawn_timer_ms == other.enemy_spawn_timer_ms
        &&& self.stage_clear == other.stage_clear
        &&& self.save_timer_ms == other.save_timer_ms
        &&& self.save_pending == other.save_pending
    }

    /// Everything a purchase leaves alone.
    pub open spec fn same_but_economy(self, other: GameState) -> bool {
        &&& self.player_units@ == other.player_units@
        &&& self.enemy_units@ == other.enemy_units@
        &&& self.enemy_base_hp == other.enemy_base_hp
        &&& self.max_enemy_base_hp == other.max_enemy_base_hp
        &&& self.stage == other.stage
        &&& self.click_count == other.click_count
        &&& self.type_count == other.type_count
        &&& self.next_unit_id == other.next_unit_id
        &&& self.enemy_spawn_timer_ms == other.enemy_spawn_timer_ms
        &&& self.stage_clear == other.stage_clear
        &&& self.save_timer_ms == other.save_timer_ms
    }

    /// A fresh simulation: empty battlefield, stage 1, default caps, no
    /// coins, nothing upgraded.
    pub fn new() -> (r: Self)
        ensures
            r.wf(),
            r.player_units@.len() == 0,
            r.enemy_units@.len() == 0,
            r.player_base_hp == 1_000_000,
            r.enemy_base_hp == 500_000,
            r.max_player_base_hp == 1_000_000,
            r.max_enemy_base_hp == 500_000,
            r.coins == 0,
            r.stage == 1,
            r.click_count == 0,
            r.type_count == 0,
            r.upgrades == Upgrades::spec_zero(),
            r.auto_buy.enabled == false,
            r.auto_buy.remaining_ms == 0,
            r.next_unit_id == 0,
            r.enemy_spawn_timer_ms == 0,
            r.stage_clear == false,
            r.save_timer_ms == 0,
            r.save_pending == false,
    {
        GameState {
            player_units: Vec::new(),
            enemy_units: Vec::new(),
            player_base_hp: 1_000_000,
            enemy_base_hp: 500_000,
            max_player_base_hp: 1_000_000,
            max_enemy_base_hp: 500_000,
            coins: 0,
            stage: 1,
            click_count: 0,
            type_count: 0,
            upgrades: crate::upgrades::Upgrades::new(),
            auto_buy: AutoBuyConfig { enabled: false, axis: None, unit: None, remaining_ms: 0 },
            next_unit_id: 0,
            enemy_spawn_timer_ms: 0,
            stage_clear: false,
            save_timer_ms: 0,
            save_pending: false,
        }
    }

    /// The progress subset a state exports for synchronization.
    pub open spec fn spec_export(self) -> PlayerProgress {
        (PlayerProgress {
            stage: self.stage,
            coins: self.coins,
            upgrades: self.upgrades,
            max_player_base_hp: self.max_player_base_hp,
            max_enemy_base_hp: self.max_enemy_base_hp,
        })
    }

    /// A state after absorbing a remote progress payload: the economic
    /// subset is replaced (clamped into the invariant where the payload is
    /// unusable), units, current base HP values and the input counters are
    /// untouched. Note that a raised `max_player_base_hp` does not heal the
    /// current base HP: that waits for the next natural full-heal event.
    pub open spec fn spec_import(self, p: PlayerProgress) -> GameState {
        (GameState {
            stage: if p.stage >= 1 {
                p.stage
            } else {
                1u32
            },
            coins: p.coins,
            upgrades: p.upgrades,
            max_player_base_hp: if p.max_player_base_hp >= 0 {
                p.max_player_base_hp
            } else {
                0
            },
            max_enemy_base_hp: if p.max_enemy_base_hp >= 0 {
                p.max_enemy_base_hp
            } else {
                0
            },
            ..self
        })
    }

    /// Exports the economic subset of the state.
    pub fn export_progress(&self) -> (r: PlayerProgress)
        ensures
            r == self.spec_export(),
    {
        PlayerProgress {
            stage: self.stage,
            coins: self.coins,
            upgrades: self.upgrades,
            max_player_base_hp: self.max_player_base_hp,
            max_enemy_base_hp: self.max_enemy_base_hp,
        }
    }

    /// Merges a remote progress payload into the live state, as
    /// `spec_import` says.
    pub fn import_progress(&mut self, p: &PlayerProgress)
        requires
            old(self).wf(),
        ensures
            final(self).wf(),
            *final(self) == old(self).spec_import(*p),
    {
        self.stage = if p.stage >= 1 {
            p.stage
        } else {
            1
        };
        self.coins = p.coins;
        self.upgrades = p.upgrades;
        self.max_player_base_hp = if p.max_player_base_hp >= 0 {
            p.max_player_base_hp
        } else {
            0
        };
        self.max_enemy_base_hp = if p.max_enemy_base_hp >= 0 {
            p.max_enemy_base_hp
        } else {
            0
        };
    }

    /// Purchases one step of an upgrade axis. Invalid selectors and
    /// unaffordable costs fail without changing anything; a success debits
    /// exactly the geometric cost, raises the counter by ten points, and on
    /// the base-HP axis grows the cap by a tenth and heals the base to it.
    /// Every success asks for a write-through persistence pass.
    pub fn purchase_upgrade(&mut self, axis: UpgradeAxis, unit: Option<UnitType>) -> (r: Result<
        bool,
        GameError,
    >)
        requires
            old(self).wf(),
        ensures
            final(self).wf(),
            final(self).max_player_base_hp >= old(self).max_player_base_hp,
            match r {
                Ok(b) => {
                    &&& b == true
                    &&& selector_is_valid(axis, unit)
                    &&& upgrade_cost(old(self).upgrades.spec_level(axis, unit) as nat) <= old(
                        self,
                    ).coins
                    &&& final(self).coins == old(self).coins - upgrade_cost(
                        old(self).upgrades.spec_level(axis, unit) as nat,
                    )
                    &&& final(self).upgrades == old(self).upgrades.spec_bumped(axis, unit)
                    &&& final(self).save_pending == true
                    &&& final(self).auto_buy == old(self).auto_buy
                    &&& (axis is BaseHp ==> final(self).max_player_base_hp == clip_i64(
                        old(self).max_player_base_hp * 11 / 10,
                    ) && final(self).player_base_hp == final(self).max_player_base_hp)
                    &&& (!(axis is BaseHp) ==> final(self).max_player_base_hp == old(
                        self,
                    ).max_player_base_hp && final(self).player_base_hp == old(self).player_base_hp)
                    &&& final(self).same_but_economy(*old(self))
                },
                Err(e) => {
                    &&& *final(self) == *old(self)
                    &&& (e == GameError::InvalidAxis <==> !selector_is_valid(axis, unit))
                    &&& (e == GameError::InsufficientFunds ==> selector_is_valid(axis, unit) && (
                    old(self).coins as int) < upgrade_cost(
                        old(self).upgrades.spec_level(axis, unit) as nat,
                    ))
                    &&& (e == GameError::InvalidAxis || e == GameError::InsufficientFunds)
                },
            },
    {
        let valid = match axis {
            UpgradeAxis::Attack => unit.is_some(),
            UpgradeAxis::Hp => unit.is_some(),
            UpgradeAxis::Speed => unit.is_some(),
            UpgradeAxis::CoinRate => true,
            UpgradeAxis::BaseHp => true,
        };
        if !valid {
            return Err(GameError::InvalidAxis);
        }
        let cost = match self.upgrades.get_cost(axis, unit) {
            Some(c) => c,
            None => {
                return Err(GameError::InsufficientFunds);
            },
        };
        if self.coins < cost {
            return Err(GameError::InsufficientFunds);
        }
        self.coins = self.coins - cost;
        self.upgrades.bump(axis, unit);
        match axis {
            UpgradeAxis::BaseHp => {
                self.max_player_base_hp = crate::num::grow_by_tenth(self.max_player_base_hp);
                self.player_base_hp = self.max_player_base_hp;
            },
            _ => {},
        }
        self.save_pending = true;
        Ok(true)
    }

    /// Arms the auto-buy order: costs a flat 5000 coins, then buys the
    /// given selector every tick it is affordable until the countdown runs
    /// out.
    pub fn start_auto_buy(&mut self, axis: UpgradeAxis, unit: Option<UnitType>, duration_ms: u32)
        -> (r: Result<(), GameError>)
        ensures
            match r {
                Ok(_) => {
                    &&& old(self).coins >= 5000
                    &&& final(self).coins == old(self).coins - 5000
                    &&& final(self).auto_buy.enabled == true
                    &&& final(self).auto_buy.axis == Some(axis)
                    &&& final(self).auto_buy.unit == unit
                    &&& final(self).auto_buy.remaining_ms == duration_ms
                },
                Err(e) => {
                    &&& e == GameError::InsufficientFunds
                    &&& old(self).coins < 5000
                    &&& *final(self) == *old(self)
                },
            },
            final(self).player_units@ == old(self).player_units@,
            final(self).enemy_units@ == old(self).enemy_units@,
            final(self).upgrades == old(self).upgrades,
            final(self).stage == old(self).stage,
            final(self).wf() == old(self).wf(),
    {
        if self.coins < 5000 {
            return Err(GameError::InsufficientFunds);
        }
        self.coins = self.coins - 5000;
        self.auto_buy = AutoBuyConfig {
            enabled: true,
            axis: Some(axis),
            unit,
            remaining_ms: duration_ms,
        };
        Ok(())
    }

    /// Reads the auto-buy order.
    pub fn get_auto_buy(&self) -> (r: AutoBuyConfig)
        ensures
            r.enabled == self.auto_buy.enabled,
            r.axis == self.auto_buy.axis,
            r.unit == self.auto_buy.unit,
            r.remaining_ms == self.auto_buy.remaining_ms,
    {
        self.auto_buy
    }

    /// Disarms the auto-buy order.
    pub fn stop_auto_buy(&mut self) -> (r: Result<(), GameError>)
        ensures
            r is Ok,
            final(self).auto_buy.enabled == false,
            final(self).auto_buy.remaining_ms == 0,
            final(self).auto_buy.axis == old(self).auto_buy.axis,
            final(self).auto_buy.unit == old(self).auto_buy.unit,
            final(self).coins == old(self).coins,
            final(self).player_units@ == old(self).player_units@,
            final(self).enemy_units@ == old(self).enemy_units@,
            final(self).wf() == old(self).wf(),
    {
        self.auto_buy.enabled = false;
        self.auto_buy.remaining_ms = 0;
        Ok(())
    }
}

/// Milli-HP of the enemy base at a given stage: `500 * (1 + (stage-1)*0.5)`.
pub open spec fn stage_enemy_base_hp(stage: int) -> int {
    500_000 + (stage - 1) * 250_000
}

/// Computes the enemy base cap for a stage.
fn enemy_base_hp_for_stage(stage: u32) -> (r: i64)
    requires
        stage >= 1,
    ensures
        r == stage_enemy_base_hp(stage as int),
        r >= 500_000,
{
    500_000i64 + ((stage - 1) as i64) * 250_000
}

/// The enemy stat multiplier at a stage, in milli-units:
/// `1 + (stage-1)*0.05 + (ln(stage)/10)*0.3` with the fixed-point `ln`.
pub open spec fn stage_multiplier_milli(stage: nat) -> int {
    1000 + (stage - 1) * 50 + 3 * crate::num::ln_milli(stage) / 100
}

/// Computes the stage multiplier.
fn stage_multiplier(stage: u32) -> (r: u64)
    requires
        stage >= 1,
    ensures
        r == stage_multiplier_milli(stage as nat),
        1000 <= r <= 300_000_000_000,
{
    let ln = crate::num::ln_milli_u32(stage);
    let frac: u64 = (3u64 * (ln as u64)) / 100;
    1000u64 + ((stage - 1) as u64) * 50 + frac
}

/// Milliseconds between enemy spawns at a stage:
/// `max(1.0, 3.0 - min(2.0, stage * 0.002))` seconds.
pub open spec fn spawn_interval_spec(stage: int) -> int {
    let red = if 2 * stage < 2000 {
        2 * stage
    } else {
        2000
    };
    if 3000 - red < 1000 {
        1000
    } else {
        3000 - red
    }
}

/// Computes the enemy spawn interval for a stage.
fn spawn_interval_ms(stage: u32) -> (r: u32)
    ensures
        r == spawn_interval_spec(stage as int),
        1000 <= r <= 3000,
{
    let red64: u64 = 2u64 * (stage as u64);
    let red: u32 = if red64 < 2000 {
        red64 as u32
    } else {
        2000
    };
    let iv = 3000 - red;
    if iv < 1000 {
        1000
    } else {
        iv
    }
}

/// The flat damage every surviving player unit takes on a stage clear:
/// 35% of the current (upgrade-scaled) Small-unit maximum HP, in milli-HP.
pub open spec fn reposition_damage(up: Upgrades) -> int {
    35 * (100 + up.small_hp)
}

/// A player unit pulled back to the 400-unit line and dealt the flat
/// stage-clear damage; the knockback fields are left for the fresh draw.
pub open spec fn pulled(u: Unit, dmg: int) -> Unit {
    (Unit {
        position: if u.position > 400_000 {
            400_000 as i64
        } else {
            u.position
        },
        hp: clip_i64(u.hp - dmg) as i64,
        ..u
    })
}

/// One concrete draw of the stage-clear knockback: leftward, covering a
/// distance of 30 to 200 units over 0.35 to 0.85 seconds, with the total
/// equal to the remaining time.
pub open spec fn knockback_draw(u: Unit, d: int, dur: int) -> bool {
    &&& 30_000 <= d <= 200_000
    &&& 350 <= dur < 850
    &&& u.knockback_ms == dur
    &&& u.knockback_total_ms == dur
    &&& u.knockback_velocity == -(d * 1000 / dur)
}

/// A knockback as the stage-clear reposition draws it, for some draw.
pub open spec fn has_fresh_knockback(u: Unit) -> bool {
    exists|d: int, dur: int| knockback_draw(u, d, dur)
}

/// The reposition outcome, exactly: the survivors are exactly the old
/// units whose hit points outlast the flat damage, in their old order,
/// each pulled back and damaged as `pulled` says, and each carrying a
/// freshly drawn leftward knockback.
pub open spec fn reposition_rel(pre: Seq<Unit>, post: Seq<Unit>, up: Upgrades) -> bool {
    let keep = pre.map_values(|u: Unit| pulled(u, reposition_damage(up))).filter(
        |u: Unit| crate::combat::is_alive(u),
    );
    &&& post.len() == keep.len()
    &&& (forall|i: int|
        0 <= i < post.len() ==> crate::combat::same_but_knockback(#[trigger] post[i], keep[i]))
    &&& (forall|i: int| 0 <= i < post.len() ==> has_fresh_knockback(#[trigger] post[i]))
}

/// The player-side unit a spawn creates: stats derived from the kind's
/// base stats and the upgrade levels of the moment, standing at the
/// player base with full health and no target.
pub open spec fn spawned_player_unit(t: UnitType, up: Upgrades, id: u64) -> Unit {
    (Unit {
        id,
        unit_type: t,
        position: 0,
        hp: crate::unit::boosted(crate::unit::player_base_hp(t), crate::unit::hp_bonus(up, t)) as i64,
        max_hp: crate::unit::boosted(
            crate::unit::player_base_hp(t),
            crate::unit::hp_bonus(up, t),
        ) as i64,
        attack: crate::unit::boosted(
            crate::unit::player_base_attack(t),
            crate::unit::attack_bonus(up, t),
        ) as i64,
        speed: crate::unit::boosted(
            crate::unit::player_base_speed(t),
            crate::unit::speed_bonus(up, t),
        ) as i64,
        is_player: true,
        target_id: None,
        knockback_velocity: 0,
        knockback_ms: 0,
        knockback_total_ms: 0,
    })
}

/// The enemy a spawn creates: hit points and attack scaled by the stage
/// multiplier, speed unscaled, standing at the enemy base.
pub open spec fn spawned_enemy_unit(t: UnitType, stage: nat, id: u64) -> Unit {
    (Unit {
        id,
        unit_type: t,
        position: 1_000_000,
        hp: (crate::unit::enemy_base_hp(t) * stage_multiplier_milli(stage) / 1000) as i64,
        max_hp: (crate::unit::enemy_base_hp(t) * stage_multiplier_milli(stage) / 1000) as i64,
        attack: (crate::unit::enemy_base_attack(t) * stage_multiplier_milli(stage) / 1000) as i64,
        speed: crate::unit::enemy_base_speed(t) as i64,
        is_player: false,
        target_id: None,
        knockback_velocity: 0,
        knockback_ms: 0,
        knockback_total_ms: 0,
    })
}

/// Whether `post` carries exactly the combat-round outcome of `pre`, with
/// `espawn` as the enemy roster the round starts from (after any spawn).
pub open spec fn combat_matches(pre: GameState, post: GameState, espawn: Seq<Unit>, dt: int) -> bool {
    let award = (100 + pre.upgrades.coin_rate as int) / 100;
    let o = crate::combat::combat_outcome(
        pre.player_units@,
        espawn,
        pre.player_base_hp as int,
        pre.enemy_base_hp as int,
        pre.coins as int,
        award,
        dt,
    );
    &&& post.player_units@ == o.0
    &&& post.enemy_units@ == o.1
    &&& post.player_base_hp == o.2
    &&& post.enemy_base_hp == o.3
    &&& post.coins == o.4
}

/// The spawn-and-combat phase of one tick, exactly: the spawn timer gains
/// `dt` and, exactly when it reaches the stage's interval (and the id
/// space allows), one enemy of some drawn kind joins before the round;
/// the rosters, bases and coins then follow `combat_outcome`, and nothing
/// else moves.
pub open spec fn combat_rel(pre: GameState, post: GameState, dt: int) -> bool {
    let due = pre.enemy_spawn_timer_ms + dt >= spawn_interval_spec(pre.stage as int);
    &&& (if due {
        &&& post.enemy_spawn_timer_ms == 0
        &&& if pre.next_unit_id < u64::MAX {
            &&& post.next_unit_id == pre.next_unit_id + 1
            &&& exists|k: UnitType|
                combat_matches(
                    pre,
                    post,
                    pre.enemy_units@.push(
                        #[trigger] spawned_enemy_unit(k, pre.stage as nat, pre.next_unit_id),
                    ),
                    dt,
                )
        } else {
            &&& post.next_unit_id == pre.next_unit_id
            &&& combat_matches(pre, post, pre.enemy_units@, dt)
        }
    } else {
        &&& post.enemy_spawn_timer_ms == pre.enemy_spawn_timer_ms + dt
        &&& post.next_unit_id == pre.next_unit_id
        &&& combat_matches(pre, post, pre.enemy_units@, dt)
    })
    &&& post.stage == pre.stage
    &&& post.click_count == pre.click_count
    &&& post.type_count == pre.type_count
    &&& post.upgrades == pre.upgrades
    &&& post.auto_buy == pre.auto_buy
    &&& post.max_player_base_hp == pre.max_player_base_hp
    &&& post.max_enemy_base_hp == pre.max_enemy_base_hp
    &&& post.stage_clear == pre.stage_clear
    &&& post.save_timer_ms == pre.save_timer_ms
    &&& post.save_pending == pre.save_pending
}

impl GameState {
    /// Spawns one player-side unit of the given kind at the player base.
    /// Its stats are derived from the kind's base stats and the upgrade
    /// levels of this moment, and frozen for its lifetime. Small spawns
    /// count a key press, Medium spawns count a click. Once the id space
    /// is exhausted the call changes nothing.
    pub fn spawn_unit(&mut self, unit_type: UnitType)
        requires
            old(self).wf(),
        ensures
            final(self).wf(),
            old(self).next_unit_id == u64::MAX ==> *final(self) == *old(self),
            old(self).next_unit_id < u64::MAX ==> {
                &&& final(self).player_units@ == old(self).player_units@.push(
                    spawned_player_unit(unit_type, old(self).upgrades, old(self).next_unit_id),
                )
                &&& final(self).player_units@.len() == old(self).player_units@.len() + 1
                &&& (forall|k: int|
                    0 <= k < old(self).player_units@.len() ==> final(self).player_units@[k] == old(
                        self,
                    ).player_units@[k])
                &&& {
                    let u = final(self).player_units@.last();
                    &&& u.id == old(self).next_unit_id
                    &&& u.unit_type == unit_type
                    &&& u.position == 0
                    &&& u.hp == crate::unit::boosted(
                        crate::unit::player_base_hp(unit_type),
                        crate::unit::hp_bonus(old(self).upgrades, unit_type),
                    )
                    &&& u.max_hp == u.hp
                    &&& u.attack == crate::unit::boosted(
                        crate::unit::player_base_attack(unit_type),
                        crate::unit::attack_bonus(old(self).upgrades, unit_type),
                    )
                    &&& u.speed == crate::unit::boosted(
                        crate::unit::player_base_speed(unit_type),
                        crate::unit::speed_bonus(old(self).upgrades, unit_type),
                    )
                    &&& u.is_player == true
                    &&& u.target_id is None
                    &&& u.knockback_ms == 0
                }
                &&& final(self).next_unit_id == old(self).next_unit_id + 1
                &&& final(self).type_count == if unit_type is Small {
                    old(self).type_count.saturating_add(1)
                } else {
                    old(self).type_count
                }
                &&& final(self).click_count == if unit_type is Medium {
                    old(self).click_count.saturating_add(1)
                } else {
                    old(self).click_count
                }
                &&& final(self).enemy_units@ == old(self).enemy_units@
                &&& final(self).coins == old(self).coins
                &&& final(self).stage == old(self).stage
                &&& final(self).upgrades == old(self).upgrades
                &&& final(self).auto_buy == old(self).auto_buy
                &&& final(self).player_base_hp == old(self).player_base_hp
                &&& final(self).enemy_base_hp == old(self).enemy_base_hp
                &&& final(self).max_player_base_hp == old(self).max_player_base_hp
                &&& final(self).max_enemy_base_hp == old(self).max_enemy_base_hp
                &&& final(self).save_pending == old(self).save_pending
                &&& final(self).save_timer_ms == old(self).save_timer_ms
                &&& final(self).enemy_spawn_timer_ms == old(self).enemy_spawn_timer_ms
                &&& final(self).stage_clear == old(self).stage_clear
            },
    {
        if self.next_unit_id == u64::MAX {
            return ;
        }
        let (base_hp, base_attack, base_speed): (u64, u64, u64) = match unit_type {
            UnitType::Small => (10_000, 5_000, 100_000),
            UnitType::Medium => (30_000, 15_000, 80_000),
            UnitType::Large => (100_000, 50_000, 60_000),
        };
        let (hp_b, attack_b, speed_b): (u32, u32, u32) = match unit_type {
            UnitType::Small => (
                self.upgrades.small_hp,
                self.upgrades.small_attack,
                self.upgrades.small_speed,
            ),
            UnitType::Medium => (
                self.upgrades.medium_hp,
                self.upgrades.medium_attack,
                self.upgrades.medium_speed,
            ),
            UnitType::Large => (
                self.upgrades.large_hp,
                self.upgrades.large_attack,
                self.upgrades.large_speed,
            ),
        };
        proof {
            crate::num::lemma_boosted_at_least(base_hp as int, hp_b as int);
            crate::num::lemma_boosted_at_least(base_attack as int, attack_b as int);
            crate::num::lemma_boosted_at_least(base_speed as int, speed_b as int);
        }
        let hp = crate::num::percent_boost(base_hp, hp_b) as i64;
        let attack = crate::num::percent_boost(base_attack, attack_b) as i64;
        let speed = crate::num::percent_boost(base_speed, speed_b) as i64;
        let u = Unit {
            id: self.next_unit_id,
            unit_type,
            position: 0,
            hp,
            max_hp: hp,
            attack,
            speed,
            is_player: true,
            target_id: None,
            knockback_velocity: 0,
            knockback_ms: 0,
            knockback_total_ms: 0,
        };
        proof {
            assert(u == spawned_player_unit(unit_type, self.upgrades, self.next_unit_id));
        }
        self.player_units.push(u);
        self.next_unit_id = self.next_unit_id + 1;
        match unit_type {
            UnitType::Small => {
                self.type_count = self.type_count.saturating_add(1);
            },
            UnitType::Medium => {
                self.click_count = self.click_count.saturating_add(1);
            },
            UnitType::Large => {},
        }
    }

    /// Spawns one enemy at the enemy base. The kind is drawn at random
    /// (seven in ten Small, the rest split between Medium and Large), so
    /// the contract fixes the stats as a function of whatever kind came
    /// out: hp and attack scale with the stage multiplier, speed does not.
    fn spawn_enemy(&mut self)
        requires
            old(self).wf(),
        ensures
            final(self).wf(),
            final(self).player_units@ == old(self).player_units@,
            final(self).next_unit_id >= old(self).next_unit_id,
            old(self).next_unit_id == u64::MAX ==> *final(self) == *old(self),
            old(self).next_unit_id < u64::MAX ==> {
                &&& (exists|k: UnitType|
                    final(self).enemy_units@ == old(self).enemy_units@.push(
                        #[trigger] spawned_enemy_unit(k, old(self).stage as nat, old(self).next_unit_id),
                    ))
                &&& final(self).enemy_units@.len() == old(self).enemy_units@.len() + 1
                &&& (forall|k: int|
                    0 <= k < old(self).enemy_units@.len() ==> final(self).enemy_units@[k] == old(
                        self,
                    ).enemy_units@[k])
                &&& {
                    let e = final(self).enemy_units@.last();
                    &&& e.id == old(self).next_unit_id
                    &&& e.position == 1_000_000
                    &&& e.is_player == false
                    &&& e.hp == crate::unit::enemy_base_hp(e.unit_type) * stage_multiplier_milli(
                        old(self).stage as nat,
                    ) / 1000
                    &&& e.max_hp == e.hp
                    &&& e.attack == crate::unit::enemy_base_attack(e.unit_type)
                        * stage_multiplier_milli(old(self).stage as nat) / 1000
                    &&& e.speed == crate::unit::enemy_base_speed(e.unit_type)
                    &&& e.target_id is None
                    &&& e.knockback_ms == 0
                }
                &&& final(self).next_unit_id == old(self).next_unit_id + 1
                &&& final(self).coins == old(self).coins
                &&& final(self).stage == old(self).stage
                &&& final(self).click_count == old(self).click_count
                &&& final(self).type_count == old(self).type_count
                &&& final(self).upgrades == old(self).upgrades
                &&& final(self).auto_buy == old(self).auto_buy
                &&& final(self).player_base_hp == old(self).player_base_hp
                &&& final(self).enemy_base_hp == old(self).enemy_base_hp
                &&& final(self).max_player_base_hp == old(self).max_player_base_hp
                &&& final(self).max_enemy_base_hp == old(self).max_enemy_base_hp
                &&& final(self).save_pending == old(self).save_pending
                &&& final(self).save_timer_ms == old(self).save_timer_ms
                &&& final(self).enemy_spawn_timer_ms == old(self).enemy_spawn_timer_ms
                &&& final(self).stage_clear == old(self).stage_clear
            },
    {
        if self.next_unit_id == u64::MAX {
            return ;
        }
        let mult = stage_multiplier(self.stage);
        let roll = crate::trusted::random_below(10);
        let unit_type = if roll < 7 {
            UnitType::Small
        } else if crate::trusted::random_below(2) == 0 {
            UnitType::Medium
        } else {
            UnitType::Large
        };
        let (base_hp, base_attack, base_speed): (u64, u64, u64) = match unit_type {
            UnitType::Small => (15_000, 4_000, 90_000),
            UnitType::Medium => (40_000, 12_000, 70_000),
            UnitType::Large => (120_000, 40_000, 50_000),
        };
        proof {
            crate::num::lemma_multiplied_at_least(base_hp as int, mult as int);
            crate::num::lemma_multiplied_at_least(base_attack as int, mult as int);
        }
        let hp = crate::num::apply_multiplier(base_hp, mult);
        let attack = crate::num::apply_multiplier(base_attack, mult);
        let e = Unit {
            id: self.next_unit_id,
            unit_type,
            position: 1_000_000,
            hp,
            max_hp: hp,
            attack,
            speed: base_speed as i64,
            is_player: false,
            target_id: None,
            knockback_velocity: 0,
            knockback_ms: 0,
            knockback_total_ms: 0,
        };
        proof {
            assert(e == spawned_enemy_unit(unit_type, self.stage as nat, self.next_unit_id));
        }
        self.enemy_units.push(e);
        self.next_unit_id = self.next_unit_id + 1;
    }

    /// Pulls every surviving player unit back to at most the 400-unit
    /// line, deals each the flat stage-clear damage, hands each a
    /// randomized leftward knockback, and removes those the damage killed.
    /// `reposition_rel` fixes the outcome exactly, up to the random draws.
    fn reposition_player_units(&mut self)
        requires
            old(self).wf(),
        ensures
            final(self).wf(),
            final(self).enemy_units@ == old(self).enemy_units@,
            reposition_rel(old(self).player_units@, final(self).player_units@, old(self).upgrades),
            forall|i: int|
                0 <= i < final(self).player_units@.len() ==> {
                    let u = #[trigger] final(self).player_units@[i];
                    &&& u.position <= 400_000
                    &&& u.hp > 0
                    &&& exists|j: int|
                        0 <= j < old(self).player_units@.len() && u.same_derived(
                            #[trigger] old(self).player_units@[j],
                        ) && u.hp == old(self).player_units@[j].hp - reposition_damage(
                            old(self).upgrades,
                        )
                },
            final(self).coins == old(self).coins,
            final(self).stage == old(self).stage,
            final(self).click_count == old(self).click_count,
            final(self).type_count == old(self).type_count,
            final(self).upgrades == old(self).upgrades,
            final(self).auto_buy == old(self).auto_buy,
            final(self).player_base_hp == old(self).player_base_hp,
            final(self).enemy_base_hp == old(self).enemy_base_hp,
            final(self).max_player_base_hp == old(self).max_player_base_hp,
            final(self).max_enemy_base_hp == old(self).max_enemy_base_hp,
            final(self).next_unit_id == old(self).next_unit_id,
            final(self).stage_clear == old(self).stage_clear,
            final(self).enemy_spawn_timer_ms == old(self).enemy_spawn_timer_ms,
            final(self).save_timer_ms == old(self).save_timer_ms,
            final(self).save_pending == old(self).save_pending,
    {
        let damage: i64 = 35i64 * (100i64 + (self.upgrades.small_hp as i64));
        let ghost before = self.player_units@;
        let mut i: usize = 0;
        while i < self.player_units.len()
            invariant
                i <= before.len(),
                self.player_units@.len() == before.len(),
                self.same_but_player_units(*old(self)),
                before == old(self).player_units@,
                damage == reposition_damage(old(self).upgrades),
                damage >= 0,
                forall|k: int|
                    0 <= k < i ==> {
                        let u = #[trigger] self.player_units@[k];
                        &&& u.same_derived(before[k])
                        &&& u.position <= 400_000
                        &&& u.position >= 0
                        &&& u.hp == clip_i64(before[k].hp - damage)
                        &&& crate::combat::same_but_knockback(u, pulled(before[k], damage as int))
                        &&& has_fresh_knockback(u)
                    },
                forall|k: int| i <= k < before.len() ==> self.player_units@[k] == before[k],
                forall|k: int|
                    0 <= k < before.len() ==> 0 <= (#[trigger] before[k]).position <= 1_000_000,
            decreases before.len() - i,
        {
            let mut u = self.player_units[i];
            if u.position > 400_000 {
                u.position = 400_000;
            }
            u.hp = crate::num::sat_sub_i64(u.hp, damage);
            let distance: u64 = 30_000 + crate::trusted::random_below(170_001);
            let duration: u64 = 350 + crate::trusted::random_below(500);
            let vel_mag: u64 = (distance * 1000) / duration;
            u.knockback_velocity = -(vel_mag as i64);
            u.knockback_ms = duration as u32;
            u.knockback_total_ms = duration as u32;
            proof {
                assert(30_000 <= distance as int && (distance as int) <= 200_000);
                assert(350 <= duration as int && (duration as int) < 850);
                assert(u.knockback_ms == duration as int);
                assert(u.knockback_total_ms == duration as int);
                assert(u.knockback_velocity == -((distance as int) * 1000 / (duration as int)));
                assert(knockback_draw(u, distance as int, duration as int));
                assert(has_fresh_knockback(u));
            }
            self.player_units.set(i, u);
            i = i + 1;
        }
        let ghost damaged = self.player_units@;
        crate::combat::remove_dead(&mut self.player_units);
        proof {
            let pred = |u: Unit| crate::combat::is_alive(u);
            assert forall|a: int, b: int| 0 <= a < b < damaged.len() implies damaged[a].id
                != damaged[b].id by {
                assert(damaged[a].same_derived(before[a]));
                assert(damaged[b].same_derived(before[b]));
            }
            crate::combat::lemma_filter_elems(damaged, pred);
            crate::combat::lemma_filter_ids_distinct(damaged, pred);
            let survivors = self.player_units@;
            assert(survivors == damaged.filter(pred));
            assert forall|i2: int| 0 <= i2 < survivors.len() implies {
                let u = #[trigger] survivors[i2];
                &&& u.position <= 400_000
                &&& 0 <= u.position
                &&& u.hp > 0
                &&& exists|j: int|
                    0 <= j < before.len() && u.same_derived(#[trigger] before[j]) && u.hp
                        == before[j].hp - damage
            } by {
                damaged.lemma_filter_pred(pred, i2);
                let u = survivors[i2];
                assert(exists|j: int| 0 <= j < damaged.len() && damaged[j] == u);
                let j2 = choose|j2: int| 0 <= j2 < damaged.len() && damaged[j2] == u;
                assert(u.same_derived(before[j2]));
                assert(u.hp == clip_i64(before[j2].hp - damage));
                assert(u.hp == before[j2].hp - damage);
                assert(0 <= j2 < before.len() && u.same_derived(before[j2]) && u.hp == before[j2].hp
                    - damage);
            }
            assert forall|a: int, b: int|
                0 <= a < survivors.len() && 0 <= b < self.enemy_units@.len() implies (
            #[trigger] survivors[a]).id != (#[trigger] self.enemy_units@[b]).id by {
                let u = survivors[a];
                let j2 = choose|j2: int| 0 <= j2 < damaged.len() && damaged[j2] == u;
                assert(u.same_derived(before[j2]));
                assert(before[j2].id != self.enemy_units@[b].id);
            }
            assert forall|i2: int| 0 <= i2 < survivors.len() implies {
                let u = #[trigger] survivors[i2];
                &&& u.attack >= 0
                &&& u.speed >= 0
                &&& u.id < self.next_unit_id
                &&& u.is_player == true
            } by {
                let u = survivors[i2];
                let j2 = choose|j2: int| 0 <= j2 < damaged.len() && damaged[j2] == u;
                assert(u.same_derived(before[j2]));
            }
            let mapped = before.map_values(|u: Unit| pulled(u, damage as int));
            assert forall|k: int| 0 <= k < damaged.len() implies crate::combat::same_but_knockback(
                #[trigger] damaged[k],
                mapped[k],
            ) by {
                assert(mapped[k] == pulled(before[k], damage as int));
            }
            assert forall|k: int| 0 <= k < damaged.len() implies pred(#[trigger] damaged[k])
                == pred(mapped[k]) by {
                assert(crate::combat::same_but_knockback(damaged[k], mapped[k]));
            }
            crate::combat::lemma_filter_pointwise(damaged, mapped, pred);
            assert forall|i2: int| 0 <= i2 < survivors.len() implies has_fresh_knockback(
                #[trigger] survivors[i2],
            ) by {
                let j2 = choose|j2: int| 0 <= j2 < damaged.len() && damaged[j2] == survivors[i2];
                assert(has_fresh_knockback(damaged[j2]));
            }
            assert(reposition_rel(before, survivors, old(self).upgrades));
        }
    }

    /// Advances to the next stage after a clear: new enemy base cap, a
    /// cleared enemy roster and spawn timer, repositioned player units,
    /// and a persistence pass.
    fn next_stage(&mut self)
        requires
            old(self).wf(),
        ensures
            final(self).wf(),
            final(self).stage == old(self).stage.saturating_add(1),
            final(self).enemy_units@.len() == 0,
            final(self).enemy_base_hp == stage_enemy_base_hp(final(self).stage as int),
            final(self).max_enemy_base_hp == final(self).enemy_base_hp,
            final(self).enemy_spawn_timer_ms == 0,
            final(self).stage_clear == false,
            final(self).save_pending == true,
            reposition_rel(old(self).player_units@, final(self).player_units@, old(self).upgrades),
            forall|i: int|
                0 <= i < final(self).player_units@.len() ==> {
                    let u = #[trigger] final(self).player_units@[i];
                    &&& u.position <= 400_000
                    &&& u.hp > 0
                    &&& exists|j: int|
                        0 <= j < old(self).player_units@.len() && u.same_derived(
                            #[trigger] old(self).player_units@[j],
                        )
                },
            final(self).coins == old(self).coins,
            final(self).click_count == old(self).click_count,
            final(self).type_count == old(self).type_count,
            final(self).upgrades == old(self).upgrades,
            final(self).auto_buy == old(self).auto_buy,
            final(self).player_base_hp == old(self).player_base_hp,
            final(self).max_player_base_hp == old(self).max_player_base_hp,
            final(self).next_unit_id == old(self).next_unit_id,
            final(self).save_timer_ms == old(self).save_timer_ms,
    {
        self.stage = self.stage.saturating_add(1);
        let nb = enemy_base_hp_for_stage(self.stage);
        self.enemy_base_hp = nb;
        self.max_enemy_base_hp = nb;
        self.enemy_units = Vec::new();
        self.enemy_spawn_timer_ms = 0;
        self.stage_clear = false;
        self.reposition_player_units();
        self.save_pending = true;
    }

    /// Resets the current stage after a defeat: both rosters are cleared,
    /// both bases are restored to their caps, the latch and spawn timer
    /// are cleared, and a persistence pass is asked for. Stage number,
    /// coins and upgrades are untouched.
    pub fn reset_current_stage(&mut self)
        requires
            old(self).wf(),
        ensures
            final(self).wf(),
            final(self).player_units@.len() == 0,
            final(self).enemy_units@.len() == 0,
            final(self).player_base_hp == old(self).max_player_base_hp,
            final(self).enemy_base_hp == old(self).max_enemy_base_hp,
            final(self).enemy_spawn_timer_ms == 0,
            final(self).stage_clear == false,
            final(self).save_pending == true,
            final(self).stage == old(self).stage,
            final(self).coins == old(self).coins,
            final(self).upgrades == old(self).upgrades,
            final(self).click_count == old(self).click_count,
            final(self).type_count == old(self).type_count,
            final(self).auto_buy == old(self).auto_buy,
            final(self).max_player_base_hp == old(self).max_player_base_hp,
            final(self).max_enemy_base_hp == old(self).max_enemy_base_hp,
            final(self).next_unit_id == old(self).next_unit_id,
            final(self).save_timer_ms == old(self).save_timer_ms,
    {
        self.player_units = Vec::new();
        self.enemy_units = Vec::new();
        self.player_base_hp = self.max_player_base_hp;
        self.enemy_base_hp = self.max_enemy_base_hp;
        self.enemy_spawn_timer_ms = 0;
        self.stage_clear = false;
        self.save_pending = true;
    }
}

/// Two states that agree observably: every scalar field equal, the two
/// rosters equal as sequences.
pub open spec fn state_like(a: GameState, b: GameState) -> bool {
    &&& a.player_units@ == b.player_units@
    &&& a.enemy_units@ == b.enemy_units@
    &&& a.player_base_hp == b.player_base_hp
    &&& a.enemy_base_hp == b.enemy_base_hp
    &&& a.max_player_base_hp == b.max_player_base_hp
    &&& a.max_enemy_base_hp == b.max_enemy_base_hp
    &&& a.coins == b.coins
    &&& a.stage == b.stage
    &&& a.click_count == b.click_count
    &&& a.type_count == b.type_count
    &&& a.upgrades == b.upgrades
    &&& a.auto_buy == b.auto_buy
    &&& a.next_unit_id == b.next_unit_id
    &&& a.enemy_spawn_timer_ms == b.enemy_spawn_timer_ms
    &&& a.stage_clear == b.stage_clear
    &&& a.save_timer_ms == b.save_timer_ms
    &&& a.save_pending == b.save_pending
}

/// The state one purchase attempt leaves behind: unchanged on an invalid
/// selector or an unaffordable cost, else debited, bumped, and (on the
/// base-HP axis) with the cap grown and the base healed to it, with a
/// write-through persistence pass asked for.
pub open spec fn purchase_result(s: GameState, axis: UpgradeAxis, unit: Option<UnitType>) -> GameState {
    if !selector_is_valid(axis, unit) {
        s
    } else {
        let c = upgrade_cost(s.upgrades.spec_level(axis, unit) as nat);
        if c > u32::MAX || (s.coins as int) < c {
            s
        } else {
            let bought = (GameState {
                coins: (s.coins - c) as u32,
                upgrades: s.upgrades.spec_bumped(axis, unit),
                save_pending: true,
                ..s
            });
            if axis is BaseHp {
                (GameState {
                    max_player_base_hp: clip_i64(s.max_player_base_hp * 11 / 10) as i64,
                    player_base_hp: clip_i64(s.max_player_base_hp * 11 / 10) as i64,
                    ..bought
                })
            } else {
                bought
            }
        }
    }
}

/// The stage-clear phase of a tick, exactly: when the enemy base is down
/// and the latch unset, the stage advances by one, the clear bounty is
/// credited, the enemy base is recapped and its roster and timer cleared,
/// the player roster is repositioned, and a persistence pass is asked
/// for; otherwise nothing moves.
pub open spec fn clear_rel(pre: GameState, post: GameState) -> bool {
    if pre.enemy_base_hp <= 0 && !pre.stage_clear {
        &&& post.stage == pre.stage.saturating_add(1)
        &&& post.coins == crate::num::clip_u32(pre.coins + crate::num::stage_award_spec(pre.stage as int))
        &&& post.enemy_base_hp == stage_enemy_base_hp(post.stage as int)
        &&& post.max_enemy_base_hp == post.enemy_base_hp
        &&& post.enemy_units@.len() == 0
        &&& post.enemy_spawn_timer_ms == 0
        &&& post.stage_clear == false
        &&& post.save_pending == true
        &&& reposition_rel(pre.player_units@, post.player_units@, pre.upgrades)
        &&& post.player_base_hp == pre.player_base_hp
        &&& post.max_player_base_hp == pre.max_player_base_hp
        &&& post.upgrades == pre.upgrades
        &&& post.click_count == pre.click_count
        &&& post.type_count == pre.type_count
        &&& post.auto_buy == pre.auto_buy
        &&& post.next_unit_id == pre.next_unit_id
        &&& post.save_timer_ms == pre.save_timer_ms
    } else {
        state_like(post, pre)
    }
}

/// The defeat phase of a tick, exactly: when the player base is down, the
/// battlefield alone resets — both rosters cleared, both bases restored
/// to their caps, the timer and latch cleared, a persistence pass asked
/// for; stage, coins and upgrades stand; otherwise nothing moves.
pub open spec fn defeat_rel(pre: GameState, post: GameState) -> bool {
    if pre.player_base_hp <= 0 {
        &&& post.player_units@.len() == 0
        &&& post.enemy_units@.len() == 0
        &&& post.player_base_hp == pre.max_player_base_hp
        &&& post.enemy_base_hp == pre.max_enemy_base_hp
        &&& post.enemy_spawn_timer_ms == 0
        &&& post.stage_clear == false
        &&& post.save_pending == true
        &&& post.stage == pre.stage
        &&& post.coins == pre.coins
        &&& post.upgrades == pre.upgrades
        &&& post.click_count == pre.click_count
        &&& post.type_count == pre.type_count
        &&& post.auto_buy == pre.auto_buy
        &&& post.next_unit_id == pre.next_unit_id
        &&& post.max_player_base_hp == pre.max_player_base_hp
        &&& post.max_enemy_base_hp == pre.max_enemy_base_hp
        &&& post.save_timer_ms == pre.save_timer_ms
    } else {
        state_like(post, pre)
    }
}

/// The auto-buy phase of a tick, exactly: a running countdown loses `dt`
/// (flooring at zero, which force-disables the order); if the order is
/// still enabled with an armed axis, exactly one purchase attempt of that
/// selector happens, with `purchase_result`'s outcome; an expired order
/// is disabled and nothing else moves.
pub open spec fn autobuy_rel(pre: GameState, post: GameState, dt: int) -> bool {
    if pre.auto_buy.remaining_ms > 0 {
        let rem = if pre.auto_buy.remaining_ms - dt > 0 {
            pre.auto_buy.remaining_ms - dt
        } else {
            0
        };
        let armed = (GameState {
            auto_buy: (AutoBuyConfig {
                enabled: pre.auto_buy.enabled && rem > 0,
                remaining_ms: rem as u32,
                ..pre.auto_buy
            }),
            ..pre
        });
        if pre.auto_buy.enabled && rem > 0 {
            match pre.auto_buy.axis {
                Some(axis) => state_like(post, purchase_result(armed, axis, pre.auto_buy.unit)),
                None => state_like(post, armed),
            }
        } else {
            state_like(post, armed)
        }
    } else {
        state_like(
            post,
            (GameState { auto_buy: (AutoBuyConfig { enabled: false, ..pre.auto_buy }), ..pre }),
        )
    }
}

/// The persistence-timer phase of a tick, exactly: the timer gains `dt`
/// and, on reaching five seconds, resets and asks for a persistence pass.
pub open spec fn savetimer_rel(pre: GameState, post: GameState, dt: int) -> bool {
    if pre.save_timer_ms + dt >= 5000 {
        state_like(post, (GameState { save_timer_ms: 0, save_pending: true, ..pre }))
    } else {
        state_like(post, (GameState { save_timer_ms: (pre.save_timer_ms + dt) as u32, ..pre }))
    }
}

/// The units one spawn burst creates: `n` units of one kind, with
/// consecutive ids from `start`, all derived from the same upgrade levels.
pub open spec fn spawn_batch(up: Upgrades, t: UnitType, start: u64, n: int) -> Seq<Unit> {
    Seq::new(n as nat, |i: int| spawned_player_unit(t, up, (start + i) as u64))
}

/// Everything the spawn phase of a driver step leaves alone.
pub open spec fn spawns_frame(pre: GameState, post: GameState) -> bool {
    &&& post.enemy_units@ == pre.enemy_units@
    &&& post.player_base_hp == pre.player_base_hp
    &&& post.enemy_base_hp == pre.enemy_base_hp
    &&& post.max_player_base_hp == pre.max_player_base_hp
    &&& post.max_enemy_base_hp == pre.max_enemy_base_hp
    &&& post.coins == pre.coins
    &&& post.stage == pre.stage
    &&& post.upgrades == pre.upgrades
    &&& post.auto_buy == pre.auto_buy
    &&& post.enemy_spawn_timer_ms == pre.enemy_spawn_timer_ms
    &&& post.stage_clear == pre.stage_clear
    &&& post.save_timer_ms == pre.save_timer_ms
    &&& post.save_pending == pre.save_pending
}

/// The spawn phase of one driver step, exactly (while the id space holds
/// out): one Small per accumulated key press, then one Medium per
/// accumulated click, then the timed Large when due, appended in that
/// order with consecutive ids; the input counters grow accordingly and
/// nothing else moves.
pub open spec fn spawns_rel(
    pre: GameState,
    post: GameState,
    clicks: u32,
    types: u32,
    large: bool,
) -> bool {
    let total = types + clicks + (if large {
        1int
    } else {
        0int
    });
    if pre.next_unit_id + total <= u64::MAX {
        &&& post.player_units@ == pre.player_units@ + spawn_batch(
            pre.upgrades,
            UnitType::Small,
            pre.next_unit_id,
            types as int,
        ) + spawn_batch(
            pre.upgrades,
            UnitType::Medium,
            (pre.next_unit_id + types) as u64,
            clicks as int,
        ) + (if large {
            spawn_batch(pre.upgrades, UnitType::Large, (pre.next_unit_id + types + clicks) as u64, 1)
        } else {
            Seq::empty()
        })
        &&& post.next_unit_id == pre.next_unit_id + total
        &&& post.type_count == crate::num::clip_u32(pre.type_count + types)
        &&& post.click_count == crate::num::clip_u32(pre.click_count + clicks)
        &&& spawns_frame(pre, post)
    } else {
        true
    }
}

/// One whole tick, as the composition of its five phases: spawn-and-
/// combat, stage clear, defeat reset, auto-buy, and the persistence
/// timer, in that order.
pub open spec fn tick_rel(pre: GameState, post: GameState, dt: int) -> bool {
    exists|s1: GameState, s2: GameState, s3: GameState, s4: GameState|
        #![trigger combat_rel(pre, s1, dt), clear_rel(s1, s2), defeat_rel(s2, s3), autobuy_rel(s3, s4, dt)]
        {
            &&& combat_rel(pre, s1, dt)
            &&& clear_rel(s1, s2)
            &&& defeat_rel(s2, s3)
            &&& autobuy_rel(s3, s4, dt)
            &&& savetimer_rel(s4, post, dt)
        }
}

impl GameState {
    /// One fixed-timestep tick of the whole simulation: enemy spawning,
    /// both combat passes, position clamping and corpse removal, the
    /// stage-clear and defeat transitions, the auto-buy order, and the
    /// periodic persistence timer. Surviving units keep the stats they
    /// were spawned with; the stage can only advance, and only by one; the
    /// input counters are untouched. `tick_rel` fixes the whole tick as
    /// the composition of its five phases.
    #[verifier::rlimit(100)]
    pub fn update(&mut self, dt_ms: u32)
        requires
            old(self).wf(),
        ensures
            final(self).wf(),
            final(self).stage == old(self).stage || final(self).stage == old(self).stage + 1,
            final(self).click_count == old(self).click_count,
            final(self).type_count == old(self).type_count,
            final(self).max_player_base_hp >= old(self).max_player_base_hp,
            final(self).next_unit_id >= old(self).next_unit_id,
            crate::combat::derived_from(final(self).player_units@, old(self).player_units@),
            crate::combat::derived_from_or_new(
                final(self).enemy_units@,
                old(self).enemy_units@,
                old(self).next_unit_id as int,
            ),
            final(self).stage != old(self).stage ==> final(self).enemy_units@.len() == 0 && (
            forall|i: int|
                0 <= i < final(self).player_units@.len() ==> (
                #[trigger] final(self).player_units@[i]).position <= 400_000),
            final(self).save_timer_ms == if old(self).save_timer_ms + dt_ms >= 5000 {
                0int
            } else {
                old(self).save_timer_ms + dt_ms
            },
            old(self).save_timer_ms + dt_ms >= 5000 ==> final(self).save_pending == true,
            final(self).auto_buy.enabled == (old(self).auto_buy.enabled
                && old(self).auto_buy.remaining_ms > dt_ms),
            final(self).auto_buy.remaining_ms == old(self).auto_buy.remaining_ms.saturating_sub(
                dt_ms,
            ),
            final(self).auto_buy.axis == old(self).auto_buy.axis,
            final(self).auto_buy.unit == old(self).auto_buy.unit,
            tick_rel(*old(self), *final(self), dt_ms as int),
    {
        let ghost orig = *old(self);
        self.run_combat(dt_ms);
        let ghost s1 = *self;
        if self.enemy_base_hp <= 0 && !self.stage_clear {
            self.stage_clear = true;
            let bonus = crate::num::stage_award(self.stage);
            self.coins = self.coins.saturating_add(bonus);
            let ghost pre_next = *self;
            self.next_stage();
            proof {
                assert forall|i: int|
                    0 <= i < self.player_units@.len() implies crate::combat::has_ancestor(
                    #[trigger] self.player_units@[i],
                    pre_next.player_units@,
                ) by {
                    let u = self.player_units@[i];
                    let j = choose|j: int|
                        0 <= j < pre_next.player_units@.len() && u.same_derived(
                            pre_next.player_units@[j],
                        );
                    assert(u.same_derived(pre_next.player_units@[j]));
                }
                assert(crate::combat::derived_from(self.player_units@, pre_next.player_units@));
                crate::combat::lemma_derived_trans(
                    self.player_units@,
                    pre_next.player_units@,
                    orig.player_units@,
                );
            }
        }
        let ghost s2 = *self;
        proof {
            assert(clear_rel(s1, s2));
        }
        if self.player_base_hp <= 0 {
            self.reset_current_stage();
        }
        let ghost s3 = *self;
        proof {
            assert(defeat_rel(s2, s3));
        }
        if self.auto_buy.remaining_ms > 0 {
            self.auto_buy.remaining_ms = self.auto_buy.remaining_ms.saturating_sub(dt_ms);
            if self.auto_buy.remaining_ms == 0 {
                self.auto_buy.enabled = false;
            }
            let ghost armed = *self;
            if self.auto_buy.enabled {
                match self.auto_buy.axis {
                    Some(axis) => {
                        let unit = self.auto_buy.unit;
                        let r = self.purchase_upgrade(axis, unit);
                        proof {
                            match r {
                                Ok(_) => {
                                    assert(state_like(*self, purchase_result(armed, axis, unit)));
                                },
                                Err(e) => {
                                    assert(state_like(*self, armed));
                                    assert(state_like(*self, purchase_result(armed, axis, unit)));
                                },
                            }
                        }
                    },
                    None => {},
                }
            }
        } else {
            self.auto_buy.enabled = false;
        }
        let ghost s4 = *self;
        proof {
            assert(autobuy_rel(s3, s4, dt_ms as int));
        }
        self.save_timer_ms = self.save_timer_ms.saturating_add(dt_ms);
        if self.save_timer_ms >= 5000 {
            self.save_timer_ms = 0;
            self.save_pending = true;
        }
        proof {
            assert(savetimer_rel(s4, *self, dt_ms as int));
            assert(combat_rel(orig, s1, dt_ms as int));
            assert(tick_rel(orig, *self, dt_ms as int));
        }
    }

    /// The spawn-and-combat phase of one tick: the enemy spawn timer, both
    /// sides' passes, position clamping, and corpse removal. Nothing but
    /// the rosters, the current base HPs, the coin balance, the spawn
    /// timer and the id cursor changes.
    #[verifier::rlimit(100)]
    fn run_combat(&mut self, dt_ms: u32)
        requires
            old(self).wf(),
        ensures
            final(self).wf(),
            crate::combat::derived_from(final(self).player_units@, old(self).player_units@),
            crate::combat::derived_from_or_new(
                final(self).enemy_units@,
                old(self).enemy_units@,
                old(self).next_unit_id as int,
            ),
            final(self).next_unit_id >= old(self).next_unit_id,
            final(self).stage == old(self).stage,
            final(self).click_count == old(self).click_count,
            final(self).type_count == old(self).type_count,
            final(self).upgrades == old(self).upgrades,
            final(self).auto_buy == old(self).auto_buy,
            final(self).coins >= old(self).coins,
            final(self).max_player_base_hp == old(self).max_player_base_hp,
            final(self).max_enemy_base_hp == old(self).max_enemy_base_hp,
            final(self).player_base_hp <= old(self).player_base_hp,
            final(self).enemy_base_hp <= old(self).enemy_base_hp,
            final(self).stage_clear == old(self).stage_clear,
            final(self).save_timer_ms == old(self).save_timer_ms,
            final(self).save_pending == old(self).save_pending,
            combat_rel(*old(self), *final(self), dt_ms as int),
    {
        let ghost orig = *old(self);
        let ghost was_due = orig.enemy_spawn_timer_ms + dt_ms >= spawn_interval_spec(
            orig.stage as int,
        );
        self.enemy_spawn_timer_ms = self.enemy_spawn_timer_ms.saturating_add(dt_ms);
        let interval = spawn_interval_ms(self.stage);
        proof {
            assert(self.enemy_spawn_timer_ms >= interval <==> was_due);
        }
        if self.enemy_spawn_timer_ms >= interval {
            self.spawn_enemy();
            self.enemy_spawn_timer_ms = 0;
        }
        let ghost spawned = *self;
        let ghost p0 = self.player_units@;
        let ghost e0 = self.enemy_units@;
        let ghost cut = orig.next_unit_id as int;
        let ghost ebase0 = self.enemy_base_hp as int;
        let ghost coins0 = self.coins as int;
        proof {
            assert(spawned.wf());
            assert(p0 == orig.player_units@);
            assert forall|i: int| 0 <= i < e0.len() implies crate::combat::has_ancestor(
                #[trigger] e0[i],
                orig.enemy_units@,
            ) || e0[i].id >= cut by {
                if i < orig.enemy_units@.len() {
                    assert(e0[i] == orig.enemy_units@[i]);
                    assert(e0[i].same_derived(orig.enemy_units@[i]));
                }
            }
            assert(crate::combat::derived_from_or_new(e0, orig.enemy_units@, cut));
        }
        let award = crate::num::kill_award(self.upgrades.coin_rate);
        crate::combat::advance_side(
            &mut self.player_units,
            &mut self.enemy_units,
            &mut self.enemy_base_hp,
            &mut self.coins,
            award,
            true,
            dt_ms,
        );
        let ghost p1 = self.player_units@;
        let ghost e1 = self.enemy_units@;
        let ghost ebase1 = self.enemy_base_hp as int;
        let ghost coins1 = self.coins as int;
        proof {
            assert forall|k: int| 0 <= k < self.enemy_units@.len() implies (
            #[trigger] self.enemy_units@[k]).attack >= 0 by {
                assert(crate::combat::same_but_hp(e1[k], e0[k]));
                assert(e0[k].attack >= 0);
            }
        }
        crate::combat::advance_side(
            &mut self.enemy_units,
            &mut self.player_units,
            &mut self.player_base_hp,
            &mut self.coins,
            0,
            false,
            dt_ms,
        );
        let ghost p2 = self.player_units@;
        let ghost e2 = self.enemy_units@;
        let ghost pbase1 = self.player_base_hp as int;
        let ghost coins2 = self.coins as int;
        crate::combat::clamp_all(&mut self.player_units);
        crate::combat::clamp_all(&mut self.enemy_units);
        let ghost p3 = self.player_units@;
        let ghost e3 = self.enemy_units@;
        crate::combat::remove_dead(&mut self.player_units);
        crate::combat::remove_dead(&mut self.enemy_units);
        let ghost p4 = self.player_units@;
        let ghost e4 = self.enemy_units@;
        proof {
            let alive = |u: Unit| crate::combat::is_alive(u);
            assert forall|k: int| 0 <= k < p3.len() implies (#[trigger] p3[k]).same_derived(p0[k])
                && 0 <= p3[k].position <= 1_000_000 by {
                assert(p1[k].same_derived(p0[k]));
                assert(crate::combat::same_but_hp(p2[k], p1[k]));
                assert(crate::combat::same_but_position(p3[k], p2[k]));
                assert(p3[k].position == crate::num::clamp_position(p2[k].position as int));
            }
            assert forall|k: int| 0 <= k < e3.len() implies (#[trigger] e3[k]).same_derived(e0[k])
                && 0 <= e3[k].position <= 1_000_000 by {
                assert(crate::combat::same_but_hp(e1[k], e0[k]));
                assert(e2[k].same_derived(e1[k]));
                assert(crate::combat::same_but_position(e3[k], e2[k]));
                assert(e3[k].position == crate::num::clamp_position(e2[k].position as int));
            }
            assert(p4 == p3.filter(alive));
            assert(e4 == e3.filter(alive));
            let next1 = spawned.next_unit_id as int;
            crate::combat::lemma_roster_cleanup(p0, p3, p4, next1, true);
            crate::combat::lemma_roster_cleanup(e0, e3, e4, next1, false);
            crate::combat::lemma_disjoint_from_within(p4, p0, e4, e0);
            crate::combat::lemma_derived_or_new_trans(e4, e0, orig.enemy_units@, cut);
            assert(self.wf());
            assert(crate::combat::derived_from(self.player_units@, orig.player_units@));
        }
        proof {
            let dt = dt_ms as int;
            let bounty = (100 + orig.upgrades.coin_rate as int) / 100;
            assert forall|k: int| 0 <= k < p3.len() implies #[trigger] p3[k]
                == crate::combat::clamped(p2[k]) by {
                assert(crate::combat::same_but_position(p3[k], p2[k]));
            }
            assert forall|k: int| 0 <= k < e3.len() implies #[trigger] e3[k]
                == crate::combat::clamped(e2[k]) by {
                assert(crate::combat::same_but_position(e3[k], e2[k]));
            }
            crate::combat::lemma_combat_outcome(
                p0,
                e0,
                p1,
                e1,
                e2,
                p2,
                p3,
                e3,
                p4,
                e4,
                orig.player_base_hp as int,
                ebase0,
                coins0,
                ebase1,
                coins1,
                pbase1,
                coins2,
                bounty,
                dt,
            );
            assert(combat_matches(orig, *self, e0, dt));
            if was_due {
                if orig.next_unit_id < u64::MAX {
                    let k = choose|k: UnitType|
                        e0 == orig.enemy_units@.push(
                            spawned_enemy_unit(k, orig.stage as nat, orig.next_unit_id),
                        );
                    assert(combat_matches(
                        orig,
                        *self,
                        orig.enemy_units@.push(
                            spawned_enemy_unit(k, orig.stage as nat, orig.next_unit_id),
                        ),
                        dt,
                    ));
                } else {
                    assert(e0 == orig.enemy_units@);
                }
            } else {
                assert(e0 == orig.enemy_units@);
            }
            assert(combat_rel(orig, *self, dt));
        }
    }

    /// One full driver step, as the game loop runs it: spawn one Small
    /// unit per accumulated key press and one Medium unit per accumulated
    /// click, spawn the timed Large unit when it is due, then advance the
    /// simulation by `dt_ms`. `spawns_rel` fixes the spawn phase exactly,
    /// and the tick then follows `tick_rel`.
    pub fn advance(&mut self, clicks: u32, types: u32, spawn_large: bool, dt_ms: u32)
        requires
            old(self).wf(),
        ensures
            final(self).wf(),
            final(self).stage == old(self).stage || final(self).stage == old(self).stage + 1,
            final(self).type_count >= old(self).type_count,
            final(self).click_count >= old(self).click_count,
            exists|mid: GameState|
                #![trigger spawns_rel(*old(self), mid, clicks, types, spawn_large)]
                spawns_rel(*old(self), mid, clicks, types, spawn_large) && tick_rel(
                    mid,
                    *final(self),
                    dt_ms as int,
                ),
    {
        let ghost orig = *old(self);
        let ghost total = types + clicks + (if spawn_large {
            1int
        } else {
            0int
        });
        let ghost fits = orig.next_unit_id + total <= u64::MAX;
        let mut n: u32 = 0;
        while n < types
            invariant
                n <= types,
                self.wf(),
                self.type_count >= orig.type_count,
                self.click_count >= orig.click_count,
                self.stage == orig.stage,
                total == types + clicks + (if spawn_large {
                    1int
                } else {
                    0int
                }),
                fits == (orig.next_unit_id + total <= u64::MAX),
                fits ==> {
                    &&& self.player_units@ == orig.player_units@ + spawn_batch(
                        orig.upgrades,
                        UnitType::Small,
                        orig.next_unit_id,
                        n as int,
                    )
                    &&& self.next_unit_id == orig.next_unit_id + n
                    &&& self.type_count == crate::num::clip_u32(orig.type_count + n)
                    &&& self.click_count == orig.click_count
                    &&& spawns_frame(orig, *self)
                },
            decreases types - n,
        {
            let ghost pre_roster = self.player_units@;
            self.spawn_unit(UnitType::Small);
            proof {
                if fits {
                    assert(orig.player_units@ + spawn_batch(
                        orig.upgrades,
                        UnitType::Small,
                        orig.next_unit_id,
                        n + 1,
                    ) =~= pre_roster.push(
                        spawned_player_unit(
                            UnitType::Small,
                            orig.upgrades,
                            (orig.next_unit_id + n) as u64,
                        ),
                    ));
                }
            }
            n = n + 1;
        }
        let ghost base_s = orig.player_units@ + spawn_batch(
            orig.upgrades,
            UnitType::Small,
            orig.next_unit_id,
            types as int,
        );
        let mut m: u32 = 0;
        while m < clicks
            invariant
                m <= clicks,
                self.wf(),
                self.type_count >= orig.type_count,
                self.click_count >= orig.click_count,
                self.stage == orig.stage,
                total == types + clicks + (if spawn_large {
                    1int
                } else {
                    0int
                }),
                fits == (orig.next_unit_id + total <= u64::MAX),
                base_s == orig.player_units@ + spawn_batch(
                    orig.upgrades,
                    UnitType::Small,
                    orig.next_unit_id,
                    types as int,
                ),
                fits ==> {
                    &&& self.player_units@ == base_s + spawn_batch(
                        orig.upgrades,
                        UnitType::Medium,
                        (orig.next_unit_id + types) as u64,
                        m as int,
                    )
                    &&& self.next_unit_id == orig.next_unit_id + types + m
                    &&& self.type_count == crate::num::clip_u32(orig.type_count + types)
                    &&& self.click_count == crate::num::clip_u32(orig.click_count + m)
                    &&& spawns_frame(orig, *self)
                },
            decreases clicks - m,
        {
            let ghost pre_roster = self.player_units@;
            self.spawn_unit(UnitType::Medium);
            proof {
                if fits {
                    assert(base_s + spawn_batch(
                        orig.upgrades,
                        UnitType::Medium,
                        (orig.next_unit_id + types) as u64,
                        m + 1,
                    ) =~= pre_roster.push(
                        spawned_player_unit(
                            UnitType::Medium,
                            orig.upgrades,
                            (orig.next_unit_id + types + m) as u64,
                        ),
                    ));
                }
            }
            m = m + 1;
        }
        let ghost pre_large = self.player_units@;
        if spawn_large {
            self.spawn_unit(UnitType::Large);
            proof {
                if fits {
                    assert(pre_large + spawn_batch(
                        orig.upgrades,
                        UnitType::Large,
                        (orig.next_unit_id + types + clicks) as u64,
                        1,
                    ) =~= pre_large.push(
                        spawned_player_unit(
                            UnitType::Large,
                            orig.upgrades,
                            (orig.next_unit_id + types + clicks) as u64,
                        ),
                    ));
                }
            }
        }
        let ghost mid = *self;
        proof {
            if fits {
                assert(mid.player_units@ =~= orig.player_units@ + spawn_batch(
                    orig.upgrades,
                    UnitType::Small,
                    orig.next_unit_id,
                    types as int,
                ) + spawn_batch(
                    orig.upgrades,
                    UnitType::Medium,
                    (orig.next_unit_id + types) as u64,
                    clicks as int,
                ) + (if spawn_large {
                    spawn_batch(
                        orig.upgrades,
                        UnitType::Large,
                        (orig.next_unit_id + types + clicks) as u64,
                        1,
                    )
                } else {
                    Seq::empty()
                }));
            }
            assert(spawns_rel(orig, mid, clicks, types, spawn_large));
        }
        self.update(dt_ms);
        proof {
            assert(tick_rel(mid, *self, dt_ms as int));
        }
    }
}

/// Drops units a loaded snapshot cannot legally hold (dead, or with an id
/// the cursor could never have produced) and forces the rest into the
/// side's shape: clamped position, non-negative stats, the side's flag.
fn sanitize_side(units: &mut Vec<Unit>, player: bool)
    ensures
        forall|i: int|
            0 <= i < final(units)@.len() ==> {
                let u = #[trigger] final(units)@[i];
                &&& 0 <= u.position <= 1_000_000
                &&& u.hp > 0
                &&& u.attack >= 0
                &&& u.speed >= 0
                &&& u.id < u64::MAX
                &&& u.is_player == player
            },
        forall|j: int|
            0 <= j < old(units)@.len() && (#[trigger] old(units)@[j]).hp > 0 && old(units)@[j].id
                < u64::MAX ==> crate::combat::id_occurs(old(units)@[j].id, final(units)@),
{
    let mut out: Vec<Unit> = Vec::new();
    let mut i: usize = 0;
    while i < units.len()
        invariant
            i <= units@.len(),
            units@ == old(units)@,
            forall|k: int|
                0 <= k < out@.len() ==> {
                    let u = #[trigger] out@[k];
                    &&& 0 <= u.position <= 1_000_000
                    &&& u.hp > 0
                    &&& u.attack >= 0
                    &&& u.speed >= 0
                    &&& u.id < u64::MAX
                    &&& u.is_player == player
                },
            forall|j: int|
                0 <= j < i && (#[trigger] units@[j]).hp > 0 && units@[j].id < u64::MAX
                    ==> crate::combat::id_occurs(units@[j].id, out@),
        decreases units@.len() - i,
    {
        let ghost out_prev = out@;
        let mut u = units[i];
        if u.hp > 0 && u.id < u64::MAX {
            u.position = crate::num::clamp_pos(u.position);
            if u.attack < 0 {
                u.attack = 0;
            }
            if u.speed < 0 {
                u.speed = 0;
            }
            u.is_player = player;
            out.push(u);
        }
        proof {
            assert forall|j: int|
                0 <= j < i + 1 && (#[trigger] units@[j]).hp > 0 && units@[j].id < u64::MAX
                    implies crate::combat::id_occurs(units@[j].id, out@) by {
                if j < i {
                    let w = choose|w: int| 0 <= w < out_prev.len() && out_prev[w].id == units@[j].id;
                    assert(out@[w].id == units@[j].id);
                } else {
                    assert(out@.last().id == units@[j].id);
                }
            }
        }
        i = i + 1;
    }
    *units = out;
}

/// Drops every unit whose id repeats an earlier unit's or occurs in the
/// other roster, keeping first occurrences.
fn dedup_ids(units: &mut Vec<Unit>, other: &Vec<Unit>)
    ensures
        crate::combat::ids_distinct(final(units)@),
        forall|i: int, j: int|
            0 <= i < final(units)@.len() && 0 <= j < other@.len() ==> (
            #[trigger] final(units)@[i]).id != (#[trigger] other@[j]).id,
        forall|i: int|
            0 <= i < final(units)@.len() ==> crate::combat::unit_occurs(
                #[trigger] final(units)@[i],
                old(units)@,
            ),
        forall|j: int|
            0 <= j < old(units)@.len() ==> crate::combat::id_occurs(
                (#[trigger] old(units)@[j]).id,
                final(units)@,
            ) || crate::combat::id_occurs(old(units)@[j].id, other@),
{
    let mut out: Vec<Unit> = Vec::new();
    let mut i: usize = 0;
    while i < units.len()
        invariant
            i <= units@.len(),
            units@ == old(units)@,
            crate::combat::ids_distinct(out@),
            forall|a: int, j: int|
                0 <= a < out@.len() && 0 <= j < other@.len() ==> (#[trigger] out@[a]).id != (
                #[trigger] other@[j]).id,
            forall|a: int|
                0 <= a < out@.len() ==> crate::combat::unit_occurs(#[trigger] out@[a], units@),
            forall|j: int|
                0 <= j < i ==> crate::combat::id_occurs((#[trigger] units@[j]).id, out@)
                    || crate::combat::id_occurs(units@[j].id, other@),
        decreases units@.len() - i,
    {
        let ghost out_before = out@;
        let u = units[i];
        match crate::combat::find_index_by_id(&out, u.id) {
            Some(w) => {
                proof {
                    assert(out@[w as int].id == u.id);
                    assert(crate::combat::id_occurs(units@[i as int].id, out@));
                }
            },
            None => {
                match crate::combat::find_index_by_id(other, u.id) {
                    Some(w) => {
                        proof {
                            assert(other@[w as int].id == u.id);
                            assert(crate::combat::id_occurs(units@[i as int].id, other@));
                        }
                    },
                    None => {
                        let ghost prev = out@;
                        out.push(u);
                        proof {
                            assert forall|a: int|
                                0 <= a < out@.len() implies crate::combat::unit_occurs(
                                #[trigger] out@[a],
                                units@,
                            ) by {
                                if a < prev.len() {
                                    assert(crate::combat::unit_occurs(out@[a], units@));
                                } else {
                                    assert(units@[i as int] == out@[a]);
                                }
                            }
                            assert(out@.last().id == units@[i as int].id);
                            assert(crate::combat::id_occurs(units@[i as int].id, out@));
                        }
                    },
                }
            },
        }
        proof {
            assert forall|j: int|
                0 <= j < i + 1 implies crate::combat::id_occurs((#[trigger] units@[j]).id, out@)
                    || crate::combat::id_occurs(units@[j].id, other@) by {
                if j < i {
                    if crate::combat::id_occurs(units@[j].id, out_before) {
                        let w = choose|w: int|
                            0 <= w < out_before.len() && out_before[w].id == units@[j].id;
                        assert(out@[w].id == units@[j].id);
                    }
                }
            }
        }
        i = i + 1;
    }
    *units = out;
}

/// The largest unit id in a roster, zero when it is empty.
fn max_id(units: &Vec<Unit>) -> (r: u64)
    ensures
        forall|i: int| 0 <= i < units@.len() ==> (#[trigger] units@[i]).id <= r,
        r == 0 || exists|i: int| 0 <= i < units@.len() && (#[trigger] units@[i]).id == r,
{
    let mut r: u64 = 0;
    let mut i: usize = 0;
    while i < units.len()
        invariant
            i <= units@.len(),
            forall|k: int| 0 <= k < i ==> (#[trigger] units@[k]).id <= r,
            r == 0 || exists|k: int| 0 <= k < i && (#[trigger] units@[k]).id == r,
        decreases units@.len() - i,
    {
        if units[i].id > r {
            r = units[i].id;
        }
        i = i + 1;
    }
    r
}

impl GameState {
    /// Normalizes a state restored from a snapshot, which may be partially
    /// written or hand-edited and is never trusted: rosters are forced
    /// into shape and deduplicated, the next-unit-id cursor is recomputed
    /// as one past the largest surviving id rather than read from the
    /// file, the save timer restarts, and the stage and caps are pulled
    /// into the invariant. Coins, upgrades and the input counters are kept
    /// as stored.
    pub fn sanitize_loaded(&mut self)
        ensures
            final(self).wf(),
            final(self).save_timer_ms == 0,
            final(self).coins == old(self).coins,
            final(self).upgrades == old(self).upgrades,
            final(self).click_count == old(self).click_count,
            final(self).type_count == old(self).type_count,
            final(self).stage == if old(self).stage >= 1 {
                old(self).stage
            } else {
                1u32
            },
            final(self).player_base_hp == old(self).player_base_hp,
            final(self).enemy_base_hp == old(self).enemy_base_hp,
            final(self).auto_buy == old(self).auto_buy,
            final(self).save_pending == old(self).save_pending,
            final(self).max_player_base_hp == if old(self).max_player_base_hp >= 0 {
                old(self).max_player_base_hp
            } else {
                0
            },
            final(self).max_enemy_base_hp == if old(self).max_enemy_base_hp >= 0 {
                old(self).max_enemy_base_hp
            } else {
                0
            },
            forall|i: int|
                0 <= i < final(self).player_units@.len() ==> (
                #[trigger] final(self).player_units@[i]).id < final(self).next_unit_id,
            forall|i: int|
                0 <= i < final(self).enemy_units@.len() ==> (
                #[trigger] final(self).enemy_units@[i]).id < final(self).next_unit_id,
            final(self).next_unit_id >= 1,
            final(self).next_unit_id == 1 || crate::combat::id_occurs(
                (final(self).next_unit_id - 1) as u64,
                final(self).player_units@,
            ) || crate::combat::id_occurs(
                (final(self).next_unit_id - 1) as u64,
                final(self).enemy_units@,
            ),
            forall|j: int|
                0 <= j < old(self).player_units@.len() && (
                #[trigger] old(self).player_units@[j]).hp > 0 && old(self).player_units@[j].id
                    < u64::MAX ==> crate::combat::id_occurs(
                    old(self).player_units@[j].id,
                    final(self).player_units@,
                ),
            forall|j: int|
                0 <= j < old(self).enemy_units@.len() && (
                #[trigger] old(self).enemy_units@[j]).hp > 0 && old(self).enemy_units@[j].id
                    < u64::MAX ==> crate::combat::id_occurs(
                    old(self).enemy_units@[j].id,
                    final(self).player_units@,
                ) || crate::combat::id_occurs(
                    old(self).enemy_units@[j].id,
                    final(self).enemy_units@,
                ),
    {
        if self.stage < 1 {
            self.stage = 1;
        }
        if self.max_player_base_hp < 0 {
            self.max_player_base_hp = 0;
        }
        if self.max_enemy_base_hp < 0 {
            self.max_enemy_base_hp = 0;
        }
        sanitize_side(&mut self.player_units, true);
        sanitize_side(&mut self.enemy_units, false);
        let none_yet: Vec<Unit> = Vec::new();
        let ghost p_clean = self.player_units@;
        let ghost e_clean = self.enemy_units@;
        dedup_ids(&mut self.player_units, &none_yet);
        let ghost p_final = self.player_units@;
        dedup_ids(&mut self.enemy_units, &self.player_units);
        proof {
            assert forall|i: int| 0 <= i < self.player_units@.len() implies {
                let u = #[trigger] self.player_units@[i];
                &&& 0 <= u.position <= 1_000_000
                &&& u.hp > 0
                &&& u.attack >= 0
                &&& u.speed >= 0
                &&& u.id < u64::MAX
                &&& u.is_player == true
            } by {
                assert(crate::combat::unit_occurs(self.player_units@[i], p_clean));
                let j = choose|j: int| 0 <= j < p_clean.len() && p_clean[j]
                    == self.player_units@[i];
                assert(p_clean[j].hp > 0);
            }
            assert forall|i: int| 0 <= i < self.enemy_units@.len() implies {
                let u = #[trigger] self.enemy_units@[i];
                &&& 0 <= u.position <= 1_000_000
                &&& u.hp > 0
                &&& u.attack >= 0
                &&& u.speed >= 0
                &&& u.id < u64::MAX
                &&& u.is_player == false
            } by {
                assert(crate::combat::unit_occurs(self.enemy_units@[i], e_clean));
                let j = choose|j: int| 0 <= j < e_clean.len() && e_clean[j]
                    == self.enemy_units@[i];
                assert(e_clean[j].hp > 0);
            }
        }
        let mp = max_id(&self.player_units);
        let me = max_id(&self.enemy_units);
        let mx = if mp >= me {
            mp
        } else {
            me
        };
        proof {
            if mx > 0 {
                if mp >= me {
                    let i = choose|i: int|
                        0 <= i < self.player_units@.len() && self.player_units@[i].id == mx;
                    assert(self.player_units@[i].id < u64::MAX);
                    assert(crate::combat::id_occurs(mx, self.player_units@));
                } else {
                    let i = choose|i: int|
                        0 <= i < self.enemy_units@.len() && self.enemy_units@[i].id == mx;
                    assert(self.enemy_units@[i].id < u64::MAX);
                    assert(crate::combat::id_occurs(mx, self.enemy_units@));
                }
            }
            assert forall|j: int|
                0 <= j < old(self).player_units@.len() && (
                #[trigger] old(self).player_units@[j]).hp > 0 && old(self).player_units@[j].id
                    < u64::MAX implies crate::combat::id_occurs(
                old(self).player_units@[j].id,
                self.player_units@,
            ) by {
                let id = old(self).player_units@[j].id;
                assert(crate::combat::id_occurs(id, p_clean));
                let w = choose|w: int| 0 <= w < p_clean.len() && p_clean[w].id == id;
                assert(crate::combat::id_occurs(p_clean[w].id, self.player_units@)
                    || crate::combat::id_occurs(p_clean[w].id, none_yet@));
            }
            assert forall|j: int|
                0 <= j < old(self).enemy_units@.len() && (
                #[trigger] old(self).enemy_units@[j]).hp > 0 && old(self).enemy_units@[j].id
                    < u64::MAX implies crate::combat::id_occurs(
                old(self).enemy_units@[j].id,
                self.player_units@,
            ) || crate::combat::id_occurs(old(self).enemy_units@[j].id, self.enemy_units@) by {
                let id = old(self).enemy_units@[j].id;
                assert(crate::combat::id_occurs(id, e_clean));
                let w = choose|w: int| 0 <= w < e_clean.len() && e_clean[w].id == id;
                assert(crate::combat::id_occurs(e_clean[w].id, self.enemy_units@)
                    || crate::combat::id_occurs(e_clean[w].id, self.player_units@));
            }
        }
        self.next_unit_id = mx + 1;
        self.save_timer_ms = 0;
    }
}

/// A `base_hp` purchase strictly raises the player base cap: growing a cap
/// by a tenth, flooring, gains at least one milli-HP whenever the cap holds
/// at least ten milli-HP, and the saturated ceiling still exceeds any cap
/// below it.
pub proof fn lemma_base_hp_cap_strictly_grows(m: int)
    requires
        10 <= m < i64::MAX,
    ensures
        clip_i64(m * 11 / 10) > m,
{
    vstd::arithmetic::div_mod::lemma_hoist_over_denominator(m, m, 10);
    assert(m + m * 10 == m * 11);
    vstd::arithmetic::div_mod::lemma_div_is_ordered(10, m, 10);
    vstd::arithmetic::div_mod::lemma_div_basics(10);
}

/// Exporting after importing reproduces the imported payload exactly, for
/// any payload the state can hold without clamping: the synchronization
/// round trip loses nothing.
pub proof fn lemma_progress_round_trip(s: GameState, p: PlayerProgress)
    requires
        p.wf(),
    ensures
        s.spec_import(p).spec_export() == p,
{
}

} // verus!
