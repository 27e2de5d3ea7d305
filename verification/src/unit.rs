//! One combatant on the 1-D battlefield. Positions and stats are integer
//! milli-units; a unit's derived stats are computed once at spawn from its
//! kind and the upgrade levels of that moment, and frozen afterwards.

use vstd::prelude::*;
use crate::upgrades::{UnitType, Upgrades};
use crate::num::{clip_i64, scale_milli, sat_add_i64, scale_by_dt};

verus! {

/// One combatant. `target_id` is a weak reference by id: it does not own
/// the target and is cleared when the target no longer exists.
#[derive(Clone, Copy, Debug)]
pub struct Unit {
    pub id: u64,
    pub unit_type: UnitType,
    pub position: i64,
    pub hp: i64,
    pub max_hp: i64,
    pub attack: i64,
    pub speed: i64,
    pub is_player: bool,
    pub target_id: Option<u64>,
    pub knockback_velocity: i64,
    pub knockback_ms: u32,
    pub knockback_total_ms: u32,
}

/// Base hit points of a player-side unit, in milli-HP.
pub open spec fn player_base_hp(t: UnitType) -> u64 {
    match t {
        UnitType::Small => 10_000,
        UnitType::Medium => 30_000,
        UnitType::Large => 100_000,
    }
}

/// Base attack of a player-side unit, in milli-HP per second.
pub open spec fn player_base_attack(t: UnitType) -> u64 {
    match t {
        UnitType::Small => 5_000,
        UnitType::Medium => 15_000,
        UnitType::Large => 50_000,
    }
}

/// Base speed of a player-side unit, in milli-units per second.
pub open spec fn player_base_speed(t: UnitType) -> u64 {
    match t {
        UnitType::Small => 100_000,
        UnitType::Medium => 80_000,
        UnitType::Large => 60_000,
    }
}

/// Base hit points of an enemy unit, in milli-HP, before stage scaling.
pub open spec fn enemy_base_hp(t: UnitType) -> u64 {
    match t {
        UnitType::Small => 15_000,
        UnitType::Medium => 40_000,
        UnitType::Large => 120_000,
    }
}

/// Base attack of an enemy unit, in milli-HP per second, before scaling.
pub open spec fn enemy_base_attack(t: UnitType) -> u64 {
    match t {
        UnitType::Small => 4_000,
        UnitType::Medium => 12_000,
        UnitType::Large => 40_000,
    }
}

/// Speed of an enemy unit, in milli-units per second (never stage-scaled).
pub open spec fn enemy_base_speed(t: UnitType) -> u64 {
    match t {
        UnitType::Small => 90_000,
        UnitType::Medium => 70_000,
        UnitType::Large => 50_000,
    }
}

/// The hp bonus counter that applies to a player unit of kind `t`.
pub open spec fn hp_bonus(up: Upgrades, t: UnitType) -> u32 {
    match t {
        UnitType::Small => up.small_hp,
        UnitType::Medium => up.medium_hp,
        UnitType::Large => up.large_hp,
    }
}

/// The attack bonus counter that applies to a player unit of kind `t`.
pub open spec fn attack_bonus(up: Upgrades, t: UnitType) -> u32 {
    match t {
        UnitType::Small => up.small_attack,
        UnitType::Medium => up.medium_attack,
        UnitType::Large => up.large_attack,
    }
}

/// The speed bonus counter that applies to a player unit of kind `t`.
pub open spec fn speed_bonus(up: Upgrades, t: UnitType) -> u32 {
    match t {
        UnitType::Small => up.small_speed,
        UnitType::Medium => up.medium_speed,
        UnitType::Large => up.large_speed,
    }
}

/// A base stat raised by a bonus counter: `base * (100 + bonus) / 100`.
pub open spec fn boosted(base: u64, bonus: u32) -> int {
    base * (100 + bonus) / 100
}

impl Unit {
    /// The fields that never change after spawn.
    pub open spec fn same_derived(self, other: Unit) -> bool {
        &&& self.id == other.id
        &&& self.unit_type == other.unit_type
        &&& self.max_hp == other.max_hp
        &&& self.attack == other.attack
        &&& self.speed == other.speed
        &&& self.is_player == other.is_player
    }

    /// The unit after its knockback has advanced by `dt` milliseconds:
    /// displaced by the stored velocity, the countdown shrunk, velocity and
    /// total cleared once it reaches zero. Exactly what `knockback_step`
    /// computes.
    pub open spec fn after_knockback(self, dt: int) -> Unit {
        if self.knockback_ms == 0 {
            self
        } else {
            let pos = clip_i64(self.position + scale_milli(self.knockback_velocity as int, dt));
            if dt < self.knockback_ms {
                (Unit { position: pos as i64, knockback_ms: (self.knockback_ms - dt) as u32, ..self })
            } else {
                (Unit {
                    position: pos as i64,
                    knockback_ms: 0,
                    knockback_velocity: 0,
                    knockback_total_ms: 0,
                    ..self
                })
            }
        }
    }

    /// Advances an active knockback: the unit is displaced by the stored
    /// velocity for `dt_ms`, the countdown shrinks, and on reaching zero
    /// the velocity and total are cleared. A unit with no active knockback
    /// is untouched.
    pub fn knockback_step(&mut self, dt_ms: u32)
        ensures
            *final(self) == old(self).after_knockback(dt_ms as int),
            old(self).knockback_ms == 0 ==> *final(self) == *old(self),
            old(self).knockback_ms > 0 ==> {
                &&& final(self).position == clip_i64(
                    old(self).position + scale_milli(old(self).knockback_velocity as int, dt_ms as int),
                )
                &&& final(self).knockback_ms == if dt_ms < old(self).knockback_ms {
                    (old(self).knockback_ms - dt_ms) as u32
                } else {
                    0u32
                }
                &&& (final(self).knockback_ms == 0 ==> final(self).knockback_velocity == 0
                    && final(self).knockback_total_ms == 0)
                &&& (final(self).knockback_ms > 0 ==> final(self).knockback_velocity
                    == old(self).knockback_velocity && final(self).knockback_total_ms == old(
                    self,
                ).knockback_total_ms)
            },
            final(self).same_derived(*old(self)),
            final(self).hp == old(self).hp,
            final(self).target_id == old(self).target_id,
    {
        if self.knockback_ms > 0 {
            let step = scale_by_dt(self.knockback_velocity, dt_ms);
            self.position = sat_add_i64(self.position, step);
            self.knockback_ms = self.knockback_ms.saturating_sub(dt_ms);
            if self.knockback_ms == 0 {
                self.knockback_velocity = 0;
                self.knockback_total_ms = 0;
            }
        }
    }
}

} // verus!
