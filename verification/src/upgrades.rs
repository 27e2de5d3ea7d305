//! The eleven independent upgrade counters: {attack, hp, speed} for each of
//! the three unit sizes, plus the coin rate and the base-HP axis. A selector
//! is a closed enumeration of axis and optional unit size, validated at the
//! boundary; each counter is raised in steps of ten percentage points and
//! priced by the geometric curve of `cost`.

use vstd::prelude::*;
use crate::cost::{upgrade_cost, cost_for_level};

verus! {

/// The three unit sizes.
#[derive(Clone, Copy, Debug, PartialEq, Eq, Structural)]
pub enum UnitType {
    Small,
    Medium,
    Large,
}

/// The five upgrade axes. `Attack`, `Hp` and `Speed` are per unit size;
/// `CoinRate` and `BaseHp` have no size dimension.
#[derive(Clone, Copy, Debug, PartialEq, Eq, Structural)]
pub enum UpgradeAxis {
    Attack,
    Hp,
    Speed,
    CoinRate,
    BaseHp,
}

/// Whether an (axis, unit) pair addresses one of the eleven counters: the
/// per-size axes need a size, the two global axes ignore it.
pub open spec fn selector_is_valid(axis: UpgradeAxis, unit: Option<UnitType>) -> bool {
    match axis {
        UpgradeAxis::Attack => unit is Some,
        UpgradeAxis::Hp => unit is Some,
        UpgradeAxis::Speed => unit is Some,
        UpgradeAxis::CoinRate => true,
        UpgradeAxis::BaseHp => true,
    }
}

/// The eleven counters, in whole percentage points.
#[derive(Clone, Copy, Debug, PartialEq, Eq, Structural)]
pub struct Upgrades {
    pub small_attack: u32,
    pub medium_attack: u32,
    pub large_attack: u32,
    pub small_hp: u32,
    pub medium_hp: u32,
    pub large_hp: u32,
    pub small_speed: u32,
    pub medium_speed: u32,
    pub large_speed: u32,
    pub coin_rate: u32,
    pub base_hp: u32,
}

impl Upgrades {
    /// All counters at zero: no bonus anywhere.
    pub fn new() -> (r: Self)
        ensures
            r == Upgrades::spec_zero(),
    {
        Upgrades {
            small_attack: 0,
            medium_attack: 0,
            large_attack: 0,
            small_hp: 0,
            medium_hp: 0,
            large_hp: 0,
            small_speed: 0,
            medium_speed: 0,
            large_speed: 0,
            coin_rate: 0,
            base_hp: 0,
        }
    }

    /// The all-zero counter block.
    pub open spec fn spec_zero() -> Upgrades {
        (Upgrades {
            small_attack: 0,
            medium_attack: 0,
            large_attack: 0,
            small_hp: 0,
            medium_hp: 0,
            large_hp: 0,
            small_speed: 0,
            medium_speed: 0,
            large_speed: 0,
            coin_rate: 0,
            base_hp: 0,
        })
    }

    /// The counter addressed by a selector. An invalid selector addresses
    /// no counter and reads as level zero.
    pub open spec fn spec_level(self, axis: UpgradeAxis, unit: Option<UnitType>) -> u32 {
        match (axis, unit) {
            (UpgradeAxis::Attack, Some(UnitType::Small)) => self.small_attack,
            (UpgradeAxis::Attack, Some(UnitType::Medium)) => self.medium_attack,
            (UpgradeAxis::Attack, Some(UnitType::Large)) => self.large_attack,
            (UpgradeAxis::Hp, Some(UnitType::Small)) => self.small_hp,
            (UpgradeAxis::Hp, Some(UnitType::Medium)) => self.medium_hp,
            (UpgradeAxis::Hp, Some(UnitType::Large)) => self.large_hp,
            (UpgradeAxis::Speed, Some(UnitType::Small)) => self.small_speed,
            (UpgradeAxis::Speed, Some(UnitType::Medium)) => self.medium_speed,
            (UpgradeAxis::Speed, Some(UnitType::Large)) => self.large_speed,
            (UpgradeAxis::CoinRate, _) => self.coin_rate,
            (UpgradeAxis::BaseHp, _) => self.base_hp,
            _ => 0,
        }
    }

    /// Reads the counter a selector addresses (level zero for an invalid
    /// selector, as `spec_level` says).
    pub fn level(&self, axis: UpgradeAxis, unit: Option<UnitType>) -> (r: u32)
        ensures
            r == self.spec_level(axis, unit),
    {
        match (axis, unit) {
            (UpgradeAxis::Attack, Some(UnitType::Small)) => self.small_attack,
            (UpgradeAxis::Attack, Some(UnitType::Medium)) => self.medium_attack,
            (UpgradeAxis::Attack, Some(UnitType::Large)) => self.large_attack,
            (UpgradeAxis::Hp, Some(UnitType::Small)) => self.small_hp,
            (UpgradeAxis::Hp, Some(UnitType::Medium)) => self.medium_hp,
            (UpgradeAxis::Hp, Some(UnitType::Large)) => self.large_hp,
            (UpgradeAxis::Speed, Some(UnitType::Small)) => self.small_speed,
            (UpgradeAxis::Speed, Some(UnitType::Medium)) => self.medium_speed,
            (UpgradeAxis::Speed, Some(UnitType::Large)) => self.large_speed,
            (UpgradeAxis::CoinRate, _) => self.coin_rate,
            (UpgradeAxis::BaseHp, _) => self.base_hp,
            _ => 0,
        }
    }

    /// The exact cost of the next purchase on the addressed counter, or
    /// `None` when it already exceeds any 32-bit coin balance.
    pub fn get_cost(&self, axis: UpgradeAxis, unit: Option<UnitType>) -> (r: Option<u32>)
        ensures
            match r {
                Some(c) => c == upgrade_cost(self.spec_level(axis, unit) as nat)
                    && upgrade_cost(self.spec_level(axis, unit) as nat) <= u32::MAX,
                None => upgrade_cost(self.spec_level(axis, unit) as nat) > u32::MAX,
            },
    {
        cost_for_level(self.level(axis, unit))
    }

    /// The counters after one purchase on a selector: the addressed counter
    /// grows by ten percentage points (saturating), all others keep their
    /// value. An invalid selector changes nothing.
    pub open spec fn spec_bumped(self, axis: UpgradeAxis, unit: Option<UnitType>) -> Upgrades {
        match (axis, unit) {
            (UpgradeAxis::Attack, Some(UnitType::Small)) => (Upgrades {
                small_attack: self.small_attack.saturating_add(10),
                ..self
            }),
            (UpgradeAxis::Attack, Some(UnitType::Medium)) => (Upgrades {
                medium_attack: self.medium_attack.saturating_add(10),
                ..self
            }),
            (UpgradeAxis::Attack, Some(UnitType::Large)) => (Upgrades {
                large_attack: self.large_attack.saturating_add(10),
                ..self
            }),
            (UpgradeAxis::Hp, Some(UnitType::Small)) => (Upgrades {
                small_hp: self.small_hp.saturating_add(10),
                ..self
            }),
            (UpgradeAxis::Hp, Some(UnitType::Medium)) => (Upgrades {
                medium_hp: self.medium_hp.saturating_add(10),
                ..self
            }),
            (UpgradeAxis::Hp, Some(UnitType::Large)) => (Upgrades {
                large_hp: self.large_hp.saturating_add(10),
                ..self
            }),
            (UpgradeAxis::Speed, Some(UnitType::Small)) => (Upgrades {
                small_speed: self.small_speed.saturating_add(10),
                ..self
            }),
            (UpgradeAxis::Speed, Some(UnitType::Medium)) => (Upgrades {
                medium_speed: self.medium_speed.saturating_add(10),
                ..self
            }),
            (UpgradeAxis::Speed, Some(UnitType::Large)) => (Upgrades {
                large_speed: self.large_speed.saturating_add(10),
                ..self
            }),
            (UpgradeAxis::CoinRate, _) => (Upgrades { coin_rate: self.coin_rate.saturating_add(10), ..self }),
            (UpgradeAxis::BaseHp, _) => (Upgrades { base_hp: self.base_hp.saturating_add(10), ..self }),
            _ => self,
        }
    }

    /// Raises the addressed counter by ten percentage points, saturating.
    pub fn bump(&mut self, axis: UpgradeAxis, unit: Option<UnitType>)
        requires
            selector_is_valid(axis, unit),
        ensures
            *final(self) == old(self).spec_bumped(axis, unit),
    {
        match (axis, unit) {
            (UpgradeAxis::Attack, Some(UnitType::Small)) => {
                self.small_attack = self.small_attack.saturating_add(10);
            },
            (UpgradeAxis::Attack, Some(UnitType::Medium)) => {
                self.medium_attack = self.medium_attack.saturating_add(10);
            },
            (UpgradeAxis::Attack, Some(UnitType::Large)) => {
                self.large_attack = self.large_attack.saturating_add(10);
            },
            (UpgradeAxis::Hp, Some(UnitType::Small)) => {
                self.small_hp = self.small_hp.saturating_add(10);
            },
            (UpgradeAxis::Hp, Some(UnitType::Medium)) => {
                self.medium_hp = self.medium_hp.saturating_add(10);
            },
            (UpgradeAxis::Hp, Some(UnitType::Large)) => {
                self.large_hp = self.large_hp.saturating_add(10);
            },
            (UpgradeAxis::Speed, Some(UnitType::Small)) => {
                self.small_speed = self.small_speed.saturating_add(10);
            },
            (UpgradeAxis::Speed, Some(UnitType::Medium)) => {
                self.medium_speed = self.medium_speed.saturating_add(10);
            },
            (UpgradeAxis::Speed, Some(UnitType::Large)) => {
                self.large_speed = self.large_speed.saturating_add(10);
            },
            (UpgradeAxis::CoinRate, _) => {
                self.coin_rate = self.coin_rate.saturating_add(10);
            },
            (UpgradeAxis::BaseHp, _) => {
                self.base_hp = self.base_hp.saturating_add(10);
            },
            _ => {},
        }
    }
}

} // verus!
