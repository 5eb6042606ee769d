use vstd::prelude::*;

use crate::components::{AttackProfile, CombatProfile, Mana};
use crate::shape::{DamageType, Shape};

verus! {

// Balance constants, in the fixed-point units of `crate::constants`.
pub const DEFAULT_COLLISION_RADIUS: i64 = 20_000;
pub const DEFAULT_ATTACK_RANGE: i64 = 45_000;
pub const RANGED_ATTACK_RANGE: i64 = 150_000;
pub const DEFAULT_HEALTH: i64 = 100_000;
pub const DEFAULT_DAMAGE: i64 = 10_000;
pub const DEFAULT_ATTACK_RATE: i64 = 1_000;
pub const FIREBALL_MANA_COST: i64 = 20_000;
pub const MAGE_MELEE_DAMAGE: i64 = 2_000;
pub const MAGE_MANA_MAX: i64 = 100_000;
pub const MAGE_MANA_REGEN: i64 = 5_000;
pub const BOSS_HEALTH_MULTIPLIER: i64 = 10;
pub const BOSS_DAMAGE_MULTIPLIER: i64 = 3;

/// Everything the catalog knows about one unit kind.
#[derive(Clone, Copy, Debug)]
pub struct UnitProfile {
    pub radius: i64,
    pub combat: CombatProfile,
    pub mana: Option<Mana>,
    pub gold_cost: u32,
}

/// The catalog entry for each shape: Squares are tough melee, Triangles
/// ranged piercers, Circles fire mages with a weak melee fallback.
pub open spec fn unit_profile_spec(shape: Shape) -> UnitProfile {
    match shape {
        Shape::Square => UnitProfile {
            radius: (DEFAULT_COLLISION_RADIUS + 2_000) as i64,
            combat: CombatProfile {
                primary: AttackProfile {
                    damage: DEFAULT_DAMAGE,
                    rate: DEFAULT_ATTACK_RATE,
                    range: DEFAULT_ATTACK_RANGE,
                    damage_type: DamageType::PhysicalBasic,
                },
                secondary: None,
                mana_cost: 0,
            },
            mana: None,
            gold_cost: 25,
        },
        Shape::Triangle => UnitProfile {
            radius: (DEFAULT_COLLISION_RADIUS - 2_000) as i64,
            combat: CombatProfile {
                primary: AttackProfile {
                    damage: DEFAULT_DAMAGE,
                    rate: DEFAULT_ATTACK_RATE,
                    range: RANGED_ATTACK_RANGE,
                    damage_type: DamageType::PhysicalPierce,
                },
                secondary: None,
                mana_cost: 0,
            },
            mana: None,
            gold_cost: 40,
        },
        Shape::Circle => UnitProfile {
            radius: DEFAULT_COLLISION_RADIUS,
            combat: CombatProfile {
                primary: AttackProfile {
                    damage: DEFAULT_DAMAGE,
                    rate: DEFAULT_ATTACK_RATE,
                    range: RANGED_ATTACK_RANGE,
                    damage_type: DamageType::FireMagical,
                },
                secondary: Some(
                    AttackProfile {
                        damage: MAGE_MELEE_DAMAGE,
                        rate: DEFAULT_ATTACK_RATE,
                        range: DEFAULT_ATTACK_RANGE,
                        damage_type: DamageType::PhysicalBasic,
                    },
                ),
                mana_cost: FIREBALL_MANA_COST,
            },
            mana: Some(
                Mana { current: MAGE_MANA_MAX, max: MAGE_MANA_MAX, regen: MAGE_MANA_REGEN },
            ),
            gold_cost: 75,
        },
    }
}

/// Pure lookup of a shape's combat profile, radius, mana and cost.
pub fn get_unit_profile(shape: Shape) -> (p: UnitProfile)
    ensures
        p == unit_profile_spec(shape),
{
    match shape {
        Shape::Square => UnitProfile {
            radius: DEFAULT_COLLISION_RADIUS + 2_000,
            combat: CombatProfile {
                primary: AttackProfile {
                    damage: DEFAULT_DAMAGE,
                    rate: DEFAULT_ATTACK_RATE,
                    range: DEFAULT_ATTACK_RANGE,
                    damage_type: DamageType::PhysicalBasic,
                },
                secondary: None,
                mana_cost: 0,
            },
            mana: None,
            gold_cost: 25,
        },
        Shape::Triangle => UnitProfile {
            radius: DEFAULT_COLLISION_RADIUS - 2_000,
            combat: CombatProfile {
                primary: AttackProfile {
                    damage: DEFAULT_DAMAGE,
                    rate: DEFAULT_ATTACK_RATE,
                    range: RANGED_ATTACK_RANGE,
                    damage_type: DamageType::PhysicalPierce,
                },
                secondary: None,
                mana_cost: 0,
            },
            mana: None,
            gold_cost: 40,
        },
        Shape::Circle => UnitProfile {
            radius: DEFAULT_COLLISION_RADIUS,
            combat: CombatProfile {
                primary: AttackProfile {
                    damage: DEFAULT_DAMAGE,
                    rate: DEFAULT_ATTACK_RATE,
                    range: RANGED_ATTACK_RANGE,
                    damage_type: DamageType::FireMagical,
                },
                secondary: Some(
                    AttackProfile {
                        damage: MAGE_MELEE_DAMAGE,
                        rate: DEFAULT_ATTACK_RATE,
                        range: DEFAULT_ATTACK_RANGE,
                        damage_type: DamageType::PhysicalBasic,
                    },
                ),
                mana_cost: FIREBALL_MANA_COST,
            },
            mana: Some(
                Mana { current: MAGE_MANA_MAX, max: MAGE_MANA_MAX, regen: MAGE_MANA_REGEN },
            ),
            gold_cost: 75,
        },
    }
}

} // verus!
