use vstd::prelude::*;

use crate::constants::{MAX_COORD, MAX_RADIUS, MAX_STAT, MAX_TIMER};
use crate::shape::{DamageType, Shape};

verus! {

/// A world position in milli-pixels.
#[derive(Clone, Copy, Debug, PartialEq, Eq, Structural)]
pub struct Position {
    pub x: i64,
    pub y: i64,
}

/// Hit points in milli-points; `current` may go negative from overkill
/// damage until the dead entity is cleaned up.
#[derive(Clone, Copy, Debug, PartialEq, Eq, Structural)]
pub struct Health {
    pub current: i64,
    pub max: i64,
}

/// Mana in milli-points; `regen` is milli-points per second.
#[derive(Clone, Copy, Debug, PartialEq, Eq, Structural)]
pub struct Mana {
    pub current: i64,
    pub max: i64,
    pub regen: i64,
}

/// One attack option: damage in milli-points, rate in milli-attacks per
/// second, range in milli-pixels.
#[derive(Clone, Copy, Debug, PartialEq, Eq, Structural)]
pub struct AttackProfile {
    pub damage: i64,
    pub rate: i64,
    pub range: i64,
    pub damage_type: DamageType,
}

/// The attack profile currently in effect.
#[derive(Clone, Copy, Debug, PartialEq, Eq, Structural)]
pub struct AttackStats {
    pub damage: i64,
    pub rate: i64,
    pub damage_type: DamageType,
}

/// The static attack options a unit can switch between; the primary
/// costs `mana_cost` milli-mana per shot when positive.
#[derive(Clone, Copy, Debug, PartialEq, Eq, Structural)]
pub struct CombatProfile {
    pub primary: AttackProfile,
    pub secondary: Option<AttackProfile>,
    pub mana_cost: i64,
}

/// Elemental resistances; zero-valued in the base game.
#[derive(Clone, Copy, Debug, PartialEq, Eq, Structural)]
pub struct Resistances {
    pub fire: i64,
    pub ice: i64,
    pub lightning: i64,
}

#[derive(Clone, Copy, Debug, PartialEq, Eq, Structural)]
pub enum DefenseSpecialty {
    General,
}

/// Damage mitigation; present but zero-valued in the base game.
#[derive(Clone, Copy, Debug, PartialEq, Eq, Structural)]
pub struct DefenseStats {
    pub armor: i64,
    pub resistances: Resistances,
    pub specialty: DefenseSpecialty,
}

/// Where a worker is in its mining round trip.
#[derive(Clone, Copy, Debug, PartialEq, Eq, Structural)]
pub enum WorkerState {
    MovingToVein,
    Mining,
    MovingToCart,
}

/// The two fixed points a worker cycles between.
#[derive(Clone, Copy, Debug, PartialEq, Eq, Structural)]
pub struct TargetPositions {
    pub vein: Position,
    pub cart: Position,
}

/// A stable handle to an entity: its slot index in the world.
#[derive(Clone, Copy, Debug, PartialEq, Eq, Structural, Hash)]
pub struct EntityId {
    pub idx: u32,
}

/// Everything that can be attached to one entity. A `None` field (or
/// `false` marker) means the component is absent, as in a sparse
/// component table.
#[derive(Clone, Copy, Debug)]
pub struct Components {
    pub pos: Option<Position>,
    pub home: Option<Position>,
    pub shape: Option<Shape>,
    pub owner: Option<i64>,
    pub enemy: bool,
    pub boss: bool,
    pub worker: bool,
    pub worker_state: Option<WorkerState>,
    pub targets: Option<TargetPositions>,
    pub mining_timer: Option<i64>,
    pub radius: Option<i64>,
    pub attack_range: Option<i64>,
    pub in_attack_range: bool,
    pub health: Option<Health>,
    pub mana: Option<Mana>,
    pub attack_stats: Option<AttackStats>,
    pub attack_timer: Option<i64>,
    pub combat_profile: Option<CombatProfile>,
    pub defense: Option<DefenseStats>,
    pub target: Option<EntityId>,
}

/// The empty component set.
pub open spec fn no_components() -> Components {
    Components {
        pos: None,
        home: None,
        shape: None,
        owner: None,
        enemy: false,
        boss: false,
        worker: false,
        worker_state: None,
        targets: None,
        mining_timer: None,
        radius: None,
        attack_range: None,
        in_attack_range: false,
        health: None,
        mana: None,
        attack_stats: None,
        attack_timer: None,
        combat_profile: None,
        defense: None,
        target: None,
    }
}

impl Components {
    /// An entity with nothing attached; callers fill in the fields they
    /// want before spawning.
    pub fn empty() -> (c: Components)
        ensures
            c == no_components(),
    {
        Components {
            pos: None,
            home: None,
            shape: None,
            owner: None,
            enemy: false,
            boss: false,
            worker: false,
            worker_state: None,
            targets: None,
            mining_timer: None,
            radius: None,
            attack_range: None,
            in_attack_range: false,
            health: None,
            mana: None,
            attack_stats: None,
            attack_timer: None,
            combat_profile: None,
            defense: None,
            target: None,
        }
    }
}

pub open spec fn pos_in_range(p: Position) -> bool {
    -MAX_COORD <= p.x <= MAX_COORD && -MAX_COORD <= p.y <= MAX_COORD
}

pub open spec fn profile_in_range(p: AttackProfile) -> bool {
    &&& 0 <= p.damage <= MAX_STAT
    &&& 1 <= p.rate <= MAX_STAT
    &&& 0 <= p.range <= MAX_COORD
}

/// Bounds on every attached component that keep each tick's arithmetic
/// inside `i64`. The simulation systems require and preserve this.
pub open spec fn comps_in_range(c: Components) -> bool {
    &&& (c.pos matches Some(p) ==> pos_in_range(p))
    &&& (c.home matches Some(p) ==> pos_in_range(p))
    &&& (c.targets matches Some(t) ==> pos_in_range(t.vein) && pos_in_range(t.cart))
    &&& (c.radius matches Some(r) ==> 0 <= r <= MAX_RADIUS)
    &&& (c.attack_range matches Some(r) ==> 0 <= r <= MAX_COORD)
    &&& (c.health matches Some(h) ==> 0 <= h.max <= MAX_STAT)
    &&& (c.mana matches Some(m) ==> 0 <= m.current <= m.max && m.max <= MAX_STAT && 0 <= m.regen
        <= MAX_STAT)
    &&& (c.attack_stats matches Some(s) ==> 0 <= s.damage <= MAX_STAT && 1 <= s.rate <= MAX_STAT)
    &&& (c.combat_profile matches Some(p) ==> {
        &&& profile_in_range(p.primary)
        &&& (p.secondary matches Some(s) ==> profile_in_range(s))
        &&& 0 <= p.mana_cost <= MAX_STAT
    })
    &&& (c.attack_timer matches Some(t) ==> -MAX_TIMER <= t <= MAX_TIMER)
    &&& (c.mining_timer matches Some(t) ==> -MAX_TIMER <= t <= MAX_TIMER)
}

} // verus!
