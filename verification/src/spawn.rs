use vstd::prelude::*;

use crate::catalog::{
    get_unit_profile, unit_profile_spec, BOSS_DAMAGE_MULTIPLIER, BOSS_HEALTH_MULTIPLIER,
    DEFAULT_COLLISION_RADIUS, DEFAULT_HEALTH,
};
use crate::components::{
    pos_in_range, AttackStats, Components, DefenseSpecialty, DefenseStats, EntityId, Health,
    Position, Resistances, TargetPositions, WorkerState,
};
use crate::shape::Shape;
use crate::wave::{scaled_stat, scaled_stat_spec};
use crate::world::{world_in_range, Slot, World};

verus! {

/// The zero-valued mitigation block every combatant starts with.
pub open spec fn zero_defense() -> DefenseStats {
    DefenseStats {
        armor: 0,
        resistances: Resistances { fire: 0, ice: 0, lightning: 0 },
        specialty: DefenseSpecialty::General,
    }
}

fn make_zero_defense() -> (d: DefenseStats)
    ensures
        d == zero_defense(),
{
    DefenseStats {
        armor: 0,
        resistances: Resistances { fire: 0, ice: 0, lightning: 0 },
        specialty: DefenseSpecialty::General,
    }
}

/// The component set of a freshly spawned wave enemy: the shape's
/// profile with health and damage scaled by the wave factor, and the
/// boss multipliers on the final wave.
pub open spec fn enemy_comps(pos: Position, shape: Shape, wave: u32) -> Components {
    let prof = unit_profile_spec(shape);
    let hp_mult: int = if wave == 6 {
        BOSS_HEALTH_MULTIPLIER as int
    } else {
        1
    };
    let dmg_mult: int = if wave == 6 {
        BOSS_DAMAGE_MULTIPLIER as int
    } else {
        1
    };
    let health = scaled_stat_spec(DEFAULT_HEALTH as int, wave) * hp_mult;
    let damage = scaled_stat_spec(prof.combat.primary.damage as int, wave) * dmg_mult;
    Components {
        pos: Some(pos),
        home: Some(pos),
        shape: Some(shape),
        owner: None,
        enemy: true,
        boss: wave == 6,
        worker: false,
        worker_state: None,
        targets: None,
        mining_timer: None,
        radius: Some(prof.radius),
        attack_range: Some(prof.combat.primary.range),
        in_attack_range: false,
        health: Some(Health { current: health as i64, max: health as i64 }),
        mana: prof.mana,
        attack_stats: Some(
            AttackStats {
                damage: damage as i64,
                rate: prof.combat.primary.rate,
                damage_type: prof.combat.primary.damage_type,
            },
        ),
        attack_timer: Some(0),
        combat_profile: Some(prof.combat),
        defense: Some(zero_defense()),
        target: None,
    }
}

/// Spawns one wave enemy at `pos` with wave-scaled stats.
pub fn spawn_enemy(world: &mut World, pos: Position, shape: Shape, wave: u32) -> (e: EntityId)
    requires
        old(world).slots@.len() < u32::MAX,
        1 <= wave <= 6,
    ensures
        final(world).slots@ == old(world).slots@.push(
            Slot { alive: true, comps: enemy_comps(pos, shape, wave) },
        ),
        e.idx == old(world).slots@.len(),
        world_in_range(old(world).slots@) && pos_in_range(pos) && old(world).slots@.len()
            < crate::constants::MAX_ENTITIES ==> world_in_range(final(world).slots@),
{
    let profile = get_unit_profile(shape);
    let is_boss = wave == 6;
    let base_health = scaled_stat(DEFAULT_HEALTH, wave);
    let base_damage = scaled_stat(profile.combat.primary.damage, wave);
    proof {
        assert(0 <= base_health <= 300_000);
        assert(profile.combat.primary.damage <= 10_000);
        assert(0 <= base_damage <= 30_000);
        assert(0 <= base_health * BOSS_HEALTH_MULTIPLIER <= 3_000_000 && 0 <= base_damage
            * BOSS_DAMAGE_MULTIPLIER <= 90_000) by (nonlinear_arith)
            requires
                0 <= base_health <= 300_000,
                0 <= base_damage <= 30_000,
                BOSS_HEALTH_MULTIPLIER == 10,
                BOSS_DAMAGE_MULTIPLIER == 3,
        ;
    }
    let health = if is_boss {
        base_health * BOSS_HEALTH_MULTIPLIER
    } else {
        base_health
    };
    let damage = if is_boss {
        base_damage * BOSS_DAMAGE_MULTIPLIER
    } else {
        base_damage
    };
    let mut c = Components::empty();
    c.pos = Some(pos);
    c.home = Some(pos);
    c.shape = Some(shape);
    c.enemy = true;
    c.boss = is_boss;
    c.radius = Some(profile.radius);
    c.attack_range = Some(profile.combat.primary.range);
    c.health = Some(Health { current: health, max: health });
    c.mana = profile.mana;
    c.attack_stats = Some(
        AttackStats {
            damage,
            rate: profile.combat.primary.rate,
            damage_type: profile.combat.primary.damage_type,
        },
    );
    c.attack_timer = Some(0);
    c.combat_profile = Some(profile.combat);
    c.defense = Some(make_zero_defense());
    world.spawn(c)
}

/// The component set of a freshly placed player unit: the shape's
/// catalog profile, owned by `player_id`, homed where it stands.
pub open spec fn unit_comps(pos: Position, shape: Shape, player_id: i64) -> Components {
    let prof = unit_profile_spec(shape);
    Components {
        pos: Some(pos),
        home: Some(pos),
        shape: Some(shape),
        owner: Some(player_id),
        enemy: false,
        boss: false,
        worker: false,
        worker_state: None,
        targets: None,
        mining_timer: None,
        radius: Some(prof.radius),
        attack_range: Some(prof.combat.primary.range),
        in_attack_range: false,
        health: Some(Health { current: DEFAULT_HEALTH, max: DEFAULT_HEALTH }),
        mana: prof.mana,
        attack_stats: Some(
            AttackStats {
                damage: prof.combat.primary.damage,
                rate: prof.combat.primary.rate,
                damage_type: prof.combat.primary.damage_type,
            },
        ),
        attack_timer: Some(0),
        combat_profile: Some(prof.combat),
        defense: Some(zero_defense()),
        target: None,
    }
}

/// Spawns one player-owned combat unit at `pos`.
pub fn spawn_unit(world: &mut World, pos: Position, shape: Shape, player_id: i64) -> (e: EntityId)
    requires
        old(world).slots@.len() < u32::MAX,
    ensures
        final(world).slots@ == old(world).slots@.push(
            Slot { alive: true, comps: unit_comps(pos, shape, player_id) },
        ),
        e.idx == old(world).slots@.len(),
        world_in_range(old(world).slots@) && pos_in_range(pos) && old(world).slots@.len()
            < crate::constants::MAX_ENTITIES ==> world_in_range(final(world).slots@),
{
    let profile = get_unit_profile(shape);
    let mut c = Components::empty();
    c.pos = Some(pos);
    c.home = Some(pos);
    c.shape = Some(shape);
    c.owner = Some(player_id);
    c.radius = Some(profile.radius);
    c.attack_range = Some(profile.combat.primary.range);
    c.health = Some(Health { current: DEFAULT_HEALTH, max: DEFAULT_HEALTH });
    c.mana = profile.mana;
    c.attack_stats = Some(
        AttackStats {
            damage: profile.combat.primary.damage,
            rate: profile.combat.primary.rate,
            damage_type: profile.combat.primary.damage_type,
        },
    );
    c.attack_timer = Some(0);
    c.combat_profile = Some(profile.combat);
    c.defense = Some(make_zero_defense());
    world.spawn(c)
}

/// The component set of a freshly hired worker: it starts at its cart,
/// walks its vein-cart cycle, and never fights.
pub open spec fn worker_comps(player_id: i64, targets: TargetPositions) -> Components {
    Components {
        pos: Some(targets.cart),
        home: None,
        shape: Some(Shape::Circle),
        owner: Some(player_id),
        enemy: false,
        boss: false,
        worker: true,
        worker_state: Some(WorkerState::MovingToVein),
        targets: Some(targets),
        mining_timer: None,
        radius: Some(DEFAULT_COLLISION_RADIUS),
        attack_range: Some(0),
        in_attack_range: false,
        health: Some(Health { current: DEFAULT_HEALTH, max: DEFAULT_HEALTH }),
        mana: None,
        attack_stats: None,
        attack_timer: None,
        combat_profile: None,
        defense: Some(zero_defense()),
        target: None,
    }
}

/// Spawns one economy worker for `player_id` cycling between the given
/// vein and cart.
pub fn spawn_worker(world: &mut World, player_id: i64, targets: TargetPositions) -> (e: EntityId)
    requires
        old(world).slots@.len() < u32::MAX,
    ensures
        final(world).slots@ == old(world).slots@.push(
            Slot { alive: true, comps: worker_comps(player_id, targets) },
        ),
        e.idx == old(world).slots@.len(),
        world_in_range(old(world).slots@) && pos_in_range(targets.vein) && pos_in_range(
            targets.cart,
        ) && old(world).slots@.len() < crate::constants::MAX_ENTITIES ==> world_in_range(
            final(world).slots@,
        ),
{
    let mut c = Components::empty();
    c.pos = Some(targets.cart);
    c.shape = Some(Shape::Circle);
    c.owner = Some(player_id);
    c.worker = true;
    c.worker_state = Some(WorkerState::MovingToVein);
    c.targets = Some(targets);
    c.radius = Some(DEFAULT_COLLISION_RADIUS);
    c.attack_range = Some(0);
    c.health = Some(Health { current: DEFAULT_HEALTH, max: DEFAULT_HEALTH });
    c.defense = Some(make_zero_defense());
    world.spawn(c)
}

} // verus!
