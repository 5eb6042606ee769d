use wavetd::combat::{
    cleanup_dead_entities, process_combat, update_active_combat_stats, update_combat_movement,
    update_combat_reset, update_mana, update_targeting,
};
use wavetd::components::{
    AttackProfile, AttackStats, CombatProfile, Components, Health, Mana, Position,
};
use wavetd::components::TargetPositions;
use wavetd::shape::{DamageType, Shape};
use wavetd::spawn::{spawn_enemy, spawn_unit, spawn_worker};
use wavetd::world::World;

// One simulation tick, in milliseconds (the original runs at 30 Hz).
const TICK: i64 = 33;

fn pos(x: i64, y: i64) -> Position {
    Position { x, y }
}

fn vein0() -> Position {
    pos(700_000, 50_000)
}

fn cart0() -> Position {
    pos(700_000, 250_000)
}

#[test]
fn targeting_ignores_workers() {
    let mut world = World::new();
    let _enemy = spawn_enemy(&mut world, pos(100_000, 100_000), Shape::Triangle, 1);
    let targets = TargetPositions { vein: vein0(), cart: cart0() };
    let worker = spawn_worker(&mut world, 1, targets);
    let unit = spawn_unit(&mut world, pos(200_000, 200_000), Shape::Square, 1);

    update_targeting(&mut world);

    assert!(
        world.get(worker).unwrap().target.is_none(),
        "Worker should not have target"
    );
    assert!(
        world.get(unit).unwrap().target.is_some(),
        "Unit should have target"
    );
}

#[test]
fn nothing_targets_workers() {
    let mut world = World::new();
    let targets = TargetPositions { vein: vein0(), cart: cart0() };
    let _ = spawn_worker(&mut world, 1, targets);
    let enemy = spawn_enemy(&mut world, pos(105_000, 105_000), Shape::Triangle, 1);
    let unit = spawn_unit(&mut world, pos(200_000, 200_000), Shape::Square, 1);

    update_targeting(&mut world);

    let target = world.get(enemy).unwrap().target;
    assert!(target.is_some(), "Enemy should have a target");
    assert_eq!(target.unwrap(), unit, "Enemy should target unit, not worker");
}

#[test]
fn range_aware_movement_stops_at_range() {
    let mut world = World::new();
    let range: i64 = 50_000;
    let unit = spawn_unit(&mut world, pos(0, 0), Shape::Square, 1);
    let mut c = world.get(unit).unwrap();
    c.attack_range = Some(range);
    world.set(unit, c);

    let enemy = spawn_enemy(&mut world, pos(100_000, 0), Shape::Triangle, 1);
    let mut c = world.get(unit).unwrap();
    c.target = Some(enemy);
    world.set(unit, c);

    update_combat_movement(&mut world, TICK);
    let p = world.get(unit).unwrap().pos.unwrap();
    assert!(p.x > 0, "Unit should move towards enemy when far away");

    let mut c = world.get(unit).unwrap();
    c.pos = Some(pos(60_000, 0));
    world.set(unit, c);
    update_combat_movement(&mut world, TICK);
    let p = world.get(unit).unwrap().pos.unwrap();
    assert_eq!(p.x, 60_000, "Unit should NOT move when within attack range");

    let mut c = world.get(unit).unwrap();
    c.pos = Some(pos(50_000, 0));
    world.set(unit, c);
    update_combat_movement(&mut world, TICK);
    let p = world.get(unit).unwrap().pos.unwrap();
    assert_eq!(p.x, 50_000, "Unit should NOT move when exactly at attack range");
}

#[test]
fn units_separate_when_overlapping() {
    let mut world = World::new();
    let radius: i64 = 10_000;
    let unit_a = spawn_unit(&mut world, pos(100_000, 100_000), Shape::Square, 1);
    let mut c = world.get(unit_a).unwrap();
    c.radius = Some(radius);
    world.set(unit_a, c);

    let unit_b = spawn_unit(&mut world, pos(105_000, 100_000), Shape::Square, 1);
    let mut c = world.get(unit_b).unwrap();
    c.radius = Some(radius);
    world.set(unit_b, c);

    update_combat_movement(&mut world, TICK);

    let pa = world.get(unit_a).unwrap().pos.unwrap();
    let pb = world.get(unit_b).unwrap().pos.unwrap();
    assert!(pa.x < 100_000, "Unit A should move away from Unit B (Left)");
    assert!(pb.x > 105_000, "Unit B should move away from Unit A (Right)");
}

#[test]
fn unit_can_attack_only_when_in_range() {
    let mut world = World::new();
    let range: i64 = 50_000;
    let unit = spawn_unit(&mut world, pos(0, 0), Shape::Square, 1);
    let enemy = spawn_enemy(&mut world, pos(100_000, 0), Shape::Triangle, 1);
    let mut c = world.get(unit).unwrap();
    c.attack_range = Some(range);
    c.target = Some(enemy);
    world.set(unit, c);

    update_combat_movement(&mut world, TICK);
    assert!(
        !world.get(unit).unwrap().in_attack_range,
        "Should NOT have InAttackRange when far away"
    );

    let mut c = world.get(unit).unwrap();
    c.pos = Some(pos(60_000, 0));
    world.set(unit, c);
    update_combat_movement(&mut world, TICK);
    assert!(
        world.get(unit).unwrap().in_attack_range,
        "Should have InAttackRange when within range"
    );

    let mut c = world.get(unit).unwrap();
    c.pos = Some(pos(0, 0));
    world.set(unit, c);
    update_combat_movement(&mut world, TICK);
    assert!(
        !world.get(unit).unwrap().in_attack_range,
        "Should remove InAttackRange when moving out of range"
    );
}

#[test]
fn entities_stay_within_bounds() {
    let mut world = World::new();
    let radius: i64 = 10_000;
    let unit = spawn_unit(&mut world, pos(5_000, 5_000), Shape::Square, 1);
    let mut c = world.get(unit).unwrap();
    c.radius = Some(radius);
    world.set(unit, c);

    for _ in 0..10 {
        let _ = spawn_unit(&mut world, pos(15_000, 15_000), Shape::Square, 1);
    }

    for _ in 0..100 {
        update_combat_movement(&mut world, TICK);
    }

    let p = world.get(unit).unwrap().pos.unwrap();
    assert!(
        p.x >= radius,
        "Entity should not be pushed off the left edge (x={}, radius={})",
        p.x,
        radius
    );
    assert!(
        p.y >= radius,
        "Entity should not be pushed off the top edge (y={}, radius={})",
        p.y,
        radius
    );
    assert!(
        p.x <= 600_000 - radius,
        "Entity should not be pushed off the board edge (x={}, limit={})",
        p.x,
        600_000 - radius
    );
}

#[test]
fn combat_system_applies_damage() {
    let mut world = World::new();

    let mut ac = Components::empty();
    ac.in_attack_range = true;
    ac.attack_stats = Some(AttackStats {
        damage: 10_000,
        rate: 1_000,
        damage_type: DamageType::PhysicalBasic,
    });
    ac.combat_profile = Some(CombatProfile {
        primary: AttackProfile {
            damage: 10_000,
            rate: 1_000,
            range: 45_000,
            damage_type: DamageType::PhysicalBasic,
        },
        secondary: None,
        mana_cost: 0,
    });
    ac.attack_timer = Some(0);
    let attacker = world.spawn(ac);

    let mut tc = Components::empty();
    tc.health = Some(Health { current: 100_000, max: 100_000 });
    let target = world.spawn(tc);

    let mut c = world.get(attacker).unwrap();
    c.target = Some(target);
    world.set(attacker, c);

    let _ = process_combat(&mut world, 100);
    assert_eq!(
        world.get(target).unwrap().health.unwrap().current,
        90_000,
        "Target should have lost 10 HP"
    );
    assert_eq!(
        world.get(attacker).unwrap().attack_timer.unwrap(),
        1_000,
        "Timer should be reset to 1.0"
    );

    let _ = process_combat(&mut world, 500);
    assert_eq!(
        world.get(target).unwrap().health.unwrap().current,
        90_000,
        "Target should NOT have lost more HP yet"
    );
    assert_eq!(
        world.get(attacker).unwrap().attack_timer.unwrap(),
        500,
        "Timer should have decreased by 0.5"
    );

    let _ = process_combat(&mut world, 500);
    assert_eq!(
        world.get(target).unwrap().health.unwrap().current,
        80_000,
        "Target should have lost another 10 HP"
    );
    assert_eq!(
        world.get(attacker).unwrap().attack_timer.unwrap(),
        1_000,
        "Timer should be reset again"
    );
}

#[test]
fn cleanup_removes_dead_entities() {
    let mut world = World::new();
    let mut c = Components::empty();
    c.health = Some(Health { current: 10_000, max: 100_000 });
    let alive = world.spawn(c);
    let mut c = Components::empty();
    c.health = Some(Health { current: 0, max: 100_000 });
    let dead = world.spawn(c);
    let mut c = Components::empty();
    c.health = Some(Health { current: -5_000, max: 100_000 });
    let overkill = world.spawn(c);

    cleanup_dead_entities(&mut world);

    assert!(world.contains(alive), "Alive entity should still exist");
    assert!(!world.contains(dead), "Dead entity should be removed");
    assert!(!world.contains(overkill), "Overkill entity should be removed");
}

#[test]
fn mana_regeneration_works() {
    let mut world = World::new();
    let mut c = Components::empty();
    c.mana = Some(Mana { current: 10_000, max: 100_000, regen: 5_000 });
    let unit = world.spawn(c);

    update_mana(&mut world, 500);
    assert_eq!(
        world.get(unit).unwrap().mana.unwrap().current,
        12_500,
        "Should regenerate 2.5 mana in 0.5s"
    );

    let mut c = Components::empty();
    c.mana = Some(Mana { current: 99_000, max: 100_000, regen: 5_000 });
    let unit_max = world.spawn(c);

    update_mana(&mut world, 500);
    assert_eq!(
        world.get(unit_max).unwrap().mana.unwrap().current,
        100_000,
        "Should cap at max mana"
    );
}

#[test]
fn targeting_handles_removed_entities() {
    let mut world = World::new();
    let unit = spawn_unit(&mut world, pos(0, 0), Shape::Circle, 1);
    let enemy = spawn_enemy(&mut world, pos(10_000, 10_000), Shape::Circle, 1);

    update_targeting(&mut world);
    assert_eq!(world.get(unit).unwrap().target.unwrap(), enemy);

    world.despawn(enemy);

    update_targeting(&mut world);
    assert!(
        world.get(unit).unwrap().target.is_none(),
        "Unit should no longer have a target if the target is gone"
    );
}

#[test]
fn test_combat_reset() {
    let mut world = World::new();

    let home = pos(100_000, 300_000);
    let mut c = Components::empty();
    c.pos = Some(pos(home.x + 50_000, home.y + 50_000));
    c.home = Some(home);
    c.health = Some(Health { current: 50_000, max: 100_000 });
    c.mana = Some(Mana { current: 10_000, max: 50_000, regen: 1_000 });
    let unit = world.spawn(c);

    let mut e = Components::empty();
    e.pos = Some(pos(800_000 + 100_000, 300_000));
    e.enemy = true;
    let _ = world.spawn(e);

    update_combat_reset(&mut world);

    let c = world.get(unit).unwrap();
    let p = c.pos.unwrap();
    let h = c.health.unwrap();
    let m = c.mana.unwrap();
    assert_eq!(p.x, home.x);
    assert_eq!(p.y, home.y);
    assert_eq!(h.current, h.max);
    assert_eq!(m.current, m.max);
}

#[test]
fn test_targeting_isolation() {
    let mut world = World::new();
    let mut c = Components::empty();
    c.pos = Some(pos(100_000, 300_000));
    c.radius = Some(10_000);
    let unit = world.spawn(c);

    let mut c = Components::empty();
    c.pos = Some(pos(800_000 + 100_000, 300_000));
    c.enemy = true;
    c.radius = Some(10_000);
    let enemy = world.spawn(c);

    update_targeting(&mut world);

    assert!(
        world.get(unit).unwrap().target.is_none(),
        "Unit on Left Board should NOT target Enemy on Right Board"
    );
    assert!(
        world.get(enemy).unwrap().target.is_none(),
        "Enemy on Right Board should NOT target Unit on Left Board"
    );
}

#[test]
fn physical_simulation_cycle() {
    let mut world = World::new();
    let unit = spawn_unit(&mut world, pos(0, 0), Shape::Circle, 1);
    let enemy = spawn_enemy(&mut world, pos(100_000, 0), Shape::Circle, 1);

    update_targeting(&mut world);
    assert_eq!(world.get(unit).unwrap().target.unwrap(), enemy);

    for _ in 0..100 {
        update_combat_movement(&mut world, TICK);
    }
    assert!(world.get(unit).unwrap().in_attack_range);

    let initial = world.get(enemy).unwrap().health.unwrap().current;
    let _ = process_combat(&mut world, TICK);
    let after = world.get(enemy).unwrap().health.unwrap().current;
    assert!(after < initial, "Enemy should have taken damage");

    let mut c = world.get(enemy).unwrap();
    c.health = Some(Health { current: 0, max: c.health.unwrap().max });
    world.set(enemy, c);
    cleanup_dead_entities(&mut world);
    assert!(!world.contains(enemy), "Enemy should be removed from world");

    update_targeting(&mut world);
    assert!(
        world.get(unit).unwrap().target.is_none(),
        "Unit should have no target after enemy is dead"
    );
}

#[test]
fn mage_switches_to_melee_when_out_of_mana() {
    let fireball_cost: i64 = 20_000;
    let melee_damage: i64 = 2_000;
    let fireball_damage: i64 = 10_000;
    let ranged_range: i64 = 150_000;
    let melee_range: i64 = 45_000;

    let mut world = World::new();
    let mut mc = Components::empty();
    mc.in_attack_range = true;
    mc.attack_stats = Some(AttackStats {
        damage: fireball_damage,
        rate: 1_000,
        damage_type: DamageType::FireMagical,
    });
    mc.attack_range = Some(ranged_range);
    mc.combat_profile = Some(CombatProfile {
        primary: AttackProfile {
            damage: fireball_damage,
            rate: 1_000,
            range: ranged_range,
            damage_type: DamageType::FireMagical,
        },
        secondary: Some(AttackProfile {
            damage: melee_damage,
            rate: 1_000,
            range: melee_range,
            damage_type: DamageType::PhysicalBasic,
        }),
        mana_cost: fireball_cost,
    });
    mc.attack_timer = Some(0);
    mc.mana = Some(Mana { current: fireball_cost, max: 100_000, regen: 0 });
    let mage = world.spawn(mc);

    let mut tc = Components::empty();
    tc.health = Some(Health { current: 100_000, max: 100_000 });
    let target = world.spawn(tc);

    let mut c = world.get(mage).unwrap();
    c.target = Some(target);
    world.set(mage, c);

    update_active_combat_stats(&mut world);
    let _ = process_combat(&mut world, 100);
    assert_eq!(
        world.get(target).unwrap().health.unwrap().current,
        100_000 - fireball_damage,
        "Should deal fireball damage"
    );
    assert_eq!(
        world.get(mage).unwrap().mana.unwrap().current,
        0,
        "Should consume mana for fireball"
    );

    let mut c = world.get(mage).unwrap();
    c.attack_timer = Some(0);
    world.set(mage, c);
    update_active_combat_stats(&mut world);
    let _ = process_combat(&mut world, 100);
    assert_eq!(
        world.get(target).unwrap().health.unwrap().current,
        100_000 - fireball_damage - melee_damage,
        "Should deal weak melee damage when out of mana"
    );
    assert_eq!(
        world.get(mage).unwrap().attack_stats.unwrap().damage_type,
        DamageType::PhysicalBasic,
        "Should switch to PhysicalBasic when out of mana"
    );
    assert_eq!(
        world.get(mage).unwrap().attack_range.unwrap(),
        melee_range,
        "Should switch to melee range"
    );

    let mut c = world.get(mage).unwrap();
    c.mana = Some(Mana { current: fireball_cost, max: 100_000, regen: 0 });
    c.attack_timer = Some(0);
    world.set(mage, c);
    update_active_combat_stats(&mut world);
    let _ = process_combat(&mut world, 100);
    assert_eq!(
        world.get(target).unwrap().health.unwrap().current,
        100_000 - fireball_damage - melee_damage - fireball_damage,
        "Should deal fireball damage again after mana regen"
    );
    assert_eq!(
        world.get(mage).unwrap().attack_stats.unwrap().damage_type,
        DamageType::FireMagical,
        "Should switch back to FireMagical when mana is sufficient"
    );
    assert_eq!(
        world.get(mage).unwrap().attack_range.unwrap(),
        ranged_range,
        "Should switch back to ranged range"
    );
}

#[test]
fn target_reacquisition_after_kill() {
    let mut world = World::new();
    let unit = spawn_unit(&mut world, pos(0, 0), Shape::Circle, 1);
    let enemy1 = spawn_enemy(&mut world, pos(10_000, 0), Shape::Circle, 1);
    let enemy2 = spawn_enemy(&mut world, pos(100_000, 0), Shape::Circle, 1);

    update_targeting(&mut world);
    assert_eq!(world.get(unit).unwrap().target.unwrap(), enemy1);

    let mut c = world.get(enemy1).unwrap();
    c.health = Some(Health { current: 0, max: c.health.unwrap().max });
    world.set(enemy1, c);
    cleanup_dead_entities(&mut world);
    assert!(!world.contains(enemy1));

    update_targeting(&mut world);
    let target = world.get(unit).unwrap().target;
    assert!(target.is_some(), "Unit should have a new target");
    assert_eq!(target.unwrap(), enemy2, "Unit should now target the second enemy");
}

#[test]
fn process_combat_returns_events() {
    let mut world = World::new();
    let mut ac = Components::empty();
    ac.pos = Some(pos(0, 0));
    ac.in_attack_range = true;
    ac.attack_stats = Some(AttackStats {
        damage: 10_000,
        rate: 1_000,
        damage_type: DamageType::PhysicalPierce,
    });
    ac.attack_timer = Some(0);
    let attacker = world.spawn(ac);

    let mut tc = Components::empty();
    tc.pos = Some(pos(10_000, 0));
    tc.health = Some(Health { current: 100_000, max: 100_000 });
    let target = world.spawn(tc);

    let mut c = world.get(attacker).unwrap();
    c.target = Some(target);
    world.set(attacker, c);

    let events = process_combat(&mut world, 100);

    assert_eq!(events.len(), 1, "Should return 1 combat event");
    let event = &events[0];
    assert_eq!(event.attacker_id, attacker.idx);
    assert_eq!(event.target_id, target.idx);
    assert_eq!(event.attack_type, DamageType::PhysicalPierce);
    assert_eq!(event.start_pos, pos(0, 0));
    assert_eq!(event.end_pos, pos(10_000, 0));
}

#[test]
fn combat_movement_ignores_workers() {
    let mut world = World::new();
    let mut wc = Components::empty();
    wc.pos = Some(pos(700_000, 100_000));
    wc.worker = true;
    wc.radius = Some(10_000);
    let worker = world.spawn(wc);

    let mut uc = Components::empty();
    uc.pos = Some(pos(595_000, 100_000));
    uc.radius = Some(10_000);
    let _unit = world.spawn(uc);

    update_combat_movement(&mut world, 100);

    let wp = world.get(worker).unwrap().pos.unwrap();
    assert_eq!(wp.x, 700_000, "Worker should not be clamped to board");
    assert_eq!(wp.y, 100_000, "Worker should not be moved by combat systems");

    let mut world2 = World::new();
    let mut wc = Components::empty();
    wc.pos = Some(pos(595_000, 100_000));
    wc.worker = true;
    wc.radius = Some(10_000);
    let _worker2 = world2.spawn(wc);

    let mut uc = Components::empty();
    uc.pos = Some(pos(590_000, 100_000));
    uc.radius = Some(10_000);
    let unit2 = world2.spawn(uc);

    update_combat_movement(&mut world2, 100);

    let up = world2.get(unit2).unwrap().pos.unwrap();
    assert_eq!(up.x, 590_000, "Unit should not be pushed by overlapping worker");
}
