use wavetd::catalog::get_unit_profile;
use wavetd::components::Position;
use wavetd::shape::{DamageType, Shape};
use wavetd::spawn::{spawn_enemy, spawn_unit};
use wavetd::wave::{get_wave_config, scaled_stat};
use wavetd::world::World;

fn pos(x: i64, y: i64) -> Position {
    Position { x, y }
}

#[test]
fn spawn_helpers_apply_shape_radii() {
    let mut world = World::new();
    let square = spawn_unit(&mut world, pos(0, 0), Shape::Square, 1);
    let circle = spawn_unit(&mut world, pos(0, 0), Shape::Circle, 1);
    let triangle = spawn_unit(&mut world, pos(0, 0), Shape::Triangle, 1);

    assert_eq!(world.get(square).unwrap().radius.unwrap(), 20_000 + 2_000);
    assert_eq!(world.get(circle).unwrap().radius.unwrap(), 20_000);
    assert_eq!(world.get(triangle).unwrap().radius.unwrap(), 20_000 - 2_000);
}

#[test]
fn spawn_initializes_combat_components() {
    let mut world = World::new();
    let unit_pos = pos(10_000, 20_000);
    let unit = spawn_unit(&mut world, unit_pos, Shape::Circle, 1);
    let enemy_pos = pos(100_000, 200_000);
    let enemy = spawn_enemy(&mut world, enemy_pos, Shape::Circle, 1);

    for (entity, p) in [(unit, unit_pos), (enemy, enemy_pos)] {
        let c = world.get(entity).unwrap();
        assert!(c.health.is_some(), "Should have Health");
        assert!(c.attack_stats.is_some(), "Should have AttackStats");
        assert!(c.attack_timer.is_some(), "Should have AttackTimer");
        assert!(c.home.is_some(), "Should have HomePosition");

        let health = c.health.unwrap();
        assert!(health.current > 0);
        assert_eq!(health.current, health.max);

        let stats = c.attack_stats.unwrap();
        assert!(stats.damage > 0);
        assert!(stats.rate > 0);

        let home = c.home.unwrap();
        assert_eq!(home.x, p.x);
        assert_eq!(home.y, p.y);
    }
}

#[test]
fn spawn_applies_specialized_stats() {
    let default_range: i64 = 45_000;
    let mut world = World::new();

    let triangle = spawn_unit(&mut world, pos(0, 0), Shape::Triangle, 1);
    let tc = world.get(triangle).unwrap();
    assert_eq!(tc.attack_stats.unwrap().damage_type, DamageType::PhysicalPierce);
    assert!(tc.attack_range.unwrap() > default_range, "Triangle should be ranged");

    let square = spawn_unit(&mut world, pos(0, 0), Shape::Square, 1);
    let sc = world.get(square).unwrap();
    assert_eq!(sc.attack_stats.unwrap().damage_type, DamageType::PhysicalBasic);
    assert!(sc.attack_range.unwrap() <= default_range, "Square should be melee");

    let circle = spawn_unit(&mut world, pos(0, 0), Shape::Circle, 1);
    let cc = world.get(circle).unwrap();
    assert_eq!(cc.attack_stats.unwrap().damage_type, DamageType::FireMagical);
    assert!(cc.attack_range.unwrap() > default_range, "Circle should be ranged (Mage)");
    assert!(cc.mana.is_some(), "Circle (Mage) should have mana");
}

#[test]
fn test_enemy_scaling_is_applied() {
    let mut world = World::new();
    let wave = 3;
    let enemy = spawn_enemy(&mut world, pos(0, 0), Shape::Square, wave);
    let c = world.get(enemy).unwrap();

    // 1.2^2 = 1.44: base health 100 -> 144, base damage 10 -> 14.4.
    assert_eq!(c.health.unwrap().max, 144_000);
    assert_eq!(c.attack_stats.unwrap().damage, 14_400);
}

#[test]
fn test_wave_6_boss_spawning() {
    let mut world = World::new();
    let wave = 6;
    let enemy = spawn_enemy(&mut world, pos(0, 0), Shape::Circle, wave);
    let c = world.get(enemy).unwrap();

    assert!(c.boss, "Wave 6 should have Boss component");

    // 1.2^5 = 2.48832: health 100 * 2.48832 * 10, damage
    // floor(10 * 2.48832) * 3, in milli-points.
    assert_eq!(c.health.unwrap().max, 2_488_320);
    assert_eq!(c.attack_stats.unwrap().damage, 74_649);
}

#[test]
fn test_scaling_multiplier() {
    // The scaling factor is 1.2^(wave - 1), applied exactly as the
    // fraction 12^(wave-1) / 10^(wave-1), rounded down.
    assert_eq!(scaled_stat(1_000, 1), 1_000);
    assert_eq!(scaled_stat(1_000, 2), 1_200);
    assert_eq!(scaled_stat(10_000, 3), 14_400);
    assert_eq!(scaled_stat(100_000, 6), 248_832);
}

#[test]
fn test_wave_configs() {
    let wave1 = get_wave_config(1);
    assert_eq!(wave1.enemies.len(), 2);
    assert!(!wave1.is_boss_wave);

    let wave6 = get_wave_config(6);
    assert_eq!(wave6.enemies.len(), 1);
    assert!(wave6.is_boss_wave);
}

#[test]
fn unit_profiles_have_gold_costs() {
    let square = get_unit_profile(Shape::Square);
    let triangle = get_unit_profile(Shape::Triangle);
    let circle = get_unit_profile(Shape::Circle);

    assert_eq!(square.gold_cost, 25);
    assert_eq!(triangle.gold_cost, 40);
    assert_eq!(circle.gold_cost, 75);
}
