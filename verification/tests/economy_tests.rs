use wavetd::components::{Components, Position, TargetPositions, WorkerState};
use wavetd::game_loop::advance_tick;
use wavetd::game_state::GamePhase;
use wavetd::lobby::{CommandError, Lobby};
use wavetd::player::Player;
use wavetd::session::{validate_session, Account, Claims};
use wavetd::shape::Shape;
use wavetd::snapshot::encode_gamestate;
use wavetd::spawn::spawn_enemy;
use wavetd::worker::update_workers;

const TICK: i64 = 33;

fn pos(x: i64, y: i64) -> Position {
    Position { x, y }
}

fn player(id: i64, gold: u32) -> Player {
    Player { id, username: "test".to_string(), gold }
}

#[test]
fn player_has_gold_field() {
    let p = player(1, 100);
    assert_eq!(p.gold, 100);
}

#[test]
fn test_player_can_afford() {
    let p = player(1, 100);
    assert!(p.can_afford(50));
    assert!(p.can_afford(100));
    assert!(!p.can_afford(101));
}

#[test]
fn test_player_try_spend_gold() {
    let mut p = player(1, 100);

    assert!(p.try_spend_gold(40));
    assert_eq!(p.gold, 60);

    assert!(p.try_spend_gold(60));
    assert_eq!(p.gold, 0);

    assert!(!p.try_spend_gold(1));
    assert_eq!(p.gold, 0);
}

#[test]
fn worker_behavior_cycle() {
    let mut lobby = Lobby::new();
    lobby.game_state.phase = GamePhase::Combat;
    lobby.players.push(player(1, 0));

    let vein = pos(700_000, 50_000);
    let cart = pos(700_000, 250_000);
    let targets = TargetPositions { vein, cart };

    let mut wc = Components::empty();
    wc.pos = Some(cart);
    wc.worker = true;
    wc.worker_state = Some(WorkerState::MovingToVein);
    wc.owner = Some(1);
    wc.targets = Some(targets);
    let worker = lobby.game_state.world.spawn(wc);

    update_workers(&mut lobby, TICK);
    let p = lobby.game_state.world.get(worker).unwrap().pos.unwrap();
    assert!(p.y < cart.y, "Worker should move North (decrease Y)");

    let mut c = lobby.game_state.world.get(worker).unwrap();
    c.pos = Some(vein);
    lobby.game_state.world.set(worker, c);
    update_workers(&mut lobby, TICK);
    let c = lobby.game_state.world.get(worker).unwrap();
    assert_eq!(c.worker_state.unwrap(), WorkerState::Mining);
    assert!(c.mining_timer.is_some());

    let mut c = lobby.game_state.world.get(worker).unwrap();
    c.mining_timer = Some(0);
    lobby.game_state.world.set(worker, c);
    update_workers(&mut lobby, TICK);
    let c = lobby.game_state.world.get(worker).unwrap();
    assert_eq!(c.worker_state.unwrap(), WorkerState::MovingToCart);

    let mut c = lobby.game_state.world.get(worker).unwrap();
    c.pos = Some(cart);
    lobby.game_state.world.set(worker, c);
    update_workers(&mut lobby, TICK);
    let c = lobby.game_state.world.get(worker).unwrap();
    assert_eq!(c.worker_state.unwrap(), WorkerState::MovingToVein);

    assert_eq!(lobby.players[0].gold, 1);
}

#[test]
fn test_workers_stay_idle_during_build_phase() {
    let mut lobby = Lobby::new();
    lobby.players.push(player(1, 100));

    assert!(matches!(lobby.game_state.phase, GamePhase::Build));

    let initial = pos(700_000, 250_000);
    let targets = TargetPositions {
        vein: pos(700_000, 50_000),
        cart: pos(700_000, 250_000),
    };

    let mut wc = Components::empty();
    wc.pos = Some(initial);
    wc.worker = true;
    wc.worker_state = Some(WorkerState::MovingToVein);
    wc.owner = Some(1);
    wc.targets = Some(targets);
    let worker = lobby.game_state.world.spawn(wc);

    update_workers(&mut lobby, TICK);

    let c = lobby.game_state.world.get(worker).unwrap();
    let p = c.pos.unwrap();
    assert_eq!(p.x, initial.x);
    assert_eq!(p.y, initial.y, "Worker should not move during Build phase");
    assert_eq!(
        c.worker_state.unwrap(),
        WorkerState::MovingToVein,
        "Worker state should not change during Build phase"
    );
}

#[test]
fn place_in_wrong_phase() {
    let mut lobby = Lobby::new();
    assert!(lobby.add_player(player(1, 100)));
    lobby.game_state.phase = GamePhase::Combat;

    let r = lobby.place(1, Shape::Square, 1, 1);
    assert_eq!(r, Err(CommandError::WrongPhase));
    assert_eq!(
        CommandError::WrongPhase.message(),
        "Tower placement is only allowed during the build phase."
    );
    assert_eq!(lobby.players[0].gold, 100);
    assert_eq!(lobby.game_state.world.live_count(), 0);
}

#[test]
fn place_with_insufficient_gold() {
    let mut lobby = Lobby::new();
    assert!(lobby.add_player(player(1, 10)));

    let r = lobby.place(1, Shape::Square, 1, 1);
    assert_eq!(r, Err(CommandError::InsufficientGold(Shape::Square)));
    assert_eq!(
        CommandError::InsufficientGold(Shape::Square).message(),
        "Insufficient gold for Square (cost: 25)"
    );
    assert_eq!(lobby.players[0].gold, 10);
    assert_eq!(lobby.game_state.world.live_count(), 0);
}

#[test]
fn place_and_sell_round_trip() {
    let mut lobby = Lobby::new();
    assert!(lobby.add_player(player(1, 100)));

    let e = lobby.place(1, Shape::Square, 1, 1).expect("placement should succeed");
    assert_eq!(lobby.players[0].gold, 75);
    let c = lobby.game_state.world.get(e).unwrap();
    assert_eq!(c.shape.unwrap(), Shape::Square);
    assert_eq!(c.pos.unwrap(), pos(90_000, 90_000));

    assert!(lobby.sell_by_id(1, e.idx));
    assert_eq!(lobby.players[0].gold, 93);
    assert!(!lobby.game_state.world.contains(e));
}

#[test]
fn sell_fails_outside_build_or_for_strangers() {
    let mut lobby = Lobby::new();
    assert!(lobby.add_player(player(1, 100)));
    let e = lobby.place(1, Shape::Square, 1, 1).expect("placement should succeed");

    // Not the owner: ignored.
    assert!(!lobby.sell_by_id(2, e.idx));
    // Stale index: ignored.
    assert!(!lobby.sell_by_id(1, e.idx + 7));
    // Wrong phase: ignored.
    lobby.game_state.phase = GamePhase::Combat;
    assert!(!lobby.sell_by_id(1, e.idx));
    assert_eq!(lobby.players[0].gold, 75);
    assert!(lobby.game_state.world.contains(e));
}

#[test]
fn hire_worker_costs_fifty() {
    let mut lobby = Lobby::new();
    assert!(lobby.add_player(player(1, 100)));

    let e = lobby.hire_worker(1).expect("hire should succeed");
    assert_eq!(lobby.players[0].gold, 50);
    let c = lobby.game_state.world.get(e).unwrap();
    assert!(c.worker);
    assert_eq!(c.pos.unwrap(), pos(700_000, 250_000));

    let r = lobby.hire_worker(2);
    assert_eq!(r, Err(CommandError::UnknownPlayer));

    lobby.players[0].gold = 10;
    let r = lobby.hire_worker(1);
    assert_eq!(r, Err(CommandError::InsufficientGoldForWorker));
    assert_eq!(lobby.players[0].gold, 10);
}

#[test]
fn wave_clear_and_bonus() {
    let mut lobby = Lobby::new();
    assert!(lobby.add_player(player(1, 100)));
    assert!(lobby.add_player(player(2, 40)));
    lobby.game_state.phase = GamePhase::Combat;
    lobby.game_state.wave_number = 1;

    // No enemies: the tick clears the wave.
    let events = advance_tick(&mut lobby, TICK);
    assert!(events.is_empty());
    assert_eq!(lobby.game_state.phase, GamePhase::Build);
    assert_eq!(lobby.game_state.wave_number, 2);
    assert_eq!(lobby.game_state.phase_timer, 30_000);
    assert_eq!(lobby.players[0].gold, 150);
    assert_eq!(lobby.players[1].gold, 90);
}

#[test]
fn final_wave_clear_is_victory() {
    let mut lobby = Lobby::new();
    assert!(lobby.add_player(player(1, 100)));
    lobby.game_state.phase = GamePhase::Combat;
    lobby.game_state.wave_number = 6;

    let _ = advance_tick(&mut lobby, TICK);
    assert_eq!(lobby.game_state.phase, GamePhase::Victory);
    assert_eq!(lobby.game_state.wave_number, 6);
}

#[test]
fn build_countdown_spawns_wave() {
    let mut lobby = Lobby::new();
    assert!(lobby.add_player(player(1, 100)));
    assert!(lobby.add_player(player(2, 100)));
    lobby.game_state.phase_timer = TICK;

    let _ = advance_tick(&mut lobby, TICK);
    assert_eq!(lobby.game_state.phase, GamePhase::Combat);
    // Six workers seeded plus wave one's two squares on each board.
    assert_eq!(lobby.game_state.world.live_count(), 6 + 4);
}

#[test]
fn combat_tick_keeps_phase_while_enemies_live() {
    let mut lobby = Lobby::new();
    assert!(lobby.add_player(player(1, 100)));
    lobby.game_state.phase = GamePhase::Combat;
    let _ = spawn_enemy(&mut lobby.game_state.world, pos(300_000, 30_000), Shape::Square, 1);

    let _ = advance_tick(&mut lobby, TICK);
    assert_eq!(lobby.game_state.phase, GamePhase::Combat);
}

#[test]
fn skip_to_combat_zeroes_timer() {
    let mut lobby = Lobby::new();
    assert_eq!(lobby.game_state.phase_timer, 30_000);
    lobby.skip_to_combat();
    assert_eq!(lobby.game_state.phase_timer, 0);
}

#[test]
fn lobby_seats_at_most_two() {
    let mut lobby = Lobby::new();
    assert!(lobby.add_player(player(1, 100)));
    assert!(lobby.add_player(player(2, 100)));
    assert!(!lobby.add_player(player(3, 100)));
    assert_eq!(lobby.players.len(), 2);
}

#[test]
fn removing_last_player_resets_lobby() {
    let mut lobby = Lobby::new();
    assert!(lobby.add_player(player(1, 100)));
    assert!(lobby.add_player(player(2, 100)));
    let e1 = lobby.place(1, Shape::Square, 0, 0).expect("placement should succeed");
    let e2 = lobby.place(2, Shape::Square, 0, 0).expect("placement should succeed");

    lobby.remove_player(1);
    assert_eq!(lobby.players.len(), 1);
    assert!(!lobby.game_state.world.contains(e1), "owner's units despawn");
    assert!(lobby.game_state.world.contains(e2));

    lobby.remove_player(2);
    assert_eq!(lobby.players.len(), 0);
    assert_eq!(lobby.game_state.world.len(), 0);
    assert_eq!(lobby.game_state.phase, GamePhase::Build);
    assert_eq!(lobby.game_state.phase_timer, 30_000);
    assert_eq!(lobby.game_state.wave_number, 1);
}

#[test]
fn unit_info_quotes_sell_value_to_owner_only() {
    let mut lobby = Lobby::new();
    assert!(lobby.add_player(player(1, 100)));
    let e = lobby.place(1, Shape::Triangle, 2, 3).expect("placement should succeed");

    let info = lobby.request_unit_info(1, e.idx).expect("owner should see info");
    assert_eq!(info.damage, 10_000);
    assert_eq!(info.range, 150_000);
    assert_eq!(info.sell_value, Some(30));
    assert!(!info.is_boss);

    let other = lobby.request_unit_info(2, e.idx).expect("info is public");
    assert_eq!(other.sell_value, None);

    assert!(lobby.request_unit_info(1, e.idx + 9).is_none());
}

#[test]
fn snapshot_reflects_world_and_roster() {
    let mut lobby = Lobby::new();
    assert!(lobby.add_player(player(7, 100)));
    let e = lobby.place(7, Shape::Circle, 1, 1).expect("placement should succeed");

    let g = encode_gamestate(&lobby);
    assert_eq!(g.players.len(), 1);
    assert_eq!(g.players[0].id, 7);
    assert_eq!(g.players[0].gold, 25);
    assert_eq!(g.phase, GamePhase::Build);
    assert_eq!(g.units.len(), 1);
    let u = &g.units[0];
    assert_eq!(u.id, e.idx);
    assert_eq!(u.shape, Shape::Circle);
    assert_eq!(u.owner_id, 7);
    assert!(!u.is_enemy);
    assert!(!u.is_worker);
    assert_eq!(u.current_mana, Some(100_000));
}

#[test]
fn session_validation_checks_binding_and_expiry() {
    let claims = Claims::new("alice".to_string(), "sid-1".to_string(), 2_000);
    let account = Account {
        id: 1,
        username: "alice".to_string(),
        password_hash: "SECRET-REDACTED".to_string(),
        session_id: Some("sid-1".to_string()),
        session_expires_at: Some(1_500),
    };
    assert!(validate_session(&claims, &account, 1_000));
    assert!(!validate_session(&claims, &account, 1_501));

    let mut other = account;
    other.session_id = Some("sid-2".to_string());
    assert!(!validate_session(&claims, &other, 1_000));
    other.session_id = None;
    assert!(!validate_session(&claims, &other, 1_000));
}
