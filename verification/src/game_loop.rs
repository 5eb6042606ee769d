use vstd::prelude::*;

use crate::combat::{
    cleanup_dead_entities, process_combat, update_active_combat_stats, update_combat_movement,
    update_combat_reset, update_mana, update_targeting,
};
use crate::components::{Components, Position, TargetPositions};
use crate::constants::{
    BOARD_CENTER_X, BUILD_PHASE_MS, ENEMY_SPAWN_Y, MAX_DT, MAX_ENTITIES, RIGHT_BOARD_START,
    WAVE_CLEAR_BONUS,
};
use crate::game_state::GamePhase;
use crate::lobby::Lobby;
use crate::messages::CombatEvent;
use crate::shape::Shape;
use crate::spawn::{enemy_comps, spawn_enemy, spawn_worker, worker_comps};
use crate::wave::{get_wave_config, wave_enemies_spec};
use crate::worker::{cart_position, update_workers, vein_position};
use crate::world::{world_in_range, Slot};

verus! {

/// Whether some live worker exists.
pub open spec fn has_any_worker(slots: Seq<Slot>) -> bool {
    exists|i: int| 0 <= i < slots.len() && (#[trigger] slots[i]).alive && slots[i].comps.worker
}

/// The three identical workers spawned for one roster slot.
pub open spec fn worker_trio(pid: i64, slot: int) -> Seq<Components> {
    let t = TargetPositions { vein: vein_position(slot), cart: cart_position(slot) };
    let c = worker_comps(pid, t);
    seq![c, c, c]
}

/// The workers spawned for the first `n` roster seats, in order.
pub open spec fn worker_batch(ps: Seq<crate::player::Player>, n: int) -> Seq<Components>
    decreases n,
{
    if n <= 0 {
        Seq::empty()
    } else {
        worker_batch(ps, n - 1) + worker_trio(
            ps[n - 1].id,
            if n - 1 == 0 {
                0int
            } else {
                1int
            },
        )
    }
}

/// The x coordinate of a board's centre-top spawn anchor.
pub open spec fn board_anchor_x(board: int) -> int {
    if board == 0 {
        BOARD_CENTER_X as int
    } else {
        RIGHT_BOARD_START + BOARD_CENTER_X
    }
}

/// The enemies of one wave spawned on one board, in script order.
pub open spec fn board_wave(shapes: Seq<Shape>, board: int, wave: u32) -> Seq<Components>
    decreases shapes.len(),
{
    if shapes.len() == 0 {
        Seq::empty()
    } else {
        board_wave(shapes.drop_last(), board, wave) + seq![
            enemy_comps(
                Position { x: board_anchor_x(board) as i64, y: ENEMY_SPAWN_Y },
                shapes.last(),
                wave,
            ),
        ]
    }
}

/// Everything a wave start spawns: the script on the left board, then
/// the same script on the right board.
pub open spec fn wave_spawns(wave: u32) -> Seq<Components> {
    board_wave(wave_enemies_spec(wave), 0, wave) + board_wave(wave_enemies_spec(wave), 1, wave)
}

/// A sequence of slots all live with the given component sets.
pub open spec fn live_slots(cs: Seq<Components>) -> Seq<Slot> {
    cs.map_values(|c: Components| Slot { alive: true, comps: c })
}

proof fn lemma_board_wave_len(shapes: Seq<Shape>, board: int, wave: u32)
    ensures
        board_wave(shapes, board, wave).len() == shapes.len(),
    decreases shapes.len(),
{
    if shapes.len() > 0 {
        lemma_board_wave_len(shapes.drop_last(), board, wave);
    }
}

/// One build-phase tick. With a full roster it seeds the economy
/// (three workers per player, once), counts the build timer down, and
/// on expiry starts combat by spawning the current wave's script at
/// both boards' centre-top anchors. With a seat still free, nothing
/// happens.
#[verifier::loop_isolation(false)]
#[verifier::rlimit(100)]
pub fn build_tick(lobby: &mut Lobby, tick_delta: i64)
    requires
        world_in_range(old(lobby).game_state.world.slots@),
        old(lobby).game_state.world.slots@.len() + 16 <= MAX_ENTITIES,
        0 <= tick_delta <= MAX_DT,
        -1_000_000_000 <= old(lobby).game_state.phase_timer <= 1_000_000_000,
        old(lobby).game_state.phase == GamePhase::Build,
    ensures
        old(lobby).players@.len() != 2 ==> *final(lobby) == *old(lobby),
        old(lobby).players@.len() == 2 ==> {
            let slots1 = old(lobby).game_state.world.slots@ + if has_any_worker(
                old(lobby).game_state.world.slots@,
            ) {
                Seq::<Slot>::empty()
            } else {
                live_slots(worker_batch(old(lobby).players@, 2))
            };
            let timer1 = old(lobby).game_state.phase_timer - tick_delta;
            &&& final(lobby).players@ == old(lobby).players@
            &&& final(lobby).game_state.wave_number == old(lobby).game_state.wave_number
            &&& final(lobby).game_state.phase_timer == timer1
            &&& (timer1 > 0 ==> final(lobby).game_state.phase == GamePhase::Build && final(lobby).game_state.world.slots@ == slots1)
            &&& (timer1 <= 0 ==> final(lobby).game_state.phase == GamePhase::Combat && final(lobby).game_state.world.slots@ == slots1 + live_slots(
                wave_spawns(old(lobby).game_state.wave_number),
            ))
        },
        world_in_range(final(lobby).game_state.world.slots@),
{
    if lobby.players.len() != 2 {
        return ;
    }

    // Seed the economy once: three workers per seated player.
    let has_worker = {
        let n = lobby.game_state.world.slots.len();
        let mut found = false;
        let mut i: usize = 0;
        while i < n
            invariant
                i <= n,
                n == lobby.game_state.world.slots@.len(),
                found == exists|j: int|
                    0 <= j < i && (#[trigger] lobby.game_state.world.slots@[j]).alive
                        && lobby.game_state.world.slots@[j].comps.worker,
            decreases n - i,
        {
            let s = lobby.game_state.world.slots[i];
            if s.alive && s.comps.worker {
                found = true;
            }
            i = i + 1;
        }
        found
    };
    proof {
        assert(has_worker == has_any_worker(lobby.game_state.world.slots@));
    }
    if !has_worker {
        let ghost before = lobby.game_state.world.slots@;
        let mut k: usize = 0;
        while k < 2
            invariant
                k <= 2,
                lobby.players@ == old(lobby).players@,
                lobby.players@.len() == 2,
                lobby.game_state.world.slots@ == before + live_slots(
                    worker_batch(old(lobby).players@, k as int),
                ),
                lobby.game_state.world.slots@.len() == before.len() + 3 * k,
                world_in_range(lobby.game_state.world.slots@),
                lobby.game_state.phase == old(lobby).game_state.phase,
                lobby.game_state.phase_timer == old(lobby).game_state.phase_timer,
                lobby.game_state.wave_number == old(lobby).game_state.wave_number,
            decreases 2 - k,
        {
            let pid = lobby.players[k].id;
            let slot: usize = if k == 0 {
                0
            } else {
                1
            };
            let targets = TargetPositions {
                vein: crate::worker::vein_anchor(slot),
                cart: crate::worker::cart_anchor(slot),
            };
            let _ = spawn_worker(&mut lobby.game_state.world, pid, targets);
            let _ = spawn_worker(&mut lobby.game_state.world, pid, targets);
            let _ = spawn_worker(&mut lobby.game_state.world, pid, targets);
            proof {
                assert(lobby.game_state.world.slots@ =~= before + live_slots(
                    worker_batch(old(lobby).players@, k as int + 1),
                ));
            }
            k = k + 1;
        }
    }

    lobby.game_state.phase_timer = lobby.game_state.phase_timer - tick_delta;
    if lobby.game_state.phase_timer <= 0 {
        lobby.game_state.phase = GamePhase::Combat;
        let wave = lobby.game_state.wave_number;
        let config = get_wave_config(wave);
        let ghost mid = lobby.game_state.world.slots@;
        let mut board: usize = 0;
        while board < 2
            invariant
                board <= 2,
                lobby.players@ == old(lobby).players@,
                lobby.game_state.phase == GamePhase::Combat,
                lobby.game_state.wave_number == wave,
                lobby.game_state.phase_timer == old(lobby).game_state.phase_timer - tick_delta,
                config.enemies@ == wave_enemies_spec(wave),
                config.enemies@.len() <= 4,
                board == 0 ==> lobby.game_state.world.slots@ == mid,
                board == 1 ==> lobby.game_state.world.slots@ == mid + live_slots(
                    board_wave(wave_enemies_spec(wave), 0, wave),
                ),
                board == 2 ==> lobby.game_state.world.slots@ == mid + live_slots(
                    board_wave(wave_enemies_spec(wave), 0, wave),
                ) + live_slots(board_wave(wave_enemies_spec(wave), 1, wave)),
                lobby.game_state.world.slots@.len() <= mid.len() + 8,
                mid.len() <= old(lobby).game_state.world.slots@.len() + 6,
                world_in_range(lobby.game_state.world.slots@),
            decreases 2 - board,
        {
            let x: i64 = if board == 0 {
                BOARD_CENTER_X
            } else {
                RIGHT_BOARD_START + BOARD_CENTER_X
            };
            let ghost base = lobby.game_state.world.slots@;
            proof {
                lemma_board_wave_len(wave_enemies_spec(wave), 0, wave);
                lemma_board_wave_len(wave_enemies_spec(wave), 1, wave);
            }
            let m = config.enemies.len();
            let mut s: usize = 0;
            while s < m
                invariant
                    s <= m,
                    m == config.enemies@.len(),
                    config.enemies@ == wave_enemies_spec(wave),
                    m <= 4,
                    m > 0 ==> 1 <= wave <= 6,
                    x as int == board_anchor_x(if board == 0 {
                        0int
                    } else {
                        1int
                    }),
                    board < 2,
                    lobby.players@ == old(lobby).players@,
                    lobby.game_state.phase == GamePhase::Combat,
                    lobby.game_state.wave_number == wave,
                    lobby.game_state.phase_timer == old(lobby).game_state.phase_timer - tick_delta,
                    lobby.game_state.world.slots@ == base + live_slots(
                        board_wave(
                            wave_enemies_spec(wave).take(s as int),
                            if board == 0 {
                                0int
                            } else {
                                1int
                            },
                            wave,
                        ),
                    ),
                    base.len() <= mid.len() + 4,
                    mid.len() <= old(lobby).game_state.world.slots@.len() + 6,
                    world_in_range(lobby.game_state.world.slots@),
                    lobby.game_state.world.slots@.len() <= base.len() + s,
                decreases m - s,
            {
                let shape = config.enemies[s];
                let _ = spawn_enemy(
                    &mut lobby.game_state.world,
                    Position { x, y: ENEMY_SPAWN_Y },
                    shape,
                    wave,
                );
                proof {
                    let b: int = if board == 0 {
                        0int
                    } else {
                        1int
                    };
                    assert(wave_enemies_spec(wave).take(s as int + 1).drop_last()
                        =~= wave_enemies_spec(wave).take(s as int));
                    assert(lobby.game_state.world.slots@ =~= base + live_slots(
                        board_wave(wave_enemies_spec(wave).take(s as int + 1), b, wave),
                    ));
                }
                s = s + 1;
            }
            proof {
                lemma_board_wave_len(wave_enemies_spec(wave), 0, wave);
                lemma_board_wave_len(wave_enemies_spec(wave), 1, wave);
                assert(wave_enemies_spec(wave).take(m as int) =~= wave_enemies_spec(wave));
                if board == 0 {
                    assert(lobby.game_state.world.slots@ =~= mid + live_slots(
                        board_wave(wave_enemies_spec(wave), 0, wave),
                    ));
                } else {
                    assert(lobby.game_state.world.slots@ =~= mid + live_slots(
                        board_wave(wave_enemies_spec(wave), 0, wave),
                    ) + live_slots(board_wave(wave_enemies_spec(wave), 1, wave)));
                }
            }
            board = board + 1;
        }
        proof {
            assert(lobby.game_state.world.slots@ =~= mid + live_slots(wave_spawns(wave)));
        }
    }

}

/// Whether some live enemy remains anywhere.
pub open spec fn any_enemy(slots: Seq<Slot>) -> bool {
    exists|i: int| 0 <= i < slots.len() && (#[trigger] slots[i]).alive && slots[i].comps.enemy
}

/// Ends a combat wave once the last enemy has fallen: on the final
/// scripted wave the game is won; earlier, the lobby returns to a
/// fresh build countdown on the next wave and every seated player
/// collects the clear bonus. While an enemy lives, nothing changes.
#[verifier::loop_isolation(false)]
pub fn wave_clear_transition(lobby: &mut Lobby) -> (cleared: bool)
    requires
        old(lobby).game_state.phase == GamePhase::Combat,
    ensures
        cleared == !any_enemy(old(lobby).game_state.world.slots@),
        !cleared ==> *final(lobby) == *old(lobby),
        cleared && old(lobby).game_state.wave_number >= 6 ==> {
            &&& final(lobby).game_state.phase == GamePhase::Victory
            &&& final(lobby).game_state.wave_number == old(lobby).game_state.wave_number
            &&& final(lobby).game_state.phase_timer == old(lobby).game_state.phase_timer
            &&& final(lobby).game_state.world.slots@ == old(lobby).game_state.world.slots@
            &&& final(lobby).players@ == old(lobby).players@
        },
        cleared && old(lobby).game_state.wave_number < 6 ==> {
            &&& final(lobby).game_state.phase == GamePhase::Build
            &&& final(lobby).game_state.wave_number == old(lobby).game_state.wave_number + 1
            &&& final(lobby).game_state.phase_timer == BUILD_PHASE_MS
            &&& final(lobby).game_state.world.slots@ == old(lobby).game_state.world.slots@
            &&& final(lobby).players@.len() == old(lobby).players@.len()
            &&& forall|k: int|
                0 <= k < old(lobby).players@.len() ==> {
                    let po = #[trigger] old(lobby).players@[k];
                    let pn = final(lobby).players@[k];
                    pn.id == po.id && pn.username == po.username && pn.gold
                        == crate::worker::sat_add_gold(po.gold, WAVE_CLEAR_BONUS as nat)
                }
        },
{
    let n = lobby.game_state.world.slots.len();
    let mut found = false;
    let mut i: usize = 0;
    while i < n
        invariant
            i <= n,
            n == lobby.game_state.world.slots@.len(),
            lobby.game_state.world.slots@ == old(lobby).game_state.world.slots@,
            lobby.players@ == old(lobby).players@,
            lobby.game_state.phase == old(lobby).game_state.phase,
            lobby.game_state.phase_timer == old(lobby).game_state.phase_timer,
            lobby.game_state.wave_number == old(lobby).game_state.wave_number,
            found == exists|j: int|
                0 <= j < i && (#[trigger] lobby.game_state.world.slots@[j]).alive
                    && lobby.game_state.world.slots@[j].comps.enemy,
        decreases n - i,
    {
        let s = lobby.game_state.world.slots[i];
        if s.alive && s.comps.enemy {
            found = true;
        }
        i = i + 1;
    }
    if found {
        return false;
    }
    if lobby.game_state.wave_number >= 6 {
        lobby.game_state.phase = GamePhase::Victory;
    } else {
        lobby.game_state.wave_number = lobby.game_state.wave_number + 1;
        lobby.game_state.phase = GamePhase::Build;
        lobby.game_state.phase_timer = BUILD_PHASE_MS;
        let np = lobby.players.len();
        let mut k: usize = 0;
        while k < np
            invariant
                k <= np,
                np == lobby.players@.len(),
                lobby.game_state.world.slots@ == old(lobby).game_state.world.slots@,
                lobby.game_state.phase == GamePhase::Build,
                lobby.game_state.phase_timer == BUILD_PHASE_MS,
                lobby.game_state.wave_number == old(lobby).game_state.wave_number + 1,
                forall|k2: int|
                    0 <= k2 < k ==> {
                        let po = #[trigger] old(lobby).players@[k2];
                        let pn = lobby.players@[k2];
                        pn.id == po.id && pn.username == po.username && pn.gold
                            == crate::worker::sat_add_gold(po.gold, WAVE_CLEAR_BONUS as nat)
                    },
                forall|k2: int| k <= k2 < np ==> lobby.players@[k2] == old(lobby).players@[k2],
            decreases np - k,
        {
            let gold = lobby.players[k].gold;
            let new_gold = if gold <= u32::MAX - WAVE_CLEAR_BONUS {
                gold + WAVE_CLEAR_BONUS
            } else {
                u32::MAX
            };
            lobby.players[k].gold = new_gold;
            k = k + 1;
        }
    }
    true
}

/// The worlds between the combat systems, each one system applied to
/// the one before, in tick order.
///
/// After targeting: every slot's target revalidated and reacquired.
pub open spec fn targeting_all(slots: Seq<Slot>) -> Seq<Slot> {
    Seq::new(
        slots.len(),
        |i: int|
            crate::combat::with_target(slots[i], crate::combat::target_after(slots, i)),
    )
}

/// After stat selection: every slot's active attack profile chosen.
pub open spec fn stats_all(slots: Seq<Slot>) -> Seq<Slot> {
    Seq::new(slots.len(), |i: int| crate::combat::stats_slot_after(slots[i]))
}

/// After movement: every physical slot displaced, clamped and marked.
pub open spec fn movement_all(slots: Seq<Slot>, dt: int) -> Seq<Slot> {
    Seq::new(slots.len(), |i: int| crate::combat::movement_slot_after(slots, i, dt))
}

/// After mana regeneration.
pub open spec fn mana_all(slots: Seq<Slot>, dt: int) -> Seq<Slot> {
    Seq::new(slots.len(), |i: int| crate::combat::mana_slot_after(slots[i], dt))
}

/// After combat resolution: timers wound, mana paid, damage landed.
pub open spec fn combat_all(slots: Seq<Slot>, dt: int) -> Seq<Slot> {
    Seq::new(
        slots.len(),
        |i: int|
            crate::combat::damage_adjusted(
                crate::combat::combat_pass_slot(slots[i], dt),
                crate::combat::total_damage(
                    crate::combat::attacks_fired(slots, dt, slots.len() as int),
                    i,
                ),
            ),
    )
}

/// After death cleanup: every exhausted entity despawned.
pub open spec fn cleanup_all(slots: Seq<Slot>) -> Seq<Slot> {
    Seq::new(
        slots.len(),
        |i: int|
            if crate::combat::slot_dead(slots[i]) {
                Slot { alive: false, comps: slots[i].comps }
            } else {
                slots[i]
            },
    )
}

/// After the board reset: entities homed on enemy-free boards restored.
pub open spec fn reset_all(slots: Seq<Slot>) -> Seq<Slot> {
    let reset0 = !crate::combat::board_has_enemy(slots, 0);
    let reset1 = !crate::combat::board_has_enemy(slots, 1);
    Seq::new(slots.len(), |i: int| crate::combat::reset_slot_after(slots[i], reset0, reset1))
}

/// After the worker pass: every worker stepped through its cycle.
pub open spec fn workers_all(slots: Seq<Slot>, dt: int) -> Seq<Slot> {
    Seq::new(slots.len(), |i: int| crate::worker::worker_slot_after(slots[i], dt))
}

/// The world as `process_combat` sees it: targeting, stat selection,
/// movement and mana regeneration applied, in that order.
pub open spec fn combat_systems_mid(slots: Seq<Slot>, dt: int) -> Seq<Slot> {
    mana_all(movement_all(stats_all(targeting_all(slots)), dt), dt)
}

/// The world as the worker pass sees it: combat resolved, the dead
/// cleaned up, and cleared boards reset.
pub open spec fn pre_worker_slots(slots: Seq<Slot>, dt: int) -> Seq<Slot> {
    reset_all(cleanup_all(combat_all(combat_systems_mid(slots, dt), dt)))
}

/// The world at the end of a combat tick's system chain.
pub open spec fn combat_tick_slots(slots: Seq<Slot>, dt: int) -> Seq<Slot> {
    workers_all(pre_worker_slots(slots, dt), dt)
}

/// One full simulation tick: the build countdown and spawning in
/// Build; the ordered combat systems (targeting, stat selection,
/// movement, mana, combat, death cleanup, board reset), the worker
/// economy and the wave-clear check in Combat; only the worker economy
/// in Victory. Returns the tick's combat events.
#[verifier::loop_isolation(false)]
#[verifier::rlimit(100)]
pub fn advance_tick(lobby: &mut Lobby, tick_delta: i64) -> (events: Vec<CombatEvent>)
    requires
        world_in_range(old(lobby).game_state.world.slots@),
        old(lobby).game_state.world.slots@.len() + 16 <= MAX_ENTITIES,
        0 <= tick_delta <= MAX_DT,
        -1_000_000_000 <= old(lobby).game_state.phase_timer <= 1_000_000_000,
    ensures
        world_in_range(final(lobby).game_state.world.slots@),
        final(lobby).players@.len() == old(lobby).players@.len(),
        // A build tick fights nobody and does exactly what the
        // build-phase rules say.
        old(lobby).game_state.phase == GamePhase::Build ==> events@.len() == 0 && {
            let slots1 = old(lobby).game_state.world.slots@ + if has_any_worker(
                old(lobby).game_state.world.slots@,
            ) {
                Seq::<Slot>::empty()
            } else {
                live_slots(worker_batch(old(lobby).players@, 2))
            };
            let timer1 = old(lobby).game_state.phase_timer - tick_delta;
            &&& (old(lobby).players@.len() != 2 ==> *final(lobby) == *old(lobby))
            &&& (old(lobby).players@.len() == 2 ==> {
                &&& final(lobby).players@ == old(lobby).players@
                &&& final(lobby).game_state.wave_number == old(lobby).game_state.wave_number
                &&& final(lobby).game_state.phase_timer == timer1
                &&& (timer1 > 0 ==> final(lobby).game_state.phase == GamePhase::Build && final(lobby).game_state.world.slots@ == slots1)
                &&& (timer1 <= 0 ==> final(lobby).game_state.phase == GamePhase::Combat && final(lobby).game_state.world.slots@ == slots1 + live_slots(
                    wave_spawns(old(lobby).game_state.wave_number),
                ))
            })
        },
        // A combat tick runs the seven systems in order, then the
        // worker economy, then the wave-clear rule; the events are
        // exactly the attacks resolved on the post-movement world.
        old(lobby).game_state.phase == GamePhase::Combat ==> {
            let s0 = old(lobby).game_state.world.slots@;
            let dt = tick_delta as int;
            let s_mid = combat_systems_mid(s0, dt);
            let s_pre = pre_worker_slots(s0, dt);
            let s_end = combat_tick_slots(s0, dt);
            let atk = crate::combat::attacks_fired(s_mid, dt, s_mid.len() as int);
            let list = crate::worker::deposit_list(s_pre, dt, s_pre.len() as int);
            let cleared = !any_enemy(s_end);
            let wave0 = old(lobby).game_state.wave_number;
            &&& final(lobby).game_state.world.slots@ == s_end
            &&& events@.len() == atk.len()
            &&& (forall|k: int|
                0 <= k < atk.len() ==> events@[k] == crate::combat::event_of(
                    s_mid,
                    #[trigger] atk[k],
                ))
            &&& (forall|k: int|
                0 <= k < old(lobby).players@.len() ==> {
                    let po = #[trigger] old(lobby).players@[k];
                    let pn = final(lobby).players@[k];
                    let mid_gold = crate::worker::sat_add_gold(
                        po.gold,
                        crate::worker::count_in(list, po.id),
                    );
                    &&& pn.id == po.id
                    &&& pn.username == po.username
                    &&& pn.gold == if cleared && wave0 < 6 {
                        crate::worker::sat_add_gold(mid_gold as u32, WAVE_CLEAR_BONUS as nat)
                    } else {
                        mid_gold
                    }
                })
            &&& (!cleared ==> final(lobby).game_state.phase == GamePhase::Combat && final(lobby).game_state.wave_number == wave0 && final(lobby).game_state.phase_timer == old(lobby).game_state.phase_timer)
            &&& (cleared && wave0 >= 6 ==> final(lobby).game_state.phase == GamePhase::Victory && final(lobby).game_state.wave_number == wave0 && final(lobby).game_state.phase_timer == old(lobby).game_state.phase_timer)
            &&& (cleared && wave0 < 6 ==> final(lobby).game_state.phase == GamePhase::Build && final(lobby).game_state.wave_number == wave0 + 1 && final(lobby).game_state.phase_timer == BUILD_PHASE_MS)
        },
        // A victory tick runs only the worker economy.
        old(lobby).game_state.phase == GamePhase::Victory ==> {
            let s0 = old(lobby).game_state.world.slots@;
            let dt = tick_delta as int;
            let list = crate::worker::deposit_list(s0, dt, s0.len() as int);
            &&& events@.len() == 0
            &&& final(lobby).game_state.world.slots@ == workers_all(s0, dt)
            &&& (forall|k: int|
                0 <= k < old(lobby).players@.len() ==> {
                    let po = #[trigger] old(lobby).players@[k];
                    let pn = final(lobby).players@[k];
                    &&& pn.id == po.id
                    &&& pn.username == po.username
                    &&& pn.gold == crate::worker::sat_add_gold(
                        po.gold,
                        crate::worker::count_in(list, po.id),
                    )
                })
            &&& final(lobby).game_state.phase == GamePhase::Victory
            &&& final(lobby).game_state.phase_timer == old(lobby).game_state.phase_timer
            &&& final(lobby).game_state.wave_number == old(lobby).game_state.wave_number
        },
{
    match lobby.game_state.phase {
        GamePhase::Build => {
            build_tick(lobby, tick_delta);
            Vec::new()
        },
        GamePhase::Combat => {
            let ghost s0 = lobby.game_state.world.slots@;
            let ghost dt = tick_delta as int;
            update_targeting(&mut lobby.game_state.world);
            proof {
                assert(lobby.game_state.world.slots@ =~= targeting_all(s0));
            }
            let ghost s1 = lobby.game_state.world.slots@;
            update_active_combat_stats(&mut lobby.game_state.world);
            proof {
                assert(lobby.game_state.world.slots@ =~= stats_all(s1));
            }
            let ghost s2 = lobby.game_state.world.slots@;
            update_combat_movement(&mut lobby.game_state.world, tick_delta);
            proof {
                assert(lobby.game_state.world.slots@ =~= movement_all(s2, dt));
            }
            let ghost s3 = lobby.game_state.world.slots@;
            update_mana(&mut lobby.game_state.world, tick_delta);
            proof {
                assert(lobby.game_state.world.slots@ =~= mana_all(s3, dt));
                assert(lobby.game_state.world.slots@ == combat_systems_mid(s0, dt));
            }
            let ghost s4 = lobby.game_state.world.slots@;
            let events = process_combat(&mut lobby.game_state.world, tick_delta);
            proof {
                assert(lobby.game_state.world.slots@ =~= combat_all(s4, dt));
            }
            let ghost s5 = lobby.game_state.world.slots@;
            cleanup_dead_entities(&mut lobby.game_state.world);
            proof {
                assert(lobby.game_state.world.slots@ =~= cleanup_all(s5));
            }
            let ghost s6 = lobby.game_state.world.slots@;
            update_combat_reset(&mut lobby.game_state.world);
            proof {
                assert(lobby.game_state.world.slots@ =~= reset_all(s6));
                assert(lobby.game_state.world.slots@ == pre_worker_slots(s0, dt));
            }
            let ghost s7 = lobby.game_state.world.slots@;
            update_workers(lobby, tick_delta);
            proof {
                assert(lobby.game_state.world.slots@ =~= workers_all(s7, dt));
                assert(lobby.game_state.world.slots@ == combat_tick_slots(s0, dt));
            }
            let ghost players_mid = lobby.players@;
            let _ = wave_clear_transition(lobby);
            proof {
                let list = crate::worker::deposit_list(s7, dt, s7.len() as int);
                assert forall|k: int| 0 <= k < old(lobby).players@.len() implies {
                    let po = #[trigger] old(lobby).players@[k];
                    let pn = lobby.players@[k];
                    let mid_gold = crate::worker::sat_add_gold(
                        po.gold,
                        crate::worker::count_in(list, po.id),
                    );
                    &&& pn.id == po.id
                    &&& pn.username == po.username
                    &&& pn.gold == if !any_enemy(combat_tick_slots(s0, dt))
                        && old(lobby).game_state.wave_number < 6 {
                        crate::worker::sat_add_gold(mid_gold as u32, WAVE_CLEAR_BONUS as nat)
                    } else {
                        mid_gold
                    }
                } by {
                    let po = old(lobby).players@[k];
                    let pm = players_mid[k];
                    assert(pm.gold == crate::worker::sat_add_gold(
                        po.gold,
                        crate::worker::count_in(list, po.id),
                    ));
                }
            }
            events
        },
        GamePhase::Victory => {
            let ghost s0 = lobby.game_state.world.slots@;
            let ghost dt = tick_delta as int;
            update_workers(lobby, tick_delta);
            proof {
                assert(lobby.game_state.world.slots@ =~= workers_all(s0, dt));
            }
            Vec::new()
        },
    }
}

} // verus!
