use vstd::prelude::*;

use crate::components::{comps_in_range, Components, Position};
use crate::constants::{MAX_DT, MINING_TIME_MS, WORKER_SPEED};
use crate::game_state::GamePhase;
use crate::lobby::Lobby;
use crate::math::{muldiv, sqrt_floor};
use crate::world::{world_in_range, Slot};

verus! {

/// Where the two mineral veins stand, one per player slot.
pub open spec fn vein_position(slot: int) -> Position {
    if slot == 0 {
        Position { x: 700_000, y: 50_000 }
    } else {
        Position { x: 700_000, y: 350_000 }
    }
}

/// Where the two delivery carts stand, one per player slot.
pub open spec fn cart_position(slot: int) -> Position {
    if slot == 0 {
        Position { x: 700_000, y: 250_000 }
    } else {
        Position { x: 700_000, y: 550_000 }
    }
}

/// The vein anchor for a player slot.
pub fn vein_anchor(slot: usize) -> (p: Position)
    ensures
        p == vein_position(if slot == 0 {
            0int
        } else {
            1int
        }),
{
    if slot == 0 {
        Position { x: 700_000, y: 50_000 }
    } else {
        Position { x: 700_000, y: 350_000 }
    }
}

/// The cart anchor for a player slot.
pub fn cart_anchor(slot: usize) -> (p: Position)
    ensures
        p == cart_position(if slot == 0 {
            0int
        } else {
            1int
        }),
{
    if slot == 0 {
        Position { x: 700_000, y: 250_000 }
    } else {
        Position { x: 700_000, y: 550_000 }
    }
}

/// Whether this slot is a worker the economy system drives: live,
/// marked, with a position, a state, an owner and its two anchors.
pub open spec fn worker_ready(s: Slot) -> bool {
    &&& s.alive
    &&& s.comps.worker
    &&& s.comps.pos is Some
    &&& s.comps.worker_state is Some
    &&& s.comps.owner is Some
    &&& s.comps.targets is Some
}

/// How far a worker walks in one tick, in milli-pixels.
pub open spec fn worker_step(dt: int) -> int {
    WORKER_SPEED * dt / 1000
}

/// One straight-line step from `p` toward `target`: the target itself
/// once it is within reach, else a full step along the line.
pub open spec fn step_toward(p: Position, target: Position, dt: int) -> Position {
    let dx = target.x - p.x;
    let dy = target.y - p.y;
    let dist = sqrt_floor((dx * dx + dy * dy) as nat) as int;
    if dist <= worker_step(dt) {
        target
    } else {
        Position {
            x: (p.x + muldiv(dx, worker_step(dt), dist)) as i64,
            y: (p.y + muldiv(dy, worker_step(dt), dist)) as i64,
        }
    }
}

/// Whether this worker reaches `target` this tick.
pub open spec fn arrives(p: Position, target: Position, dt: int) -> bool {
    let dx = target.x - p.x;
    let dy = target.y - p.y;
    sqrt_floor((dx * dx + dy * dy) as nat) <= worker_step(dt)
}

/// One tick of the worker state machine on one slot: walk to the
/// vein, mine for the fixed time, walk to the cart, deposit, repeat.
pub open spec fn worker_slot_after(s: Slot, dt: int) -> Slot {
    if worker_ready(s) {
        let p = s.comps.pos->Some_0;
        let t = s.comps.targets->Some_0;
        match s.comps.worker_state->Some_0 {
            crate::components::WorkerState::MovingToVein => {
                if arrives(p, t.vein, dt) {
                    Slot {
                        alive: s.alive,
                        comps: Components {
                            pos: Some(t.vein),
                            worker_state: Some(crate::components::WorkerState::Mining),
                            mining_timer: Some(MINING_TIME_MS),
                            ..s.comps
                        },
                    }
                } else {
                    Slot {
                        alive: s.alive,
                        comps: Components { pos: Some(step_toward(p, t.vein, dt)), ..s.comps },
                    }
                }
            },
            crate::components::WorkerState::Mining => {
                match s.comps.mining_timer {
                    Some(timer) => {
                        if timer - dt <= 0 {
                            Slot {
                                alive: s.alive,
                                comps: Components {
                                    worker_state: Some(crate::components::WorkerState::MovingToCart),
                                    mining_timer: None,
                                    ..s.comps
                                },
                            }
                        } else {
                            Slot {
                                alive: s.alive,
                                comps: Components {
                                    mining_timer: Some((timer - dt) as i64),
                                    ..s.comps
                                },
                            }
                        }
                    },
                    None => s,
                }
            },
            crate::components::WorkerState::MovingToCart => {
                if arrives(p, t.cart, dt) {
                    Slot {
                        alive: s.alive,
                        comps: Components {
                            pos: Some(t.cart),
                            worker_state: Some(crate::components::WorkerState::MovingToVein),
                            ..s.comps
                        },
                    }
                } else {
                    Slot {
                        alive: s.alive,
                        comps: Components { pos: Some(step_toward(p, t.cart, dt)), ..s.comps },
                    }
                }
            },
        }
    } else {
        s
    }
}

/// Whether this worker delivers to its cart this tick, crediting its
/// owner one gold.
pub open spec fn deposits_now(s: Slot, dt: int) -> bool {
    &&& worker_ready(s)
    &&& s.comps.worker_state->Some_0 == crate::components::WorkerState::MovingToCart
    &&& arrives(s.comps.pos->Some_0, s.comps.targets->Some_0.cart, dt)
}

/// The owners credited by the first `n` slots this tick, in order.
pub open spec fn deposit_list(slots: Seq<Slot>, dt: int, n: int) -> Seq<i64>
    decreases n,
{
    if n <= 0 {
        Seq::empty()
    } else {
        deposit_list(slots, dt, n - 1) + if deposits_now(slots[n - 1], dt) {
            seq![slots[n - 1].comps.owner->Some_0]
        } else {
            Seq::<i64>::empty()
        }
    }
}

/// How many entries of `list` equal `pid`.
pub open spec fn count_in(list: Seq<i64>, pid: i64) -> nat
    decreases list.len(),
{
    if list.len() == 0 {
        0
    } else {
        count_in(list.drop_last(), pid) + if list.last() == pid {
            1nat
        } else {
            0nat
        }
    }
}

proof fn lemma_deposit_list_len(slots: Seq<Slot>, dt: int, n: int)
    requires
        n >= 0,
    ensures
        deposit_list(slots, dt, n).len() <= n,
    decreases n,
{
    if n > 0 {
        lemma_deposit_list_len(slots, dt, n - 1);
    }
}

proof fn lemma_count_le_len(list: Seq<i64>, pid: i64)
    ensures
        count_in(list, pid) <= list.len(),
    decreases list.len(),
{
    if list.len() > 0 {
        lemma_count_le_len(list.drop_last(), pid);
    }
}

/// A gold balance credited by `add`, stopping at the largest `u32`.
pub open spec fn sat_add_gold(gold: u32, add: nat) -> int {
    if gold + add <= u32::MAX {
        gold + add
    } else {
        u32::MAX as int
    }
}

/// Drives every worker one tick through its vein-mine-cart cycle and
/// credits each owner one gold per completed delivery. During the
/// build phase workers stand still and nothing changes.
#[verifier::loop_isolation(false)]
#[verifier::rlimit(100)]
pub fn update_workers(lobby: &mut Lobby, tick_delta: i64)
    requires
        world_in_range(old(lobby).game_state.world.slots@),
        0 <= tick_delta <= MAX_DT,
    ensures
        old(lobby).game_state.phase == GamePhase::Build ==> *final(lobby) == *old(lobby),
        old(lobby).game_state.phase != GamePhase::Build ==> {
            let slots0 = old(lobby).game_state.world.slots@;
            let list = deposit_list(slots0, tick_delta as int, slots0.len() as int);
            &&& final(lobby).game_state.world.slots@.len() == slots0.len()
            &&& forall|i: int|
                0 <= i < slots0.len() ==> final(lobby).game_state.world.slots@[i]
                    == worker_slot_after(#[trigger] slots0[i], tick_delta as int)
            &&& final(lobby).players@.len() == old(lobby).players@.len()
            &&& forall|k: int|
                0 <= k < old(lobby).players@.len() ==> {
                    let po = #[trigger] old(lobby).players@[k];
                    let pn = final(lobby).players@[k];
                    pn.id == po.id && pn.username == po.username && pn.gold == sat_add_gold(
                        po.gold,
                        count_in(list, po.id),
                    )
                }
            &&& final(lobby).game_state.phase == old(lobby).game_state.phase
            &&& final(lobby).game_state.phase_timer == old(lobby).game_state.phase_timer
            &&& final(lobby).game_state.wave_number == old(lobby).game_state.wave_number
        },
        world_in_range(final(lobby).game_state.world.slots@),
{
    match lobby.game_state.phase {
        GamePhase::Build => {
            return ;
        },
        _ => {},
    }
    let ghost slots0 = lobby.game_state.world.slots@;
    let n = lobby.game_state.world.slots.len();
    let mut deposits: Vec<i64> = Vec::new();

    let mut i: usize = 0;
    while i < n
        invariant
            i <= n,
            lobby.game_state.world.slots@.len() == n,
            forall|j: int|
                0 <= j < i ==> lobby.game_state.world.slots@[j] == worker_slot_after(
                    #[trigger] slots0[j],
                    tick_delta as int,
                ),
            forall|j: int| i <= j < n ==> lobby.game_state.world.slots@[j] == slots0[j],
            deposits@ == deposit_list(slots0, tick_delta as int, i as int),
            world_in_range(lobby.game_state.world.slots@),
            lobby.players@ == old(lobby).players@,
            lobby.game_state.phase == old(lobby).game_state.phase,
            lobby.game_state.phase_timer == old(lobby).game_state.phase_timer,
            lobby.game_state.wave_number == old(lobby).game_state.wave_number,
        decreases n - i,
    {
        let s = lobby.game_state.world.slots[i];
        proof {
            assert(lobby.game_state.world.slots@[i as int] == slots0[i as int]);
            assert(slots0[i as int].alive ==> comps_in_range(slots0[i as int].comps));
        }
        if s.alive && s.comps.worker && s.comps.pos.is_some() && s.comps.worker_state.is_some()
            && s.comps.owner.is_some() && s.comps.targets.is_some() {
            let p = s.comps.pos.unwrap();
            let t = s.comps.targets.unwrap();
            let step = WORKER_SPEED * tick_delta / 1000;
            match s.comps.worker_state.unwrap() {
                crate::components::WorkerState::MovingToVein => {
                    let (arrived, np) = walk(p, t.vein, step, tick_delta);
                    if arrived {
                        lobby.game_state.world.slots[i].comps.pos = Some(t.vein);
                        lobby.game_state.world.slots[i].comps.worker_state = Some(
                            crate::components::WorkerState::Mining,
                        );
                        lobby.game_state.world.slots[i].comps.mining_timer = Some(MINING_TIME_MS);
                    } else {
                        lobby.game_state.world.slots[i].comps.pos = Some(np);
                    }
                },
                crate::components::WorkerState::Mining => {
                    if let Some(timer) = s.comps.mining_timer {
                        if timer - tick_delta <= 0 {
                            lobby.game_state.world.slots[i].comps.worker_state = Some(
                                crate::components::WorkerState::MovingToCart,
                            );
                            lobby.game_state.world.slots[i].comps.mining_timer = None;
                        } else {
                            lobby.game_state.world.slots[i].comps.mining_timer = Some(
                                timer - tick_delta,
                            );
                        }
                    }
                },
                crate::components::WorkerState::MovingToCart => {
                    let (arrived, np) = walk(p, t.cart, step, tick_delta);
                    if arrived {
                        lobby.game_state.world.slots[i].comps.pos = Some(t.cart);
                        lobby.game_state.world.slots[i].comps.worker_state = Some(
                            crate::components::WorkerState::MovingToVein,
                        );
                        deposits.push(s.comps.owner.unwrap());
                    } else {
                        lobby.game_state.world.slots[i].comps.pos = Some(np);
                    }
                },
            }
        }
        proof {
            assert(deposit_list(slots0, tick_delta as int, i as int + 1) =~= deposit_list(
                slots0,
                tick_delta as int,
                i as int,
            ) + if deposits_now(slots0[i as int], tick_delta as int) {
                seq![slots0[i as int].comps.owner->Some_0]
            } else {
                Seq::<i64>::empty()
            });
        }
        i = i + 1;
    }

    let ghost list = deposit_list(slots0, tick_delta as int, n as int);

    // Credit one gold per delivery to each owner on the roster.
    let np = lobby.players.len();
    let mut k: usize = 0;
    while k < np
        invariant
            k <= np,
            lobby.players@.len() == np,
            deposits@ == list,
            lobby.game_state.world.slots@.len() == n,
            forall|j: int|
                0 <= j < n ==> lobby.game_state.world.slots@[j] == worker_slot_after(
                    #[trigger] slots0[j],
                    tick_delta as int,
                ),
            world_in_range(lobby.game_state.world.slots@),
            lobby.game_state.phase == old(lobby).game_state.phase,
            lobby.game_state.phase_timer == old(lobby).game_state.phase_timer,
            lobby.game_state.wave_number == old(lobby).game_state.wave_number,
            forall|k2: int|
                0 <= k2 < k ==> {
                    let po = #[trigger] old(lobby).players@[k2];
                    let pn = lobby.players@[k2];
                    pn.id == po.id && pn.username == po.username && pn.gold == sat_add_gold(
                        po.gold,
                        count_in(list, po.id),
                    )
                },
            forall|k2: int| k <= k2 < np ==> lobby.players@[k2] == old(lobby).players@[k2],
        decreases np - k,
    {
        let pid = lobby.players[k].id;
        proof {
            lemma_deposit_list_len(slots0, tick_delta as int, n as int);
        }
        let nd = deposits.len();
        let mut cnt: u32 = 0;
        let mut m: usize = 0;
        while m < nd
            invariant
                m <= nd,
                nd == list.len(),
                deposits@ == list,
                cnt == count_in(list.take(m as int), pid),
                cnt <= m,
            decreases nd - m,
        {
            proof {
                assert(list.take(m as int + 1).drop_last() =~= list.take(m as int));
                lemma_count_le_len(list.take(m as int + 1), pid);
            }
            if deposits[m] == pid {
                cnt = cnt + 1;
            }
            m = m + 1;
        }
        proof {
            assert(list.take(nd as int) =~= list);
        }
        let gold = lobby.players[k].gold;
        let new_gold = if gold <= u32::MAX - cnt {
            gold + cnt
        } else {
            u32::MAX
        };
        lobby.players[k].gold = new_gold;
        k = k + 1;
    }
}

/// One walking step: reports arrival within `step`, and the position
/// after a full step along the line otherwise.
#[verifier::loop_isolation(false)]
#[verifier::rlimit(60)]
fn walk(p: Position, target: Position, step: i64, tick_delta: i64) -> (r: (bool, Position))
    requires
        crate::components::pos_in_range(p),
        crate::components::pos_in_range(target),
        0 <= tick_delta <= MAX_DT,
        step == worker_step(tick_delta as int),
    ensures
        r.0 == arrives(p, target, tick_delta as int),
        !r.0 ==> r.1 == step_toward(p, target, tick_delta as int),
        crate::components::pos_in_range(r.1),
{
    let dx = target.x - p.x;
    let dy = target.y - p.y;
    proof {
        assert(0 <= dx * dx <= 4_000_000_000_000_000_000 && 0 <= dy * dy
            <= 4_000_000_000_000_000_000 && 0 <= dx * dx + dy * dy <= 8_000_000_000_000_000_000)
            by (nonlinear_arith)
            requires
                -2_000_000_000 <= dx <= 2_000_000_000,
                -2_000_000_000 <= dy <= 2_000_000_000,
        ;
        assert(0 <= WORKER_SPEED * tick_delta <= 500_000_000_000) by (nonlinear_arith)
            requires
                0 <= tick_delta <= 10_000,
        ;
        assert(0 <= WORKER_SPEED * tick_delta / 1000 <= 500_000_000) by (nonlinear_arith)
            requires
                0 <= WORKER_SPEED * tick_delta <= 500_000_000_000,
        ;
    }
    let sq = dx * dx + dy * dy;
    let dist64 = crate::math::isqrt(sq as u64);
    proof {
        assert(dist64 * dist64 <= sq as u64 ==> dist64 <= 3_000_000_000u64) by (nonlinear_arith)
            requires
                sq as u64 <= 8_000_000_000_000_000_000u64,
        ;
    }
    let dist = dist64 as i64;
    if dist <= step {
        (true, target)
    } else {
        proof {
            assert(-0x7FFF_FFFF_FFFF_FFFF <= dx * step <= 0x7FFF_FFFF_FFFF_FFFF
                && -0x7FFF_FFFF_FFFF_FFFF <= dy * step <= 0x7FFF_FFFF_FFFF_FFFF)
                by (nonlinear_arith)
                requires
                    -2_000_000_000 <= dx <= 2_000_000_000,
                    -2_000_000_000 <= dy <= 2_000_000_000,
                    0 <= step <= 500_000_000,
            ;
            crate::math::lemma_muldiv_scale_bound(dx as int, step as int, dist as int);
            crate::math::lemma_muldiv_scale_bound(dy as int, step as int, dist as int);
        }
        let mx = crate::math::mul_div(dx, step, dist);
        let my = crate::math::mul_div(dy, step, dist);
        (false, Position { x: p.x + mx, y: p.y + my })
    }
}

} // verus!
