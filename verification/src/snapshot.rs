use vstd::prelude::*;

use crate::lobby::Lobby;
use crate::messages::{SerializableGameState, Unit};
use crate::player::Player;
use crate::world::Slot;

verus! {

/// Whether a slot shows up in snapshots: a live, placed, drawable
/// entity with health.
pub open spec fn snapshot_included(s: Slot) -> bool {
    &&& s.alive
    &&& s.comps.pos is Some
    &&& s.comps.shape is Some
    &&& s.comps.health is Some
}

/// How one slot is projected for the client.
pub open spec fn unit_of(s: Slot, i: int) -> Unit {
    let p = s.comps.pos->Some_0;
    let h = s.comps.health->Some_0;
    Unit {
        id: i as u32,
        shape: s.comps.shape->Some_0,
        x: p.x,
        y: p.y,
        owner_id: match s.comps.owner {
            Some(o) => o,
            None => -1i64,
        },
        is_enemy: s.comps.enemy,
        current_hp: h.current,
        max_hp: h.max,
        is_worker: s.comps.worker,
        current_mana: match s.comps.mana {
            Some(m) => Some(m.current),
            None => None,
        },
        max_mana: match s.comps.mana {
            Some(m) => Some(m.max),
            None => None,
        },
        worker_state: s.comps.worker_state,
    }
}

/// The units of the first `n` slots, in slot order.
pub open spec fn units_upto(slots: Seq<Slot>, n: int) -> Seq<Unit>
    decreases n,
{
    if n <= 0 {
        Seq::empty()
    } else {
        units_upto(slots, n - 1) + if snapshot_included(slots[n - 1]) {
            seq![unit_of(slots[n - 1], n - 1)]
        } else {
            Seq::<Unit>::empty()
        }
    }
}

/// Projects the lobby into a self-contained snapshot frame: every
/// live, placed, drawable entity with health, the roster, and the
/// phase state.
#[verifier::loop_isolation(false)]
pub fn encode_gamestate(lobby: &Lobby) -> (g: SerializableGameState)
    ensures
        g.units@ == units_upto(
            lobby.game_state.world.slots@,
            lobby.game_state.world.slots@.len() as int,
        ),
        g.players@ == lobby.players@,
        g.phase == lobby.game_state.phase,
        g.phase_timer == lobby.game_state.phase_timer,
{
    let n = lobby.game_state.world.slots.len();
    let mut units: Vec<Unit> = Vec::new();
    let mut i: usize = 0;
    while i < n
        invariant
            i <= n,
            n == lobby.game_state.world.slots@.len(),
            units@ == units_upto(lobby.game_state.world.slots@, i as int),
        decreases n - i,
    {
        let s = lobby.game_state.world.slots[i];
        if s.alive && s.comps.pos.is_some() && s.comps.shape.is_some() && s.comps.health.is_some() {
            let p = s.comps.pos.unwrap();
            let h = s.comps.health.unwrap();
            let u = Unit {
                id: i as u32,
                shape: s.comps.shape.unwrap(),
                x: p.x,
                y: p.y,
                owner_id: match s.comps.owner {
                    Some(o) => o,
                    None => -1,
                },
                is_enemy: s.comps.enemy,
                current_hp: h.current,
                max_hp: h.max,
                is_worker: s.comps.worker,
                current_mana: match s.comps.mana {
                    Some(m) => Some(m.current),
                    None => None,
                },
                max_mana: match s.comps.mana {
                    Some(m) => Some(m.max),
                    None => None,
                },
                worker_state: s.comps.worker_state,
            };
            units.push(u);
        }
        i = i + 1;
    }

    let np = lobby.players.len();
    let mut players: Vec<Player> = Vec::new();
    let mut k: usize = 0;
    while k < np
        invariant
            k <= np,
            np == lobby.players@.len(),
            players@ == lobby.players@.take(k as int),
        decreases np - k,
    {
        let p = &lobby.players[k];
        let copy = Player { id: p.id, username: p.username.clone(), gold: p.gold };
        proof {
            assert(copy == lobby.players@[k as int]);
            assert(lobby.players@.take(k as int + 1) =~= lobby.players@.take(k as int).push(
                lobby.players@[k as int],
            ));
        }
        players.push(copy);
        k = k + 1;
    }
    proof {
        assert(lobby.players@.take(np as int) =~= lobby.players@);
    }

    SerializableGameState {
        units,
        players,
        phase: lobby.game_state.phase,
        phase_timer: lobby.game_state.phase_timer,
    }
}

} // verus!
