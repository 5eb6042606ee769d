use vstd::prelude::*;

use crate::catalog::{get_unit_profile, unit_profile_spec};
use crate::components::{EntityId, Position};
use crate::constants::{
    BUILD_PHASE_MS, CELL_SIZE, GRID_CELLS, MAX_ENTITIES, RIGHT_BOARD_START, WORKER_COST,
};
use crate::game_state::{GamePhase, GameState};
use crate::player::Player;
use crate::shape::Shape;
use crate::spawn::{spawn_unit, spawn_worker, unit_comps, worker_comps};
use crate::world::{live, world_in_range, Slot};

verus! {

/// One lobby: its simulation state and its roster. The surrounding
/// server guards each lobby with a mutex and owns the broadcast
/// channel; the verified state is what sits behind that lock.
#[derive(Debug)]
pub struct Lobby {
    pub game_state: GameState,
    pub players: Vec<Player>,
}

/// The roster index of the first player with this id.
pub open spec fn player_index_upto(ps: Seq<Player>, pid: i64, n: int) -> Option<int>
    decreases n,
{
    if n <= 0 {
        None
    } else {
        match player_index_upto(ps, pid, n - 1) {
            Some(j) => Some(j),
            None => if ps[n - 1].id == pid {
                Some(n - 1)
            } else {
                None
            },
        }
    }
}

pub open spec fn player_index(ps: Seq<Player>, pid: i64) -> Option<int> {
    player_index_upto(ps, pid, ps.len() as int)
}

proof fn lemma_player_index_from(ps: Seq<Player>, pid: i64, i: int, n: int)
    requires
        0 <= i < n <= ps.len(),
        player_index_upto(ps, pid, i) is None,
        ps[i].id == pid,
    ensures
        player_index_upto(ps, pid, n) == Some(i),
    decreases n,
{
    if n > i + 1 {
        lemma_player_index_from(ps, pid, i, n - 1);
    }
}

pub proof fn lemma_player_index_props(ps: Seq<Player>, pid: i64, n: int)
    requires
        n <= ps.len(),
    ensures
        match player_index_upto(ps, pid, n) {
            Some(j) => 0 <= j < n && ps[j].id == pid,
            None => forall|j: int| 0 <= j < n ==> (#[trigger] ps[j]).id != pid,
        },
    decreases n,
{
    if n > 0 {
        lemma_player_index_props(ps, pid, n - 1);
    }
}

/// Why a placement or hire was refused.
#[derive(Clone, Copy, Debug, PartialEq, Eq, Structural)]
pub enum CommandError {
    WrongPhase,
    OutOfBounds,
    UnknownPlayer,
    InsufficientGold(Shape),
    InsufficientGoldForWorker,
}

impl CommandError {
    /// The message sent back to the offending client.
    pub fn message(&self) -> (r: String)
        ensures
            self is WrongPhase ==> r@ == "Tower placement is only allowed during the build phase."@,
            self == CommandError::InsufficientGold(Shape::Square) ==> r@
                == "Insufficient gold for Square (cost: 25)"@,
            self == CommandError::InsufficientGold(Shape::Triangle) ==> r@
                == "Insufficient gold for Triangle (cost: 40)"@,
            self == CommandError::InsufficientGold(Shape::Circle) ==> r@
                == "Insufficient gold for Circle (cost: 75)"@,
            self is OutOfBounds ==> r@ == "Invalid board position."@,
            self is UnknownPlayer ==> r@ == "Player is not in this lobby."@,
            self is InsufficientGoldForWorker ==> r@ == "Insufficient gold for Worker (cost: 50)"@,
    {
        match self {
            CommandError::WrongPhase => "Tower placement is only allowed during the build phase.".to_owned(),
            CommandError::OutOfBounds => "Invalid board position.".to_owned(),
            CommandError::UnknownPlayer => "Player is not in this lobby.".to_owned(),
            CommandError::InsufficientGold(Shape::Square) => "Insufficient gold for Square (cost: 25)".to_owned(),
            CommandError::InsufficientGold(Shape::Triangle) => "Insufficient gold for Triangle (cost: 40)".to_owned(),
            CommandError::InsufficientGold(Shape::Circle) => "Insufficient gold for Circle (cost: 75)".to_owned(),
            CommandError::InsufficientGoldForWorker => "Insufficient gold for Worker (cost: 50)".to_owned(),
        }
    }
}

/// Where a unit placed at grid cell (row, col) by the player in roster
/// slot `slot` stands: cell centres, on the player's own board.
pub open spec fn place_position(slot: int, row: u32, col: u32) -> Position {
    let x: int = if slot == 0 {
        col * CELL_SIZE + CELL_SIZE / 2
    } else {
        RIGHT_BOARD_START + col * CELL_SIZE + CELL_SIZE / 2
    };
    Position { x: x as i64, y: (row * CELL_SIZE + CELL_SIZE / 2) as i64 }
}

/// Whether a `place` command must succeed: build phase, a cell on the
/// grid, a known player, and a covered price.
pub open spec fn place_accepted(l: Lobby, player_id: i64, shape: Shape, row: u32, col: u32) -> bool {
    &&& l.game_state.phase == GamePhase::Build
    &&& row < GRID_CELLS
    &&& col < GRID_CELLS
    &&& player_index(l.players@, player_id) is Some
    &&& l.players@[player_index(l.players@, player_id)->Some_0].gold >= unit_profile_spec(
        shape,
    ).gold_cost
}

impl Lobby {
    /// An empty lobby in its initial build phase.
    pub fn new() -> (l: Lobby)
        ensures
            l.game_state.world.slots@.len() == 0,
            l.game_state.phase == GamePhase::Build,
            l.game_state.phase_timer == BUILD_PHASE_MS,
            l.game_state.wave_number == 1,
            l.players@.len() == 0,
    {
        Lobby { game_state: GameState::new(), players: Vec::new() }
    }

    /// Places a unit for a player: build-phase only, on-grid only, and
    /// it debits exactly the catalog cost. A refused placement leaves
    /// the lobby untouched and says why.
    pub fn place(&mut self, player_id: i64, shape: Shape, row: u32, col: u32) -> (r: Result<
        EntityId,
        CommandError,
    >)
        requires
            world_in_range(old(self).game_state.world.slots@),
            old(self).game_state.world.slots@.len() < MAX_ENTITIES,
        ensures
            r is Ok <==> place_accepted(*old(self), player_id, shape, row, col),
            r matches Ok(e) ==> {
                let slot = player_index(old(self).players@, player_id)->Some_0;
                let pos = place_position(if slot == 0 { 0int } else { 1int }, row, col);
                &&& e.idx == old(self).game_state.world.slots@.len()
                &&& final(self).game_state.world.slots@ == old(self).game_state.world.slots@.push(
                    Slot { alive: true, comps: unit_comps(pos, shape, player_id) },
                )
                &&& final(self).players@.len() == old(self).players@.len()
                &&& forall|k: int|
                    0 <= k < old(self).players@.len() && k != slot ==> final(self).players@[k]
                        == old(self).players@[k]
                &&& final(self).players@[slot].id == old(self).players@[slot].id
                &&& final(self).players@[slot].username == old(self).players@[slot].username
                &&& final(self).players@[slot].gold == old(self).players@[slot].gold
                    - unit_profile_spec(shape).gold_cost
                &&& final(self).game_state.phase == old(self).game_state.phase
                &&& final(self).game_state.phase_timer == old(self).game_state.phase_timer
                &&& final(self).game_state.wave_number == old(self).game_state.wave_number
            },
            r matches Err(err) ==> {
                &&& *final(self) == *old(self)
                &&& (err == CommandError::WrongPhase <==> old(self).game_state.phase
                    != GamePhase::Build)
                &&& (err == CommandError::OutOfBounds <==> old(self).game_state.phase
                    == GamePhase::Build && (row >= GRID_CELLS || col >= GRID_CELLS))
                &&& (err == CommandError::UnknownPlayer <==> old(self).game_state.phase
                    == GamePhase::Build && row < GRID_CELLS && col < GRID_CELLS && player_index(
                    old(self).players@,
                    player_id,
                ) is None)
                &&& (err == CommandError::InsufficientGold(shape) <==> old(self).game_state.phase
                    == GamePhase::Build && row < GRID_CELLS && col < GRID_CELLS && player_index(
                    old(self).players@,
                    player_id,
                ) is Some && old(self).players@[player_index(
                    old(self).players@,
                    player_id,
                )->Some_0].gold < unit_profile_spec(shape).gold_cost)
            },
            world_in_range(final(self).game_state.world.slots@),
    {
        proof {
            lemma_player_index_props(self.players@, player_id, self.players@.len() as int);
        }
        match self.game_state.phase {
            GamePhase::Build => {},
            _ => {
                return Err(CommandError::WrongPhase);
            },
        }
        if row >= GRID_CELLS || col >= GRID_CELLS {
            return Err(CommandError::OutOfBounds);
        }
        let slot = match self.find_player_slot(player_id) {
            Some(s) => s,
            None => {
                return Err(CommandError::UnknownPlayer);
            },
        };
        let profile = get_unit_profile(shape);
        let gold = self.players[slot].gold;
        if gold < profile.gold_cost {
            return Err(CommandError::InsufficientGold(shape));
        }
        self.players[slot].gold = gold - profile.gold_cost;
        let x: i64 = if slot == 0 {
            (col as i64) * CELL_SIZE + CELL_SIZE / 2
        } else {
            RIGHT_BOARD_START + (col as i64) * CELL_SIZE + CELL_SIZE / 2
        };
        let y: i64 = (row as i64) * CELL_SIZE + CELL_SIZE / 2;
        let e = spawn_unit(&mut self.game_state.world, Position { x, y }, shape, player_id);
        Ok(e)
    }

    /// The roster index of the first player with this id.
    pub fn find_player_slot(&self, player_id: i64) -> (r: Option<usize>)
        ensures
            r matches Some(s) ==> player_index(self.players@, player_id) == Some(s as int),
            r is None ==> player_index(self.players@, player_id) is None,
    {
        let n = self.players.len();
        let mut i: usize = 0;
        while i < n
            invariant
                i <= n,
                n == self.players@.len(),
                player_index_upto(self.players@, player_id, i as int) is None,
            decreases n - i,
        {
            if self.players[i].id == player_id {
                proof {
                    lemma_player_index_from(
                        self.players@,
                        player_id,
                        i as int,
                        self.players@.len() as int,
                    );
                }
                return Some(i);
            }
            i = i + 1;
        }
        None
    }

    /// Whether a sell succeeds: build phase, a live entity under that
    /// index, owned by the seller, priced by its shape.
    pub open spec fn sell_accepted(l: Lobby, player_id: i64, entity_id: u32) -> bool {
        &&& l.game_state.phase == GamePhase::Build
        &&& live(l.game_state.world.slots@, EntityId { idx: entity_id })
        &&& l.game_state.world.slots@[entity_id as int].comps.owner == Some(player_id)
        &&& l.game_state.world.slots@[entity_id as int].comps.shape is Some
        &&& player_index(l.players@, player_id) is Some
    }

    /// Sells one of the player's own units back during the build
    /// phase: the unit despawns and three quarters of its catalog
    /// cost, rounded down, come back. Anything else is ignored.
    pub fn sell_by_id(&mut self, player_id: i64, entity_id: u32) -> (sold: bool)
        requires
            world_in_range(old(self).game_state.world.slots@),
        ensures
            sold == Lobby::sell_accepted(*old(self), player_id, entity_id),
            !sold ==> *final(self) == *old(self),
            sold ==> {
                let slots = old(self).game_state.world.slots@;
                let shape = slots[entity_id as int].comps.shape->Some_0;
                let refund = unit_profile_spec(shape).gold_cost * 3 / 4;
                let slot = player_index(old(self).players@, player_id)->Some_0;
                &&& final(self).game_state.world.slots@ == slots.update(
                    entity_id as int,
                    Slot { alive: false, comps: slots[entity_id as int].comps },
                )
                &&& final(self).players@.len() == old(self).players@.len()
                &&& forall|k: int|
                    0 <= k < old(self).players@.len() && k != slot ==> final(self).players@[k]
                        == old(self).players@[k]
                &&& final(self).players@[slot].id == old(self).players@[slot].id
                &&& final(self).players@[slot].username == old(self).players@[slot].username
                &&& final(self).players@[slot].gold == crate::worker::sat_add_gold(
                    old(self).players@[slot].gold,
                    refund as nat,
                )
                &&& final(self).game_state.phase == old(self).game_state.phase
                &&& final(self).game_state.phase_timer == old(self).game_state.phase_timer
                &&& final(self).game_state.wave_number == old(self).game_state.wave_number
            },
            world_in_range(final(self).game_state.world.slots@),
    {
        match self.game_state.phase {
            GamePhase::Build => {},
            _ => {
                return false;
            },
        }
        let e = EntityId { idx: entity_id };
        let n = self.game_state.world.slots.len();
        if !((entity_id as usize) < n && self.game_state.world.slots[entity_id as usize].alive) {
            return false;
        }
        let s = self.game_state.world.slots[entity_id as usize];
        let owned = match s.comps.owner {
            Some(o) => o == player_id,
            None => false,
        };
        if !owned {
            return false;
        }
        let shape = match s.comps.shape {
            Some(sh) => sh,
            None => {
                return false;
            },
        };
        let slot = match self.find_player_slot(player_id) {
            Some(sl) => sl,
            None => {
                return false;
            },
        };
        proof {
            lemma_player_index_props(self.players@, player_id, self.players@.len() as int);
        }
        let refund = get_unit_profile(shape).gold_cost * 3 / 4;
        let gold = self.players[slot].gold;
        let new_gold = if gold <= u32::MAX - refund {
            gold + refund
        } else {
            u32::MAX
        };
        self.players[slot].gold = new_gold;
        self.game_state.world.despawn(e);
        true
    }

    /// Whether hiring a worker succeeds: a known player with the fee
    /// covered; the phase does not matter.
    pub open spec fn hire_accepted(l: Lobby, player_id: i64) -> bool {
        &&& player_index(l.players@, player_id) is Some
        &&& l.players@[player_index(l.players@, player_id)->Some_0].gold >= WORKER_COST
    }

    /// Hires one worker for the player: debits the fixed fee and
    /// spawns the worker at the player's cart, cycling to the
    /// player's vein. Allowed in every phase.
    pub fn hire_worker(&mut self, player_id: i64) -> (r: Result<EntityId, CommandError>)
        requires
            world_in_range(old(self).game_state.world.slots@),
            old(self).game_state.world.slots@.len() < MAX_ENTITIES,
        ensures
            r is Ok <==> Lobby::hire_accepted(*old(self), player_id),
            r matches Ok(e) ==> {
                let slot = player_index(old(self).players@, player_id)->Some_0;
                let anchor: int = if slot == 0 {
                    0
                } else {
                    1
                };
                let targets = crate::components::TargetPositions {
                    vein: crate::worker::vein_position(anchor),
                    cart: crate::worker::cart_position(anchor),
                };
                &&& e.idx == old(self).game_state.world.slots@.len()
                &&& final(self).game_state.world.slots@ == old(self).game_state.world.slots@.push(
                    Slot { alive: true, comps: worker_comps(player_id, targets) },
                )
                &&& final(self).players@.len() == old(self).players@.len()
                &&& forall|k: int|
                    0 <= k < old(self).players@.len() && k != slot ==> final(self).players@[k]
                        == old(self).players@[k]
                &&& final(self).players@[slot].id == old(self).players@[slot].id
                &&& final(self).players@[slot].username == old(self).players@[slot].username
                &&& final(self).players@[slot].gold == old(self).players@[slot].gold - WORKER_COST
                &&& final(self).game_state.phase == old(self).game_state.phase
                &&& final(self).game_state.phase_timer == old(self).game_state.phase_timer
                &&& final(self).game_state.wave_number == old(self).game_state.wave_number
            },
            r matches Err(err) ==> {
                &&& *final(self) == *old(self)
                &&& (err == CommandError::UnknownPlayer <==> player_index(
                    old(self).players@,
                    player_id,
                ) is None)
                &&& (err == CommandError::InsufficientGoldForWorker <==> player_index(
                    old(self).players@,
                    player_id,
                ) is Some && old(self).players@[player_index(
                    old(self).players@,
                    player_id,
                )->Some_0].gold < WORKER_COST)
            },
            world_in_range(final(self).game_state.world.slots@),
    {
        let slot = match self.find_player_slot(player_id) {
            Some(s) => s,
            None => {
                return Err(CommandError::UnknownPlayer);
            },
        };
        proof {
            lemma_player_index_props(self.players@, player_id, self.players@.len() as int);
        }
        let gold = self.players[slot].gold;
        if gold < WORKER_COST {
            return Err(CommandError::InsufficientGoldForWorker);
        }
        self.players[slot].gold = gold - WORKER_COST;
        let anchor: usize = if slot == 0 {
            0
        } else {
            1
        };
        let targets = crate::components::TargetPositions {
            vein: crate::worker::vein_anchor(anchor),
            cart: crate::worker::cart_anchor(anchor),
        };
        let e = spawn_worker(&mut self.game_state.world, player_id, targets);
        Ok(e)
    }

    /// Read-only lookup of one entity's combat numbers. The sell value
    /// is quoted only to the owner, and never for a worker.
    pub fn request_unit_info(&self, player_id: i64, entity_id: u32) -> (r: Option<
        crate::messages::UnitInfoData,
    >)
        ensures
            r is Some <==> {
                let slots = self.game_state.world.slots@;
                &&& live(slots, EntityId { idx: entity_id })
                &&& slots[entity_id as int].comps.attack_stats is Some
                &&& slots[entity_id as int].comps.attack_range is Some
            },
            r matches Some(info) ==> {
                let c = self.game_state.world.slots@[entity_id as int].comps;
                &&& info.damage == c.attack_stats->Some_0.damage
                &&& info.rate == c.attack_stats->Some_0.rate
                &&& info.range == c.attack_range->Some_0
                &&& info.damage_type == c.attack_stats->Some_0.damage_type
                &&& info.armor == (match c.defense {
                    Some(d) => d.armor,
                    None => 0i64,
                })
                &&& info.is_boss == c.boss
                &&& info.sell_value == (if c.owner == Some(player_id) && !c.worker
                    && c.shape is Some {
                    Some((unit_profile_spec(c.shape->Some_0).gold_cost * 3 / 4) as u32)
                } else {
                    None::<u32>
                })
            },
    {
        let n = self.game_state.world.slots.len();
        if !((entity_id as usize) < n && self.game_state.world.slots[entity_id as usize].alive) {
            return None;
        }
        let c = self.game_state.world.slots[entity_id as usize].comps;
        let stats = match c.attack_stats {
            Some(st) => st,
            None => {
                return None;
            },
        };
        let range = match c.attack_range {
            Some(ar) => ar,
            None => {
                return None;
            },
        };
        let armor = match c.defense {
            Some(d) => d.armor,
            None => 0,
        };
        let owned = match c.owner {
            Some(o) => o == player_id,
            None => false,
        };
        let sell_value = if owned && !c.worker {
            match c.shape {
                Some(sh) => Some(get_unit_profile(sh).gold_cost * 3 / 4),
                None => None,
            }
        } else {
            None
        };
        Some(
            crate::messages::UnitInfoData {
                damage: stats.damage,
                rate: stats.rate,
                range,
                damage_type: stats.damage_type,
                armor,
                is_boss: c.boss,
                sell_value,
            },
        )
    }

    /// Ends the build countdown at once; the next tick starts combat.
    pub fn skip_to_combat(&mut self)
        ensures
            final(self).game_state.phase_timer == 0,
            final(self).game_state.phase == old(self).game_state.phase,
            final(self).game_state.wave_number == old(self).game_state.wave_number,
            final(self).game_state.world.slots@ == old(self).game_state.world.slots@,
            final(self).players@ == old(self).players@,
    {
        self.game_state.phase_timer = 0;
    }

    /// The roster with every copy of this player removed.
    pub open spec fn roster_without(ps: Seq<Player>, pid: i64) -> Seq<Player>
        decreases ps.len(),
    {
        if ps.len() == 0 {
            Seq::empty()
        } else {
            Lobby::roster_without(ps.drop_last(), pid) + if ps.last().id == pid {
                Seq::<Player>::empty()
            } else {
                seq![ps.last()]
            }
        }
    }

    /// Removes a player from the roster and despawns every entity they
    /// own. When the last player leaves, the whole game state resets
    /// to a fresh build phase.
    pub fn remove_player(&mut self, player_id: i64)
        requires
            world_in_range(old(self).game_state.world.slots@),
        ensures
            final(self).players@ == Lobby::roster_without(old(self).players@, player_id),
            final(self).players@.len() == 0 ==> {
                &&& final(self).game_state.world.slots@.len() == 0
                &&& final(self).game_state.phase == GamePhase::Build
                &&& final(self).game_state.phase_timer == BUILD_PHASE_MS
                &&& final(self).game_state.wave_number == 1
            },
            final(self).players@.len() > 0 ==> {
                let slots = old(self).game_state.world.slots@;
                &&& final(self).game_state.world.slots@.len() == slots.len()
                &&& forall|i: int|
                    0 <= i < slots.len() ==> final(self).game_state.world.slots@[i] == (
                    if (#[trigger] slots[i]).alive && slots[i].comps.owner == Some(player_id) {
                        Slot { alive: false, comps: slots[i].comps }
                    } else {
                        slots[i]
                    })
                &&& final(self).game_state.phase == old(self).game_state.phase
                &&& final(self).game_state.phase_timer == old(self).game_state.phase_timer
                &&& final(self).game_state.wave_number == old(self).game_state.wave_number
            },
            world_in_range(final(self).game_state.world.slots@),
    {
        let ghost ps0 = self.players@;
        let np = self.players.len();
        let mut kept: Vec<Player> = Vec::new();
        let mut k: usize = 0;
        while k < np
            invariant
                k <= np,
                np == self.players@.len(),
                self.players@ == ps0,
                kept@ == Lobby::roster_without(ps0.take(k as int), player_id),
                self.game_state.world.slots@ == old(self).game_state.world.slots@,
                self.game_state.phase == old(self).game_state.phase,
                self.game_state.phase_timer == old(self).game_state.phase_timer,
                self.game_state.wave_number == old(self).game_state.wave_number,
            decreases np - k,
        {
            proof {
                assert(ps0.take(k as int + 1).drop_last() =~= ps0.take(k as int));
            }
            let p = &self.players[k];
            if p.id != player_id {
                let copy = Player { id: p.id, username: p.username.clone(), gold: p.gold };
                proof {
                    assert(copy == ps0[k as int]);
                }
                kept.push(copy);
            }
            k = k + 1;
        }
        proof {
            assert(ps0.take(np as int) =~= ps0);
        }
        self.players = kept;

        if self.players.len() == 0 {
            self.game_state = GameState::new();
            return ;
        }

        let ghost slots0 = old(self).game_state.world.slots@;
        let n = self.game_state.world.slots.len();
        let mut i: usize = 0;
        while i < n
            invariant
                i <= n,
                self.game_state.world.slots@.len() == n,
                forall|j: int|
                    0 <= j < i ==> self.game_state.world.slots@[j] == (if (#[trigger] slots0[j]).alive
                        && slots0[j].comps.owner == Some(player_id) {
                        Slot { alive: false, comps: slots0[j].comps }
                    } else {
                        slots0[j]
                    }),
                forall|j: int| i <= j < n ==> self.game_state.world.slots@[j] == slots0[j],
                self.players@ == Lobby::roster_without(ps0, player_id),
                self.players@.len() > 0,
                self.game_state.phase == old(self).game_state.phase,
                self.game_state.phase_timer == old(self).game_state.phase_timer,
                self.game_state.wave_number == old(self).game_state.wave_number,
            decreases n - i,
        {
            let s = self.game_state.world.slots[i];
            if s.alive {
                let owned = match s.comps.owner {
                    Some(o) => o == player_id,
                    None => false,
                };
                if owned {
                    self.game_state.world.slots[i] = Slot { alive: false, comps: s.comps };
                }
            }
            i = i + 1;
        }
        proof {
            assert forall|j: int|
                0 <= j < self.game_state.world.slots@.len() && (#[trigger] self.game_state.world.slots@[j]).alive
                implies crate::components::comps_in_range(self.game_state.world.slots@[j].comps) by {
                assert(slots0[j].alive ==> crate::components::comps_in_range(slots0[j].comps));
            }
        }
    }

    /// Seats a player if a seat is free; reports whether they joined.
    pub fn add_player(&mut self, player: Player) -> (joined: bool)
        ensures
            joined == (old(self).players@.len() < 2),
            joined ==> final(self).players@ == old(self).players@.push(player),
            !joined ==> final(self).players@ == old(self).players@,
            final(self).game_state.world.slots@ == old(self).game_state.world.slots@,
            final(self).game_state.phase == old(self).game_state.phase,
            final(self).game_state.phase_timer == old(self).game_state.phase_timer,
            final(self).game_state.wave_number == old(self).game_state.wave_number,
    {
        if self.players.len() < 2 {
            self.players.push(player);
            true
        } else {
            false
        }
    }
}

} // verus!
