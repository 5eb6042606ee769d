use vstd::prelude::*;

use crate::components::Position;
use crate::shape::{DamageType, Shape};

verus! {

/// One resolved attack, for the client's effect layer.
#[derive(Clone, Copy, Debug, PartialEq, Eq, Structural)]
pub struct CombatEvent {
    pub attacker_id: u32,
    pub target_id: u32,
    pub attack_type: DamageType,
    pub start_pos: Position,
    pub end_pos: Position,
}

/// Payload of a placement command: which shape, and the grid cell.
#[derive(Clone, Copy, Debug, PartialEq, Eq, Structural)]
pub struct PlaceMessage {
    pub shape: Shape,
    pub row: u32,
    pub col: u32,
}

/// Payload of a sell command: the entity index to sell.
#[derive(Clone, Copy, Debug, PartialEq, Eq, Structural)]
pub struct SellMessage {
    pub entity_id: u32,
}

/// The inbound command union, decoded from the wire by the connection
/// layer.
#[derive(Clone, Copy, Debug, PartialEq, Eq, Structural)]
pub enum ClientMessage {
    JoinLobby(usize),
    Place(PlaceMessage),
    SellById(SellMessage),
    HireWorker,
    SkipToCombat,
    RequestUnitInfo(u32),
    LeaveLobby,
}

/// One lobby's occupancy, for the lobby list broadcast.
#[derive(Clone, Copy, Debug, PartialEq, Eq, Structural)]
pub struct LobbyInfo {
    pub id: usize,
    pub player_count: usize,
}

/// What a unit-info query reports about one entity.
#[derive(Clone, Copy, Debug, PartialEq, Eq, Structural)]
pub struct UnitInfoData {
    pub damage: i64,
    pub rate: i64,
    pub range: i64,
    pub damage_type: DamageType,
    pub armor: i64,
    pub is_boss: bool,
    pub sell_value: Option<u32>,
}

/// One entity as the client sees it in a snapshot.
#[derive(Clone, Copy, Debug, PartialEq, Eq, Structural)]
pub struct Unit {
    pub id: u32,
    pub shape: Shape,
    pub x: i64,
    pub y: i64,
    pub owner_id: i64,
    pub is_enemy: bool,
    pub current_hp: i64,
    pub max_hp: i64,
    pub is_worker: bool,
    pub current_mana: Option<i64>,
    pub max_mana: Option<i64>,
    pub worker_state: Option<crate::components::WorkerState>,
}

/// One full world snapshot as broadcast after a tick.
#[derive(Debug)]
pub struct SerializableGameState {
    pub units: Vec<Unit>,
    pub players: Vec<crate::player::Player>,
    pub phase: crate::game_state::GamePhase,
    pub phase_timer: i64,
}

/// The outbound message union; the connection layer serialises it.
#[derive(Debug)]
pub enum ServerMessage {
    PlayerId(i64),
    LobbyStatus(Vec<LobbyInfo>),
    GameState(SerializableGameState),
    CombatEvents(Vec<CombatEvent>),
    UnitInfo(UnitInfoData),
    Error(String),
}

} // verus!
