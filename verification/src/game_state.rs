use vstd::prelude::*;

use crate::constants::BUILD_PHASE_MS;
use crate::world::World;

verus! {

/// The lobby's mode: building, fighting a wave, or done.
#[derive(Clone, Copy, Debug, PartialEq, Eq, Structural)]
pub enum GamePhase {
    Build,
    Combat,
    Victory,
}

/// One lobby's simulation state: the entity world, the phase, the
/// countdown within the phase (milliseconds), and the wave counter.
#[derive(Debug)]
pub struct GameState {
    pub world: World,
    pub phase: GamePhase,
    pub phase_timer: i64,
    pub wave_number: u32,
}

impl GameState {
    /// A fresh game: an empty world, the first build phase counting
    /// down, wave one ahead.
    pub fn new() -> (g: GameState)
        ensures
            g.world.slots@.len() == 0,
            g.phase == GamePhase::Build,
            g.phase_timer == BUILD_PHASE_MS,
            g.wave_number == 1,
    {
        GameState {
            world: World::new(),
            phase: GamePhase::Build,
            phase_timer: BUILD_PHASE_MS,
            wave_number: 1,
        }
    }
}

} // verus!
