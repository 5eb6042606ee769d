pub mod catalog;
pub mod components;
pub mod combat;
pub mod constants;
pub mod messages;
pub mod game_loop;
pub mod game_state;
pub mod lobby;
pub mod math;
pub mod player;
pub mod session;
pub mod shape;
pub mod snapshot;
pub mod spawn;
pub mod wave;
pub mod worker;
pub mod world;
