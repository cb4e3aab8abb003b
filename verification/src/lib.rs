//! A multi-user text game environment: rooms, NPCs, items, skills and the
//! daemons that keep the shared game state.
pub mod text;
pub mod words;
pub mod util;
pub mod errors;
pub mod outside;
pub mod output;
pub mod world;
pub mod traits;
pub mod skills;
pub mod daemons;
pub mod player_state;
pub mod shop_system;
pub mod quest;
pub mod masters;
pub mod master;
pub mod npc;
