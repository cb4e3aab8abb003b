//! Non-player characters as the game describes them: their basic
//! attributes, trainers who teach skills, merchants, monsters and the
//! manager that keeps the NPCs of the world.
pub mod base;
pub mod npc;
pub mod trainer;
pub mod monster;
pub mod merchant;
