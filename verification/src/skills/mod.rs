pub mod skill_system;
pub mod perform;
