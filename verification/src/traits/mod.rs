pub mod composition;
pub mod entity;
pub mod daemon;
pub mod equip;
