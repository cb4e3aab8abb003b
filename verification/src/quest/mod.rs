pub mod types;
pub mod daemon;
