pub mod mud;
pub mod json;
