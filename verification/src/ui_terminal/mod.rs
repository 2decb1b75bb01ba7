pub mod render;
pub mod input;
pub mod terminal;
