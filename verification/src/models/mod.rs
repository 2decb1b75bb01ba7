pub mod library;
pub mod song;
