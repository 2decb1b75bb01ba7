pub mod event_handler;
pub mod playback_handler;
