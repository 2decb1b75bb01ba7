pub mod app_state;
pub mod playback_state;

pub use app_state::AppState;
pub use playback_state::PlaybackState;
