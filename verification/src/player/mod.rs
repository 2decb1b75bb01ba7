pub mod playback;
