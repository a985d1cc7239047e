//! Per-room voice recording: frame mixing, session buffering and WAV output.
pub mod pcm;
pub mod mixer;
pub mod wav;
pub mod session;
pub mod state;
