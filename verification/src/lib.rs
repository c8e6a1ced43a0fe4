//! Verified streaming-client logic: RTP ordering, congestion feedback, video and audio pacing.
pub mod text;
pub mod rtc;
pub mod video;
pub mod audio;
pub mod touch;
pub mod gestures;
pub mod session_kind;
pub mod overlay;
pub mod catalog;
pub mod collections;
pub mod games;
pub mod input;
pub mod microphone;
pub mod voice_uplink;
