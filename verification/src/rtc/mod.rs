//! Receive-side RTP logic: ordering, clocks, bandwidth feedback and traffic accounting.
pub mod reorder;
pub mod h264;
pub mod congestion;
pub mod clock;
pub mod latest_input;
pub mod traffic;
pub mod sdp;
pub mod feedback;
pub mod video_rtp;
pub mod video_stats;
pub mod keyframes;
pub mod stream_bindings;
pub mod audio_rtp;
