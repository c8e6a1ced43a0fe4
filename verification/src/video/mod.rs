//! Video pipeline decisions: picture identity, presentation, recovery and pacing.
pub mod timing;
pub mod output;
pub mod freshness;
pub mod policy;
pub mod startup;
pub mod catch_up;
pub mod trace;
pub mod metrics;
pub mod decode_epoch;
pub mod frame_layout;
