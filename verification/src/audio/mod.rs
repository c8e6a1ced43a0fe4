//! Playback audio: gain ramping and local residence admission.
pub mod gain;
pub mod timing;
pub mod playout;
