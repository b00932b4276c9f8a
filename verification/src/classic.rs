//! The Bluetooth Classic protocols and profiles.

pub mod a2dp;
pub mod at;
pub mod avc;
pub mod avctp;
pub mod avdtp;
pub mod avrcp;
pub mod event_laws;
pub mod hfp;
pub mod hid;
pub mod record_laws;
pub mod rfcomm;
pub mod rtp;
pub mod sdp;
