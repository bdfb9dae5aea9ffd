//! Streaming engine for a radio-simulation server: the session identity,
//! the binary audio-frame codec, the worker control state, the audio
//! pacing and playlist logic, and the control-message codes.

pub mod bytes;
pub mod freq;
pub mod frame;
pub mod identity;
pub mod worker;
pub mod playlist;
pub mod broadcast;
pub mod message;
pub mod player;
