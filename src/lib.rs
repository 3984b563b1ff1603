//! An in-process hub that couples live stream publishers with subscribers.
//!
//! The registry (`hub`) and the per-stream fan-out (`transmitter`) are state
//! machines: each event is decided here and the caller performs the actions
//! (spawning tasks, sending on channels) that the decisions name.
pub mod define;
pub mod stream;
pub mod transmitter;
pub mod hub;
pub mod service;
pub mod webrtc;
pub mod media;
pub mod relay;
