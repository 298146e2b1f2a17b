//! The network protocol: the audio datagram format, the control messages, and
//! the reconnect policy.
pub mod audio_wire;
pub mod control;
pub mod peer;
