//! The audio path's decisions: packets, the jitter buffer, the peer slot
//! table, and device choice.
pub mod packet;
pub mod window;
pub mod jitter;
pub mod device;
pub mod engine;
