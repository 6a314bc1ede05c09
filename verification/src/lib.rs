//! Core logic of a fixed-delay echo pedal: the codec control channel and its
//! bring-up sequence, the circular delay buffer, the receive and transmit
//! frame dispatchers, and the polling scheduler that drives them.
//!
//! Nothing in this crate touches hardware. A caller owns the control bus and
//! the duplex audio stream, hands the library what it read from them, and
//! performs what the library tells it to write.

pub mod bringup;
pub mod buffer;
pub mod codec;
pub mod config;
pub mod control;
pub mod cursor;
pub mod dispatch;
pub mod echo;
pub mod phase;
pub mod scheduler;
