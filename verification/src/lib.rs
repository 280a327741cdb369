//! Traffic generation and link-quality analysis for a CAN-style bus.
//!
//! The crate holds the frame model, the quality-test payload codec, the
//! wraparound-aware sequence accounting, the pacing arithmetic and the
//! decisions of the send and receive loops, each with a machine-checked
//! contract. Sockets, clocks and the console live with the caller.

pub mod frame;
pub mod quality;
pub mod sequence;
pub mod pacing;
pub mod stats;
pub mod parse;
pub mod config;
pub mod transport;
pub mod receiver;
pub mod sender;
