//! Protocol engine for a handheld input device spoken to over a serial
//! byte pipe: checksum computation, frame encoding and decoding, stream
//! resynchronization, transaction pairing, and state payload decoding.
//!
//! The transport itself (a serial port, a scripted feeder in tests) is a
//! capability the caller supplies through the [`transport::Transport`]
//! trait; everything in this crate is pure protocol logic.

pub mod calibration;
pub mod client;
pub mod codec;
pub mod crc;
pub mod reassembler;
pub mod state;
pub mod transport;
