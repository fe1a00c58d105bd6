//! Per-stream state machine of a QUIC-like multiplexed transport.
//!
//! A stream is identified by a 62-bit [`id::Id`] whose two low bits say who
//! opened it and whether it carries data in one direction or in both.

pub mod error;
pub mod frame;
pub mod id;
pub mod recv;
pub mod send;
pub mod stream;
