//! The frames a stream asks the packet layer to send.
//!
//! A frame names what is to be sent, not its bytes on the wire. A `Stream`
//! frame points into the sending half's buffer by offset and length.

use vstd::prelude::*;

verus! {

/// Largest size a stream can have, and so the bound of every offset in it:
/// `2^62 - 1`.
pub const MAX_OFFSET: u64 = 0x3FFF_FFFF_FFFF_FFFF;

/// Frames that the data-sending part of a stream can ask for.
#[derive(Clone, Copy, Debug, PartialEq, Eq, Structural)]
pub enum SendingFrame {
    /// Carries the `len` bytes that start at `offset`; `fin` marks the end of
    /// the stream.
    Stream { offset: u64, len: u64, fin: bool },
    /// Tells the peer that data is waiting but `limit` does not allow it.
    StreamDataBlocked { limit: u64 },
    /// Abandons the stream after `final_size` bytes.
    ResetStream { final_size: u64 },
}

/// Frames that the data-receiving part of a stream can ask for.
#[derive(Clone, Copy, Debug, PartialEq, Eq, Structural)]
pub enum ReceivingFrame {
    /// Allows the peer to send up to offset `limit`.
    MaxStreamData { limit: u64 },
    /// Asks the peer to stop sending.
    StopSending,
}

/// A frame of either half, as queued by a stream.
#[derive(Clone, Copy, Debug, PartialEq, Eq, Structural)]
pub enum Frame {
    Sending(SendingFrame),
    Receiving(ReceivingFrame),
}

} // verus!
