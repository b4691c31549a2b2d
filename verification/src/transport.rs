//! The transport capability the engine speaks over.

use vstd::prelude::*;

verus! {

/// A transport failed to move bytes. The engine propagates this as a
/// hard error and does not retry transport-level failures itself.
#[derive(Debug, Clone, Copy, PartialEq, Eq, Structural)]
pub struct TransportError;

/// A best-effort duplex byte pipe: a serial link in production, a
/// scripted byte-chunk feeder in tests. It delivers data in arbitrary
/// chunk sizes and offers no correlation between what is written and
/// what is read.
pub trait Transport {
    /// Writes all of `data` towards the device.
    fn send_bytes(&mut self, data: &[u8]) -> Result<(), TransportError>;

    /// One read attempt: whatever bytes have arrived, possibly none
    /// when the poll timed out. An empty read is a valid outcome, not
    /// an error. The implementation is expected to block briefly (on
    /// the order of a hundred milliseconds) rather than spin.
    fn receive_bytes(&mut self) -> Result<Vec<u8>, TransportError>;

    /// Discards any bytes received but not yet read. A stale unread
    /// reply must never be matched to a new request.
    fn clear_buffer(&mut self) -> Result<(), TransportError>;
}

} // verus!
