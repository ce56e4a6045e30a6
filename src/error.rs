use vstd::prelude::*;

verus! {

/// The failures that the peer-wire codecs, the storage bookkeeping and the
/// tracker protocols report.
#[derive(Debug, Clone, Copy, PartialEq, Eq, Structural)]
pub enum Error {
    /// Malformed wire bytes: a frame or a field of the wrong length, a bad tag.
    InvalidFormat,
    /// A peer-wire message whose id byte names no known message.
    UnknownMessageType(u8),
    /// The remote handshake named another torrent or another protocol.
    HandshakeFailed,
    /// No readiness event arrived before the deadline.
    Timeout,
    /// The socket was closed or failed.
    ConnectionClosed,
    /// A storage access beyond the end of the content or of the piece table.
    OutOfRange,
    /// A tracker response echoed another transaction id.
    TransactionMismatch,
    /// A tracker response carried another action than the request.
    UnexpectedAction,
    /// The tracker did not answer within the allowed attempts.
    ConnectionFailed,
    /// An announce or scrape was asked for before a connection id was obtained.
    NotConnected,
}

} // verus!
