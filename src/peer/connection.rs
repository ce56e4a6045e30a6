use vstd::prelude::*;

use crate::bitfield::BitField;
use crate::error::Error;
use crate::peer::handshake::{decode_handshake, protocol_name, zero_reserved, Handshake, HandshakeView};
use crate::peer::message::{Message, MessageView};

verus! {

/// Where a connection stands in its life.
#[derive(Debug, Clone, Copy, PartialEq, Eq, Structural)]
pub enum Phase {
    /// The socket is connecting; the handshake goes out once it is writable.
    Connecting,
    /// The handshake went out; the peer's is awaited.
    HandshakeSent,
    /// The peer's handshake checked out; messages flow.
    Established,
    /// Closed, by either side or on a failure.
    Closed,
}

/// The readiness a connection waits for.
#[derive(Debug, Clone, Copy, PartialEq, Eq, Structural)]
pub enum Readiness {
    Readable,
    Writable,
    Both,
}

/// The protocol state of one peer connection, without its socket.
#[derive(Debug)]
pub struct PeerState {
    /// The id this client presents to the peer.
    pub my_id: [u8; 20],
    /// The peer's id, known once its handshake arrived.
    pub peer_id: [u8; 20],
    pub info_hash: [u8; 20],
    pub phase: Phase,
    pub am_choking: bool,
    pub am_interested: bool,
    pub peer_choking: bool,
    pub peer_interested: bool,
    /// The pieces that the peer has announced.
    pub bitfield: BitField,
    pub downloaded: u64,
    pub uploaded: u64,
    pub left: u64,
}

/// The readiness that each phase waits for: both while connecting and once
/// established, only readable while the peer's handshake is awaited.
pub open spec fn readiness_of(p: Phase) -> Readiness {
    match p {
        Phase::HandshakeSent => Readiness::Readable,
        _ => Readiness::Both,
    }
}

/// Whether two states agree on the ids, the choke and interest flags, the
/// peer's pieces and the counters: all but the phase and the peer's id.
pub open spec fn same_session(a: PeerState, b: PeerState) -> bool {
    &&& a.my_id == b.my_id
    &&& a.info_hash == b.info_hash
    &&& a.am_choking == b.am_choking
    &&& a.am_interested == b.am_interested
    &&& a.peer_choking == b.peer_choking
    &&& a.peer_interested == b.peer_interested
    &&& a.bitfield == b.bitfield
    &&& a.downloaded == b.downloaded
    &&& a.uploaded == b.uploaded
    &&& a.left == b.left
}

impl PeerState {
    /// A connection being opened: choked and not interested on both sides.
    pub fn new(info_hash: [u8; 20], my_id: [u8; 20]) -> (r: PeerState)
        ensures
            r.phase == Phase::Connecting,
            r.info_hash == info_hash,
            r.my_id == my_id,
            r.am_choking && r.peer_choking,
            !r.am_interested && !r.peer_interested,
            r.bitfield.payload@.len() == 0 && r.bitfield.len == 0,
            r.downloaded == 0 && r.uploaded == 0 && r.left == 0,
    {
        PeerState {
            my_id,
            peer_id: [0u8; 20],
            info_hash,
            phase: Phase::Connecting,
            am_choking: true,
            am_interested: false,
            peer_choking: true,
            peer_interested: false,
            bitfield: BitField::new(Vec::new()),
            downloaded: 0,
            uploaded: 0,
            left: 0,
        }
    }

    /// The readiness to wait for now.
    pub fn readiness(&self) -> (r: Readiness)
        ensures
            r == readiness_of(self.phase),
    {
        match self.phase {
            Phase::HandshakeSent => Readiness::Readable,
            _ => Readiness::Both,
        }
    }

    /// The socket became writable. While connecting, the handshake is due:
    /// its bytes are returned and the connection waits for the peer's.
    /// Otherwise nothing is due.
    pub fn on_writable(&mut self) -> (r: Option<Vec<u8>>)
        ensures
            old(self).phase == Phase::Connecting ==> (r matches Some(b) && b@ == (HandshakeView {
                pstr: protocol_name(),
                reserved: zero_reserved(),
                info_hash: old(self).info_hash@,
                peer_id: old(self).my_id@,
            }).wire()) && final(self).phase == Phase::HandshakeSent,
            old(self).phase != Phase::Connecting ==> r is None && final(self).phase == old(
                self,
            ).phase,
            same_session(*final(self), *old(self)),
            final(self).peer_id == old(self).peer_id,
    {
        if self.phase != Phase::Connecting {
            return None;
        }
        let h = Handshake::new(self.info_hash, self.my_id);
        let bytes = h.to_bytes();
        self.phase = Phase::HandshakeSent;
        Some(bytes)
    }

    /// The peer's 68 handshake bytes arrived. When they decode and name this
    /// torrent and protocol, the peer's id is kept and messages may flow;
    /// otherwise the connection closes with `InvalidFormat` for bytes that do
    /// not decode and `HandshakeFailed` for a handshake that does not check out.
    /// A handshake that comes when none is awaited fails with
    /// `HandshakeFailed` and changes nothing.
    pub fn on_handshake(&mut self, bytes: &[u8]) -> (r: Result<(), Error>)
        ensures
            same_session(*final(self), *old(self)),
            final(self).phase != Phase::Established ==> final(self).peer_id == old(self).peer_id,
            old(self).phase != Phase::HandshakeSent ==> r == Err::<(), Error>(
                Error::HandshakeFailed,
            ) && final(self).phase == old(self).phase,
            old(self).phase == Phase::HandshakeSent && decode_handshake(bytes@) is Err ==> r
                == Err::<(), Error>(Error::InvalidFormat) && final(self).phase == Phase::Closed,
            old(self).phase == Phase::HandshakeSent ==> (decode_handshake(bytes@) matches Ok(h)
                ==> {
                let good = h.info_hash == old(self).info_hash@ && h.pstr == protocol_name()
                    && h.reserved == zero_reserved();
                &&& good ==> r is Ok && final(self).phase == Phase::Established
                    && final(self).peer_id@ == h.peer_id
                &&& !good ==> r == Err::<(), Error>(Error::HandshakeFailed) && final(self).phase
                    == Phase::Closed
            }),
    {
        if self.phase != Phase::HandshakeSent {
            return Err(Error::HandshakeFailed);
        }
        let h = match Handshake::from_bytes(bytes) {
            Ok(h) => h,
            Err(e) => {
                self.phase = Phase::Closed;
                return Err(e);
            },
        };
        if h.check(self.info_hash.as_slice()) {
            self.peer_id = h.peer_id;
            self.phase = Phase::Established;
            Ok(())
        } else {
            self.phase = Phase::Closed;
            Err(Error::HandshakeFailed)
        }
    }

    /// The wait for readiness ran out: the connection closes with `Timeout`.
    pub fn on_timeout(&mut self) -> (r: Error)
        ensures
            r == Error::Timeout,
            final(self).phase == Phase::Closed,
            same_session(*final(self), *old(self)),
            final(self).peer_id == old(self).peer_id,
    {
        self.phase = Phase::Closed;
        Error::Timeout
    }

    /// Takes in a message from the peer: its choke and interest flags follow
    /// the message, `Have` marks the piece when the bit field holds it, and
    /// `Bitfield` replaces the peer's pieces, one per bit of its payload.
    pub fn on_message(&mut self, m: &Message)
        ensures
            final(self).phase == old(self).phase,
            final(self).am_choking == old(self).am_choking,
            final(self).am_interested == old(self).am_interested,
            final(self).peer_choking == match m@ {
                MessageView::Choke => true,
                MessageView::Unchoke => false,
                _ => old(self).peer_choking,
            },
            final(self).peer_interested == match m@ {
                MessageView::Interested => true,
                MessageView::NotInterested => false,
                _ => old(self).peer_interested,
            },
            m@ matches MessageView::Bitfield(b) ==> final(self).bitfield.payload@ == b && (b.len() * 8
                <= usize::MAX ==> final(self).bitfield.len == b.len() * 8),
            m@ matches MessageView::Have(i) ==> ((i as int) / 8 < old(self).bitfield.payload@.len()
                ==> final(self).bitfield.bit(i as int)) && ((i as int) / 8 >= old(
                self,
            ).bitfield.payload@.len() ==> final(self).bitfield == old(self).bitfield)
                && final(self).bitfield.len == old(self).bitfield.len
                && final(self).bitfield.payload@.len() == old(self).bitfield.payload@.len() && (
            forall|j: int|
                0 <= j < old(self).bitfield.payload@.len() * 8 && j != i
                    ==> #[trigger] final(self).bitfield.bit(j) == old(self).bitfield.bit(j)),
            final(self).my_id == old(self).my_id,
            final(self).info_hash == old(self).info_hash,
            final(self).peer_id == old(self).peer_id,
            final(self).downloaded == old(self).downloaded,
            final(self).uploaded == old(self).uploaded,
            final(self).left == old(self).left,
            !(m@ is Bitfield) && !(m@ is Have) ==> final(self).bitfield == old(self).bitfield,
    {
        match m {
            Message::Choke => {
                self.peer_choking = true;
            },
            Message::Unchoke => {
                self.peer_choking = false;
            },
            Message::Interested => {
                self.peer_interested = true;
            },
            Message::NotInterested => {
                self.peer_interested = false;
            },
            Message::Have(index) => {
                let i = *index as usize;
                if i / 8 < self.bitfield.payload.len() {
                    self.bitfield.set(i);
                }
            },
            Message::Bitfield(bytes) => {
                let n = bytes.len();
                let len = if n <= usize::MAX / 8 {
                    n * 8
                } else {
                    usize::MAX
                };
                let payload = crate::bytes::copy_range(bytes.as_slice(), 0, n);
                assert(payload@ =~= bytes@);
                self.bitfield = BitField { payload, len };
            },
            _ => {},
        }
    }

    /// Notes a message this client sent: its own choke and interest flags
    /// follow the message.
    pub fn on_sent(&mut self, m: &Message)
        ensures
            final(self).phase == old(self).phase,
            final(self).peer_choking == old(self).peer_choking,
            final(self).peer_interested == old(self).peer_interested,
            final(self).my_id == old(self).my_id,
            final(self).info_hash == old(self).info_hash,
            final(self).peer_id == old(self).peer_id,
            final(self).bitfield == old(self).bitfield,
            final(self).downloaded == old(self).downloaded,
            final(self).uploaded == old(self).uploaded,
            final(self).left == old(self).left,
            final(self).am_choking == match m@ {
                MessageView::Choke => true,
                MessageView::Unchoke => false,
                _ => old(self).am_choking,
            },
            final(self).am_interested == match m@ {
                MessageView::Interested => true,
                MessageView::NotInterested => false,
                _ => old(self).am_interested,
            },
    {
        match m {
            Message::Choke => {
                self.am_choking = true;
            },
            Message::Unchoke => {
                self.am_choking = false;
            },
            Message::Interested => {
                self.am_interested = true;
            },
            Message::NotInterested => {
                self.am_interested = false;
            },
            _ => {},
        }
    }

    /// Closes the connection.
    pub fn close(&mut self)
        ensures
            final(self).phase == Phase::Closed,
            same_session(*final(self), *old(self)),
            final(self).peer_id == old(self).peer_id,
    {
        self.phase = Phase::Closed;
    }

    /// Whether messages may still be exchanged: `ConnectionClosed` once the
    /// connection is closed.
    pub fn ensure_open(&self) -> (r: Result<(), Error>)
        ensures
            self.phase == Phase::Closed <==> r == Err::<(), Error>(Error::ConnectionClosed),
            r is Err ==> r == Err::<(), Error>(Error::ConnectionClosed),
    {
        if self.phase == Phase::Closed {
            Err(Error::ConnectionClosed)
        } else {
            Ok(())
        }
    }

    /// Whether the connection is still open.
    pub fn is_open(&self) -> (r: bool)
        ensures
            r == (self.phase != Phase::Closed),
    {
        self.phase != Phase::Closed
    }

    /// Whether the peer chokes this client.
    pub fn is_choked(&self) -> (r: bool)
        ensures
            r == self.peer_choking,
    {
        self.peer_choking
    }

    /// Whether the peer is interested in this client's pieces.
    pub fn is_interested(&self) -> (r: bool)
        ensures
            r == self.peer_interested,
    {
        self.peer_interested
    }

    /// Whether the peer announced the piece at `index`.
    pub fn has_piece(&self, index: usize) -> (r: bool)
        ensures
            r == (index / 8 < self.bitfield.payload@.len() && self.bitfield.bit(index as int)),
    {
        if index / 8 < self.bitfield.payload.len() {
            self.bitfield.has_piece(index)
        } else {
            false
        }
    }
}

} // verus!
