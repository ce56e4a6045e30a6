use vstd::prelude::*;

use crate::bytes::{be16, be32, be64, copy_range, get_u32, get_u64, push_all, push_u16, push_u32, push_u64, read32, read64};
use crate::error::Error;
use crate::tracker::peers::{compact_peers, parse_compact_peers, PeerAddr};

verus! {

/// The magic number that opens a connect request.
pub const UDP_TRACKER_PROTOCOL_ID: u64 = 0x41727101980;

/// The action codes of the UDP tracker protocol.
pub const ACTION_CONNECT: u32 = 0;

pub const ACTION_ANNOUNCE: u32 = 1;

pub const ACTION_SCRAPE: u32 = 2;

/// How many times a request is sent before the tracker is given up. This
/// bounded count stands in place of the open-ended retransmission schedule.
pub const MAX_ATTEMPTS: u32 = 5;

/// `2` to the power `n`.
pub open spec fn pow2(n: nat) -> nat
    decreases n,
{
    if n == 0 {
        1
    } else {
        2 * pow2((n - 1) as nat)
    }
}

/// How long to wait for a reply to the `n`-th retransmission, in seconds:
/// `15 * 2^n`, with `n` held at 8 at most.
pub open spec fn retransmit_secs(n: nat) -> nat {
    15 * pow2(if n > 8 {
        8
    } else {
        n
    })
}

/// The 16 bytes of a connect request.
pub open spec fn connect_request_bytes(txn: u32) -> Seq<u8> {
    be64(UDP_TRACKER_PROTOCOL_ID) + be32(ACTION_CONNECT) + be32(txn)
}

/// What a client tells the tracker in an announce.
#[derive(Debug, Clone, Copy)]
pub struct AnnounceParams {
    pub info_hash: [u8; 20],
    pub peer_id: [u8; 20],
    pub downloaded: u64,
    pub left: u64,
    pub uploaded: u64,
    /// 0: none, 1: completed, 2: started, 3: stopped.
    pub event: u32,
    pub port: u16,
}

/// The 98 bytes of an announce request; the address and the key are zero and
/// the number of peers wanted is left to the tracker.
pub open spec fn announce_request_bytes(cid: u64, txn: u32, p: AnnounceParams) -> Seq<u8> {
    be64(cid) + be32(ACTION_ANNOUNCE) + be32(txn) + p.info_hash@ + p.peer_id@ + be64(p.downloaded)
        + be64(p.left) + be64(p.uploaded) + be32(p.event) + be32(0) + be32(0) + be32(0xffff_ffff)
        + be16(p.port)
}

/// The 36 bytes of a scrape request for one torrent.
pub open spec fn scrape_request_bytes(cid: u64, txn: u32, info_hash: Seq<u8>) -> Seq<u8> {
    be64(cid) + be32(ACTION_SCRAPE) + be32(txn) + info_hash
}

/// A connect reply.
#[derive(Debug, Clone, Copy, PartialEq, Eq, Structural)]
pub struct ConnectResponse {
    pub action: u32,
    pub transaction_id: u32,
    pub connection_id: u64,
}

/// An announce reply: the swarm's counts and the peers that the tracker picked.
#[derive(Debug, Clone)]
pub struct AnnounceResponse {
    pub action: u32,
    pub transaction_id: u32,
    pub interval: u32,
    pub leechers: u32,
    pub seeders: u32,
    pub peers: Vec<PeerAddr>,
}

/// An announce reply as the contracts see it.
pub struct AnnounceView {
    pub action: u32,
    pub transaction_id: u32,
    pub interval: u32,
    pub leechers: u32,
    pub seeders: u32,
    pub peers: Seq<PeerAddr>,
}

impl View for AnnounceResponse {
    type V = AnnounceView;

    open spec fn view(&self) -> AnnounceView {
        AnnounceView {
            action: self.action,
            transaction_id: self.transaction_id,
            interval: self.interval,
            leechers: self.leechers,
            seeders: self.seeders,
            peers: self.peers@,
        }
    }
}

/// A scrape reply for one torrent.
#[derive(Debug, Clone, Copy, PartialEq, Eq, Structural)]
pub struct ScrapeResponse {
    pub action: u32,
    pub transaction_id: u32,
    pub seeders: u32,
    pub completed: u32,
    pub leechers: u32,
}

/// What a connect reply decodes to: at least 16 bytes are needed.
pub open spec fn connect_reply(d: Seq<u8>) -> Result<ConnectResponse, Error> {
    if d.len() < 16 {
        Err(Error::InvalidFormat)
    } else {
        Ok(
            ConnectResponse {
                action: read32(d, 0),
                transaction_id: read32(d, 4),
                connection_id: read64(d, 8),
            },
        )
    }
}

/// What an announce reply decodes to: 20 bytes of header, then whole six-byte
/// peer entries.
pub open spec fn announce_reply(d: Seq<u8>) -> Result<AnnounceView, Error> {
    if d.len() < 20 {
        Err(Error::InvalidFormat)
    } else {
        match compact_peers(d.subrange(20, d.len() as int)) {
            Some(peers) => Ok(
                AnnounceView {
                    action: read32(d, 0),
                    transaction_id: read32(d, 4),
                    interval: read32(d, 8),
                    leechers: read32(d, 12),
                    seeders: read32(d, 16),
                    peers,
                },
            ),
            None => Err(Error::InvalidFormat),
        }
    }
}

/// What a scrape reply for one torrent decodes to: at least 20 bytes.
pub open spec fn scrape_reply(d: Seq<u8>) -> Result<ScrapeResponse, Error> {
    if d.len() < 20 {
        Err(Error::InvalidFormat)
    } else {
        Ok(
            ScrapeResponse {
                action: read32(d, 0),
                transaction_id: read32(d, 4),
                seeders: read32(d, 8),
                completed: read32(d, 12),
                leechers: read32(d, 16),
            },
        )
    }
}

/// Whether a reply with `action` and `txn` answers the request made with
/// `expected_action` and `expected_txn`; a foreign transaction id is reported
/// first.
pub open spec fn reply_check(expected_action: u32, expected_txn: u32, action: u32, txn: u32) -> Option<
    Error,
> {
    if txn != expected_txn {
        Some(Error::TransactionMismatch)
    } else if action != expected_action {
        Some(Error::UnexpectedAction)
    } else {
        None
    }
}

/// A connect reply, decoded and checked against the request's transaction id.
pub open spec fn connect_outcome(txn: u32, d: Seq<u8>) -> Result<ConnectResponse, Error> {
    match connect_reply(d) {
        Ok(c) => match reply_check(ACTION_CONNECT, txn, c.action, c.transaction_id) {
            Some(e) => Err(e),
            None => Ok(c),
        },
        Err(e) => Err(e),
    }
}

/// An announce reply, decoded and checked against the request's transaction id.
pub open spec fn announce_outcome(txn: u32, d: Seq<u8>) -> Result<AnnounceView, Error> {
    match announce_reply(d) {
        Ok(a) => match reply_check(ACTION_ANNOUNCE, txn, a.action, a.transaction_id) {
            Some(e) => Err(e),
            None => Ok(a),
        },
        Err(e) => Err(e),
    }
}

/// A scrape reply, decoded and checked against the request's transaction id.
pub open spec fn scrape_outcome(txn: u32, d: Seq<u8>) -> Result<ScrapeResponse, Error> {
    match scrape_reply(d) {
        Ok(s) => match reply_check(ACTION_SCRAPE, txn, s.action, s.transaction_id) {
            Some(e) => Err(e),
            None => Ok(s),
        },
        Err(e) => Err(e),
    }
}

/// How many seconds to wait for the reply to the `n`-th retransmission.
pub fn retransmit_timeout_secs(n: u32) -> (r: u64)
    ensures
        r == retransmit_secs(n as nat),
{
    let m: u32 = if n > 8 {
        8
    } else {
        n
    };
    let mut r: u64 = 15;
    let mut i: u32 = 0;
    while i < m
        invariant
            m <= 8,
            i <= m,
            r == 15 * pow2(i as nat),
            pow2(i as nat) <= 256,
        decreases m - i,
    {
        proof {
            assert(pow2((i + 1) as nat) == 2 * pow2(i as nat));
            assert(pow2(i as nat) <= 128) by {
                lemma_pow2_bound(i as nat, 7);
                reveal_with_fuel(pow2, 8);
            }
        }
        r = r * 2;
        i = i + 1;
    }
    r
}

proof fn lemma_pow2_bound(i: nat, k: nat)
    requires
        i <= k,
    ensures
        pow2(i) <= pow2(k),
    decreases k,
{
    if i < k {
        lemma_pow2_bound(i, (k - 1) as nat);
    }
}

/// Checks a reply's action and transaction id against the request's.
pub fn check_reply(expected_action: u32, expected_txn: u32, action: u32, txn: u32) -> (r: Option<
    Error,
>)
    ensures
        r == reply_check(expected_action, expected_txn, action, txn),
{
    if txn != expected_txn {
        Some(Error::TransactionMismatch)
    } else if action != expected_action {
        Some(Error::UnexpectedAction)
    } else {
        None
    }
}

impl ConnectResponse {
    /// Reads a connect reply.
    pub fn from_bytes(d: &[u8]) -> (r: Result<ConnectResponse, Error>)
        ensures
            r == connect_reply(d@),
    {
        if d.len() < 16 {
            return Err(Error::InvalidFormat);
        }
        Ok(
            ConnectResponse {
                action: get_u32(d, 0),
                transaction_id: get_u32(d, 4),
                connection_id: get_u64(d, 8),
            },
        )
    }
}

impl AnnounceResponse {
    /// Reads an announce reply.
    pub fn from_bytes(d: &[u8]) -> (r: Result<AnnounceResponse, Error>)
        ensures
            r matches Ok(a) ==> announce_reply(d@) == Ok::<AnnounceView, Error>(a@),
            r matches Err(e) ==> announce_reply(d@) == Err::<AnnounceView, Error>(e),
    {
        if d.len() < 20 {
            return Err(Error::InvalidFormat);
        }
        let rest = copy_range(d, 20, d.len());
        let peers = match parse_compact_peers(rest.as_slice()) {
            Ok(p) => p,
            Err(e) => {
                return Err(e);
            },
        };
        Ok(
            AnnounceResponse {
                action: get_u32(d, 0),
                transaction_id: get_u32(d, 4),
                interval: get_u32(d, 8),
                leechers: get_u32(d, 12),
                seeders: get_u32(d, 16),
                peers,
            },
        )
    }
}

impl ScrapeResponse {
    /// Reads a scrape reply for one torrent.
    pub fn from_bytes(d: &[u8]) -> (r: Result<ScrapeResponse, Error>)
        ensures
            r == scrape_reply(d@),
    {
        if d.len() < 20 {
            return Err(Error::InvalidFormat);
        }
        Ok(
            ScrapeResponse {
                action: get_u32(d, 0),
                transaction_id: get_u32(d, 4),
                seeders: get_u32(d, 8),
                completed: get_u32(d, 12),
                leechers: get_u32(d, 16),
            },
        )
    }
}

/// What the client does after a reply, or the lack of one, reached it.
pub enum Step<T> {
    /// The reply answers the request.
    Accept(T),
    /// Send the same request again and wait this many seconds for a reply.
    Resend { timeout_secs: u64 },
    /// Stop asking this tracker.
    Fail(Error),
}

/// The client side of the UDP tracker protocol, without the socket: the
/// connection id, the outstanding transaction and the attempts made for it.
#[derive(Debug)]
pub struct UdpTracker {
    pub connection_id: Option<u64>,
    pub transaction_id: u32,
    pub attempts: u32,
}

impl UdpTracker {
    /// The attempts made for the outstanding request stay within the bound.
    pub open spec fn wf(&self) -> bool {
        self.attempts <= MAX_ATTEMPTS
    }

    /// A client that holds no connection id and has nothing outstanding.
    pub fn new() -> (r: UdpTracker)
        ensures
            r.connection_id is None,
            r.attempts == 0,
            r.wf(),
    {
        UdpTracker { connection_id: None, transaction_id: 0, attempts: 0 }
    }

    /// Starts a connect with the transaction id `txn`: the bytes to send.
    pub fn connect_request(&mut self, txn: u32) -> (r: Vec<u8>)
        ensures
            r@ == connect_request_bytes(txn),
            r@.len() == 16,
            final(self).transaction_id == txn,
            final(self).attempts == 1,
            final(self).connection_id == old(self).connection_id,
            final(self).wf(),
    {
        self.transaction_id = txn;
        self.attempts = 1;
        let mut r: Vec<u8> = Vec::new();
        push_u64(&mut r, UDP_TRACKER_PROTOCOL_ID);
        push_u32(&mut r, ACTION_CONNECT);
        push_u32(&mut r, txn);
        r
    }

    /// Starts an announce with the transaction id `txn`: the bytes to send,
    /// or `NotConnected` while no connection id is held.
    pub fn announce_request(&mut self, txn: u32, p: &AnnounceParams) -> (r: Result<Vec<u8>, Error>)
        ensures
            old(self).connection_id is None <==> r == Err::<Vec<u8>, Error>(Error::NotConnected),
            old(self).connection_id matches Some(cid) ==> (r matches Ok(b) && b@
                == announce_request_bytes(cid, txn, *p) && b@.len() == 98)
                && final(self).transaction_id == txn && final(self).attempts == 1,
            old(self).connection_id is None ==> *final(self) == *old(self),
            final(self).connection_id == old(self).connection_id,
            old(self).wf() ==> final(self).wf(),
    {
        let cid = match self.connection_id {
            Some(c) => c,
            None => {
                return Err(Error::NotConnected);
            },
        };
        self.transaction_id = txn;
        self.attempts = 1;
        let mut r: Vec<u8> = Vec::new();
        push_u64(&mut r, cid);
        push_u32(&mut r, ACTION_ANNOUNCE);
        push_u32(&mut r, txn);
        push_all(&mut r, p.info_hash.as_slice());
        push_all(&mut r, p.peer_id.as_slice());
        push_u64(&mut r, p.downloaded);
        push_u64(&mut r, p.left);
        push_u64(&mut r, p.uploaded);
        push_u32(&mut r, p.event);
        push_u32(&mut r, 0);
        push_u32(&mut r, 0);
        push_u32(&mut r, 0xffff_ffff);
        push_u16(&mut r, p.port);
        Ok(r)
    }

    /// Starts a scrape of one torrent with the transaction id `txn`: the bytes
    /// to send, or `NotConnected` while no connection id is held.
    pub fn scrape_request(&mut self, txn: u32, info_hash: &[u8; 20]) -> (r: Result<Vec<u8>, Error>)
        ensures
            old(self).connection_id is None <==> r == Err::<Vec<u8>, Error>(Error::NotConnected),
            old(self).connection_id matches Some(cid) ==> (r matches Ok(b) && b@
                == scrape_request_bytes(cid, txn, info_hash@) && b@.len() == 36)
                && final(self).transaction_id == txn && final(self).attempts == 1,
            old(self).connection_id is None ==> *final(self) == *old(self),
            final(self).connection_id == old(self).connection_id,
            old(self).wf() ==> final(self).wf(),
    {
        let cid = match self.connection_id {
            Some(c) => c,
            None => {
                return Err(Error::NotConnected);
            },
        };
        self.transaction_id = txn;
        self.attempts = 1;
        let mut r: Vec<u8> = Vec::new();
        push_u64(&mut r, cid);
        push_u32(&mut r, ACTION_SCRAPE);
        push_u32(&mut r, txn);
        push_all(&mut r, info_hash.as_slice());
        Ok(r)
    }

    /// After a reply that does not answer the request, or none: send again
    /// while attempts are left, else give up; on giving up the connection id
    /// is forgotten when `forget` is set, and kept otherwise.
    fn reject<T>(&mut self, forget: bool) -> (r: Step<T>)
        requires
            old(self).wf(),
        ensures
            final(self).wf(),
            final(self).transaction_id == old(self).transaction_id,
            old(self).attempts < MAX_ATTEMPTS ==> (r matches Step::Resend { timeout_secs }
                && timeout_secs == retransmit_secs(old(self).attempts as nat)) && final(self).attempts == old(self).attempts + 1 && final(self).connection_id
                == old(self).connection_id,
            old(self).attempts >= MAX_ATTEMPTS ==> (r matches Step::Fail(e) && e
                == Error::ConnectionFailed) && final(self).attempts == old(self).attempts
                && final(self).connection_id == if forget {
                None
            } else {
                old(self).connection_id
            },
    {
        if self.attempts < MAX_ATTEMPTS {
            let timeout_secs = retransmit_timeout_secs(self.attempts);
            self.attempts = self.attempts + 1;
            Step::Resend { timeout_secs }
        } else {
            if forget {
                self.connection_id = None;
            }
            Step::Fail(Error::ConnectionFailed)
        }
    }

    /// Decides on what came back for a connect: `reply` is `None` when the
    /// wait ran out. A reply that decodes and echoes the transaction id with
    /// the connect action is accepted and its connection id kept; anything
    /// else is rejected and the request sent again while attempts are left.
    /// A connect that gives up leaves the connection id as it was.
    pub fn on_connect_reply(&mut self, reply: Option<&[u8]>) -> (r: Step<ConnectResponse>)
        requires
            old(self).wf(),
        ensures
            final(self).wf(),
            final(self).transaction_id == old(self).transaction_id,
            ({
                let ok = reply matches Some(d) && connect_outcome(old(self).transaction_id, d@) is Ok;
                &&& ok ==> r == Step::Accept(connect_outcome(old(self).transaction_id, reply->Some_0@)->Ok_0)
                    && final(self).connection_id == Some(r->Accept_0.connection_id)
                &&& !ok && old(self).attempts < MAX_ATTEMPTS ==> (r matches Step::Resend {
                    timeout_secs,
                } && timeout_secs == retransmit_secs(old(self).attempts as nat))
                    && final(self).attempts == old(self).attempts + 1
                    && final(self).connection_id == old(self).connection_id
                &&& !ok && old(self).attempts >= MAX_ATTEMPTS ==> (r matches Step::Fail(e) && e
                    == Error::ConnectionFailed) && final(self).connection_id == old(
                    self,
                ).connection_id
            }),
    {
        if let Some(d) = reply {
            if let Ok(c) = ConnectResponse::from_bytes(d) {
                if check_reply(ACTION_CONNECT, self.transaction_id, c.action, c.transaction_id).is_none() {
                    self.connection_id = Some(c.connection_id);
                    return Step::Accept(c);
                }
            }
        }
        self.reject(false)
    }

    /// Decides on what came back for an announce, as for a connect; giving up
    /// forgets the connection id, so that the next announce connects anew.
    pub fn on_announce_reply(&mut self, reply: Option<&[u8]>) -> (r: Step<AnnounceResponse>)
        requires
            old(self).wf(),
        ensures
            final(self).wf(),
            final(self).transaction_id == old(self).transaction_id,
            ({
                let ok = reply matches Some(d) && announce_outcome(old(self).transaction_id, d@) is Ok;
                &&& ok ==> (r matches Step::Accept(a) && Ok::<AnnounceView, Error>(a@) == announce_outcome(
                    old(self).transaction_id,
                    reply->Some_0@,
                )) && final(self).connection_id == old(self).connection_id
                &&& !ok && old(self).attempts < MAX_ATTEMPTS ==> (r matches Step::Resend {
                    timeout_secs,
                } && timeout_secs == retransmit_secs(old(self).attempts as nat))
                    && final(self).attempts == old(self).attempts + 1
                    && final(self).connection_id == old(self).connection_id
                &&& !ok && old(self).attempts >= MAX_ATTEMPTS ==> (r matches Step::Fail(e) && e
                    == Error::ConnectionFailed) && final(self).connection_id is None
            }),
    {
        if let Some(d) = reply {
            if let Ok(a) = AnnounceResponse::from_bytes(d) {
                if check_reply(ACTION_ANNOUNCE, self.transaction_id, a.action, a.transaction_id).is_none() {
                    return Step::Accept(a);
                }
            }
        }
        self.reject(true)
    }

    /// Decides on what came back for a scrape, as for a connect; giving up
    /// forgets the connection id, so that the next scrape connects anew.
    pub fn on_scrape_reply(&mut self, reply: Option<&[u8]>) -> (r: Step<ScrapeResponse>)
        requires
            old(self).wf(),
        ensures
            final(self).wf(),
            final(self).transaction_id == old(self).transaction_id,
            ({
                let ok = reply matches Some(d) && scrape_outcome(old(self).transaction_id, d@) is Ok;
                &&& ok ==> r == Step::Accept(scrape_outcome(old(self).transaction_id, reply->Some_0@)->Ok_0)
                    && final(self).connection_id == old(self).connection_id
                &&& !ok && old(self).attempts < MAX_ATTEMPTS ==> (r matches Step::Resend {
                    timeout_secs,
                } && timeout_secs == retransmit_secs(old(self).attempts as nat))
                    && final(self).attempts == old(self).attempts + 1
                    && final(self).connection_id == old(self).connection_id
                &&& !ok && old(self).attempts >= MAX_ATTEMPTS ==> (r matches Step::Fail(e) && e
                    == Error::ConnectionFailed) && final(self).connection_id is None
            }),
    {
        if let Some(d) = reply {
            if let Ok(s) = ScrapeResponse::from_bytes(d) {
                if check_reply(ACTION_SCRAPE, self.transaction_id, s.action, s.transaction_id).is_none() {
                    return Step::Accept(s);
                }
            }
        }
        self.reject(true)
    }
}

/// A reply that echoes another transaction id is never accepted: a connect
/// that receives it sends again, or gives up once the attempts are spent.
pub proof fn lemma_forged_transaction_rejected(txn: u32, d: Seq<u8>)
    requires
        connect_reply(d) matches Ok(c) && c.transaction_id != txn,
    ensures
        connect_outcome(txn, d) == Err::<ConnectResponse, Error>(Error::TransactionMismatch),
{
}

} // verus!
