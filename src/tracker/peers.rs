use vstd::prelude::*;

use crate::bytes::{
    be16,
    be32,
    get_u16,
    get_u32,
    lemma_be16_read,
    lemma_be32_read,
    push_u16,
    push_u32,
    read16,
    read32,
};
use crate::error::Error;

verus! {

/// A peer's address as a tracker lists it: an IP address as an integer in
/// network order, and a TCP port.
#[derive(Debug, Clone, Copy, PartialEq, Eq, Structural)]
pub enum PeerAddr {
    V4 { ip: u32, port: u16 },
    V6 { ip: u128, port: u16 },
}

/// The peers of a compact IPv4 list: six bytes each, four of address and two
/// of port, big-endian. `None` when a partial entry is left over.
pub open spec fn compact_peers(d: Seq<u8>) -> Option<Seq<PeerAddr>> {
    if d.len() % 6 == 0 {
        Some(
            Seq::new(
                d.len() / 6,
                |k: int| PeerAddr::V4 { ip: read32(d, 6 * k), port: read16(d, 6 * k + 4) },
            ),
        )
    } else {
        None
    }
}

/// The compact bytes of one peer: its address, then its port, big-endian.
pub open spec fn peer_bytes(p: PeerAddr) -> Seq<u8> {
    match p {
        PeerAddr::V4 { ip, port } => be32(ip) + be16(port),
        PeerAddr::V6 { ip, port } => be32((ip >> 96u128) as u32) + be32((ip >> 64u128) as u32)
            + be32((ip >> 32u128) as u32) + be32(ip as u32) + be16(port),
    }
}

/// The compact bytes of a list of peers, one after the other.
pub open spec fn compact_bytes(peers: Seq<PeerAddr>) -> Seq<u8>
    decreases peers.len(),
{
    if peers.len() == 0 {
        Seq::empty()
    } else {
        compact_bytes(peers.drop_last()) + peer_bytes(peers.last())
    }
}

/// Reads a compact IPv4 peer list.
pub fn parse_compact_peers(d: &[u8]) -> (r: Result<Vec<PeerAddr>, Error>)
    ensures
        compact_peers(d@) matches Some(p) ==> r matches Ok(v) && v@ == p,
        compact_peers(d@) is None ==> r == Err::<Vec<PeerAddr>, Error>(Error::InvalidFormat),
{
    if d.len() % 6 != 0 {
        return Err(Error::InvalidFormat);
    }
    let count = d.len() / 6;
    let mut r: Vec<PeerAddr> = Vec::new();
    let mut k: usize = 0;
    while k < count
        invariant
            count == d.len() / 6,
            d@.len() % 6 == 0,
            k <= count,
            r@.len() == k,
            forall|j: int|
                0 <= j < k ==> r@[j] == (PeerAddr::V4 {
                    ip: read32(d@, 6 * j),
                    port: read16(d@, 6 * j + 4),
                }),
        decreases count - k,
    {
        assert(6 * k + 6 <= d.len()) by (nonlinear_arith)
            requires
                k < count,
                count == d.len() / 6,
        ;
        let at = 6 * k;
        let ip = get_u32(d, at);
        let port = get_u16(d, at + 4);
        r.push(PeerAddr::V4 { ip, port });
        k = k + 1;
    }
    let ghost p = compact_peers(d@)->Some_0;
    assert(r@ =~= p);
    Ok(r)
}

/// Writes peers in compact form: four or sixteen address bytes, then two port
/// bytes, big-endian.
pub fn encode_compact_peers(peers: &[PeerAddr]) -> (r: Vec<u8>)
    ensures
        r@ == compact_bytes(peers@),
{
    let mut r: Vec<u8> = Vec::new();
    let mut k: usize = 0;
    while k < peers.len()
        invariant
            k <= peers@.len(),
            r@ == compact_bytes(peers@.subrange(0, k as int)),
        decreases peers@.len() - k,
    {
        let p = peers[k];
        match p {
            PeerAddr::V4 { ip, port } => {
                push_u32(&mut r, ip);
                push_u16(&mut r, port);
            },
            PeerAddr::V6 { ip, port } => {
                push_u32(&mut r, (ip >> 96u128) as u32);
                push_u32(&mut r, (ip >> 64u128) as u32);
                push_u32(&mut r, (ip >> 32u128) as u32);
                push_u32(&mut r, ip as u32);
                push_u16(&mut r, port);
            },
        }
        assert(peers@.subrange(0, k + 1).drop_last() =~= peers@.subrange(0, k as int));
        k = k + 1;
        assert(r@ =~= compact_bytes(peers@.subrange(0, k as int)));
    }
    assert(peers@.subrange(0, k as int) =~= peers@);
    r
}

proof fn lemma_compact_len(peers: Seq<PeerAddr>)
    requires
        forall|i: int| 0 <= i < peers.len() ==> #[trigger] peers[i] is V4,
    ensures
        compact_bytes(peers).len() == 6 * peers.len(),
    decreases peers.len(),
{
    if peers.len() > 0 {
        lemma_compact_len(peers.drop_last());
    }
}

/// Reading back the compact bytes of IPv4 peers gives the same peers in the
/// same order.
pub proof fn lemma_compact_round_trip(peers: Seq<PeerAddr>)
    requires
        forall|i: int| 0 <= i < peers.len() ==> #[trigger] peers[i] is V4,
    ensures
        compact_peers(compact_bytes(peers)) == Some(peers),
    decreases peers.len(),
{
    lemma_compact_len(peers);
    let b = compact_bytes(peers);
    let n = peers.len();
    assert((6 * n) % 6 == 0 && (6 * n) / 6 == n) by (nonlinear_arith);
    if n == 0 {
        assert(Seq::new(
            0,
            |k: int| PeerAddr::V4 { ip: read32(b, 6 * k), port: read16(b, 6 * k + 4) },
        ) =~= peers);
    } else {
        let init = peers.drop_last();
        assert forall|i: int| 0 <= i < init.len() implies #[trigger] init[i] is V4 by {
            assert(peers[i] is V4);
        }
        lemma_compact_round_trip(init);
        lemma_compact_len(init);
        let b0 = compact_bytes(init);
        let m = init.len();
        assert((6 * m) % 6 == 0 && (6 * m) / 6 == m) by (nonlinear_arith);
        assert(peers[n - 1] is V4);
        let ip = peers.last()->V4_ip;
        let port = peers.last()->V4_port;
        assert(b =~= b0 + be32(ip) + be16(port));
        assert forall|k: int| 0 <= k < n implies (PeerAddr::V4 {
            ip: read32(b, 6 * k),
            port: read16(b, 6 * k + 4),
        }) == #[trigger] peers[k] by {
            if k < m {
                assert(6 * k + 6 <= 6 * m) by (nonlinear_arith)
                    requires
                        k < m,
                ;
                assert(compact_peers(b0)->Some_0[k] == init[k]);
                assert(read32(b, 6 * k) == read32(b0, 6 * k));
                assert(read16(b, 6 * k + 4) == read16(b0, 6 * k + 4));
            } else {
                assert(k == m);
                lemma_be32_read(ip, b0, be16(port));
                assert(b0 + be32(ip) + be16(port) =~= (b0 + be32(ip)) + be16(port) + Seq::<
                    u8,
                >::empty());
                lemma_be16_read(port, b0 + be32(ip), Seq::empty());
            }
        }
        assert(Seq::new(
            n,
            |k: int| PeerAddr::V4 { ip: read32(b, 6 * k), port: read16(b, 6 * k + 4) },
        ) =~= peers);
    }
}

} // verus!
