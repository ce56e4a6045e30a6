use vstd::prelude::*;
use vstd::utf8::{decode_utf8, encode_utf8, encode_utf8_decode_utf8, encode_utf8_valid_utf8, valid_utf8};

use crate::bytes::{copy_20, copy_range, push_all, slices_equal};
use crate::error::Error;

verus! {

/// The protocol name that opens every handshake.
pub open spec fn protocol_name() -> Seq<char> {
    "BitTorrent protocol"@
}

/// Eight zero bytes, the reserved field as this client writes it.
pub open spec fn zero_reserved() -> Seq<u8> {
    Seq::new(8, |i: int| 0u8)
}

/// A handshake as the contracts see it.
pub struct HandshakeView {
    pub pstr: Seq<char>,
    pub reserved: Seq<u8>,
    pub info_hash: Seq<u8>,
    pub peer_id: Seq<u8>,
}

impl HandshakeView {
    /// The 68 wire bytes: 19, the protocol name, eight zero bytes, the info
    /// hash, the peer id.
    pub open spec fn wire(self) -> Seq<u8> {
        seq![19u8] + encode_utf8(self.pstr) + zero_reserved() + self.info_hash + self.peer_id
    }
}

/// What the wire bytes of a handshake decode to.
pub open spec fn decode_handshake(b: Seq<u8>) -> Result<HandshakeView, Error> {
    if b.len() < 68 || b[0] != 19 || !valid_utf8(b.subrange(1, 20)) {
        Err(Error::InvalidFormat)
    } else {
        Ok(
            HandshakeView {
                pstr: decode_utf8(b.subrange(1, 20)),
                reserved: zero_reserved(),
                info_hash: b.subrange(28, 48),
                peer_id: b.subrange(48, 68),
            },
        )
    }
}

/// Relies on String::from_utf8: it accepts exactly the byte strings that are
/// valid UTF-8, and then holds the characters that they encode.
#[verifier::external_body]
fn utf8_string(bytes: Vec<u8>) -> (r: Option<String>)
    ensures
        r is Some <==> valid_utf8(bytes@),
        r matches Some(s) ==> s@ == decode_utf8(bytes@),
{
    String::from_utf8(bytes).ok()
}

/// The fixed exchange that opens a peer-wire connection.
#[derive(Debug, PartialEq, Clone)]
pub struct Handshake {
    /// The protocol name, "BitTorrent protocol".
    pub pstr: String,
    /// Extension bits; this client sets none.
    pub reserved: [u8; 8],
    pub info_hash: [u8; 20],
    /// The sender's 20-byte id.
    pub peer_id: [u8; 20],
}

impl View for Handshake {
    type V = HandshakeView;

    open spec fn view(&self) -> HandshakeView {
        HandshakeView {
            pstr: self.pstr@,
            reserved: self.reserved@,
            info_hash: self.info_hash@,
            peer_id: self.peer_id@,
        }
    }
}

/// A decoding result with the handshake seen through its view.
pub open spec fn handshake_result_view(r: Result<Handshake, Error>) -> Result<HandshakeView, Error> {
    match r {
        Ok(h) => Ok(h@),
        Err(e) => Err(e),
    }
}

proof fn lemma_protocol_ascii()
    ensures
        encode_utf8(protocol_name()).len() == 19,
{
    reveal_strlit("BitTorrent protocol");
    vstd::utf8::is_ascii_chars_encode_utf8(protocol_name());
}

impl Handshake {
    /// The handshake that this client sends for `info_hash`.
    pub fn new(info_hash: [u8; 20], peer_id: [u8; 20]) -> (r: Handshake)
        ensures
            r@ == (HandshakeView {
                pstr: protocol_name(),
                reserved: zero_reserved(),
                info_hash: info_hash@,
                peer_id: peer_id@,
            }),
            encode_utf8(r.pstr@).len() == 19,
    {
        let pstr = "BitTorrent protocol".to_string();
        let r = Handshake { pstr, reserved: [0u8; 8], info_hash, peer_id };
        proof {
            lemma_protocol_ascii();
        }
        assert(r.reserved@ =~= zero_reserved());
        r
    }

    /// Reads a handshake from its wire bytes.
    pub fn from_bytes(bytes: &[u8]) -> (r: Result<Handshake, Error>)
        ensures
            handshake_result_view(r) == decode_handshake(bytes@),
    {
        if bytes.len() < 68 {
            return Err(Error::InvalidFormat);
        }
        if bytes[0] != 19 {
            return Err(Error::InvalidFormat);
        }
        let pstr = match utf8_string(copy_range(bytes, 1, 20)) {
            Some(s) => s,
            None => {
                return Err(Error::InvalidFormat);
            },
        };
        let info_hash = copy_20(bytes, 28);
        let peer_id = copy_20(bytes, 48);
        let r = Handshake { pstr, reserved: [0u8; 8], info_hash, peer_id };
        assert(r.reserved@ =~= zero_reserved());
        Ok(r)
    }

    /// The 68 wire bytes of the handshake; the reserved field goes out as zeros.
    pub fn to_bytes(&self) -> (r: Vec<u8>)
        requires
            encode_utf8(self.pstr@).len() == 19,
        ensures
            r@ == self@.wire(),
            r@.len() == 68,
    {
        let mut r: Vec<u8> = Vec::new();
        r.push(19);
        push_all(&mut r, self.pstr.as_str().as_bytes());
        let zeros: [u8; 8] = [0u8; 8];
        push_all(&mut r, zeros.as_slice());
        push_all(&mut r, self.info_hash.as_slice());
        push_all(&mut r, self.peer_id.as_slice());
        assert(zeros@ =~= zero_reserved());
        assert(r@ =~= self@.wire());
        r
    }

    /// Whether the handshake names `info_hash`, the BitTorrent protocol, and
    /// no extension bits.
    pub fn check(&self, info_hash: &[u8]) -> (r: bool)
        ensures
            r == (self.info_hash@ == info_hash@ && self.pstr@ == protocol_name()
                && self.reserved@ == zero_reserved()),
    {
        let same_hash = slices_equal(self.info_hash.as_slice(), info_hash);
        let same_name = slices_equal(
            self.pstr.as_str().as_bytes(),
            "BitTorrent protocol".as_bytes(),
        );
        let zeros: [u8; 8] = [0u8; 8];
        let no_bits = slices_equal(self.reserved.as_slice(), zeros.as_slice());
        proof {
            encode_utf8_decode_utf8(self.pstr@);
            encode_utf8_decode_utf8(protocol_name());
            assert(zeros@ =~= zero_reserved());
        }
        same_hash && same_name && no_bits
    }
}

/// Reading back the wire bytes of a handshake gives the handshake, when its
/// protocol name takes 19 bytes and its reserved field is zero.
pub proof fn lemma_handshake_round_trip(h: HandshakeView)
    requires
        encode_utf8(h.pstr).len() == 19,
        h.reserved == zero_reserved(),
        h.info_hash.len() == 20,
        h.peer_id.len() == 20,
    ensures
        h.wire().len() == 68,
        decode_handshake(h.wire()) == Ok::<HandshakeView, Error>(h),
{
    let w = h.wire();
    assert(w.subrange(1, 20) =~= encode_utf8(h.pstr));
    encode_utf8_valid_utf8(h.pstr);
    encode_utf8_decode_utf8(h.pstr);
    assert(w.subrange(28, 48) =~= h.info_hash);
    assert(w.subrange(48, 68) =~= h.peer_id);
}

} // verus!

verus! {

/// A handshake built by `Handshake::new` reads back as itself from its wire
/// bytes.
pub proof fn lemma_new_handshake_round_trip(info_hash: Seq<u8>, peer_id: Seq<u8>)
    requires
        info_hash.len() == 20,
        peer_id.len() == 20,
    ensures
        ({
            let h = HandshakeView {
                pstr: protocol_name(),
                reserved: zero_reserved(),
                info_hash,
                peer_id,
            };
            decode_handshake(h.wire()) == Ok::<HandshakeView, Error>(h)
        }),
{
    lemma_protocol_ascii();
    lemma_handshake_round_trip(
        HandshakeView { pstr: protocol_name(), reserved: zero_reserved(), info_hash, peer_id },
    );
}

} // verus!
