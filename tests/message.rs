use bobby_bit::error::Error;
use bobby_bit::peer::handshake;
use bobby_bit::peer::message::{Handshake, Message};

#[test]
fn test_message_keep_alive() {
    let msg = Message::KeepAlive;
    let bytes = msg.serialize();
    assert_eq!(bytes, vec![0, 0, 0, 0]);
    let msg = Message::deserialize(&bytes).unwrap();
    assert_eq!(msg, Message::KeepAlive);
}

#[test]
fn test_message_choke() {
    let msg = Message::Choke;
    let bytes = msg.serialize();
    assert_eq!(bytes, vec![0, 0, 0, 1, 0]);
    let msg = Message::deserialize(&bytes).unwrap();
    assert_eq!(msg, Message::Choke);
}

#[test]
fn keep_alive_from_empty_body() {
    assert_eq!(Message::deserialize(&[]).unwrap(), Message::KeepAlive);
}

#[test]
fn choke_from_its_body() {
    assert_eq!(Message::deserialize(&[0]).unwrap(), Message::Choke);
}

#[test]
fn every_message_round_trips() {
    let messages = vec![
        Message::Choke,
        Message::Unchoke,
        Message::Interested,
        Message::NotInterested,
        Message::Have(0x0102_0304),
        Message::Bitfield(vec![0xff, 0x00, 0xaa, 0x55, 0x0f]),
        Message::Request(1, 16384, 16384),
        Message::Piece(7, 32768, vec![9, 8, 7]),
        Message::Piece(7, 0, vec![]),
        Message::Cancel(3, 0, 16384),
        Message::Port(6881),
    ];
    for m in messages {
        let frame = m.serialize();
        let len = u32::from_be_bytes([frame[0], frame[1], frame[2], frame[3]]) as usize;
        assert_eq!(len, frame.len() - 4);
        assert_eq!(len, m.len());
        assert_eq!(frame[4], m.id());
        assert_eq!(Message::deserialize(&frame[4..]).unwrap(), m);
    }
}

#[test]
fn message_layouts() {
    assert_eq!(Message::Have(258).serialize(), vec![0, 0, 0, 5, 4, 0, 0, 1, 2]);
    assert_eq!(
        Message::Request(1, 2, 3).serialize(),
        vec![0, 0, 0, 13, 6, 0, 0, 0, 1, 0, 0, 0, 2, 0, 0, 0, 3]
    );
    assert_eq!(Message::Port(0x1ae1).serialize(), vec![0, 0, 0, 3, 9, 0x1a, 0xe1]);
    assert_eq!(
        Message::Piece(0, 1, vec![0xaa]).serialize(),
        vec![0, 0, 0, 10, 7, 0, 0, 0, 0, 0, 0, 0, 1, 0xaa]
    );
    // a long payload needs more than the last byte of the prefix
    let block = vec![1u8; 300];
    let frame = Message::Bitfield(block).serialize();
    assert_eq!(&frame[0..5], &[0, 0, 1, 45, 5]);
    assert_eq!(Message::KeepAlive.id(), 0);
    assert_eq!(Message::KeepAlive.len(), 0);
}

#[test]
fn message_length_errors() {
    assert_eq!(Message::deserialize(&[4, 0, 0, 1]), Err(Error::InvalidFormat));
    assert_eq!(Message::deserialize(&[5, 1, 2, 3, 4]), Err(Error::InvalidFormat));
    assert_eq!(Message::deserialize(&[6, 0, 0]), Err(Error::InvalidFormat));
    assert_eq!(Message::deserialize(&[7, 0, 0, 0, 0, 0, 0, 0]), Err(Error::InvalidFormat));
    assert_eq!(Message::deserialize(&[8; 14]), Err(Error::InvalidFormat));
    assert_eq!(Message::deserialize(&[9, 1]), Err(Error::InvalidFormat));
    assert_eq!(Message::deserialize(&[42, 0]), Err(Error::UnknownMessageType(42)));
}

fn sample_ids() -> ([u8; 20], [u8; 20]) {
    let mut info_hash = [0u8; 20];
    let mut peer_id = [0u8; 20];
    for i in 0..20 {
        info_hash[i] = i as u8 * 7 + 1;
        peer_id[i] = 200 - i as u8;
    }
    (info_hash, peer_id)
}

#[test]
fn message_test_handshake() {
    let (info_hash, peer_id) = sample_ids();
    let handshake = Handshake::new(info_hash, peer_id);
    let bytes = handshake.to_bytes();
    let handshake2 = Handshake::from_bytes(&bytes).unwrap();
    assert_eq!(handshake, handshake2);
}

#[test]
fn handshake_test_handshake() {
    let (info_hash, peer_id) = sample_ids();
    let handshake = handshake::Handshake::new(info_hash, peer_id);
    let bytes = handshake.to_bytes();
    let handshake2 = handshake::Handshake::from_bytes(&bytes).unwrap();
    assert_eq!(handshake, handshake2);
}

#[test]
fn handshake_layout_and_check() {
    let (info_hash, peer_id) = sample_ids();
    let h = Handshake::new(info_hash, peer_id);
    let bytes = h.to_bytes();
    assert_eq!(bytes.len(), 68);
    assert_eq!(bytes[0], 19);
    assert_eq!(&bytes[1..20], b"BitTorrent protocol");
    assert_eq!(&bytes[20..28], &[0u8; 8]);
    assert_eq!(&bytes[28..48], &info_hash);
    assert_eq!(&bytes[48..68], &peer_id);
    assert!(h.check(&info_hash));
    assert!(!h.check(&peer_id));
    let mut other = h.clone();
    other.pstr = "BitTorrent protocoL".to_string();
    assert!(!other.check(&info_hash));
    let mut flagged = h.clone();
    flagged.reserved[5] = 0x10;
    assert!(!flagged.check(&info_hash));
}

#[test]
fn handshake_rejects_bad_bytes() {
    let (info_hash, peer_id) = sample_ids();
    let bytes = Handshake::new(info_hash, peer_id).to_bytes();
    assert_eq!(Handshake::from_bytes(&bytes[..67]), Err(Error::InvalidFormat));
    let mut wrong_len = bytes.clone();
    wrong_len[0] = 18;
    assert_eq!(Handshake::from_bytes(&wrong_len), Err(Error::InvalidFormat));
    let mut not_text = bytes.clone();
    not_text[3] = 0xff;
    assert_eq!(Handshake::from_bytes(&not_text), Err(Error::InvalidFormat));
}
