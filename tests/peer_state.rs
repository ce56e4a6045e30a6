use bobby_bit::error::Error;
use bobby_bit::peer::connection::{PeerState, Phase, Readiness};
use bobby_bit::peer::handshake::Handshake;
use bobby_bit::peer::message::Message;
use bobby_bit::torrent::{info_hash_of, File, Info, Torrent};

#[test]
fn handshake_phases() {
    let info_hash = [3u8; 20];
    let mut p = PeerState::new(info_hash, [4u8; 20]);
    assert_eq!(p.readiness(), Readiness::Both);
    assert!(p.is_choked());
    assert!(!p.is_interested());
    let sent = p.on_writable().unwrap();
    assert_eq!(sent, Handshake::new(info_hash, [4u8; 20]).to_bytes());
    assert_eq!(p.phase, Phase::HandshakeSent);
    assert_eq!(p.readiness(), Readiness::Readable);
    assert!(p.on_writable().is_none());
    let theirs = Handshake::new(info_hash, [9u8; 20]).to_bytes();
    assert_eq!(p.on_handshake(&theirs), Ok(()));
    assert_eq!(p.phase, Phase::Established);
    assert_eq!(p.peer_id, [9u8; 20]);
    assert_eq!(p.readiness(), Readiness::Both);
}

#[test]
fn handshake_for_another_torrent_fails() {
    let mut p = PeerState::new([3u8; 20], [4u8; 20]);
    p.on_writable();
    let theirs = Handshake::new([5u8; 20], [9u8; 20]).to_bytes();
    assert_eq!(p.on_handshake(&theirs), Err(Error::HandshakeFailed));
    assert!(!p.is_open());
    let mut q = PeerState::new([3u8; 20], [4u8; 20]);
    q.on_writable();
    assert_eq!(q.on_handshake(&[19u8; 10]), Err(Error::InvalidFormat));
    assert_eq!(q.phase, Phase::Closed);
    let mut early = PeerState::new([3u8; 20], [4u8; 20]);
    let theirs = Handshake::new([3u8; 20], [9u8; 20]).to_bytes();
    assert_eq!(early.on_handshake(&theirs), Err(Error::HandshakeFailed));
    assert_eq!(early.phase, Phase::Connecting);
    let mut r = PeerState::new([3u8; 20], [4u8; 20]);
    assert_eq!(r.on_timeout(), Error::Timeout);
    assert!(!r.is_open());
}

#[test]
fn messages_update_peer_state() {
    let mut p = PeerState::new([3u8; 20], [4u8; 20]);
    p.on_message(&Message::Unchoke);
    assert!(!p.is_choked());
    p.on_message(&Message::Interested);
    assert!(p.is_interested());
    p.on_message(&Message::Bitfield(vec![0b1000_0000, 0]));
    assert!(p.has_piece(0));
    assert!(!p.has_piece(9));
    p.on_message(&Message::Have(9));
    assert!(p.has_piece(9));
    assert!(!p.has_piece(100));
    p.on_sent(&Message::Interested);
    assert!(p.am_interested);
    p.on_sent(&Message::Unchoke);
    assert!(!p.am_choking);
    assert_eq!(p.ensure_open(), Ok(()));
    p.close();
    assert!(!p.is_open());
    assert_eq!(p.ensure_open(), Err(Error::ConnectionClosed));
}

fn sample_torrent(files: Option<Vec<File>>, length: Option<i64>) -> Torrent {
    Torrent {
        info: Info {
            name: "debian.iso".to_string(),
            pieces: (0..40).collect(),
            piece_length: 262_144,
            md5sum: None,
            length,
            files,
            private: None,
            path: None,
            root_hash: None,
        },
        announce: Some("http://bttracker.debian.org:6969/announce".to_string()),
        nodes: None,
        encoding: None,
        httpseeds: None,
        announce_list: Some(vec![
            vec!["http://a.example/announce".to_string()],
            vec!["udp://b.example:80".to_string()],
        ]),
        creation_date: None,
        comment: None,
        created_by: None,
    }
}

#[test]
fn torrent_accessors() {
    let t = sample_torrent(None, Some(5_000_000));
    assert_eq!(t.length(), 5_000_000);
    assert_eq!(t.piece_length(), 262_144);
    assert_eq!(t.name(), "debian.iso");
    assert_eq!(t.announce(), "http://bttracker.debian.org:6969/announce");
    let hashes = t.piece_hashes();
    assert_eq!(hashes.len(), 2);
    assert_eq!(hashes[1][0], 20);
    assert!(t.has_udp_trackers());
    let files = vec![
        File { path: vec!["a".to_string()], length: 10, md5sum: None },
        File { path: vec!["b".to_string()], length: 32, md5sum: None },
    ];
    let multi = sample_torrent(Some(files), None);
    assert_eq!(multi.length(), 42);
    let mut no_udp = sample_torrent(None, Some(1));
    no_udp.announce_list = Some(vec![vec!["http://x/announce".to_string()]]);
    assert!(!no_udp.has_udp_trackers());
}

#[test]
fn info_hash_is_sha1_of_info() {
    // SHA-1 of "abc"
    assert_eq!(
        info_hash_of(b"abc"),
        [
            0xa9, 0x99, 0x3e, 0x36, 0x47, 0x06, 0x81, 0x6a, 0xba, 0x3e, 0x25, 0x71, 0x78, 0x50,
            0xc2, 0x6c, 0x9c, 0xd0, 0xd8, 0x9d
        ]
    );
}
