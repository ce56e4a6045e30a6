use bobby_bit::error::Error;
use bobby_bit::tracker::http::{
    build_get_request, header_end, reply_body, scrape_path, AnnounceRequest, AnnounceResponse, ScrapeRequest,
    ScrapeResponse, ScrapeResponseFile,
};
use bobby_bit::tracker::peers::{encode_compact_peers, parse_compact_peers, PeerAddr};
use bobby_bit::tracker::udp::{
    check_reply, retransmit_timeout_secs, AnnounceParams, AnnounceResponse as UdpAnnounce,
    ConnectResponse, ScrapeResponse as UdpScrape, Step, UdpTracker, MAX_ATTEMPTS,
};

const SAMPLE_HASH: [u8; 20] = [
    0x12, 0x34, 0x56, 0x78, 0x9a, 0xbc, 0xde, 0xf1, 0x23, 0x45, 0x67, 0x89, 0xab, 0xcd, 0xef, 0x12,
    0x34, 0x56, 0x78, 0x9a,
];

fn connect_reply(action: u32, txn: u32, cid: u64) -> Vec<u8> {
    let mut v = Vec::new();
    v.extend_from_slice(&action.to_be_bytes());
    v.extend_from_slice(&txn.to_be_bytes());
    v.extend_from_slice(&cid.to_be_bytes());
    v
}

#[test]
fn test_scrape() {
    let req = ScrapeRequest { info_hash: SAMPLE_HASH };
    let q = String::from_utf8(req.query()).unwrap();
    assert_eq!(q, "?info_hash=%124Vx%9A%BC%DE%F1%23Eg%89%AB%CD%EF%124Vx%9A");
    let stats = ScrapeResponseFile { complete: 5, incomplete: 10, downloaded: 50 };
    let resp = ScrapeResponse { files: vec![(SAMPLE_HASH.to_vec(), stats)] };
    assert_eq!(resp.file(&SAMPLE_HASH), Some(stats));
    assert_eq!(resp.file(&[0u8; 20]), None);
}

#[test]
fn test_udp_tracker() {
    let mut t = UdpTracker::new();
    let req = t.connect_request(0xdead_beef);
    assert_eq!(req.len(), 16);
    assert_eq!(&req[0..8], &0x41727101980u64.to_be_bytes());
    assert_eq!(&req[8..12], &[0, 0, 0, 0]);
    assert_eq!(&req[12..16], &0xdead_beefu32.to_be_bytes());
    // a forged transaction id is not accepted: the request goes out again
    let forged = connect_reply(0, 0x1234_5678, 99);
    match t.on_connect_reply(Some(&forged)) {
        Step::Resend { timeout_secs } => assert_eq!(timeout_secs, 30),
        _ => panic!("forged reply accepted"),
    }
    assert_eq!(t.connection_id, None);
    let good = connect_reply(0, 0xdead_beef, 0x0102_0304_0506_0708);
    match t.on_connect_reply(Some(&good)) {
        Step::Accept(c) => assert_eq!(c.connection_id, 0x0102_0304_0506_0708),
        _ => panic!("genuine reply rejected"),
    }
    assert_eq!(t.connection_id, Some(0x0102_0304_0506_0708));
}

#[test]
fn udp_connect_gives_up_after_the_attempts() {
    let mut t = UdpTracker::new();
    t.connect_request(7);
    let mut resends = 0;
    loop {
        match t.on_connect_reply(None) {
            Step::Resend { .. } => resends += 1,
            Step::Fail(e) => {
                assert_eq!(e, Error::ConnectionFailed);
                break;
            }
            Step::Accept(_) => panic!("nothing was received"),
        }
    }
    assert_eq!(resends, MAX_ATTEMPTS - 1);
}

#[test]
fn udp_reply_checks() {
    assert_eq!(check_reply(0, 5, 0, 6), Some(Error::TransactionMismatch));
    assert_eq!(check_reply(1, 5, 3, 5), Some(Error::UnexpectedAction));
    assert_eq!(check_reply(2, 5, 2, 5), None);
    assert_eq!(ConnectResponse::from_bytes(&[0; 15]), Err(Error::InvalidFormat));
    assert_eq!(retransmit_timeout_secs(0), 15);
    assert_eq!(retransmit_timeout_secs(3), 120);
    assert_eq!(retransmit_timeout_secs(8), 3840);
    assert_eq!(retransmit_timeout_secs(20), 3840);
}

#[test]
fn udp_announce_and_scrape() {
    let mut t = UdpTracker::new();
    let params = AnnounceParams {
        info_hash: SAMPLE_HASH,
        peer_id: [7u8; 20],
        downloaded: 1,
        left: 2,
        uploaded: 3,
        event: 2,
        port: 6881,
    };
    assert_eq!(t.announce_request(1, &params), Err(Error::NotConnected));
    assert_eq!(t.scrape_request(1, &SAMPLE_HASH), Err(Error::NotConnected));
    t.connect_request(9);
    t.on_connect_reply(Some(&connect_reply(0, 9, 77)));
    let req = t.announce_request(11, &params).unwrap();
    assert_eq!(req.len(), 98);
    assert_eq!(&req[0..8], &77u64.to_be_bytes());
    assert_eq!(&req[8..12], &1u32.to_be_bytes());
    assert_eq!(&req[12..16], &11u32.to_be_bytes());
    assert_eq!(&req[16..36], &SAMPLE_HASH);
    assert_eq!(&req[92..96], &[0xff; 4]);
    assert_eq!(&req[96..98], &6881u16.to_be_bytes());
    let mut reply = Vec::new();
    for x in [1u32, 11, 1800, 4, 9] {
        reply.extend_from_slice(&x.to_be_bytes());
    }
    reply.extend_from_slice(&[10, 0, 0, 1, 0x1a, 0xe1]);
    match t.on_announce_reply(Some(&reply)) {
        Step::Accept(a) => {
            assert_eq!(a.interval, 1800);
            assert_eq!(a.seeders, 9);
            assert_eq!(a.peers, vec![PeerAddr::V4 { ip: 0x0a00_0001, port: 6881 }]);
        }
        _ => panic!("announce reply rejected"),
    }
    reply.push(0);
    assert!(UdpAnnounce::from_bytes(&reply).is_err());
    let req = t.scrape_request(12, &SAMPLE_HASH).unwrap();
    assert_eq!(req.len(), 36);
    let mut sreply = Vec::new();
    for x in [2u32, 12, 5, 50, 10] {
        sreply.extend_from_slice(&x.to_be_bytes());
    }
    assert_eq!(
        UdpScrape::from_bytes(&sreply),
        Ok(UdpScrape { action: 2, transaction_id: 12, seeders: 5, completed: 50, leechers: 10 })
    );
    match t.on_scrape_reply(Some(&sreply)) {
        Step::Accept(s) => assert_eq!(s.completed, 50),
        _ => panic!("scrape reply rejected"),
    }
}

#[test]
fn announce_query_encodes_raw_bytes() {
    let mut req = AnnounceRequest::new(SAMPLE_HASH, [b'a'; 20], 6881);
    let q = String::from_utf8(req.query()).unwrap();
    assert_eq!(
        q,
        "?info_hash=%124Vx%9A%BC%DE%F1%23Eg%89%AB%CD%EF%124Vx%9A&peer_id=aaaaaaaaaaaaaaaaaaaa&port=6881&compact=1"
    );
    req.set_left(1000);
    req.set_event("started".to_string());
    req.set_compact(0);
    req.set_key("a b".to_string());
    let req = req.build();
    let q = String::from_utf8(req.query()).unwrap();
    assert!(q.ends_with("&port=6881&compact=0&left=1000&event=started&key=a%20b"));
}

#[test]
fn get_request_layout() {
    let r = build_get_request(b"/announce", b"?x=1", "tracker.example");
    assert_eq!(
        String::from_utf8(r).unwrap(),
        "GET /announce?x=1 HTTP/1.1\r\nHost: tracker.example\r\nConnection: close\r\n\r\n"
    );
}

#[test]
fn reply_body_splits_at_blank_line() {
    let raw = b"HTTP/1.1 200 OK\r\nContent-Type: text/plain\r\n\r\nd8:intervali900ee";
    assert_eq!(header_end(raw), Some(45));
    assert_eq!(reply_body(raw).unwrap(), b"d8:intervali900ee".to_vec());
    assert_eq!(reply_body(b"HTTP/1.1 200 OK\r\n"), Err(Error::InvalidFormat));
    assert_eq!(header_end(b"\r\n"), None);
}

#[test]
fn compact_peers_codec() {
    let bytes = [127, 0, 0, 1, 0x1a, 0xe1, 10, 1, 2, 3, 0, 80];
    let peers = parse_compact_peers(&bytes).unwrap();
    assert_eq!(
        peers,
        vec![
            PeerAddr::V4 { ip: 0x7f00_0001, port: 6881 },
            PeerAddr::V4 { ip: 0x0a01_0203, port: 80 },
        ]
    );
    assert_eq!(encode_compact_peers(&peers), bytes.to_vec());
    assert_eq!(parse_compact_peers(&bytes[..7]), Err(Error::InvalidFormat));
    assert_eq!(parse_compact_peers(&[]), Ok(vec![]));
    let v6 = [PeerAddr::V6 { ip: 1, port: 2 }];
    let mut expected = vec![0u8; 15];
    expected.extend_from_slice(&[1, 0, 2]);
    assert_eq!(encode_compact_peers(&v6), expected);
    let resp = AnnounceResponse::new(900, None, None, Some(1), Some(2), peers.clone());
    assert_eq!(resp.peers(), peers);
}

#[test]
fn scrape_path_follows_the_announce_path() {
    assert_eq!(scrape_path(b"/announce"), Some(b"/scrape".to_vec()));
    assert_eq!(scrape_path(b"/x/announce"), Some(b"/x/scrape".to_vec()));
    assert_eq!(scrape_path(b"/announce.php"), Some(b"/scrape.php".to_vec()));
    assert_eq!(scrape_path(b"/a"), None);
    assert_eq!(scrape_path(b""), None);
}

#[test]
fn failed_connect_keeps_the_connection_id() {
    let mut t = UdpTracker::new();
    t.connect_request(1);
    t.on_connect_reply(Some(&connect_reply(0, 1, 55)));
    assert_eq!(t.connection_id, Some(55));
    t.connect_request(2);
    loop {
        match t.on_connect_reply(None) {
            Step::Resend { .. } => {}
            Step::Fail(e) => {
                assert_eq!(e, Error::ConnectionFailed);
                break;
            }
            Step::Accept(_) => panic!("nothing was received"),
        }
    }
    assert_eq!(t.connection_id, Some(55));
    t.scrape_request(3, &SAMPLE_HASH).unwrap();
    loop {
        match t.on_scrape_reply(None) {
            Step::Resend { .. } => {}
            Step::Fail(_) => break,
            Step::Accept(_) => panic!("nothing was received"),
        }
    }
    assert_eq!(t.connection_id, None);
}
