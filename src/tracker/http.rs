use vstd::prelude::*;
use vstd::utf8::encode_utf8;

use crate::bytes::{copy_range, push_all, slices_equal};
use crate::error::Error;
use crate::tracker::peers::PeerAddr;

verus! {

/// Whether a byte passes through percent-encoding unchanged: an ASCII letter
/// or digit, or one of `-`, `.`, `_`, `~`.
pub open spec fn unreserved(c: u8) -> bool {
    (48 <= c <= 57) || (65 <= c <= 90) || (97 <= c <= 122) || c == 45 || c == 46 || c == 95
        || c == 126
}

/// The upper-case hexadecimal digit of `d`, for `d < 16`.
pub open spec fn hex_digit(d: u8) -> u8 {
    if d < 10 {
        (48 + d) as u8
    } else {
        (55 + d) as u8
    }
}

/// `b` with every byte but the unreserved ones written as `%` and two
/// upper-case hexadecimal digits.
pub open spec fn percent_encoded(b: Seq<u8>) -> Seq<u8>
    decreases b.len(),
{
    if b.len() == 0 {
        Seq::empty()
    } else {
        let c = b.last();
        percent_encoded(b.drop_last()) + if unreserved(c) {
            seq![c]
        } else {
            seq![37u8, hex_digit(c >> 4u8), hex_digit(c & 15u8)]
        }
    }
}

/// The ASCII decimal digits of `x`, without leading zeros.
pub open spec fn decimal(x: nat) -> Seq<u8>
    decreases x,
{
    if x < 10 {
        seq![(48 + x) as u8]
    } else {
        decimal(x / 10).push((48 + x % 10) as u8)
    }
}

/// Relies on urlencoding::encode_binary: every byte but ASCII letters, digits
/// and `-._~` becomes `%` followed by two upper-case hexadecimal digits.
#[verifier::external_body]
fn url_escape(b: &[u8]) -> (r: Vec<u8>)
    ensures
        r@ == percent_encoded(b@),
{
    urlencoding::encode_binary(b).as_bytes().to_vec()
}

/// Appends the decimal digits of `x`.
pub fn push_decimal(out: &mut Vec<u8>, x: u64)
    ensures
        final(out)@ == old(out)@ + decimal(x as nat),
    decreases x,
{
    if x < 10 {
        out.push((48 + x) as u8);
    } else {
        push_decimal(out, x / 10);
        out.push((48 + x % 10) as u8);
    }
}

/// The bytes of a string's UTF-8 encoding.
pub open spec fn utf8_of(s: &str) -> Seq<u8> {
    encode_utf8(s@)
}

/// `name` and the decimal value, when there is one.
pub open spec fn num_param(name: Seq<u8>, v: Option<u64>) -> Seq<u8> {
    match v {
        Some(x) => name + decimal(x as nat),
        None => Seq::empty(),
    }
}

/// `name` and the percent-encoded text, when there is one.
pub open spec fn text_param(name: Seq<u8>, v: Option<String>) -> Seq<u8> {
    match v {
        Some(s) => name + percent_encoded(encode_utf8(s@)),
        None => Seq::empty(),
    }
}

fn push_num_param(out: &mut Vec<u8>, name: &str, v: Option<u64>)
    ensures
        final(out)@ == old(out)@ + num_param(utf8_of(name), v),
{
    if let Some(x) = v {
        push_all(out, name.as_bytes());
        push_decimal(out, x);
    }
    assert(final(out)@ =~= old(out)@ + num_param(utf8_of(name), v));
}

fn push_text_param(out: &mut Vec<u8>, name: &str, v: &Option<String>)
    ensures
        final(out)@ == old(out)@ + text_param(utf8_of(name), *v),
{
    if let Some(s) = v {
        push_all(out, name.as_bytes());
        let escaped = url_escape(s.as_str().as_bytes());
        push_all(out, escaped.as_slice());
    }
    assert(final(out)@ =~= old(out)@ + text_param(utf8_of(name), *v));
}

/// The parameters of an announce to an HTTP tracker.
#[derive(Debug)]
pub struct AnnounceRequest {
    pub info_hash: [u8; 20],
    pub peer_id: [u8; 20],
    pub port: u16,
    pub uploaded: Option<u64>,
    pub downloaded: Option<u64>,
    pub left: Option<u64>,
    pub compact: Option<u8>,
    pub no_peer_id: Option<u8>,
    pub event: Option<String>,
    pub ip: Option<String>,
    pub numwant: Option<u64>,
    pub key: Option<String>,
    pub trackerid: Option<String>,
}

/// The query of an announce: the info hash and the peer id percent-encoded
/// as raw bytes, the port, `compact` (1 unless set otherwise), then each
/// optional parameter that is set.
pub open spec fn announce_query(r: AnnounceRequest) -> Seq<u8> {
    utf8_of("?info_hash=") + percent_encoded(r.info_hash@) + utf8_of("&peer_id=") + percent_encoded(
        r.peer_id@,
    ) + utf8_of("&port=") + decimal(r.port as nat) + utf8_of("&compact=") + decimal(
        (match r.compact {
            Some(c) => c,
            None => 1u8,
        }) as nat,
    ) + num_param(utf8_of("&uploaded="), r.uploaded) + num_param(
        utf8_of("&downloaded="),
        r.downloaded,
    ) + num_param(utf8_of("&left="), r.left) + text_param(utf8_of("&event="), r.event)
        + num_param(utf8_of("&numwant="), r.numwant) + text_param(utf8_of("&key="), r.key)
        + text_param(utf8_of("&trackerid="), r.trackerid) + text_param(utf8_of("&ip="), r.ip)
        + num_param(
        utf8_of("&no_peer_id="),
        match r.no_peer_id {
            Some(n) => Some(n as u64),
            None => None,
        },
    )
}

impl AnnounceRequest {
    /// An announce with only the required parameters, asking for the compact
    /// peer list.
    pub fn new(info_hash: [u8; 20], peer_id: [u8; 20], port: u16) -> (r: AnnounceRequest)
        ensures
            r == (AnnounceRequest {
                info_hash,
                peer_id,
                port,
                uploaded: None,
                downloaded: None,
                left: None,
                compact: Some(1),
                no_peer_id: None,
                event: None,
                ip: None,
                numwant: None,
                key: None,
                trackerid: None,
            }),
    {
        AnnounceRequest {
            info_hash,
            peer_id,
            port,
            uploaded: None,
            downloaded: None,
            left: None,
            compact: Some(1),
            no_peer_id: None,
            event: None,
            ip: None,
            numwant: None,
            key: None,
            trackerid: None,
        }
    }

    pub fn set_uploaded(&mut self, uploaded: u64)
        ensures
            *final(self) == (AnnounceRequest { uploaded: Some(uploaded), ..*old(self) }),
    {
        self.uploaded = Some(uploaded);
    }

    pub fn set_downloaded(&mut self, downloaded: u64)
        ensures
            *final(self) == (AnnounceRequest { downloaded: Some(downloaded), ..*old(self) }),
    {
        self.downloaded = Some(downloaded);
    }

    pub fn set_left(&mut self, left: u64)
        ensures
            *final(self) == (AnnounceRequest { left: Some(left), ..*old(self) }),
    {
        self.left = Some(left);
    }

    pub fn set_event(&mut self, event: String)
        ensures
            *final(self) == (AnnounceRequest { event: Some(event), ..*old(self) }),
    {
        self.event = Some(event);
    }

    pub fn set_numwant(&mut self, numwant: u64)
        ensures
            *final(self) == (AnnounceRequest { numwant: Some(numwant), ..*old(self) }),
    {
        self.numwant = Some(numwant);
    }

    pub fn set_key(&mut self, key: String)
        ensures
            *final(self) == (AnnounceRequest { key: Some(key), ..*old(self) }),
    {
        self.key = Some(key);
    }

    pub fn set_trackerid(&mut self, trackerid: String)
        ensures
            *final(self) == (AnnounceRequest { trackerid: Some(trackerid), ..*old(self) }),
    {
        self.trackerid = Some(trackerid);
    }

    pub fn set_ip(&mut self, ip: String)
        ensures
            *final(self) == (AnnounceRequest { ip: Some(ip), ..*old(self) }),
    {
        self.ip = Some(ip);
    }

    pub fn set_no_peer_id(&mut self, no_peer_id: u8)
        ensures
            *final(self) == (AnnounceRequest { no_peer_id: Some(no_peer_id), ..*old(self) }),
    {
        self.no_peer_id = Some(no_peer_id);
    }

    pub fn set_compact(&mut self, compact: u8)
        ensures
            *final(self) == (AnnounceRequest { compact: Some(compact), ..*old(self) }),
    {
        self.compact = Some(compact);
    }

    /// The finished request, as it was set up.
    pub fn build(self) -> (r: AnnounceRequest)
        ensures
            r == self,
    {
        self
    }

    /// The query string of the announce, as bytes.
    pub fn query(&self) -> (r: Vec<u8>)
        ensures
            r@ == announce_query(*self),
    {
        let mut r: Vec<u8> = Vec::new();
        push_all(&mut r, "?info_hash=".as_bytes());
        let ih = url_escape(self.info_hash.as_slice());
        push_all(&mut r, ih.as_slice());
        push_all(&mut r, "&peer_id=".as_bytes());
        let pid = url_escape(self.peer_id.as_slice());
        push_all(&mut r, pid.as_slice());
        push_all(&mut r, "&port=".as_bytes());
        push_decimal(&mut r, self.port as u64);
        push_all(&mut r, "&compact=".as_bytes());
        let compact: u8 = match self.compact {
            Some(c) => c,
            None => 1,
        };
        push_decimal(&mut r, compact as u64);
        push_num_param(&mut r, "&uploaded=", self.uploaded);
        push_num_param(&mut r, "&downloaded=", self.downloaded);
        push_num_param(&mut r, "&left=", self.left);
        push_text_param(&mut r, "&event=", &self.event);
        push_num_param(&mut r, "&numwant=", self.numwant);
        push_text_param(&mut r, "&key=", &self.key);
        push_text_param(&mut r, "&trackerid=", &self.trackerid);
        push_text_param(&mut r, "&ip=", &self.ip);
        let no_peer_id: Option<u64> = match self.no_peer_id {
            Some(n) => Some(n as u64),
            None => None,
        };
        push_num_param(&mut r, "&no_peer_id=", no_peer_id);
        assert(r@ =~= announce_query(*self));
        r
    }
}

/// The bytes of a GET request for `path` and `query` on `host`, asking the
/// server to close the connection after the reply.
pub open spec fn get_request(path: Seq<u8>, query: Seq<u8>, host: Seq<u8>) -> Seq<u8> {
    utf8_of("GET ") + path + query + utf8_of(" HTTP/1.1\r\nHost: ") + host + utf8_of(
        "\r\nConnection: close\r\n\r\n",
    )
}

/// The GET request for `path` and `query` on `host`.
pub fn build_get_request(path: &[u8], query: &[u8], host: &str) -> (r: Vec<u8>)
    ensures
        r@ == get_request(path@, query@, utf8_of(host)),
{
    let mut r: Vec<u8> = Vec::new();
    push_all(&mut r, "GET ".as_bytes());
    push_all(&mut r, path);
    push_all(&mut r, query);
    push_all(&mut r, " HTTP/1.1\r\nHost: ".as_bytes());
    push_all(&mut r, host.as_bytes());
    push_all(&mut r, "\r\nConnection: close\r\n\r\n".as_bytes());
    assert(r@ =~= get_request(path@, query@, utf8_of(host)));
    r
}

/// The bytes of `/announce`.
pub open spec fn announce_segment() -> Seq<u8> {
    seq![47u8, 97u8, 110u8, 110u8, 111u8, 117u8, 110u8, 99u8, 101u8]
}

/// The bytes of `/scrape`.
pub open spec fn scrape_segment() -> Seq<u8> {
    seq![47u8, 115u8, 99u8, 114u8, 97u8, 112u8, 101u8]
}

/// `s` with each `/announce` replaced by `/scrape`, scanning from the left.
pub open spec fn replace_announce(s: Seq<u8>) -> Seq<u8>
    decreases s.len(),
{
    if s.len() == 0 {
        s
    } else if s.len() >= 9 && s.subrange(0, 9) == announce_segment() {
        scrape_segment() + replace_announce(s.subrange(9, s.len() as int))
    } else {
        seq![s[0]] + replace_announce(s.subrange(1, s.len() as int))
    }
}

proof fn lemma_replace_shrinks(s: Seq<u8>)
    ensures
        replace_announce(s).len() <= s.len(),
        replace_announce(s).len() == s.len() ==> replace_announce(s) == s,
    decreases s.len(),
{
    if s.len() == 0 {
    } else if s.len() >= 9 && s.subrange(0, 9) == announce_segment() {
        lemma_replace_shrinks(s.subrange(9, s.len() as int));
    } else {
        let tail = s.subrange(1, s.len() as int);
        lemma_replace_shrinks(tail);
        if replace_announce(s).len() == s.len() {
            assert(seq![s[0]] + tail =~= s);
        }
    }
}

/// The path of the scrape page that goes with an announce path: each
/// `/announce` becomes `/scrape`. `None` when the path has no `/announce`,
/// which marks a tracker without scrape support.
pub fn scrape_path(path: &[u8]) -> (r: Option<Vec<u8>>)
    ensures
        r matches Some(p) ==> p@ == replace_announce(path@) && p@ != path@,
        r is None ==> replace_announce(path@) == path@,
{
    let announce: [u8; 9] = [47, 97, 110, 110, 111, 117, 110, 99, 101];
    let n = path.len();
    let mut out: Vec<u8> = Vec::new();
    let mut i: usize = 0;
    assert(path@.subrange(0, n as int) =~= path@);
    while i < n
        invariant
            n == path@.len(),
            i <= n,
            announce@ == announce_segment(),
            out@ + replace_announce(path@.subrange(i as int, n as int)) == replace_announce(path@),
        decreases n - i,
    {
        let ghost rest = path@.subrange(i as int, n as int);
        let is_segment = n - i >= 9 && slices_equal(
            copy_range(path, i, i + 9).as_slice(),
            announce.as_slice(),
        );
        if is_segment {
            assert(rest.subrange(0, 9) =~= path@.subrange(i as int, i + 9));
            assert(rest.subrange(9, rest.len() as int) =~= path@.subrange(i + 9, n as int));
            out.push(47);
            out.push(115);
            out.push(99);
            out.push(114);
            out.push(97);
            out.push(112);
            out.push(101);
            i = i + 9;
        } else {
            assert(rest.len() >= 9 ==> rest.subrange(0, 9) =~= path@.subrange(i as int, i + 9));
            assert(rest.subrange(1, rest.len() as int) =~= path@.subrange(i + 1, n as int));
            out.push(path[i]);
            i = i + 1;
        }
        assert(out@ + replace_announce(path@.subrange(i as int, n as int)) =~= replace_announce(
            path@,
        ));
    }
    assert(path@.subrange(n as int, n as int) =~= Seq::<u8>::empty());
    assert(out@ =~= replace_announce(path@));
    proof {
        lemma_replace_shrinks(path@);
    }
    if out.len() == n {
        None
    } else {
        Some(out)
    }
}

/// Whether `s` holds `\r\n\r\n` at `i`.
pub open spec fn blank_line_at(s: Seq<u8>, i: int) -> bool {
    0 <= i && i + 4 <= s.len() && s[i] == 13 && s[i + 1] == 10 && s[i + 2] == 13 && s[i + 3] == 10
}

/// The offset just past the first `\r\n\r\n`, which ends the headers of an
/// HTTP reply; `None` when there is none.
pub fn header_end(raw: &[u8]) -> (r: Option<usize>)
    ensures
        r matches Some(e) ==> e >= 4 && blank_line_at(raw@, e - 4) && forall|i: int|
            0 <= i < e - 4 ==> !blank_line_at(raw@, i),
        r is None ==> forall|i: int| 0 <= i < raw@.len() ==> !blank_line_at(raw@, i),
{
    let mut i: usize = 0;
    while raw.len() >= 4 && i <= raw.len() - 4
        invariant
            i <= raw@.len(),
            raw@.len() >= 4 ==> i <= raw@.len() - 3,
            forall|k: int| 0 <= k < i ==> !blank_line_at(raw@, k),
        decreases raw@.len() - i,
    {
        if raw[i] == 13 && raw[i + 1] == 10 && raw[i + 2] == 13 && raw[i + 3] == 10 {
            return Some(i + 4);
        }
        i = i + 1;
    }
    None
}

/// The body of an HTTP reply, after the headers; `InvalidFormat` when the
/// headers never end.
pub fn reply_body(raw: &[u8]) -> (r: Result<Vec<u8>, Error>)
    ensures
        (exists|i: int| blank_line_at(raw@, i)) <==> r is Ok,
        r matches Ok(b) ==> exists|e: int|
            e >= 4 && blank_line_at(raw@, e - 4) && (forall|i: int|
                0 <= i < e - 4 ==> !blank_line_at(raw@, i)) && b@ == raw@.subrange(
                e,
                raw@.len() as int,
            ),
        r is Err ==> r == Err::<Vec<u8>, Error>(Error::InvalidFormat),
{
    match header_end(raw) {
        Some(e) => {
            let body = copy_range(raw, e, raw.len());
            assert(blank_line_at(raw@, e - 4));
            Ok(body)
        },
        None => Err(Error::InvalidFormat),
    }
}

/// The reply to an announce.
#[derive(Debug)]
pub struct AnnounceResponse {
    pub failure_reason: Option<String>,
    pub warning_message: Option<String>,
    pub interval: u64,
    pub min_interval: Option<u64>,
    pub tracker_id: Option<String>,
    pub complete: Option<u64>,
    pub incomplete: Option<u64>,
    pub peers: Vec<PeerAddr>,
}

impl AnnounceResponse {
    /// A successful reply with the given fields and no messages.
    pub fn new(
        interval: u64,
        min_interval: Option<u64>,
        tracker_id: Option<String>,
        complete: Option<u64>,
        incomplete: Option<u64>,
        peers: Vec<PeerAddr>,
    ) -> (r: AnnounceResponse)
        ensures
            r == (AnnounceResponse {
                failure_reason: None,
                warning_message: None,
                interval,
                min_interval,
                tracker_id,
                complete,
                incomplete,
                peers,
            }),
    {
        AnnounceResponse {
            failure_reason: None,
            warning_message: None,
            interval,
            min_interval,
            tracker_id,
            complete,
            incomplete,
            peers,
        }
    }

    /// The peers that the tracker listed, in its order.
    pub fn peers(&self) -> (r: Vec<PeerAddr>)
        ensures
            r@ == self.peers@,
    {
        let mut r: Vec<PeerAddr> = Vec::new();
        let mut i: usize = 0;
        while i < self.peers.len()
            invariant
                i <= self.peers@.len(),
                r@ == self.peers@.subrange(0, i as int),
            decreases self.peers@.len() - i,
        {
            r.push(self.peers[i]);
            i = i + 1;
            assert(r@ =~= self.peers@.subrange(0, i as int));
        }
        assert(r@ =~= self.peers@);
        r
    }
}

/// A scrape asks for the counts of one torrent.
#[derive(Debug, Clone, Copy)]
pub struct ScrapeRequest {
    pub info_hash: [u8; 20],
}

impl ScrapeRequest {
    /// The query string of the scrape, as bytes.
    pub fn query(&self) -> (r: Vec<u8>)
        ensures
            r@ == utf8_of("?info_hash=") + percent_encoded(self.info_hash@),
    {
        let mut r: Vec<u8> = Vec::new();
        push_all(&mut r, "?info_hash=".as_bytes());
        let ih = url_escape(self.info_hash.as_slice());
        push_all(&mut r, ih.as_slice());
        r
    }
}

/// The counts of one torrent in a scrape reply.
#[derive(Debug, Clone, Copy, PartialEq, Eq, Structural)]
pub struct ScrapeResponseFile {
    pub complete: u64,
    pub incomplete: u64,
    pub downloaded: u64,
}

/// A scrape reply: the counts of each torrent, under its 20-byte info hash.
#[derive(Debug)]
pub struct ScrapeResponse {
    pub files: Vec<(Vec<u8>, ScrapeResponseFile)>,
}

impl ScrapeResponse {
    /// The counts listed first under `info_hash`, if any.
    pub fn file(&self, info_hash: &[u8]) -> (r: Option<ScrapeResponseFile>)
        ensures
            r matches Some(f) ==> exists|i: int|
                0 <= i < self.files@.len() && self.files@[i].0@ == info_hash@ && self.files@[i].1
                    == f && forall|j: int| 0 <= j < i ==> self.files@[j].0@ != info_hash@,
            r is None ==> forall|j: int|
                0 <= j < self.files@.len() ==> self.files@[j].0@ != info_hash@,
    {
        let mut i: usize = 0;
        while i < self.files.len()
            invariant
                i <= self.files@.len(),
                forall|j: int| 0 <= j < i ==> self.files@[j].0@ != info_hash@,
            decreases self.files@.len() - i,
        {
            if crate::bytes::slices_equal(self.files[i].0.as_slice(), info_hash) {
                return Some(self.files[i].1);
            }
            i = i + 1;
        }
        None
    }
}

} // verus!
