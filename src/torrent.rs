use vstd::prelude::*;

use crate::sha::{sha1_digest, sha1_of};
use vstd::utf8::encode_utf8;

use crate::tracker::http::utf8_of;

verus! {

/// A DHT node: host and port.
#[derive(Debug)]
pub struct Node(pub String, pub i64);

/// One file of a multi-file torrent.
#[derive(Debug)]
pub struct File {
    /// The path components of the file.
    pub path: Vec<String>,
    /// The length of the file in bytes.
    pub length: i64,
    pub md5sum: Option<String>,
}

/// The info dictionary of a torrent.
#[derive(Debug)]
pub struct Info {
    pub name: String,
    /// The 20-byte SHA-1 digests of the pieces, one after the other.
    pub pieces: Vec<u8>,
    /// The number of bytes in each piece.
    pub piece_length: i64,
    pub md5sum: Option<String>,
    /// The length of a single-file torrent.
    pub length: Option<i64>,
    /// The files of a multi-file torrent.
    pub files: Option<Vec<File>>,
    pub private: Option<u8>,
    pub path: Option<Vec<String>>,
    pub root_hash: Option<String>,
}

/// The metadata of a torrent.
#[derive(Debug)]
pub struct Torrent {
    pub info: Info,
    pub announce: Option<String>,
    pub nodes: Option<Vec<Node>>,
    pub encoding: Option<String>,
    pub httpseeds: Option<Vec<String>>,
    pub announce_list: Option<Vec<Vec<String>>>,
    pub creation_date: Option<i64>,
    pub comment: Option<String>,
    pub created_by: Option<String>,
}

/// The sum of the lengths of the first `k` files.
pub open spec fn files_length(files: Seq<File>, k: nat) -> int
    decreases k,
{
    if k == 0 {
        0
    } else {
        files_length(files, (k - 1) as nat) + files[k - 1].length
    }
}

/// Whether every partial sum of the file lengths fits in an `i64`.
pub open spec fn sums_fit(files: Seq<File>) -> bool {
    forall|k: nat| k <= files.len() ==> i64::MIN <= #[trigger] files_length(files, k) <= i64::MAX
}

/// Whether a tracker URL uses the UDP tracker protocol.
pub open spec fn is_udp_url(url: Seq<u8>) -> bool {
    url.len() >= 6 && url.subrange(0, 6) == utf8_of("udp://")
}

/// Whether a tier list holds a UDP tracker URL.
pub open spec fn any_udp_tracker(list: Option<Vec<Vec<String>>>) -> bool {
    list is Some && exists|t: int, u: int|
        #![trigger list->Some_0@[t]@[u]]
        0 <= t < list->Some_0@.len() && 0 <= u < list->Some_0@[t]@.len() && is_udp_url(
            encode_utf8(list->Some_0@[t]@[u]@),
        )
}

proof fn lemma_udp_witness(tiers: Vec<Vec<String>>, t: int, u: int)
    requires
        0 <= t < tiers@.len(),
        0 <= u < tiers@[t]@.len(),
        is_udp_url(encode_utf8(tiers@[t]@[u]@)),
    ensures
        any_udp_tracker(Some(tiers)),
{
    let list = Some(tiers);
    assert(list->Some_0 == tiers);
}

/// The info hash of a torrent from the bencoded bytes of its info dictionary.
pub fn info_hash_of(bencoded_info: &[u8]) -> (r: [u8; 20])
    ensures
        r@ == sha1_of(bencoded_info@),
{
    sha1_digest(bencoded_info)
}

fn starts_with_udp(url: &str) -> (r: bool)
    ensures
        r == is_udp_url(utf8_of(url)),
{
    let b = url.as_bytes();
    let prefix = "udp://".as_bytes();
    proof {
        reveal_strlit("udp://");
        vstd::utf8::is_ascii_chars_encode_utf8("udp://"@);
    }
    if b.len() < 6 {
        return false;
    }
    let head = crate::bytes::copy_range(b, 0, 6);
    crate::bytes::slices_equal(head.as_slice(), prefix)
}

impl Torrent {
    /// The total content length: the single file's, or the sum of the files'.
    pub fn length(&self) -> (r: i64)
        requires
            self.info.length is Some || (self.info.files matches Some(f) && sums_fit(f@)),
        ensures
            self.info.length matches Some(l) ==> r == l,
            self.info.length is None ==> r == files_length(
                self.info.files->Some_0@,
                self.info.files->Some_0@.len(),
            ),
    {
        if let Some(l) = self.info.length {
            return l;
        }
        let files = match &self.info.files {
            Some(f) => f,
            None => {
                return 0;
            },
        };
        let mut total: i64 = 0;
        let mut i: usize = 0;
        while i < files.len()
            invariant
                i <= files@.len(),
                sums_fit(files@),
                total == files_length(files@, i as nat),
            decreases files@.len() - i,
        {
            assert(i64::MIN <= files_length(files@, (i + 1) as nat) <= i64::MAX);
            total = total + files[i].length;
            i = i + 1;
        }
        total
    }

    /// The number of bytes in each piece.
    pub fn piece_length(&self) -> (r: i64)
        ensures
            r == self.info.piece_length,
    {
        self.info.piece_length
    }

    /// The declared digest of each piece, in piece order.
    pub fn piece_hashes(&self) -> (r: Vec<[u8; 20]>)
        requires
            self.info.pieces@.len() % 20 == 0,
        ensures
            r@.len() == self.info.pieces@.len() / 20,
            forall|k: int|
                0 <= k < r@.len() ==> #[trigger] r@[k]@ == self.info.pieces@.subrange(
                    20 * k,
                    20 * k + 20,
                ),
    {
        let pieces = self.info.pieces.as_slice();
        let count = pieces.len() / 20;
        let mut r: Vec<[u8; 20]> = Vec::new();
        let mut k: usize = 0;
        while k < count
            invariant
                count == pieces.len() / 20,
                pieces@ == self.info.pieces@,
                k <= count,
                r@.len() == k,
                forall|j: int|
                    0 <= j < k ==> #[trigger] r@[j]@ == pieces@.subrange(20 * j, 20 * j + 20),
            decreases count - k,
        {
            assert(20 * k + 20 <= pieces.len()) by (nonlinear_arith)
                requires
                    k < count,
                    count == pieces.len() / 20,
            ;
            r.push(crate::bytes::copy_20(pieces, 20 * k));
            k = k + 1;
        }
        r
    }

    /// The name of the content, the output file's name.
    pub fn name(&self) -> (r: &str)
        ensures
            r@ == self.info.name@,
    {
        self.info.name.as_str()
    }

    /// The announce URL.
    pub fn announce(&self) -> (r: &str)
        requires
            self.announce is Some,
        ensures
            r@ == self.announce->Some_0@,
    {
        match &self.announce {
            Some(a) => a.as_str(),
            None => "",
        }
    }

    /// Whether any tracker of the announce list speaks the UDP protocol.
    pub fn has_udp_trackers(&self) -> (r: bool)
        ensures
            r == any_udp_tracker(self.announce_list),
    {
        let tiers = match &self.announce_list {
            Some(t) => t,
            None => {
                return false;
            },
        };
        let mut t: usize = 0;
        while t < tiers.len()
            invariant
                self.announce_list == Some(*tiers),
                t <= tiers@.len(),
                forall|a: int, b: int|
                    0 <= a < t && 0 <= b < tiers@[a]@.len() ==> !is_udp_url(
                        encode_utf8(#[trigger] tiers@[a]@[b]@),
                    ),
            decreases tiers@.len() - t,
        {
            let tier = &tiers[t];
            let mut u: usize = 0;
            while u < tier.len()
                invariant
                    self.announce_list == Some(*tiers),
                    t < tiers@.len(),
                    tier == tiers@[t as int],
                    u <= tier@.len(),
                    forall|a: int, b: int|
                        0 <= a < t && 0 <= b < tiers@[a]@.len() ==> !is_udp_url(
                            encode_utf8(#[trigger] tiers@[a]@[b]@),
                        ),
                    forall|b: int|
                        0 <= b < u ==> !is_udp_url(encode_utf8(#[trigger] tier@[b]@)),
                decreases tier@.len() - u,
            {
                if starts_with_udp(tier[u].as_str()) {
                    assert(is_udp_url(encode_utf8(tiers@[t as int]@[u as int]@)));
                    proof {
                        lemma_udp_witness(*tiers, t as int, u as int);
                    }
                    return true;
                }
                u = u + 1;
            }
            t = t + 1;
        }
        false
    }
}

} // verus!
