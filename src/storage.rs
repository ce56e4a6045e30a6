use vstd::prelude::*;

use crate::bitfield::{byte_bit, mask_of, BitField};
use crate::error::Error;
use crate::sha::{sha1_digest, sha1_of};

verus! {

/// The size of the blocks that a piece is requested in.
pub const BLOCK_SIZE: u64 = 16384;

/// The number of pieces of `pl` bytes that cover `total` bytes.
pub open spec fn piece_count(total: nat, pl: nat) -> nat {
    if pl == 0 {
        0
    } else if total % pl == 0 {
        total / pl
    } else {
        total / pl + 1
    }
}

/// The length of piece `i`: `pl`, but for the last piece, which holds what is left.
pub open spec fn piece_len(total: nat, pl: nat, i: nat) -> nat {
    if i + 1 < piece_count(total, pl) {
        pl
    } else {
        (total - i * pl) as nat
    }
}

/// The bytes of the first `k` pieces that are marked in `v`.
pub open spec fn verified_bytes(v: Seq<bool>, total: nat, pl: nat, k: nat) -> nat
    decreases k,
{
    if k == 0 {
        0
    } else {
        verified_bytes(v, total, pl, (k - 1) as nat) + if v[k - 1] {
            piece_len(total, pl, (k - 1) as nat)
        } else {
            0
        }
    }
}

/// The bytes of the first `k` pieces.
pub open spec fn piece_bytes(total: nat, pl: nat, k: nat) -> nat
    decreases k,
{
    if k == 0 {
        0
    } else {
        piece_bytes(total, pl, (k - 1) as nat) + piece_len(total, pl, (k - 1) as nat)
    }
}

proof fn lemma_piece_layout(total: nat, pl: nat, i: nat)
    requires
        pl > 0,
        i < piece_count(total, pl),
    ensures
        i * pl < total,
        0 < piece_len(total, pl, i) <= pl,
        i * pl + piece_len(total, pl, i) <= total,
        i + 1 == piece_count(total, pl) ==> i * pl + piece_len(total, pl, i) == total,
{
    let n = piece_count(total, pl);
    assert(total == (total / pl) * pl + total % pl) by (nonlinear_arith)
        requires
            pl > 0,
    ;
    assert(i * pl <= (n - 1) * pl) by (nonlinear_arith)
        requires
            i <= n - 1,
    ;
    assert((n - 1) * pl < total) by (nonlinear_arith)
        requires
            pl > 0,
            n == (if total % pl == 0 {
                total / pl
            } else {
                total / pl + 1
            }),
            n >= 1,
            total == (total / pl) * pl + total % pl,
    ;
    if i + 1 < n {
        assert((i + 1) * pl <= (n - 1) * pl) by (nonlinear_arith)
            requires
                i + 1 <= n - 1,
        ;
        assert((i + 1) * pl == i * pl + pl) by (nonlinear_arith);
    } else {
        assert(total <= n * pl) by (nonlinear_arith)
            requires
                pl > 0,
                n == (if total % pl == 0 {
                    total / pl
                } else {
                    total / pl + 1
                }),
                total == (total / pl) * pl + total % pl,
                total % pl < pl,
        ;
        assert(n * pl == (n - 1) * pl + pl) by (nonlinear_arith);
    }
}

proof fn lemma_piece_bytes(total: nat, pl: nat, k: nat)
    requires
        pl > 0,
        k <= piece_count(total, pl),
    ensures
        piece_bytes(total, pl, k) == if k == piece_count(total, pl) {
            total
        } else {
            k * pl
        },
    decreases k,
{
    if k > 0 {
        let j = (k - 1) as nat;
        lemma_piece_bytes(total, pl, j);
        lemma_piece_layout(total, pl, j);
        assert(piece_bytes(total, pl, k) == piece_bytes(total, pl, j) + piece_len(total, pl, j));
        assert(piece_bytes(total, pl, j) == j * pl);
        assert(j * pl + pl == k * pl) by (nonlinear_arith)
            requires
                j + 1 == k,
        ;
    } else {
        if piece_count(total, pl) == 0 {
            vstd::arithmetic::div_mod::lemma_fundamental_div_mod(total as int, pl as int);
            assert(total / pl == 0 && total % pl == 0);
            assert(pl * (total / pl) == 0) by (nonlinear_arith)
                requires
                    total / pl == 0,
            ;
        }
    }
}

proof fn lemma_verified_bytes_bound(v: Seq<bool>, total: nat, pl: nat, k: nat)
    requires
        pl > 0,
        k <= piece_count(total, pl),
    ensures
        verified_bytes(v, total, pl, k) <= piece_bytes(total, pl, k),
        verified_bytes(v, total, pl, k) == piece_bytes(total, pl, k) <==> forall|i: int|
            0 <= i < k ==> #[trigger] v[i],
    decreases k,
{
    if k > 0 {
        lemma_verified_bytes_bound(v, total, pl, (k - 1) as nat);
        lemma_piece_layout(total, pl, (k - 1) as nat);
        if verified_bytes(v, total, pl, k) == piece_bytes(total, pl, k) {
            assert forall|i: int| 0 <= i < k implies #[trigger] v[i] by {
                if i < k - 1 {
                } else {
                }
            }
        }
    }
}

proof fn lemma_verified_bytes_update(v: Seq<bool>, total: nat, pl: nat, k: nat, i: int, b: bool)
    requires
        0 <= i < v.len(),
        k <= v.len(),
    ensures
        verified_bytes(v.update(i, b), total, pl, k) + (if i < k && v[i] {
            piece_len(total, pl, i as nat)
        } else {
            0
        }) == verified_bytes(v, total, pl, k) + (if i < k && b {
            piece_len(total, pl, i as nat)
        } else {
            0
        }),
    decreases k,
{
    if k > 0 {
        lemma_verified_bytes_update(v, total, pl, (k - 1) as nat, i, b);
        assert(v.update(i, b)[k - 1] == if i == k - 1 {
            b
        } else {
            v[k - 1]
        });
    }
}

/// The indices below `k` that are marked in `v`, in increasing order.
pub open spec fn marked_below(v: Seq<bool>, k: nat) -> Seq<u64>
    decreases k,
{
    if k == 0 {
        Seq::empty()
    } else {
        let rest = marked_below(v, (k - 1) as nat);
        if v[k - 1] {
            rest.push((k - 1) as u64)
        } else {
            rest
        }
    }
}

proof fn lemma_zero_byte(k: u8)
    requires
        k < 8,
    ensures
        !byte_bit(0u8, k),
{
    assert(0u8 & (1u8 << ((7u8 - k) as u8)) == 0) by (bit_vector);
    assert(mask_of(k) == 1u8 << ((7u8 - k) as u8));
}

/// A block of a piece: where it starts in the piece and how long it is.
#[derive(Debug, Clone, Copy, PartialEq, Eq, Structural)]
pub struct Block {
    pub piece_index: u64,
    pub begin: u64,
    pub length: u64,
}

/// The bookkeeping of a download into one file: the piece layout, the
/// declared digests, and which pieces have been verified.
#[derive(Debug)]
pub struct Storage {
    piece_length: u64,
    total_size: u64,
    downloaded: u64,
    piece_hashes: Vec<[u8; 20]>,
    verified: Vec<bool>,
}

impl Storage {
    pub closed spec fn spec_piece_length(&self) -> nat {
        self.piece_length as nat
    }

    pub closed spec fn spec_total_size(&self) -> nat {
        self.total_size as nat
    }

    pub closed spec fn spec_downloaded(&self) -> nat {
        self.downloaded as nat
    }

    /// The declared digest of each piece.
    pub closed spec fn spec_hashes(&self) -> Seq<Seq<u8>> {
        Seq::new(self.piece_hashes@.len(), |i: int| self.piece_hashes@[i]@)
    }

    /// Which pieces have been verified.
    pub closed spec fn spec_verified(&self) -> Seq<bool> {
        self.verified@
    }

    pub open spec fn count(&self) -> nat {
        piece_count(self.spec_total_size(), self.spec_piece_length())
    }

    pub open spec fn len_of(&self, i: nat) -> nat {
        piece_len(self.spec_total_size(), self.spec_piece_length(), i)
    }

    /// The layout is consistent and `downloaded` counts the verified pieces' bytes.
    pub closed spec fn wf(&self) -> bool {
        &&& self.piece_length > 0
        &&& self.piece_hashes@.len() == self.count()
        &&& self.verified@.len() == self.count()
        &&& self.downloaded == verified_bytes(
            self.verified@,
            self.total_size as nat,
            self.piece_length as nat,
            self.count(),
        )
    }

    /// The layout of `total_size` bytes in pieces of `piece_length`, with
    /// nothing verified yet; `InvalidFormat` when the piece length is zero or
    /// the digest table does not hold one digest per piece.
    pub fn new(total_size: u64, piece_length: u64, piece_hashes: Vec<[u8; 20]>) -> (r: Result<
        Storage,
        Error,
    >)
        ensures
            (piece_length > 0 && piece_hashes@.len() == piece_count(
                total_size as nat,
                piece_length as nat,
            )) <==> r is Ok,
            r is Err ==> r == Err::<Storage, Error>(Error::InvalidFormat),
            r matches Ok(s) ==> s.spec_verified().len() == s.count(),
            r matches Ok(s) ==> s.wf() && s.spec_total_size() == total_size && s.spec_piece_length()
                == piece_length && s.spec_downloaded() == 0 && s.spec_hashes() == Seq::new(
                piece_hashes@.len(),
                |i: int| piece_hashes@[i]@,
            ) && (forall|i: int| 0 <= i < s.count() ==> !#[trigger] s.spec_verified()[i]),
    {
        if piece_length == 0 {
            return Err(Error::InvalidFormat);
        }
        let q = total_size / piece_length;
        let count = if total_size % piece_length == 0 {
            q
        } else {
            proof {
                vstd::arithmetic::div_mod::lemma_fundamental_div_mod(
                    total_size as int,
                    piece_length as int,
                );
            }
            assert(q < u64::MAX) by (nonlinear_arith)
                requires
                    piece_length > 0,
                    total_size % piece_length != 0,
                    total_size == piece_length * q + total_size % piece_length,
                    total_size <= u64::MAX,
            ;
            q + 1
        };
        if piece_hashes.len() as u64 != count {
            return Err(Error::InvalidFormat);
        }
        let mut verified: Vec<bool> = Vec::new();
        let mut i: usize = 0;
        while i < piece_hashes.len()
            invariant
                i <= piece_hashes@.len(),
                verified@.len() == i,
                forall|k: int| 0 <= k < i ==> !#[trigger] verified@[k],
                forall|k: nat| k <= i ==> verified_bytes(
                    verified@,
                    total_size as nat,
                    piece_length as nat,
                    k,
                ) == 0,
            decreases piece_hashes@.len() - i,
        {
            let ghost before = verified@;
            verified.push(false);
            proof {
                assert forall|k: nat| k <= i + 1 implies verified_bytes(
                    verified@,
                    total_size as nat,
                    piece_length as nat,
                    k,
                ) == 0 by {
                    lemma_prefix_zero(verified@, total_size as nat, piece_length as nat, k);
                }
            }
            i = i + 1;
        }
        let s = Storage { piece_length, total_size, downloaded: 0, piece_hashes, verified };
        assert(s.spec_hashes() =~= Seq::new(s.piece_hashes@.len(), |i: int| s.piece_hashes@[i]@));
        Ok(s)
    }

    /// The number of pieces.
    pub fn piece_count(&self) -> (r: u64)
        requires
            self.wf(),
        ensures
            r == self.count(),
    {
        self.piece_hashes.len() as u64
    }

    /// The length of piece `index`; the last piece holds what is left.
    pub fn piece_size(&self, index: u64) -> (r: Result<u64, Error>)
        requires
            self.wf(),
        ensures
            index < self.count() ==> r == Ok::<u64, Error>(self.len_of(index as nat) as u64),
            index >= self.count() ==> r == Err::<u64, Error>(Error::OutOfRange),
    {
        if index >= self.piece_hashes.len() as u64 {
            return Err(Error::OutOfRange);
        }
        proof {
            lemma_piece_layout(self.total_size as nat, self.piece_length as nat, index as nat);
        }
        if index + 1 < self.piece_hashes.len() as u64 {
            Ok(self.piece_length)
        } else {
            Ok(self.total_size - index * self.piece_length)
        }
    }

    /// Where in the file a block of `len` bytes at `begin` in piece
    /// `piece_index` goes; `OutOfRange` for an unknown piece or a block that
    /// runs past the end of the content.
    pub fn block_offset(&self, piece_index: u64, begin: u64, len: u64) -> (r: Result<u64, Error>)
        requires
            self.wf(),
        ensures
            (piece_index < self.count() && piece_index * self.spec_piece_length() + begin + len
                <= self.spec_total_size()) <==> r is Ok,
            r matches Ok(off) ==> off == piece_index * self.spec_piece_length() + begin,
            r is Err ==> r == Err::<u64, Error>(Error::OutOfRange),
    {
        if piece_index >= self.piece_hashes.len() as u64 {
            return Err(Error::OutOfRange);
        }
        proof {
            lemma_piece_layout(self.total_size as nat, self.piece_length as nat, piece_index as nat);
        }
        let start = piece_index * self.piece_length;
        if begin > self.total_size - start || len > self.total_size - start - begin {
            return Err(Error::OutOfRange);
        }
        Ok(start + begin)
    }

    /// The blocks of piece `index`, in order: all of `BLOCK_SIZE` bytes but the
    /// last, which holds what is left of the piece.
    pub fn blocks(&self, index: u64) -> (r: Result<Vec<Block>, Error>)
        requires
            self.wf(),
        ensures
            index >= self.count() <==> r == Err::<Vec<Block>, Error>(Error::OutOfRange),
            index < self.count() <==> r is Ok,
            r matches Ok(v) ==> v@.len() > 0 && v@[0].begin == 0 && v@.last().begin
                + v@.last().length == self.len_of(index as nat) && 0 < v@.last().length
                <= BLOCK_SIZE && forall|k: int|
                0 <= k < v@.len() ==> (#[trigger] v@[k]).piece_index == index && (k + 1 < v@.len()
                    ==> v@[k].length == BLOCK_SIZE && v@[k + 1].begin == v@[k].begin
                    + BLOCK_SIZE),
    {
        let size = match self.piece_size(index) {
            Ok(s) => s,
            Err(e) => {
                return Err(e);
            },
        };
        proof {
            lemma_piece_layout(self.total_size as nat, self.piece_length as nat, index as nat);
        }
        let mut v: Vec<Block> = Vec::new();
        let mut begin: u64 = 0;
        while begin < size
            invariant
                0 < size,
                begin <= size,
                v@.len() == 0 <==> begin == 0,
                v@.len() > 0 ==> v@[0].begin == 0 && v@.last().begin + v@.last().length == begin
                    && 0 < v@.last().length <= BLOCK_SIZE,
                forall|k: int|
                    0 <= k < v@.len() ==> (#[trigger] v@[k]).piece_index == index && (k + 1
                        < v@.len() ==> v@[k].length == BLOCK_SIZE && v@[k + 1].begin == v@[k].begin
                        + BLOCK_SIZE),
                v@.len() > 0 && begin < size ==> v@.last().length == BLOCK_SIZE,
            decreases size - begin,
        {
            let length = if size - begin < BLOCK_SIZE {
                size - begin
            } else {
                BLOCK_SIZE
            };
            v.push(Block { piece_index: index, begin, length });
            begin = begin + length;
        }
        Ok(v)
    }

    /// Records the digest of piece `index`'s bytes as read back, `data_len`
    /// of them: the piece is verified when all its bytes were read and the
    /// digest is the declared one, and unverified otherwise, so that it is
    /// fetched again. Returns whether it verified.
    pub fn record_digest(&mut self, index: u64, data_len: u64, digest: &[u8; 20]) -> (r: Result<
        bool,
        Error,
    >)
        requires
            old(self).wf(),
        ensures
            final(self).wf(),
            final(self).spec_total_size() == old(self).spec_total_size(),
            final(self).spec_piece_length() == old(self).spec_piece_length(),
            final(self).spec_hashes() == old(self).spec_hashes(),
            final(self).spec_verified().len() == final(self).count(),
            index >= old(self).count() ==> final(self).spec_downloaded() == old(self).spec_downloaded(),
            index >= old(self).count() ==> r == Err::<bool, Error>(Error::OutOfRange)
                && final(self).spec_verified() == old(self).spec_verified(),
            index < old(self).count() ==> ({
                let ok = data_len == old(self).len_of(index as nat) && digest@ == old(
                    self,
                ).spec_hashes()[index as int];
                r == Ok::<bool, Error>(ok) && final(self).spec_verified() == old(
                    self,
                ).spec_verified().update(index as int, ok)
            }),
            index < old(self).count() ==> ({
                let ok = data_len == old(self).len_of(index as nat) && digest@ == old(
                    self,
                ).spec_hashes()[index as int];
                let was = old(self).spec_verified()[index as int];
                final(self).spec_downloaded() as int == if ok && !was {
                    old(self).spec_downloaded() + old(self).len_of(index as nat) as int
                } else if !ok && was {
                    old(self).spec_downloaded() - old(self).len_of(index as nat)
                } else {
                    old(self).spec_downloaded() as int
                }
            }),
    {
        if index >= self.piece_hashes.len() as u64 {
            return Err(Error::OutOfRange);
        }
        let size = match self.piece_size(index) {
            Ok(s) => s,
            Err(e) => {
                return Err(e);
            },
        };
        let i = index as usize;
        let ok = data_len == size && crate::bytes::slices_equal(
            digest.as_slice(),
            self.piece_hashes[i].as_slice(),
        );
        let was = self.verified[i];
        let ghost v0 = self.verified@;
        proof {
            lemma_verified_bytes_update(
                v0,
                self.total_size as nat,
                self.piece_length as nat,
                self.count(),
                i as int,
                ok,
            );
            lemma_verified_bytes_bound(
                v0.update(i as int, ok),
                self.total_size as nat,
                self.piece_length as nat,
                self.count(),
            );
            lemma_piece_bytes(self.total_size as nat, self.piece_length as nat, self.count());
        }
        if ok && !was {
            self.downloaded = self.downloaded + size;
        } else if !ok && was {
            self.downloaded = self.downloaded - size;
        }
        self.verified.set(i, ok);
        Ok(ok)
    }

    /// Verifies piece `index` against its bytes as read back from the file.
    pub fn verify_piece(&mut self, index: u64, data: &[u8]) -> (r: Result<bool, Error>)
        requires
            old(self).wf(),
        ensures
            final(self).wf(),
            final(self).spec_total_size() == old(self).spec_total_size(),
            final(self).spec_piece_length() == old(self).spec_piece_length(),
            final(self).spec_hashes() == old(self).spec_hashes(),
            final(self).spec_verified().len() == final(self).count(),
            index >= old(self).count() ==> final(self).spec_downloaded() == old(self).spec_downloaded(),
            index >= old(self).count() ==> r == Err::<bool, Error>(Error::OutOfRange)
                && final(self).spec_verified() == old(self).spec_verified(),
            index < old(self).count() ==> ({
                let ok = data@.len() == old(self).len_of(index as nat) && sha1_of(data@) == old(
                    self,
                ).spec_hashes()[index as int];
                r == Ok::<bool, Error>(ok) && final(self).spec_verified() == old(
                    self,
                ).spec_verified().update(index as int, ok)
            }),
            index < old(self).count() ==> ({
                let ok = data@.len() == old(self).len_of(index as nat) && sha1_of(data@) == old(
                    self,
                ).spec_hashes()[index as int];
                let was = old(self).spec_verified()[index as int];
                final(self).spec_downloaded() as int == if ok && !was {
                    old(self).spec_downloaded() + old(self).len_of(index as nat) as int
                } else if !ok && was {
                    old(self).spec_downloaded() - old(self).len_of(index as nat)
                } else {
                    old(self).spec_downloaded() as int
                }
            }),
    {
        let digest = sha1_digest(data);
        self.record_digest(index, data.len() as u64, &digest)
    }

    /// Whether every piece has been verified: the verified bytes reach the
    /// total size.
    pub fn is_complete(&self) -> (r: bool)
        requires
            self.wf(),
        ensures
            r == (self.spec_downloaded() == self.spec_total_size()),
            r == (forall|i: int| 0 <= i < self.count() ==> #[trigger] self.spec_verified()[i]),
    {
        proof {
            lemma_verified_bytes_bound(
                self.verified@,
                self.total_size as nat,
                self.piece_length as nat,
                self.count(),
            );
            lemma_piece_bytes(self.total_size as nat, self.piece_length as nat, self.count());
            assert(self.spec_verified() == self.verified@);
        }
        self.downloaded >= self.total_size
    }

    /// The verified bytes.
    pub fn downloaded(&self) -> (r: u64)
        ensures
            r == self.spec_downloaded(),
    {
        self.downloaded
    }

    /// The total size of the content.
    pub fn total_size(&self) -> (r: u64)
        ensures
            r == self.spec_total_size(),
    {
        self.total_size
    }

    /// The piece length.
    pub fn piece_length(&self) -> (r: u64)
        ensures
            r == self.spec_piece_length(),
    {
        self.piece_length
    }

    /// The bytes still to verify.
    pub fn left(&self) -> (r: u64)
        requires
            self.wf(),
        ensures
            r == self.spec_total_size() - self.spec_downloaded(),
    {
        proof {
            lemma_verified_bytes_bound(
                self.verified@,
                self.total_size as nat,
                self.piece_length as nat,
                self.count(),
            );
            lemma_piece_bytes(self.total_size as nat, self.piece_length as nat, self.count());
        }
        self.total_size - self.downloaded
    }

    /// The verified share of the content in whole percent, rounded down; an
    /// empty content counts as complete.
    pub fn progress_percent(&self) -> (r: u64)
        requires
            self.wf(),
        ensures
            self.spec_total_size() == 0 ==> r == 100,
            self.spec_total_size() > 0 ==> r == self.spec_downloaded() * 100
                / self.spec_total_size(),
            r == 100 <==> self.spec_downloaded() == self.spec_total_size(),
    {
        proof {
            lemma_verified_bytes_bound(
                self.verified@,
                self.total_size as nat,
                self.piece_length as nat,
                self.count(),
            );
            lemma_piece_bytes(self.total_size as nat, self.piece_length as nat, self.count());
        }
        if self.total_size == 0 {
            return 100;
        }
        let d = self.downloaded as u128;
        let t = self.total_size as u128;
        assert(d * 100 <= t * 100) by (nonlinear_arith)
            requires
                d <= t,
        ;
        assert(t * 100 <= 0xffff_ffff_ffff_ffffu128 * 100) by (nonlinear_arith)
            requires
                t <= 0xffff_ffff_ffff_ffffu128,
        ;
        let p = d * 100 / t;
        proof {
            lemma_percent(d as nat, t as nat);
        }
        p as u64
    }

    /// The verified pieces, in increasing order.
    pub fn pieces(&self) -> (r: Vec<u64>)
        requires
            self.wf(),
        ensures
            r@ == marked_below(self.spec_verified(), self.count()),
    {
        let mut r: Vec<u64> = Vec::new();
        let mut i: usize = 0;
        while i < self.verified.len()
            invariant
                self.wf(),
                i <= self.verified@.len(),
                r@ == marked_below(self.verified@, i as nat),
            decreases self.verified@.len() - i,
        {
            if self.verified[i] {
                r.push(i as u64);
            }
            i = i + 1;
        }
        r
    }

    /// A bit field with one bit per piece, set for the verified pieces.
    pub fn bitfield(&self) -> (r: BitField)
        requires
            self.wf(),
        ensures
            r.wf(),
            r.len == self.count(),
            r.payload@.len() == (self.count() + 7) / 8,
            forall|i: int| 0 <= i < self.count() ==> #[trigger] r.bit(i) == self.spec_verified()[i],
            forall|i: int| self.count() <= i < r.payload@.len() * 8 ==> !#[trigger] r.bit(i),
    {
        let n = self.verified.len();
        let nbytes = n / 8 + if n % 8 == 0 {
            0
        } else {
            1
        };
        assert(nbytes == (n + 7) / 8);
        assert(n <= nbytes * 8);
        let mut payload: Vec<u8> = Vec::new();
        let mut k: usize = 0;
        while k < nbytes
            invariant
                k <= nbytes,
                payload@.len() == k,
                forall|j: int| 0 <= j < k ==> payload@[j] == 0u8,
            decreases nbytes - k,
        {
            payload.push(0);
            k = k + 1;
        }
        let mut bf = BitField { payload, len: n };
        proof {
            assert forall|j: int| 0 <= j < nbytes * 8 implies !#[trigger] bf.bit(j) by {
                lemma_zero_byte((j % 8) as u8);
            }
        }
        let mut i: usize = 0;
        while i < n
            invariant
                n == self.verified@.len(),
                n <= nbytes * 8,
                bf.len == n,
                bf.payload@.len() == nbytes,
                i <= n,
                forall|j: int|
                    0 <= j < nbytes * 8 ==> #[trigger] bf.bit(j) == (j < i && self.verified@[j]),
            decreases n - i,
        {
            if self.verified[i] {
                bf.set(i);
            }
            i = i + 1;
        }
        assert(self.spec_verified() == self.verified@);
        bf
    }

    /// Whether piece `index` has been verified.
    pub fn has_piece(&self, index: u64) -> (r: bool)
        requires
            self.wf(),
        ensures
            r == (index < self.count() && self.spec_verified()[index as int]),
    {
        if index >= self.verified.len() as u64 {
            return false;
        }
        self.verified[index as usize]
    }
}

/// A download is complete exactly when every piece has verified: until the
/// last piece verifies, the verified bytes stay below the total size.
pub proof fn lemma_complete_iff_all_verified(s: &Storage)
    requires
        s.wf(),
    ensures
        s.spec_downloaded() <= s.spec_total_size(),
        s.spec_downloaded() == s.spec_total_size() <==> forall|i: int|
            0 <= i < s.count() ==> #[trigger] s.spec_verified()[i],
{
    lemma_verified_bytes_bound(s.verified@, s.total_size as nat, s.piece_length as nat, s.count());
    lemma_piece_bytes(s.total_size as nat, s.piece_length as nat, s.count());
    assert(s.spec_verified() == s.verified@);
}

proof fn lemma_prefix_zero(v: Seq<bool>, total: nat, pl: nat, k: nat)
    requires
        k <= v.len(),
        forall|i: int| 0 <= i < k ==> !#[trigger] v[i],
    ensures
        verified_bytes(v, total, pl, k) == 0,
    decreases k,
{
    if k > 0 {
        lemma_prefix_zero(v, total, pl, (k - 1) as nat);
    }
}

proof fn lemma_percent(d: nat, t: nat)
    requires
        0 < t,
        d <= t,
    ensures
        d * 100 / t <= 100,
        d * 100 / t == 100 <==> d == t,
{
    assert(d * 100 / t <= 100) by (nonlinear_arith)
        requires
            0 < t,
            d <= t,
    ;
    if d < t {
        assert(d * 100 / t < 100) by (nonlinear_arith)
            requires
                0 < t,
                d < t,
        ;
    } else {
        assert(t * 100 / t == 100) by (nonlinear_arith)
            requires
                0 < t,
        ;
    }
}

} // verus!
