use vstd::prelude::*;

use crate::error::Error;

verus! {

/// The mask of bit `k` of a byte, counting from the most significant bit.
pub open spec fn mask_of(k: u8) -> u8 {
    1u8 << ((7u8 - k) as u8)
}

/// Whether bit `k` of `b` is set, counting from the most significant bit.
pub open spec fn byte_bit(b: u8, k: u8) -> bool {
    b & mask_of(k) != 0
}

proof fn lemma_or_mask(b: u8, k: u8, j: u8)
    requires
        k < 8,
        j < 8,
    ensures
        byte_bit(b | mask_of(k), j) == (j == k || byte_bit(b, j)),
{
    assert((b | (1u8 << ((7u8 - k) as u8))) & (1u8 << ((7u8 - j) as u8)) != 0 <==> (j == k || b & (1u8 << ((7u8
        - j) as u8)) != 0)) by (bit_vector)
        requires
            k < 8,
            j < 8,
    ;
}

proof fn lemma_and_not_mask(b: u8, k: u8, j: u8)
    requires
        k < 8,
        j < 8,
    ensures
        byte_bit(b & !mask_of(k), j) == (j != k && byte_bit(b, j)),
{
    assert((b & !(1u8 << ((7u8 - k) as u8))) & (1u8 << ((7u8 - j) as u8)) != 0 <==> (j != k && b & (1u8 << ((7u8
        - j) as u8)) != 0)) by (bit_vector)
        requires
            k < 8,
            j < 8,
    ;
}

/// A bit per piece over a byte buffer, most significant bit first within each
/// byte; `len` counts the bits that stand for pieces.
#[derive(Debug, PartialEq)]
pub struct BitField {
    pub payload: Vec<u8>,
    pub len: usize,
}

/// Walks the first `len` bits of a bit field in order.
pub struct BitfieldIter<'a> {
    pub bitfield: &'a BitField,
    pub index: usize,
}

impl BitField {
    /// Every bit below `len` lies inside the payload.
    pub open spec fn wf(&self) -> bool {
        self.len <= self.payload@.len() * 8
    }

    /// Bit `i` of the payload.
    pub open spec fn bit(&self, i: int) -> bool {
        byte_bit(self.payload@[i / 8], (i % 8) as u8)
    }

    /// The indices below `n` whose bit is set, in increasing order.
    pub open spec fn set_below(&self, n: nat) -> Seq<usize>
        decreases n,
    {
        if n == 0 {
            Seq::empty()
        } else {
            let rest = self.set_below((n - 1) as nat);
            if self.bit(n - 1) {
                rest.push((n - 1) as usize)
            } else {
                rest
            }
        }
    }

    /// Every bit below `len` is set.
    pub open spec fn complete(&self) -> bool {
        forall|i: int| 0 <= i < self.len ==> #[trigger] self.bit(i)
    }

    /// Every bit set in `self` is set in `other`, up to the shorter length.
    pub open spec fn subset_of(&self, other: &BitField) -> bool {
        forall|i: int|
            0 <= i < self.len && i < other.len ==> #[trigger] self.bit(i) ==> other.bit(i)
    }

    /// The wire form: one byte with the payload's length, then the payload.
    pub open spec fn encoded(&self) -> Seq<u8> {
        seq![self.payload@.len() as u8] + self.payload@
    }

    /// A bit field over `payload`, with one counted unit per payload byte.
    pub fn new(payload: Vec<u8>) -> (r: BitField)
        ensures
            r.payload@ == payload@,
            r.len == payload@.len(),
    {
        let len = payload.len();
        BitField { payload, len }
    }

    /// Reads the wire form: a leading length byte, ignored, then the payload.
    pub fn from_bytes(bytes: &[u8]) -> (r: Result<BitField, Error>)
        ensures
            bytes@.len() < 1 <==> r == Err::<BitField, Error>(Error::InvalidFormat),
            bytes@.len() >= 1 <==> r is Ok,
            r matches Ok(b) ==> b.payload@ == bytes@.subrange(1, bytes@.len() as int) && b.len
                == bytes@.len() - 1,
    {
        if bytes.len() < 1 {
            return Err(Error::InvalidFormat);
        }
        let len = bytes.len() - 1;
        let payload = crate::bytes::copy_range(bytes, 1, bytes.len());
        Ok(BitField { payload, len })
    }

    /// Writes the wire form: the payload's length in one byte, then the payload.
    pub fn to_bytes(&self) -> (r: Vec<u8>)
        ensures
            r@ == self.encoded(),
    {
        let mut r: Vec<u8> = Vec::new();
        r.push(#[verifier::truncate] (self.payload.len() as u8));
        crate::bytes::push_all(&mut r, self.payload.as_slice());
        assert(r@ =~= self.encoded());
        r
    }

    /// Whether bit `index` is set.
    pub fn is_set(&self, index: usize) -> (r: bool)
        requires
            index / 8 < self.payload@.len(),
        ensures
            r == self.bit(index as int),
    {
        let byte = index / 8;
        let bit = (index % 8) as u8;
        let mask = 1u8 << (7u8 - bit);
        self.payload[byte] & mask != 0
    }

    /// Sets bit `index`, leaving every other bit as it was.
    pub fn set(&mut self, index: usize)
        requires
            index / 8 < old(self).payload@.len(),
        ensures
            final(self).len == old(self).len,
            final(self).payload@.len() == old(self).payload@.len(),
            final(self).bit(index as int),
            forall|i: int|
                0 <= i < old(self).payload@.len() * 8 && i != index ==> #[trigger] final(self).bit(
                    i,
                ) == old(self).bit(i),
    {
        let byte = index / 8;
        let bit = (index % 8) as u8;
        let mask = 1u8 << (7u8 - bit);
        let ghost before = self.payload@;
        let v = self.payload[byte] | mask;
        self.payload.set(byte, v);
        proof {
            assert forall|i: int|
                0 <= i < before.len() * 8 implies #[trigger] self.bit(i) == (i == index || byte_bit(
                before[i / 8],
                (i % 8) as u8,
            )) by {
                if i / 8 == byte {
                    lemma_or_mask(before[i / 8], bit, (i % 8) as u8);
                }
            }
        }
    }

    /// Clears bit `index`, leaving every other bit as it was.
    pub fn unset(&mut self, index: usize)
        requires
            index / 8 < old(self).payload@.len(),
        ensures
            final(self).len == old(self).len,
            final(self).payload@.len() == old(self).payload@.len(),
            !final(self).bit(index as int),
            forall|i: int|
                0 <= i < old(self).payload@.len() * 8 && i != index ==> #[trigger] final(self).bit(
                    i,
                ) == old(self).bit(i),
    {
        let byte = index / 8;
        let bit = (index % 8) as u8;
        let mask = 1u8 << (7u8 - bit);
        let ghost before = self.payload@;
        let v = self.payload[byte] & !mask;
        self.payload.set(byte, v);
        proof {
            assert forall|i: int|
                0 <= i < before.len() * 8 implies #[trigger] self.bit(i) == (i != index && byte_bit(
                before[i / 8],
                (i % 8) as u8,
            )) by {
                if i / 8 == byte {
                    lemma_and_not_mask(before[i / 8], bit, (i % 8) as u8);
                }
            }
        }
    }

    /// The number of bits that stand for pieces.
    pub fn len(&self) -> (r: usize)
        ensures
            r == self.len,
    {
        self.len
    }

    /// A walk over the first `len` bits, from bit 0.
    pub fn iter(&self) -> (r: BitfieldIter<'_>)
        ensures
            r.bitfield == self,
            r.index == 0,
    {
        BitfieldIter { bitfield: self, index: 0 }
    }

    /// Whether every bit set here is set in `other`, up to the shorter length.
    pub fn is_subset(&self, other: &BitField) -> (r: bool)
        requires
            self.wf(),
            other.wf(),
        ensures
            r == self.subset_of(other),
    {
        let n = if self.len < other.len {
            self.len
        } else {
            other.len
        };
        let mut i: usize = 0;
        while i < n
            invariant
                self.wf(),
                other.wf(),
                n <= self.len,
                n <= other.len,
                i <= n,
                forall|k: int| 0 <= k < i ==> #[trigger] self.bit(k) ==> other.bit(k),
            decreases n - i,
        {
            if self.is_set(i) && !other.is_set(i) {
                return false;
            }
            i = i + 1;
        }
        true
    }

    /// Whether the piece at `index` is present.
    pub fn has_piece(&self, index: usize) -> (r: bool)
        requires
            index / 8 < self.payload@.len(),
        ensures
            r == self.bit(index as int),
    {
        self.is_set(index)
    }

    /// The indices below `len` whose bit is set, in increasing order.
    pub fn pieces(&self) -> (r: Vec<usize>)
        requires
            self.wf(),
        ensures
            r@ == self.set_below(self.len as nat),
    {
        let mut r: Vec<usize> = Vec::new();
        let mut i: usize = 0;
        while i < self.len
            invariant
                self.wf(),
                i <= self.len,
                r@ == self.set_below(i as nat),
            decreases self.len - i,
        {
            if self.is_set(i) {
                r.push(i);
            }
            i = i + 1;
        }
        r
    }

    /// Whether every bit below `len` is set.
    pub fn is_complete(&self) -> (r: bool)
        requires
            self.wf(),
        ensures
            r == self.complete(),
    {
        let mut i: usize = 0;
        while i < self.len
            invariant
                self.wf(),
                i <= self.len,
                forall|k: int| 0 <= k < i ==> #[trigger] self.bit(k),
            decreases self.len - i,
        {
            if !self.is_set(i) {
                return false;
            }
            i = i + 1;
        }
        true
    }
}

impl<'a> BitfieldIter<'a> {
    /// The next bit, or `None` once `len` bits have been walked.
    pub fn next(&mut self) -> (r: Option<bool>)
        requires
            old(self).bitfield.wf(),
        ensures
            final(self).bitfield == old(self).bitfield,
            old(self).index < old(self).bitfield.len ==> r == Some(
                old(self).bitfield.bit(old(self).index as int),
            ) && final(self).index == old(self).index + 1,
            old(self).index >= old(self).bitfield.len ==> r == None::<bool> && final(self).index
                == old(self).index,
    {
        if self.index >= self.bitfield.len {
            return None;
        }
        let bit = self.bitfield.is_set(self.index);
        self.index = self.index + 1;
        Some(bit)
    }
}

/// Writing a bit field and reading it back gives its payload and its length,
/// for a bit field that counts one unit per payload byte.
pub proof fn lemma_bitfield_round_trip(b: BitField)
    requires
        b.len == b.payload@.len(),
    ensures
        b.encoded().len() >= 1,
        b.encoded().subrange(1, b.encoded().len() as int) == b.payload@,
        b.encoded().len() - 1 == b.len,
{
    assert(b.encoded().subrange(1, b.encoded().len() as int) =~= b.payload@);
}

/// Every bit field is a subset of itself.
pub proof fn lemma_subset_reflexive(a: BitField)
    ensures
        a.subset_of(&a),
{
}

/// A bit set in `a` and clear in `b`, below both lengths, makes `a` no subset of `b`.
pub proof fn lemma_subset_witness(a: BitField, b: BitField, i: int)
    requires
        0 <= i < a.len,
        i < b.len,
        a.bit(i),
        !b.bit(i),
    ensures
        !a.subset_of(&b),
{
}

} // verus!
