use vstd::prelude::*;

verus! {

/// The two bytes of `x`, most significant first.
pub open spec fn be16(x: u16) -> Seq<u8> {
    seq![(x >> 8u16) as u8, x as u8]
}

/// The four bytes of `x`, most significant first.
pub open spec fn be32(x: u32) -> Seq<u8> {
    seq![(x >> 24u32) as u8, (x >> 16u32) as u8, (x >> 8u32) as u8, x as u8]
}

/// The eight bytes of `x`, most significant first.
pub open spec fn be64(x: u64) -> Seq<u8> {
    be32((x >> 32u64) as u32) + be32(x as u32)
}

/// The big-endian value of the two bytes at `at`.
pub open spec fn read16(s: Seq<u8>, at: int) -> u16 {
    ((s[at] as u16) << 8u16) | (s[at + 1] as u16)
}

/// The big-endian value of the four bytes at `at`.
pub open spec fn read32(s: Seq<u8>, at: int) -> u32 {
    ((s[at] as u32) << 24u32) | ((s[at + 1] as u32) << 16u32) | ((s[at + 2] as u32) << 8u32) | (
    s[at + 3] as u32)
}

/// The big-endian value of the eight bytes at `at`.
pub open spec fn read64(s: Seq<u8>, at: int) -> u64 {
    ((read32(s, at) as u64) << 32u64) | (read32(s, at + 4) as u64)
}

proof fn lemma_u16_bytes(x: u16)
    ensures
        ((((x >> 8u16) as u8) as u16) << 8u16) | ((x as u8) as u16) == x,
{
    assert(((((x >> 8u16) as u8) as u16) << 8u16) | ((x as u8) as u16) == x) by (bit_vector);
}

proof fn lemma_u32_bytes(x: u32)
    ensures
        ((((x >> 24u32) as u8) as u32) << 24u32) | ((((x >> 16u32) as u8) as u32) << 16u32) | ((((x
            >> 8u32) as u8) as u32) << 8u32) | ((x as u8) as u32) == x,
{
    assert(((((x >> 24u32) as u8) as u32) << 24u32) | ((((x >> 16u32) as u8) as u32) << 16u32) | ((((
    x >> 8u32) as u8) as u32) << 8u32) | ((x as u8) as u32) == x) by (bit_vector);
}

/// Reading back the bytes of a value gives the value.
pub proof fn lemma_be16_read(x: u16, pre: Seq<u8>, post: Seq<u8>)
    ensures
        read16(pre + be16(x) + post, pre.len() as int) == x,
{
    let s = pre + be16(x) + post;
    assert(s[pre.len() as int] == (x >> 8u16) as u8);
    assert(s[pre.len() as int + 1] == x as u8);
    lemma_u16_bytes(x);
}

/// Reading back the bytes of a value gives the value.
pub proof fn lemma_be32_read(x: u32, pre: Seq<u8>, post: Seq<u8>)
    ensures
        read32(pre + be32(x) + post, pre.len() as int) == x,
{
    let s = pre + be32(x) + post;
    let n = pre.len() as int;
    assert(s[n] == (x >> 24u32) as u8);
    assert(s[n + 1] == (x >> 16u32) as u8);
    assert(s[n + 2] == (x >> 8u32) as u8);
    assert(s[n + 3] == x as u8);
    lemma_u32_bytes(x);
}

/// Appends the two bytes of `x`, most significant first.
pub fn push_u16(out: &mut Vec<u8>, x: u16)
    ensures
        final(out)@ == old(out)@ + be16(x),
{
    out.push((x >> 8u16) as u8);
    out.push(x as u8);
}

/// Appends the four bytes of `x`, most significant first.
pub fn push_u32(out: &mut Vec<u8>, x: u32)
    ensures
        final(out)@ == old(out)@ + be32(x),
{
    out.push((x >> 24u32) as u8);
    out.push((x >> 16u32) as u8);
    out.push((x >> 8u32) as u8);
    out.push(x as u8);
}

/// Appends the eight bytes of `x`, most significant first.
pub fn push_u64(out: &mut Vec<u8>, x: u64)
    ensures
        final(out)@ == old(out)@ + be64(x),
{
    push_u32(out, (x >> 32u64) as u32);
    push_u32(out, x as u32);
}

/// Appends all of `data`.
pub fn push_all(out: &mut Vec<u8>, data: &[u8])
    ensures
        final(out)@ == old(out)@ + data@,
{
    let ghost start = out@;
    let mut i: usize = 0;
    while i < data.len()
        invariant
            i <= data@.len(),
            out@ == start + data@.subrange(0, i as int),
        decreases data@.len() - i,
    {
        out.push(data[i]);
        i = i + 1;
        assert(out@ =~= start + data@.subrange(0, i as int));
    }
    assert(data@.subrange(0, i as int) =~= data@);
}

/// The big-endian `u16` at `at`.
pub fn get_u16(data: &[u8], at: usize) -> (r: u16)
    requires
        at + 2 <= data.len(),
    ensures
        r == read16(data@, at as int),
{
    ((data[at] as u16) << 8u16) | (data[at + 1] as u16)
}

/// The big-endian `u32` at `at`.
pub fn get_u32(data: &[u8], at: usize) -> (r: u32)
    requires
        at + 4 <= data.len(),
    ensures
        r == read32(data@, at as int),
{
    ((data[at] as u32) << 24u32) | ((data[at + 1] as u32) << 16u32) | ((data[at + 2] as u32) << 8u32)
        | (data[at + 3] as u32)
}

/// The big-endian `u64` at `at`.
pub fn get_u64(data: &[u8], at: usize) -> (r: u64)
    requires
        at + 8 <= data.len(),
    ensures
        r == read64(data@, at as int),
{
    ((get_u32(data, at) as u64) << 32u64) | (get_u32(data, at + 4) as u64)
}

/// A copy of `data[start..end]`.
pub fn copy_range(data: &[u8], start: usize, end: usize) -> (r: Vec<u8>)
    requires
        start <= end <= data@.len(),
    ensures
        r@ == data@.subrange(start as int, end as int),
{
    let mut r: Vec<u8> = Vec::new();
    let mut i: usize = start;
    while i < end
        invariant
            start <= i <= end <= data@.len(),
            r@ == data@.subrange(start as int, i as int),
        decreases end - i,
    {
        r.push(data[i]);
        i = i + 1;
        assert(r@ =~= data@.subrange(start as int, i as int));
    }
    r
}

/// The twenty bytes of `data[start..start + 20]`.
pub fn copy_20(data: &[u8], start: usize) -> (r: [u8; 20])
    requires
        start + 20 <= data.len(),
    ensures
        r@ == data@.subrange(start as int, start + 20),
{
    let mut r: [u8; 20] = [0u8; 20];
    let mut i: usize = 0;
    while i < 20
        invariant
            i <= 20,
            start + 20 <= data.len(),
            forall|k: int| 0 <= k < i ==> r@[k] == data@[start + k],
        decreases 20 - i,
    {
        r[i] = data[start + i];
        i = i + 1;
    }
    assert(r@ =~= data@.subrange(start as int, start + 20));
    r
}

} // verus!

verus! {

/// Whether `a` and `b` hold the same bytes.
pub fn slices_equal(a: &[u8], b: &[u8]) -> (r: bool)
    ensures
        r == (a@ == b@),
{
    if a.len() != b.len() {
        return false;
    }
    let mut i: usize = 0;
    while i < a.len()
        invariant
            a@.len() == b@.len(),
            i <= a@.len(),
            forall|k: int| 0 <= k < i ==> a@[k] == b@[k],
        decreases a@.len() - i,
    {
        if a[i] != b[i] {
            return false;
        }
        i = i + 1;
    }
    assert(a@ =~= b@);
    true
}

} // verus!
