use vstd::prelude::*;
use byteorder::ByteOrder;

verus! {

/// Little-endian value of the 2 bytes of `s` at `i`.
pub open spec fn le16(s: Seq<u8>, i: int) -> int {
    s[i] as int + 256 * s[i + 1] as int
}

/// Little-endian value of the 4 bytes of `s` at `i`.
pub open spec fn le32(s: Seq<u8>, i: int) -> int {
    le16(s, i) + 65536 * le16(s, i + 2)
}

/// Little-endian value of the 8 bytes of `s` at `i`.
pub open spec fn le64(s: Seq<u8>, i: int) -> int {
    le32(s, i) + 4294967296 * le32(s, i + 4)
}

/// Big-endian value of the 2 bytes of `s` at `i`.
pub open spec fn be16(s: Seq<u8>, i: int) -> int {
    256 * s[i] as int + s[i + 1] as int
}

/// Big-endian value of the 4 bytes of `s` at `i`.
pub open spec fn be32(s: Seq<u8>, i: int) -> int {
    65536 * be16(s, i) + be16(s, i + 2)
}

/// Big-endian value of the 8 bytes of `s` at `i`.
pub open spec fn be64(s: Seq<u8>, i: int) -> int {
    4294967296 * be32(s, i) + be32(s, i + 4)
}

/// The 4 bytes of `s` at `i` are the 4 bytes of `tag`.
pub open spec fn has_tag(s: Seq<u8>, i: int, tag: Seq<u8>) -> bool {
    &&& tag.len() == 4
    &&& 0 <= i
    &&& i + 4 <= s.len()
    &&& s.subrange(i, i + 4) == tag
}

/// Little-endian encoding of a 16-bit value.
pub open spec fn le16_bytes(v: int) -> Seq<u8> {
    seq![(v % 256) as u8, ((v / 256) % 256) as u8]
}

/// Little-endian encoding of a 32-bit value.
pub open spec fn le32_bytes(v: int) -> Seq<u8> {
    le16_bytes(v % 65536) + le16_bytes(v / 65536)
}

/// Little-endian encoding of a 64-bit value.
pub open spec fn le64_bytes(v: int) -> Seq<u8> {
    le32_bytes(v % 4294967296) + le32_bytes(v / 4294967296)
}

/// Reading back 2 bytes written by `le16_bytes` gives the value written.
pub proof fn lemma_le16_of_bytes(s: Seq<u8>, i: int, v: int)
    requires
        0 <= v < 65536,
        0 <= i,
        i + 2 <= s.len(),
        s.subrange(i, i + 2) == le16_bytes(v),
    ensures
        le16(s, i) == v,
{
    assert(s[i] == s.subrange(i, i + 2)[0]);
    assert(s[i + 1] == s.subrange(i, i + 2)[1]);
    assert(v % 256 + 256 * ((v / 256) % 256) == v) by (nonlinear_arith)
        requires
            0 <= v < 65536,
    ;
}

/// Reading back 4 bytes written by `le32_bytes` gives the value written.
pub proof fn lemma_le32_of_bytes(s: Seq<u8>, i: int, v: int)
    requires
        0 <= v < 4294967296,
        0 <= i,
        i + 4 <= s.len(),
        s.subrange(i, i + 4) == le32_bytes(v),
    ensures
        le32(s, i) == v,
{
    assert(s.subrange(i, i + 2) =~= s.subrange(i, i + 4).subrange(0, 2));
    assert(s.subrange(i + 2, i + 4) =~= s.subrange(i, i + 4).subrange(2, 4));
    assert(le32_bytes(v).subrange(0, 2) =~= le16_bytes(v % 65536));
    assert(le32_bytes(v).subrange(2, 4) =~= le16_bytes(v / 65536));
    lemma_le16_of_bytes(s, i, v % 65536);
    lemma_le16_of_bytes(s, i + 2, v / 65536);
    assert(v % 65536 + 65536 * (v / 65536) == v) by (nonlinear_arith);
}

/// Reading back 8 bytes written by `le64_bytes` gives the value written.
pub proof fn lemma_le64_of_bytes(s: Seq<u8>, i: int, v: int)
    requires
        0 <= v < 0x1_0000_0000_0000_0000,
        0 <= i,
        i + 8 <= s.len(),
        s.subrange(i, i + 8) == le64_bytes(v),
    ensures
        le64(s, i) == v,
{
    assert(s.subrange(i, i + 4) =~= s.subrange(i, i + 8).subrange(0, 4));
    assert(s.subrange(i + 4, i + 8) =~= s.subrange(i, i + 8).subrange(4, 8));
    assert(le64_bytes(v).subrange(0, 4) =~= le32_bytes(v % 4294967296));
    assert(le64_bytes(v).subrange(4, 8) =~= le32_bytes(v / 4294967296));
    assert(0 <= v / 4294967296 < 4294967296) by (nonlinear_arith)
        requires
            0 <= v < 0x1_0000_0000_0000_0000,
    ;
    lemma_le32_of_bytes(s, i, v % 4294967296);
    lemma_le32_of_bytes(s, i + 4, v / 4294967296);
    assert(v % 4294967296 + 4294967296 * (v / 4294967296) == v) by (nonlinear_arith);
}

/// Big-endian encoding of a 16-bit value.
pub open spec fn be16_bytes(v: int) -> Seq<u8> {
    seq![((v / 256) % 256) as u8, (v % 256) as u8]
}

/// Big-endian encoding of a 32-bit value.
pub open spec fn be32_bytes(v: int) -> Seq<u8> {
    be16_bytes(v / 65536) + be16_bytes(v % 65536)
}

/// Reading back 2 bytes written by `be16_bytes` gives the value written.
pub proof fn lemma_be16_of_bytes(s: Seq<u8>, i: int, v: int)
    requires
        0 <= v < 65536,
        0 <= i,
        i + 2 <= s.len(),
        s.subrange(i, i + 2) == be16_bytes(v),
    ensures
        be16(s, i) == v,
{
    assert(s[i] == s.subrange(i, i + 2)[0]);
    assert(s[i + 1] == s.subrange(i, i + 2)[1]);
    assert(256 * ((v / 256) % 256) + v % 256 == v) by (nonlinear_arith)
        requires
            0 <= v < 65536,
    ;
}

/// Reading back 4 bytes written by `be32_bytes` gives the value written.
pub proof fn lemma_be32_of_bytes(s: Seq<u8>, i: int, v: int)
    requires
        0 <= v < 4294967296,
        0 <= i,
        i + 4 <= s.len(),
        s.subrange(i, i + 4) == be32_bytes(v),
    ensures
        be32(s, i) == v,
{
    assert(s.subrange(i, i + 2) =~= s.subrange(i, i + 4).subrange(0, 2));
    assert(s.subrange(i + 2, i + 4) =~= s.subrange(i, i + 4).subrange(2, 4));
    assert(be32_bytes(v).subrange(0, 2) =~= be16_bytes(v / 65536));
    assert(be32_bytes(v).subrange(2, 4) =~= be16_bytes(v % 65536));
    assert(0 <= v / 65536 < 65536) by (nonlinear_arith)
        requires
            0 <= v < 4294967296,
    ;
    lemma_be16_of_bytes(s, i, v / 65536);
    lemma_be16_of_bytes(s, i + 2, v % 65536);
    assert(65536 * (v / 65536) + v % 65536 == v) by (nonlinear_arith);
}

pub fn read_le_u16(b: &[u8], i: usize) -> (r: u16)
    requires
        i + 2 <= b@.len(),
    ensures
        r == le16(b@, i as int),
{
    (b[i] as u16) + 256 * (b[i + 1] as u16)
}

pub fn read_le_u32(b: &[u8], i: usize) -> (r: u32)
    requires
        i + 4 <= b@.len(),
    ensures
        r == le32(b@, i as int),
{
    let lo = read_le_u16(b, i) as u32;
    let _n = b.len();
    let hi = read_le_u16(b, i + 2) as u32;
    lo + 65536 * hi
}

pub fn read_le_u64(b: &[u8], i: usize) -> (r: u64)
    requires
        i + 8 <= b@.len(),
    ensures
        r == le64(b@, i as int),
{
    let lo = read_le_u32(b, i) as u64;
    let _n = b.len();
    let hi = read_le_u32(b, i + 4) as u64;
    lo + 4294967296 * hi
}

pub fn read_be_u16(b: &[u8], i: usize) -> (r: u16)
    requires
        i + 2 <= b@.len(),
    ensures
        r == be16(b@, i as int),
{
    256 * (b[i] as u16) + (b[i + 1] as u16)
}

pub fn read_be_u32(b: &[u8], i: usize) -> (r: u32)
    requires
        i + 4 <= b@.len(),
    ensures
        r == be32(b@, i as int),
{
    let _n = b.len();
    let hi = read_be_u16(b, i) as u32;
    let lo = read_be_u16(b, i + 2) as u32;
    65536 * hi + lo
}

pub fn read_be_u64(b: &[u8], i: usize) -> (r: u64)
    requires
        i + 8 <= b@.len(),
    ensures
        r == be64(b@, i as int),
{
    let _n = b.len();
    let hi = read_be_u32(b, i) as u64;
    let lo = read_be_u32(b, i + 4) as u64;
    4294967296 * hi + lo
}

/// Whether the 4 bytes of `b` at `i` are `t0 t1 t2 t3`.
pub fn tag_at(b: &[u8], i: usize, tag: [u8; 4]) -> (r: bool)
    ensures
        r == has_tag(b@, i as int, tag@),
{
    if i > b.len() || b.len() - i < 4 {
        return false;
    }
    let r = b[i] == tag[0] && b[i + 1] == tag[1] && b[i + 2] == tag[2] && b[i + 3] == tag[3];
    proof {
        if r {
            assert(b@.subrange(i as int, i + 4) =~= tag@);
        } else {
            if b@.subrange(i as int, i + 4) == tag@ {
                assert(b@.subrange(i as int, i + 4)[0] == b@[i as int]);
                assert(b@.subrange(i as int, i + 4)[1] == b@[i + 1]);
                assert(b@.subrange(i as int, i + 4)[2] == b@[i + 2]);
                assert(b@.subrange(i as int, i + 4)[3] == b@[i + 3]);
            }
        }
    }
    r
}

/// Appends the little-endian bytes of `v` to `out`.
pub fn push_le_u16(out: &mut Vec<u8>, v: u16)
    ensures
        final(out)@ == old(out)@ + le16_bytes(v as int),
{
    out.push((v % 256) as u8);
    out.push(((v / 256) % 256) as u8);
}

/// Appends the little-endian bytes of `v` to `out`.
pub fn push_le_u32(out: &mut Vec<u8>, v: u32)
    ensures
        final(out)@ == old(out)@ + le32_bytes(v as int),
{
    push_le_u16(out, (v % 65536) as u16);
    push_le_u16(out, (v / 65536) as u16);
    assert(final(out)@ =~= old(out)@ + le32_bytes(v as int));
}

/// Appends the little-endian bytes of `v` to `out`.
pub fn push_le_u64(out: &mut Vec<u8>, v: u64)
    ensures
        final(out)@ == old(out)@ + le64_bytes(v as int),
{
    push_le_u32(out, (v % 4294967296) as u32);
    push_le_u32(out, (v / 4294967296) as u32);
    assert(final(out)@ =~= old(out)@ + le64_bytes(v as int));
}

/// Appends `n` zero bytes to `out`.
pub fn push_zeros(out: &mut Vec<u8>, n: usize)
    ensures
        final(out)@ == old(out)@ + Seq::new(n as nat, |_i: int| 0u8),
{
    let mut k: usize = 0;
    while k < n
        invariant
            k <= n,
            out@ == old(out)@ + Seq::new(k as nat, |_i: int| 0u8),
        decreases n - k,
    {
        out.push(0u8);
        k = k + 1;
        assert(out@ =~= old(out)@ + Seq::new(k as nat, |_i: int| 0u8));
    }
}

/// Appends all of `src` to `out`.
pub fn push_all(out: &mut Vec<u8>, src: &[u8])
    ensures
        final(out)@ == old(out)@ + src@,
{
    let mut k: usize = 0;
    while k < src.len()
        invariant
            k <= src@.len(),
            out@ == old(out)@ + src@.subrange(0, k as int),
        decreases src.len() - k,
    {
        out.push(src[k]);
        k = k + 1;
        assert(out@ =~= old(out)@ + src@.subrange(0, k as int));
    }
    assert(src@.subrange(0, src@.len() as int) =~= src@);
}

/// The bytes of `b` from `from` to `to`, as a new vector.
pub fn copy_range(b: &[u8], from: usize, to: usize) -> (r: Vec<u8>)
    requires
        from <= to <= b@.len(),
    ensures
        r@ == b@.subrange(from as int, to as int),
{
    let mut r: Vec<u8> = Vec::new();
    let mut k = from;
    while k < to
        invariant
            from <= k <= to,
            to <= b@.len(),
            r@ == b@.subrange(from as int, k as int),
        decreases to - k,
    {
        r.push(b[k]);
        k = k + 1;
        assert(r@ =~= b@.subrange(from as int, k as int));
    }
    r
}

/// `byteorder::BigEndian::read_u16`: the big-endian value of the first two bytes.
#[verifier::external_body]
pub(crate) fn byteorder_be_u16(buf: &[u8]) -> (r: u16)
    requires
        buf@.len() >= 2,
    ensures
        r == be16(buf@, 0),
{
    byteorder::BigEndian::read_u16(buf)
}

/// `byteorder::LittleEndian::read_u32`: the little-endian value of the first four bytes.
#[verifier::external_body]
pub(crate) fn byteorder_le_u32(buf: &[u8]) -> (r: u32)
    requires
        buf@.len() >= 4,
    ensures
        r == le32(buf@, 0),
{
    byteorder::LittleEndian::read_u32(buf)
}

/// `byteorder::LittleEndian::read_u64`: the little-endian value of the first eight bytes.
#[verifier::external_body]
pub(crate) fn byteorder_le_u64(buf: &[u8]) -> (r: u64)
    requires
        buf@.len() >= 8,
    ensures
        r == le64(buf@, 0),
{
    byteorder::LittleEndian::read_u64(buf)
}

} // verus!
