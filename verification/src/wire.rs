//! Big-endian integers and byte runs on the wire.
use vstd::prelude::*;
use vstd::slice::{slice_subrange, slice_to_vec};

verus! {

/// The two bytes of `v`, most significant first.
pub open spec fn be16(v: u16) -> Seq<u8> {
    seq![(v / 256) as u8, (v % 256) as u8]
}

/// The number whose two bytes, most significant first, start at `at`.
pub open spec fn be16_at(s: Seq<u8>, at: int) -> nat {
    (s[at] as nat) * 256 + s[at + 1] as nat
}

/// The four bytes of `v`, most significant first.
pub open spec fn be32(v: u32) -> Seq<u8> {
    seq![
        (v / 0x100_0000) as u8,
        (v / 0x1_0000 % 256) as u8,
        (v / 0x100 % 256) as u8,
        (v % 256) as u8,
    ]
}

/// The number whose four bytes, most significant first, start at `at`.
pub open spec fn be32_at(s: Seq<u8>, at: int) -> nat {
    (s[at] as nat) * 0x100_0000 + (s[at + 1] as nat) * 0x1_0000 + (s[at + 2] as nat) * 0x100 + s[at
        + 3] as nat
}

/// The four bytes of a number read back as that number, wherever they stand.
pub proof fn lemma_be32_read_back(v: u32, s: Seq<u8>, at: int)
    requires
        0 <= at,
        at + 4 <= s.len(),
        s.subrange(at, at + 4) == be32(v),
    ensures
        be32_at(s, at) == v as nat,
{
    let t = s.subrange(at, at + 4);
    assert(t[0] == s[at] && t[1] == s[at + 1] && t[2] == s[at + 2] && t[3] == s[at + 3]);
}

proof fn lemma_last_byte(front: int, last: u8)
    requires
        0 <= front,
    ensures
        (front * 256 + last) / 256 == front,
        (front * 256 + last) % 256 == last,
{
}

/// Four bytes are the bytes of the number they are read as.
pub proof fn lemma_be32_write_back(s: Seq<u8>)
    requires
        s.len() == 4,
    ensures
        be32_at(s, 0) <= u32::MAX,
        be32(be32_at(s, 0) as u32) == s,
{
    let n = be32_at(s, 0) as int;
    let high = s[0] as int;
    let two = high * 256 + s[1];
    let three = two * 256 + s[2];
    assert(n == three * 256 + s[3]);
    lemma_last_byte(three, s[3]);
    lemma_last_byte(two, s[2]);
    lemma_last_byte(high, s[1]);
    assert(n / 256 == three && n / 0x1_0000 == two && n / 0x100_0000 == high);
    let v = n as u32;
    assert((v / 0x100_0000) as int == high);
    assert((v / 0x1_0000) as int == two);
    assert((v / 0x100) as int == three);
    assert(be32(v)[0] == s[0]);
    assert(be32(v)[1] == s[1]);
    assert(be32(v)[2] == s[2]);
    assert(be32(v)[3] == s[3]);
    assert(be32(v) =~= s);
}

/// Appends the two bytes of `v`, most significant first.
pub fn push_be16(buf: &mut Vec<u8>, v: u16)
    ensures
        final(buf)@ == old(buf)@ + be16(v),
{
    let ghost before = buf@;
    buf.push((v / 256) as u8);
    buf.push((v % 256) as u8);
    assert(buf@ =~= before + be16(v));
}

/// Appends the four bytes of `v`, most significant first.
pub fn push_be32(buf: &mut Vec<u8>, v: u32)
    ensures
        final(buf)@ == old(buf)@ + be32(v),
{
    let ghost before = buf@;
    buf.push((v / 0x100_0000) as u8);
    buf.push((v / 0x1_0000 % 256) as u8);
    buf.push((v / 0x100 % 256) as u8);
    buf.push((v % 256) as u8);
    assert(buf@ =~= before + be32(v));
}

/// Reads two bytes at `at`, most significant first.
pub fn read_be16(src: &[u8], at: usize) -> (r: u16)
    requires
        at + 2 <= src@.len(),
    ensures
        r as nat == be16_at(src@, at as int),
{
    (src[at] as u16) * 256 + src[at + 1] as u16
}

/// Reads four bytes at `at`, most significant first.
pub fn read_be32(src: &[u8], at: usize) -> (r: u32)
    requires
        at + 4 <= src@.len(),
    ensures
        r as nat == be32_at(src@, at as int),
{
    (src[at] as u32) * 0x100_0000 + (src[at + 1] as u32) * 0x1_0000 + (src[at + 2] as u32) * 0x100
        + src[at + 3] as u32
}

/// Appends a run of bytes.
pub fn push_bytes(buf: &mut Vec<u8>, bytes: &[u8])
    ensures
        final(buf)@ == old(buf)@ + bytes@,
{
    let ghost before = buf@;
    buf.extend_from_slice(bytes);
    assert(buf@ =~= before + bytes@);
}

/// The bytes of `src` from `from` up to `to`.
pub fn copy_range(src: &[u8], from: usize, to: usize) -> (r: Vec<u8>)
    requires
        from <= to <= src@.len(),
    ensures
        r@ == src@.subrange(from as int, to as int),
{
    slice_to_vec(slice_subrange(src, from, to))
}

/// Numbers stand on the wire with their most significant byte first, and are
/// read as they stand.
pub proof fn law_big_endian(a: u16, b: u32, s: Seq<u8>, at: int)
    ensures
        be16(a).len() == 2,
        be16(a)[0] * 256 + be16(a)[1] == a,
        be32(b).len() == 4,
        be32(b)[0] * 16777216 + be32(b)[1] * 65536 + be32(b)[2] * 256 + be32(b)[3] == b,
        be16_at(s, at) == s[at] * 256 + s[at + 1],
        be32_at(s, at) == s[at] * 16777216 + s[at + 1] * 65536 + s[at + 2] * 256 + s[at + 3],
        be16_at(be16(a), 0) == a,
        be32_at(be32(b), 0) == b,
{
}

} // verus!
