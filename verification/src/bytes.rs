//! Little-endian views of byte sequences, shared by every byte-addressed memory.
use vstd::prelude::*;

verus! {

/// The 16-bit little-endian value stored at `s[o..o+2]`.
pub open spec fn le16(s: Seq<u8>, o: int) -> u16 {
    (s[o] as u16) | ((s[o + 1] as u16) << 8u16)
}

/// The 32-bit little-endian value stored at `s[o..o+4]`.
pub open spec fn le32(s: Seq<u8>, o: int) -> u32 {
    (s[o] as u32) | ((s[o + 1] as u32) << 8u32) | ((s[o + 2] as u32) << 16u32) | ((s[o
        + 3] as u32) << 24u32)
}

/// `s` with the little-endian bytes of `v` stored at `o..o+2`.
pub open spec fn put16(s: Seq<u8>, o: int, v: u16) -> Seq<u8> {
    s.update(o, (v & 0xFF) as u8).update(o + 1, (v >> 8u16) as u8)
}

/// `s` with the little-endian bytes of `v` stored at `o..o+4`.
pub open spec fn put32(s: Seq<u8>, o: int, v: u32) -> Seq<u8> {
    s.update(o, (v & 0xFF) as u8).update(o + 1, ((v >> 8u32) & 0xFF) as u8).update(
        o + 2,
        ((v >> 16u32) & 0xFF) as u8,
    ).update(o + 3, (v >> 24u32) as u8)
}

/// Reading back a 16-bit store gives the stored value.
pub proof fn lemma_le16_put16(s: Seq<u8>, o: int, v: u16)
    requires
        0 <= o,
        o + 2 <= s.len(),
    ensures
        le16(put16(s, o, v), o) == v,
        put16(s, o, v).len() == s.len(),
{
    let t = put16(s, o, v);
    assert(t[o] == (v & 0xFF) as u8);
    assert(t[o + 1] == (v >> 8u16) as u8);
    assert(((((v & 0xFF) as u8) as u16) | ((((v >> 8u16) as u8) as u16) << 8u16)) == v)
        by (bit_vector);
}

/// Reading back a 32-bit store gives the stored value.
pub proof fn lemma_le32_put32(s: Seq<u8>, o: int, v: u32)
    requires
        0 <= o,
        o + 4 <= s.len(),
    ensures
        le32(put32(s, o, v), o) == v,
        put32(s, o, v).len() == s.len(),
{
    let t = put32(s, o, v);
    assert(t[o] == (v & 0xFF) as u8);
    assert(t[o + 1] == ((v >> 8u32) & 0xFF) as u8);
    assert(t[o + 2] == ((v >> 16u32) & 0xFF) as u8);
    assert(t[o + 3] == (v >> 24u32) as u8);
    assert(((((v & 0xFF) as u8) as u32) | (((((v >> 8u32) & 0xFF) as u8) as u32) << 8u32) | (
    ((((v >> 16u32) & 0xFF) as u8) as u32) << 16u32) | ((((v >> 24u32) as u8) as u32) << 24u32))
        == v) by (bit_vector);
}

/// A 32-bit store leaves every word that does not overlap it unchanged.
pub proof fn lemma_le32_put32_other(s: Seq<u8>, o: int, v: u32, o2: int)
    requires
        0 <= o,
        o + 4 <= s.len(),
        0 <= o2,
        o2 + 4 <= s.len(),
        o2 + 4 <= o || o + 4 <= o2,
    ensures
        le32(put32(s, o, v), o2) == le32(s, o2),
{
    let t = put32(s, o, v);
    assert(t[o2] == s[o2] && t[o2 + 1] == s[o2 + 1] && t[o2 + 2] == s[o2 + 2] && t[o2 + 3] == s[o2 + 3]);
}

} // verus!
