//! Little-endian integer fields, as they appear inside archive sections.
//!
//! Every multi-byte field of the archive format is little-endian.  The spec
//! functions here say what a field's bytes mean as a number, and the exec
//! functions read and write such fields against those meanings.

use vstd::prelude::*;

verus! {

/// The value of a two-byte little-endian field.
pub open spec fn le16(b: Seq<u8>) -> nat
    recommends
        b.len() == 2,
{
    (b[0] + 256 * b[1]) as nat
}

/// The value of a four-byte little-endian field.
pub open spec fn le32(b: Seq<u8>) -> nat
    recommends
        b.len() == 4,
{
    (b[0] + 256 * b[1] + 65536 * b[2] + 16777216 * b[3]) as nat
}

/// The two little-endian bytes of a 16-bit value.
pub open spec fn u16_le_bytes(v: u16) -> Seq<u8> {
    seq![(v % 256) as u8, (v / 256) as u8]
}

/// The four little-endian bytes of a 32-bit value.
pub open spec fn u32_le_bytes(v: u32) -> Seq<u8> {
    seq![(v % 256) as u8, ((v / 256) % 256) as u8, ((v / 65536) % 256) as u8, (v / 16777216) as u8]
}

/// Writing a 16-bit field and reading it back yields the same value.
pub proof fn lemma_le16_round_trip(v: u16)
    ensures
        u16_le_bytes(v).len() == 2,
        le16(u16_le_bytes(v)) == v,
{
}

/// Writing a 32-bit field and reading it back yields the same value.
#[verifier::rlimit(100)]
pub proof fn lemma_le32_round_trip(v: u32)
    ensures
        u32_le_bytes(v).len() == 4,
        le32(u32_le_bytes(v)) == v,
{
    assert(v % 256 + 256 * ((v / 256) % 256) + 65536 * ((v / 65536) % 256) + 16777216 * (v
        / 16777216) == v) by (nonlinear_arith)
        requires
            v <= 0xffff_ffff,
    ;
}

/// A 16-bit field read back from bytes re-encodes to the same bytes.
pub proof fn lemma_le16_bytes_round_trip(b: Seq<u8>)
    requires
        b.len() == 2,
    ensures
        le16(b) <= u16::MAX,
        u16_le_bytes(le16(b) as u16) =~= b,
{
}

/// A 32-bit field read back from bytes re-encodes to the same bytes.
pub proof fn lemma_le32_bytes_round_trip(b: Seq<u8>)
    requires
        b.len() == 4,
    ensures
        le32(b) <= u32::MAX,
        u32_le_bytes(le32(b) as u32) =~= b,
{
    let n0 = b[0] as int;
    let n1 = b[1] as int;
    let n2 = b[2] as int;
    let n3 = b[3] as int;
    let v = n0 + 256 * n1 + 65536 * n2 + 16777216 * n3;
    assert(v % 256 == n0 && (v / 256) % 256 == n1 && (v / 65536) % 256 == n2 && v / 16777216
        == n3) by (nonlinear_arith)
        requires
            0 <= n0 < 256 && 0 <= n1 < 256 && 0 <= n2 < 256 && 0 <= n3 < 256 && v == n0 + 256 * n1
                + 65536 * n2 + 16777216 * n3,
    ;
}

/// Reads the two-byte little-endian field at `pos`.
pub fn read_u16_le(b: &[u8], pos: usize) -> (r: u16)
    requires
        pos + 2 <= b@.len(),
    ensures
        r == le16(b@.subrange(pos as int, pos as int + 2)),
{
    let lo = b[pos];
    let hi = b[pos + 1];
    lo as u16 + (hi as u16) * 256
}

/// Reads the four-byte little-endian field at `pos`.
pub fn read_u32_le(b: &[u8], pos: usize) -> (r: u32)
    requires
        pos + 4 <= b@.len(),
    ensures
        r == le32(b@.subrange(pos as int, pos as int + 4)),
{
    let b0 = b[pos];
    let b1 = b[pos + 1];
    let b2 = b[pos + 2];
    let b3 = b[pos + 3];
    b0 as u32 + (b1 as u32) * 256 + (b2 as u32) * 65536 + (b3 as u32) * 16777216
}

/// The eight little-endian bytes of a 64-bit value.
pub open spec fn u64_le_bytes(v: u64) -> Seq<u8> {
    seq![
        (v % 256) as u8,
        ((v / 256) % 256) as u8,
        ((v / 0x1_0000) % 256) as u8,
        ((v / 0x100_0000) % 256) as u8,
        ((v / 0x1_0000_0000) % 256) as u8,
        ((v / 0x100_0000_0000) % 256) as u8,
        ((v / 0x1_0000_0000_0000) % 256) as u8,
        (v / 0x100_0000_0000_0000) as u8,
    ]
}

/// Appends a 64-bit value as an eight-byte little-endian field.
pub fn push_u64_le(out: &mut Vec<u8>, v: u64)
    ensures
        final(out)@ =~= old(out)@ + u64_le_bytes(v),
{
    out.push((v % 256) as u8);
    out.push(((v / 256) % 256) as u8);
    out.push(((v / 0x1_0000) % 256) as u8);
    out.push(((v / 0x100_0000) % 256) as u8);
    out.push(((v / 0x1_0000_0000) % 256) as u8);
    out.push(((v / 0x100_0000_0000) % 256) as u8);
    out.push(((v / 0x1_0000_0000_0000) % 256) as u8);
    out.push((v / 0x100_0000_0000_0000) as u8);
}

/// Appends a 16-bit value as a two-byte little-endian field.
pub fn push_u16_le(out: &mut Vec<u8>, v: u16)
    ensures
        final(out)@ =~= old(out)@ + u16_le_bytes(v),
{
    out.push((v % 256) as u8);
    out.push((v / 256) as u8);
}

/// Appends a 32-bit value as a four-byte little-endian field.
pub fn push_u32_le(out: &mut Vec<u8>, v: u32)
    ensures
        final(out)@ =~= old(out)@ + u32_le_bytes(v),
{
    out.push((v % 256) as u8);
    out.push(((v / 256) % 256) as u8);
    out.push(((v / 65536) % 256) as u8);
    out.push((v / 16777216) as u8);
}

} // verus!
