//! Big-endian integers on the wire.

use vstd::prelude::*;

verus! {

/// The two bytes of `x`, most significant first.
pub open spec fn be16(x: u16) -> Seq<u8> {
    seq![(x / 256) as u8, (x % 256) as u8]
}

/// The number that two bytes spell, most significant first.
pub open spec fn be16_value(hi: u8, lo: u8) -> u16 {
    (hi * 256 + lo) as u16
}

/// The four bytes of `x`, most significant first.
pub open spec fn be32(x: u32) -> Seq<u8> {
    seq![
        (x / 0x100_0000) as u8,
        ((x / 0x1_0000) % 256) as u8,
        ((x / 0x100) % 256) as u8,
        (x % 256) as u8,
    ]
}

/// Reading back what `be16` wrote gives the number again.
pub proof fn lemma_be16_round_trip(x: u16)
    ensures
        be16(x).len() == 2,
        be16_value(be16(x)[0], be16(x)[1]) == x,
{
}

/// Appends the two bytes of `x`, most significant first.
pub fn push_be16(out: &mut Vec<u8>, x: u16)
    ensures
        final(out)@ == old(out)@ + be16(x),
{
    out.push((x / 256) as u8);
    out.push((x % 256) as u8);
    assert(out@ =~= old(out)@ + be16(x));
}

/// Appends the four bytes of `x`, most significant first.
pub fn push_be32(out: &mut Vec<u8>, x: u32)
    ensures
        final(out)@ == old(out)@ + be32(x),
{
    out.push((x / 0x100_0000) as u8);
    out.push(((x / 0x1_0000) % 256) as u8);
    out.push(((x / 0x100) % 256) as u8);
    out.push((x % 256) as u8);
    assert(out@ =~= old(out)@ + be32(x));
}

/// Appends a copy of `bytes`.
pub fn push_bytes(out: &mut Vec<u8>, bytes: &[u8])
    ensures
        final(out)@ == old(out)@ + bytes@,
{
    out.extend_from_slice(bytes);
    assert(out@ =~= old(out)@ + bytes@);
}

/// The number that `hi` and `lo` spell, most significant byte first.
pub fn read_be16(hi: u8, lo: u8) -> (x: u16)
    ensures
        x == be16_value(hi, lo),
{
    (hi as u16) * 256 + (lo as u16)
}

} // verus!
