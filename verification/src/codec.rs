//! Big-endian length headers of the wire protocol.
//!
//! Every message between client and server is a 4-byte big-endian length
//! followed by that many bytes of body. The byte order conversions are done by
//! the `byteorder` crate; this module states what they compute.
use byteorder::{BigEndian, ByteOrder};
use vstd::prelude::*;

verus! {

/// Number of bytes of the length header that precedes every message body.
pub const HEAD_SIZE: usize = 4;

/// The unsigned integer that the first four bytes of `b` denote, most
/// significant byte first.
pub open spec fn be_u32(b: Seq<u8>) -> int
    recommends
        b.len() >= 4,
{
    b[0] * 16777216 + b[1] * 65536 + b[2] * 256 + b[3]
}

/// The four bytes of `n`, most significant byte first.
pub open spec fn be_bytes(n: u32) -> Seq<u8> {
    seq![
        (n / 16777216) as u8,
        ((n / 65536) % 256) as u8,
        ((n / 256) % 256) as u8,
        (n % 256) as u8,
    ]
}

/// Reading back the four bytes written for `n` gives `n`.
pub proof fn lemma_be_roundtrip(n: u32)
    ensures
        be_bytes(n).len() == 4,
        be_u32(be_bytes(n)) == n,
{
    let b = be_bytes(n);
    let a0 = n / 16777216;
    let a1 = (n / 65536) % 256;
    let a2 = (n / 256) % 256;
    let a3 = n % 256;
    assert(a0 < 256) by (nonlinear_arith)
        requires a0 == n / 16777216, n <= 0xffff_ffffu32;
    assert(a0 * 16777216 + a1 * 65536 + a2 * 256 + a3 == n) by (nonlinear_arith)
        requires
            a0 == n / 16777216,
            a1 == (n / 65536) % 256,
            a2 == (n / 256) % 256,
            a3 == n % 256,
    ;
    assert(b[0] == a0);
    assert(b[1] == a1);
    assert(b[2] == a2);
    assert(b[3] == a3);
}

/// Calls `byteorder::BigEndian::read_u32`, which decodes the first four
/// bytes of `buf` most significant byte first. It panics on fewer than four
/// bytes, which `requires` rules out.
#[verifier::external_body]
pub(crate) fn read_u32_be(buf: &[u8]) -> (n: u32)
    requires
        buf@.len() >= HEAD_SIZE,
    ensures
        n == be_u32(buf@),
{
    BigEndian::read_u32(buf)
}

/// Calls `byteorder::BigEndian::write_u32`, which overwrites the first four
/// bytes of `buf` with `n`, most significant byte first, and leaves the rest
/// of `buf` as it was. It panics on fewer than four bytes, which `requires`
/// rules out.
#[verifier::external_body]
pub(crate) fn write_u32_be(buf: &mut [u8], n: u32)
    requires
        old(buf)@.len() >= HEAD_SIZE,
    ensures
        final(buf)@ == be_bytes(n) + old(buf)@.skip(4),
{
    BigEndian::write_u32(buf, n)
}

} // verus!
