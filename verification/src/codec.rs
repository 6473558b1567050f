//! Byte framing used for signing and hashing: fixed-width little-endian
//! integers and length-prefixed UTF-8 strings.

use vstd::prelude::*;
use vstd::utf8::encode_utf8;

verus! {

/// The UTF-8 length of a string, as `str::len` reports it.
pub open spec fn byte_len(s: Seq<char>) -> usize {
    encode_utf8(s).len() as usize
}

/// Eight little-endian bytes of `n`.
pub open spec fn u64_le(n: u64) -> Seq<u8> {
    seq![
        n as u8,
        (n >> 8u64) as u8,
        (n >> 16u64) as u8,
        (n >> 24u64) as u8,
        (n >> 32u64) as u8,
        (n >> 40u64) as u8,
        (n >> 48u64) as u8,
        (n >> 56u64) as u8,
    ]
}

/// Sixteen little-endian bytes of `n`.
pub open spec fn u128_le(n: u128) -> Seq<u8> {
    u64_le(n as u64) + u64_le((n >> 64u128) as u64)
}

/// A string framed as its UTF-8 length (eight bytes) followed by its bytes.
pub open spec fn str_frame(s: Seq<char>) -> Seq<u8> {
    u64_le(byte_len(s) as u64) + encode_utf8(s)
}

/// A byte string framed as its length (eight bytes) followed by the bytes.
pub open spec fn bytes_frame(b: Seq<u8>) -> Seq<u8> {
    u64_le(b.len() as u64) + b
}

/// The eight little-endian bytes of `n`.
pub fn u64_le_bytes(n: u64) -> (b: [u8; 8])
    ensures
        b@ == u64_le(n),
{
    let b = [
        n as u8,
        (n >> 8u64) as u8,
        (n >> 16u64) as u8,
        (n >> 24u64) as u8,
        (n >> 32u64) as u8,
        (n >> 40u64) as u8,
        (n >> 48u64) as u8,
        (n >> 56u64) as u8,
    ];
    assert(b@ =~= u64_le(n));
    b
}

/// The sixteen little-endian bytes of `n`.
pub fn u128_le_bytes(n: u128) -> (b: Vec<u8>)
    ensures
        b@ == u128_le(n),
{
    let mut b: Vec<u8> = Vec::new();
    push_slice(&mut b, &u64_le_bytes(n as u64));
    push_slice(&mut b, &u64_le_bytes((n >> 64u128) as u64));
    b
}

/// UTF-8 length of `s`.
pub fn str_byte_len(s: &String) -> (n: usize)
    ensures
        n == byte_len(s@),
{
    s.as_str().len()
}

/// Appends `bytes`.
pub fn push_slice(out: &mut Vec<u8>, bytes: &[u8])
    ensures
        final(out)@ == old(out)@ + bytes@,
{
    let mut i: usize = 0;
    let ghost start = out@;
    while i < bytes.len()
        invariant
            i <= bytes@.len(),
            out@ == start + bytes@.subrange(0, i as int),
        decreases bytes.len() - i,
    {
        out.push(bytes[i]);
        i = i + 1;
        assert(out@ =~= start + bytes@.subrange(0, i as int));
    }
    assert(bytes@.subrange(0, bytes@.len() as int) =~= bytes@);
}

/// Appends the eight little-endian bytes of `n`.
pub fn push_u64(out: &mut Vec<u8>, n: u64)
    ensures
        final(out)@ == old(out)@ + u64_le(n),
{
    push_slice(out, &u64_le_bytes(n));
}

/// Appends `s` framed by its length.
pub fn push_str(out: &mut Vec<u8>, s: &String)
    ensures
        final(out)@ == old(out)@ + str_frame(s@),
{
    let n = s.as_str().len();
    push_u64(out, n as u64);
    push_slice(out, s.as_str().as_bytes());
    assert(final(out)@ =~= old(out)@ + str_frame(s@));
}

/// Appends `b` framed by its length.
pub fn push_bytes(out: &mut Vec<u8>, b: &Vec<u8>)
    ensures
        final(out)@ == old(out)@ + bytes_frame(b@),
{
    push_u64(out, b.len() as u64);
    push_slice(out, b.as_slice());
    assert(final(out)@ =~= old(out)@ + bytes_frame(b@));
}

} // verus!
