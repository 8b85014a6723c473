//! Canonical byte encoding helpers and the content-addressing digest.
//!
//! Keys and transactions are encoded as canonical big-endian byte strings;
//! transaction ids are the digest of the canonical encoding.

use vstd::prelude::*;

verus! {

/// The digest of a byte string, as computed by the hash backend.
///
/// The digest function is far too large to state here; the name pins down
/// only that equal inputs give equal digests.
pub uninterp spec fn sha256_of(bytes: Seq<u8>) -> Seq<u8>;

/// Relies on bitcoin_hashes::sha256::Hash::hash: a 32-byte digest that is a
/// function of the input bytes alone.
#[verifier::external_body]
pub fn sha256(bytes: &Vec<u8>) -> (r: Vec<u8>)
    ensures
        r@ == sha256_of(bytes@),
        r@.len() == 32,
{
    bitcoin_hashes::sha256::Hash::hash(bytes.as_slice()).to_byte_array().to_vec()
}

/// The eight big-endian bytes of a 64-bit word.
pub open spec fn u64_be_bytes(x: u64) -> Seq<u8> {
    seq![
        ((x >> 56) & 0xff) as u8,
        ((x >> 48) & 0xff) as u8,
        ((x >> 40) & 0xff) as u8,
        ((x >> 32) & 0xff) as u8,
        ((x >> 24) & 0xff) as u8,
        ((x >> 16) & 0xff) as u8,
        ((x >> 8) & 0xff) as u8,
        (x & 0xff) as u8,
    ]
}

/// Appends the big-endian encoding of `x` to `out`.
pub fn push_u64_be(out: &mut Vec<u8>, x: u64)
    ensures
        final(out)@ == old(out)@ + u64_be_bytes(x),
{
    out.push(((x >> 56) & 0xff) as u8);
    out.push(((x >> 48) & 0xff) as u8);
    out.push(((x >> 40) & 0xff) as u8);
    out.push(((x >> 32) & 0xff) as u8);
    out.push(((x >> 24) & 0xff) as u8);
    out.push(((x >> 16) & 0xff) as u8);
    out.push(((x >> 8) & 0xff) as u8);
    out.push((x & 0xff) as u8);
    proof {
        assert(out@ =~= old(out)@ + u64_be_bytes(x));
    }
}

/// The 64-bit word read big-endian from `s` at offset `off`.
pub open spec fn u64_from_be_spec(s: Seq<u8>, off: int) -> u64 {
    (
        (s[off] as u64) << 56 | (s[off + 1] as u64) << 48 | (s[off + 2] as u64) << 40 | (s[off + 3]
            as u64) << 32 | (s[off + 4] as u64) << 24 | (s[off + 5] as u64) << 16 | (s[off + 6]
            as u64) << 8 | (s[off + 7] as u64)
    ) as u64
}

/// Reads the 64-bit word stored big-endian at offset `off`.
pub fn u64_from_be(bytes: &Vec<u8>, off: usize) -> (r: u64)
    requires
        off + 8 <= bytes@.len(),
    ensures
        r == u64_from_be_spec(bytes@, off as int),
{
    let n: usize = bytes.len();
    (bytes[off] as u64) << 56 | (bytes[off + 1] as u64) << 48 | (bytes[off + 2] as u64) << 40 | (
    bytes[off + 3] as u64) << 32 | (bytes[off + 4] as u64) << 24 | (bytes[off + 5] as u64) << 16 | (
    bytes[off + 6] as u64) << 8 | (bytes[off + 7] as u64)
}

} // verus!
