//! Byte encodings and the content digest used for sealing.

use vstd::prelude::*;

use blake2::{Blake2b512, Digest};

verus! {

/// The `n` low-order bytes of `v`, most significant first.
pub open spec fn be_bytes(v: nat, n: nat) -> Seq<u8>
    decreases n,
{
    if n == 0 {
        seq![]
    } else {
        be_bytes(v / 256, (n - 1) as nat).push((v % 256) as u8)
    }
}

/// The Blake2b-512 digest of `data`.
pub uninterp spec fn blake2b512_of(data: Seq<u8>) -> Seq<u8>;

/// Relies on blake2's `Blake2b512::digest`: the 64-byte Blake2b-512 digest of
/// the input, a function of the input bytes alone.
#[verifier::external_body]
pub(crate) fn blake2b512(data: &Vec<u8>) -> (r: Vec<u8>)
    ensures
        r@ == blake2b512_of(data@),
        r@.len() == 64,
{
    Blake2b512::digest(data.as_slice()).to_vec()
}

/// Relies on uuid's `Uuid::from_u128` and `Uuid::as_bytes`: the sixteen bytes
/// of an identifier are its 128-bit value in big-endian order.
#[verifier::external_body]
pub(crate) fn id_bytes(id: u128) -> (r: Vec<u8>)
    ensures
        r@ == be_bytes(id as nat, 16),
{
    uuid::Uuid::from_u128(id).as_bytes().to_vec()
}

/// Relies on `u64::to_be_bytes`: the eight bytes of the value in big-endian
/// order.
#[verifier::external_body]
pub(crate) fn u64_bytes(v: u64) -> (r: Vec<u8>)
    ensures
        r@ == be_bytes(v as nat, 8),
{
    v.to_be_bytes().to_vec()
}

/// Appends every byte of `bytes` to `buf`.
pub(crate) fn append_bytes(buf: &mut Vec<u8>, bytes: &[u8])
    ensures
        final(buf)@ == old(buf)@ + bytes@,
{
    let n = bytes.len();
    let mut i: usize = 0;
    while i < n
        invariant
            n == bytes@.len(),
            i <= n,
            buf@ == old(buf)@ + bytes@.subrange(0, i as int),
        decreases n - i,
    {
        buf.push(bytes[i]);
        i = i + 1;
        assert(buf@ =~= old(buf)@ + bytes@.subrange(0, i as int));
    }
    assert(bytes@.subrange(0, n as int) =~= bytes@);
}

} // verus!
