use vstd::prelude::*;

use crypto::digest::Digest;
use crypto::sha2::Sha512;

verus! {

/// The SHA-512 digest of a byte sequence.
pub uninterp spec fn sha512_of(input: Seq<u8>) -> Seq<u8>;

/// The big-endian unsigned integer held in the first four bytes of `b`.
pub open spec fn be_u32_of(b: Seq<u8>) -> int
    recommends
        b.len() >= 4,
{
    b[0] as int * 0x1000000 + b[1] as int * 0x10000 + b[2] as int * 0x100 + b[3] as int
}

/// The checksum carried in every frame header: the first four bytes of the
/// digest of the payload.
pub open spec fn frame_checksum_of(payload: Seq<u8>) -> Seq<u8> {
    Seq::new(4, |i: int| sha512_of(payload)[i])
}

/// The first four bytes of the digest of the digest.
pub open spec fn double_checksum_of(input: Seq<u8>) -> Seq<u8> {
    Seq::new(4, |i: int| sha512_of(sha512_of(input))[i])
}

/// Relies on rust-crypto's `Sha512` (`Digest::input`, `Digest::result`): the
/// 64-byte result depends on the input bytes alone.
#[verifier::external_body]
fn sha512_digest(input: &[u8]) -> (r: [u8; 64])
    ensures
        r@ == sha512_of(input@),
{
    let mut hasher = Sha512::new();
    hasher.input(input);
    let mut result: [u8; 64] = [0; 64];
    hasher.result(&mut result[..]);
    result
}

/// The SHA-512 digest of `input`.
pub fn sha512_hash(input: &[u8]) -> (r: [u8; 64])
    ensures
        r@ == sha512_of(input@),
        r@.len() == 64,
{
    sha512_digest(input)
}

/// The first four bytes of a digest, read as a big-endian integer.
pub fn digest_prefix_u32(hash: &[u8; 64]) -> (r: u32)
    ensures
        r as int == be_u32_of(hash@),
{
    let r: u32 = ((hash[0] as u32) << 24u32) | ((hash[1] as u32) << 16u32) | ((hash[2] as u32) << 8u32)
        | (hash[3] as u32);
    let (a, b, c, d) = (hash[0], hash[1], hash[2], hash[3]);
    assert(r == ((a as u32) << 24u32) | ((b as u32) << 16u32) | ((c as u32) << 8u32) | (d as u32));
    assert(((a as u32) << 24u32) | ((b as u32) << 16u32) | ((c as u32) << 8u32) | (d as u32)
        == a as u32 * 0x1000000 + b as u32 * 0x10000 + c as u32 * 0x100 + d as u32) by (bit_vector);
    r
}

/// The first four bytes of the SHA-512 digest of `input`, as a big-endian integer.
pub fn sha512_checksum(input: &[u8]) -> (r: u32)
    ensures
        r as int == be_u32_of(sha512_of(input@)),
{
    let hash = sha512_hash(input);
    digest_prefix_u32(&hash)
}

/// The first four bytes of the digest of the digest of `input`.
pub fn double_sha512_checksum_bytes(input: &[u8]) -> (r: [u8; 4])
    ensures
        r@ == double_checksum_of(input@),
{
    let hash1 = sha512_hash(input);
    let hash2 = sha512_hash(&hash1);
    let r: [u8; 4] = [hash2[0], hash2[1], hash2[2], hash2[3]];
    assert(r@ =~= double_checksum_of(input@));
    r
}

/// The checksum of a frame's payload: the first four bytes of its digest.
pub fn frame_checksum(payload: &[u8]) -> (r: [u8; 4])
    ensures
        r@ == frame_checksum_of(payload@),
{
    let hash = sha512_hash(payload);
    let r: [u8; 4] = [hash[0], hash[1], hash[2], hash[3]];
    assert(r@ =~= frame_checksum_of(payload@));
    r
}

} // verus!
