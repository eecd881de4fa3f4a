//! The hash primitives that a digest can be built on.

use vstd::prelude::*;
use vstd::array::array_as_slice;
use vstd::slice::slice_to_vec;

verus! {

/// The hash primitive that a digest is built on.
#[derive(Clone, Copy, Debug, PartialEq, Eq, Structural)]
pub enum Backend {
    Sha256,
    Sha512,
    Blake3,
}

/// The SHA-256 hash of `message`, as libsodium computes it.
pub uninterp spec fn sha256_of(message: Seq<u8>) -> Seq<u8>;

/// The SHA-512 hash of `message`, as libsodium computes it.
pub uninterp spec fn sha512_of(message: Seq<u8>) -> Seq<u8>;

/// The default (unkeyed, 32-byte) BLAKE3 hash of `message`.
pub uninterp spec fn blake3_of(message: Seq<u8>) -> Seq<u8>;

/// Number of bytes in a digest of backend `b`.
pub open spec fn width(b: Backend) -> nat {
    match b {
        Backend::Sha256 => 32,
        Backend::Sha512 => 64,
        Backend::Blake3 => 32,
    }
}

/// The hash of `message` under backend `b`.
pub open spec fn hash_of(b: Backend, message: Seq<u8>) -> Seq<u8> {
    match b {
        Backend::Sha256 => sha256_of(message),
        Backend::Sha512 => sha512_of(message),
        Backend::Blake3 => blake3_of(message),
    }
}

/// Calls `sodiumoxide::crypto::hash::sha256::hash`. Trusted: the result is a
/// function of the message bytes alone, named `sha256_of`.
#[verifier::external_body]
fn sha256_hash(message: &[u8]) -> (digest: [u8; 32])
    ensures
        digest@ == sha256_of(message@),
{
    sodiumoxide::crypto::hash::sha256::hash(message).0
}

/// Calls `sodiumoxide::crypto::hash::sha512::hash`. Trusted: the result is a
/// function of the message bytes alone, named `sha512_of`.
#[verifier::external_body]
fn sha512_hash(message: &[u8]) -> (digest: [u8; 64])
    ensures
        digest@ == sha512_of(message@),
{
    sodiumoxide::crypto::hash::sha512::hash(message).0
}

/// Calls `blake3::hash`. Trusted: the result is a function of the message
/// bytes alone, named `blake3_of`.
#[verifier::external_body]
fn blake3_hash(message: &[u8]) -> (digest: [u8; 32])
    ensures
        digest@ == blake3_of(message@),
{
    *::blake3::hash(message).as_bytes()
}

/// Number of bytes in a digest of backend `b`.
pub fn digest_width(b: Backend) -> (n: usize)
    ensures
        n == width(b),
{
    match b {
        Backend::Sha256 => 32,
        Backend::Sha512 => 64,
        Backend::Blake3 => 32,
    }
}

/// Hashes `message` with backend `b`.
pub fn hash(b: Backend, message: &[u8]) -> (d: Vec<u8>)
    ensures
        d@ == hash_of(b, message@),
        d.len() == width(b),
{
    match b {
        Backend::Sha256 => {
            let h = sha256_hash(message);
            slice_to_vec(array_as_slice(&h))
        },
        Backend::Sha512 => {
            let h = sha512_hash(message);
            slice_to_vec(array_as_slice(&h))
        },
        Backend::Blake3 => {
            let h = blake3_hash(message);
            slice_to_vec(array_as_slice(&h))
        },
    }
}

} // verus!
