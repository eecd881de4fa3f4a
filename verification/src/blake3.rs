//! The structural digest over BLAKE3: 32 bytes wide.

use vstd::prelude::*;
use crate::engine::{digest, digest_of, lemma_xor_into_zeros, xor_into_array, xor_seq, zeros};
use crate::hash::Backend;
use crate::value::Value;

verus! {

/// The BLAKE3 digest of the ASCII word `NULL`.
pub const NULL: [u8; 32] = [
    0x22, 0x3e, 0x36, 0x4f, 0xf2, 0x2a, 0xb5, 0xdc,
    0xa1, 0x2f, 0x48, 0xea, 0x1d, 0x6a, 0xf1, 0xd1,
    0x9d, 0x1f, 0xc7, 0x29, 0x06, 0xca, 0xbd, 0x8d,
    0x15, 0x34, 0x8f, 0x55, 0xfe, 0xdd, 0x2d, 0x92,
];

/// The BLAKE3 digest of the ASCII word `TRUE`.
pub const TRUE: [u8; 32] = [
    0x95, 0xab, 0xc5, 0x06, 0x6f, 0x98, 0x84, 0x5d,
    0x95, 0xd5, 0xaa, 0xbb, 0xbb, 0x9e, 0xdf, 0x98,
    0x3e, 0xb4, 0x32, 0x44, 0xe2, 0x1d, 0x35, 0xf6,
    0xcb, 0xc5, 0xc0, 0xce, 0xbc, 0x25, 0xa1, 0xe7,
];

/// The BLAKE3 digest of the ASCII word `FALSE`.
pub const FALSE: [u8; 32] = [
    0x0f, 0x2f, 0xfe, 0xa4, 0xa5, 0xb0, 0xc2, 0x5c,
    0xa1, 0x01, 0x00, 0x9d, 0xe4, 0xab, 0x4f, 0x76,
    0x8c, 0x5c, 0x63, 0x6f, 0x50, 0xc0, 0xda, 0xe8,
    0x2a, 0x94, 0x5b, 0xe4, 0x5a, 0xb1, 0xe8, 0x26,
];

/// Folds the digest of `val` into `acc` by bitwise XOR. On an all-zero
/// `acc` this leaves the digest itself.
pub fn json_digest(acc: &mut [u8; 32], val: &Value)
    ensures
        final(acc)@ == xor_seq(old(acc)@, digest_of(Backend::Blake3, val@)),
        old(acc)@ == zeros(32) ==> final(acc)@ == digest_of(Backend::Blake3, val@),
{
    let d = digest(Backend::Blake3, val);
    xor_into_array(acc, &d);
    proof {
        lemma_xor_into_zeros(d@);
    }
}

} // verus!
