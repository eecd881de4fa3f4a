//! The structural digest over SHA-512: 64 bytes wide.

use vstd::prelude::*;
use crate::engine::{digest, digest_of, lemma_xor_into_zeros, xor_into_array, xor_seq, zeros};
use crate::hash::Backend;
use crate::value::Value;

verus! {

/// The SHA-512 digest of the ASCII word `NULL`.
pub const NULL: [u8; 64] = [
    0x13, 0xa7, 0xce, 0x3d, 0xf1, 0x60, 0x67, 0x94,
    0xd0, 0x01, 0xbc, 0xc7, 0x35, 0x02, 0x3f, 0x39,
    0x1e, 0x42, 0xd0, 0xae, 0x3a, 0xdd, 0x62, 0x7a,
    0xb1, 0x45, 0x35, 0x49, 0x26, 0x47, 0xe9, 0x52,
    0x5c, 0x4f, 0xc5, 0x83, 0xbf, 0x21, 0x85, 0x6e,
    0x32, 0x25, 0x68, 0xd7, 0x0c, 0xc6, 0x10, 0x55,
    0x80, 0xe2, 0x20, 0x33, 0x31, 0xd8, 0x0e, 0x59,
    0xf0, 0xc9, 0xdb, 0x73, 0x39, 0x3d, 0xc8, 0xb9,
];

/// The SHA-512 digest of the ASCII word `TRUE`.
pub const TRUE: [u8; 64] = [
    0x33, 0xb8, 0x0f, 0xb9, 0x5b, 0xab, 0x15, 0x5f,
    0x35, 0xcf, 0x0f, 0xd1, 0xf1, 0x85, 0x05, 0x8f,
    0x6d, 0xa3, 0x1a, 0x03, 0x66, 0xd0, 0x5f, 0x40,
    0xc7, 0xe0, 0xf0, 0xf2, 0x14, 0x9f, 0xe8, 0xb7,
    0x1c, 0xf4, 0xfc, 0x0f, 0x2e, 0x5c, 0x8a, 0x56,
    0x6a, 0x1c, 0xf9, 0xde, 0x5a, 0xf0, 0x87, 0xc3,
    0xfe, 0xf2, 0xf9, 0x11, 0xee, 0x7a, 0x62, 0x81,
    0x45, 0xae, 0xe2, 0xac, 0x96, 0xce, 0x94, 0xec,
];

/// The SHA-512 digest of the ASCII word `FALSE`.
pub const FALSE: [u8; 64] = [
    0xc4, 0x24, 0xd8, 0xc6, 0x5e, 0x21, 0xdf, 0x09,
    0xd0, 0xca, 0x85, 0x1c, 0xf5, 0x79, 0xc7, 0x53,
    0x63, 0x3b, 0x2f, 0x76, 0xd3, 0x89, 0x60, 0xce,
    0xb2, 0x0d, 0x5c, 0x1f, 0x2a, 0xde, 0x13, 0xd7,
    0xa5, 0x90, 0x98, 0x00, 0xa1, 0x1f, 0x5f, 0xad,
    0x3c, 0x87, 0x15, 0x40, 0x70, 0x14, 0x85, 0x9e,
    0xde, 0x58, 0xe9, 0x44, 0xfb, 0x53, 0x10, 0x18,
    0x64, 0x26, 0x68, 0x82, 0x47, 0x28, 0x66, 0xdb,
];

/// Folds the digest of `val` into `acc` by bitwise XOR. On an all-zero
/// `acc` this leaves the digest itself.
pub fn json_digest(acc: &mut [u8; 64], val: &Value)
    ensures
        final(acc)@ == xor_seq(old(acc)@, digest_of(Backend::Sha512, val@)),
        old(acc)@ == zeros(64) ==> final(acc)@ == digest_of(Backend::Sha512, val@),
{
    let d = digest(Backend::Sha512, val);
    xor_into_array(acc, &d);
    proof {
        lemma_xor_into_zeros(d@);
    }
}

} // verus!
