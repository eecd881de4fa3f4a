//! The structural digest over SHA-256: 32 bytes wide.

use vstd::prelude::*;
use crate::engine::{digest, digest_of, lemma_xor_into_zeros, xor_into_array, xor_seq, zeros};
use crate::hash::Backend;
use crate::value::Value;

verus! {

/// The SHA-256 digest of the ASCII word `NULL`.
pub const NULL: [u8; 32] = [
    0xfb, 0x32, 0x90, 0x00, 0x22, 0x8c, 0xc5, 0xa2,
    0x4c, 0x26, 0x4c, 0x57, 0x13, 0x9d, 0xe8, 0xbf,
    0x85, 0x4f, 0xc8, 0x6f, 0xc1, 0x8b, 0xf1, 0xc0,
    0x4a, 0xb6, 0x1a, 0x2b, 0x5c, 0xb4, 0xb9, 0x21,
];

/// The SHA-256 digest of the ASCII word `TRUE`.
pub const TRUE: [u8; 32] = [
    0xdf, 0xe8, 0x80, 0x90, 0xc5, 0xed, 0x7a, 0xc2,
    0xf3, 0x25, 0x71, 0xf0, 0xfc, 0x82, 0x2f, 0xda,
    0x4d, 0x8c, 0xd2, 0x81, 0xfc, 0x71, 0x38, 0xc7,
    0xcd, 0x6d, 0xb6, 0x56, 0xf6, 0xe2, 0xd0, 0x81,
];

/// The SHA-256 digest of the ASCII word `FALSE`.
pub const FALSE: [u8; 32] = [
    0x4e, 0x52, 0x3a, 0x5a, 0xe5, 0xb4, 0x63, 0x6c,
    0x75, 0x90, 0x1b, 0x79, 0xfa, 0xfb, 0xd3, 0x91,
    0x2e, 0x41, 0xdc, 0x79, 0x87, 0x41, 0x4e, 0x68,
    0x8b, 0x09, 0xd4, 0xb4, 0x36, 0xff, 0x22, 0xb3,
];

/// Folds the digest of `val` into `acc` by bitwise XOR. On an all-zero
/// `acc` this leaves the digest itself.
pub fn json_digest(acc: &mut [u8; 32], val: &Value)
    ensures
        final(acc)@ == xor_seq(old(acc)@, digest_of(Backend::Sha256, val@)),
        old(acc)@ == zeros(32) ==> final(acc)@ == digest_of(Backend::Sha256, val@),
{
    let d = digest(Backend::Sha256, val);
    xor_into_array(acc, &d);
    proof {
        lemma_xor_into_zeros(d@);
    }
}

} // verus!
