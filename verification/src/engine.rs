//! The digest of a value tree: what it is, and the function that computes it.

use vstd::prelude::*;
use vstd::array::array_as_slice;
use vstd::slice::slice_to_vec;
use vstd::utf8::encode_utf8;
use byteorder::{ByteOrder, NetworkEndian};
use crate::double::{double_bits_from_i64, double_bits_from_u64, double_bits_of_u64};
use crate::hash::{digest_width, hash, hash_of, width, Backend};
use crate::value::{Number, Tree, Value};

verus! {

/// `n` zero bytes.
pub open spec fn zeros(n: nat) -> Seq<u8> {
    Seq::new(n, |i: int| 0u8)
}

/// Bytewise XOR of `b` into `a`.
pub open spec fn xor_seq(a: Seq<u8>, b: Seq<u8>) -> Seq<u8> {
    Seq::new(a.len(), |i: int| a[i] ^ b[i])
}

/// Bytewise AND of `b` into `a`.
pub open spec fn and_seq(a: Seq<u8>, b: Seq<u8>) -> Seq<u8> {
    Seq::new(a.len(), |i: int| a[i] & b[i])
}

/// The XOR of all `terms`, starting from `n` zero bytes.
pub open spec fn xor_all(n: nat, terms: Seq<Seq<u8>>) -> Seq<u8>
    decreases terms.len(),
{
    if terms.len() == 0 {
        zeros(n)
    } else {
        xor_seq(xor_all(n, terms.drop_last()), terms.last())
    }
}

/// The eight bytes of `x`, most significant first.
pub open spec fn be_bytes(x: u64) -> Seq<u8> {
    Seq::new(8, |i: int| ((x >> ((8 * (7 - i)) as u64)) & 0xff) as u8)
}

/// The digest of the null value under backend `b`.
pub open spec fn null_sentinel(b: Backend) -> Seq<u8> {
    match b {
        Backend::Sha256 => crate::sha256::NULL@,
        Backend::Sha512 => crate::sha512::NULL@,
        Backend::Blake3 => crate::blake3::NULL@,
    }
}

/// The digest of `true` under backend `b`.
pub open spec fn true_sentinel(b: Backend) -> Seq<u8> {
    match b {
        Backend::Sha256 => crate::sha256::TRUE@,
        Backend::Sha512 => crate::sha512::TRUE@,
        Backend::Blake3 => crate::blake3::TRUE@,
    }
}

/// The digest of `false` under backend `b`.
pub open spec fn false_sentinel(b: Backend) -> Seq<u8> {
    match b {
        Backend::Sha256 => crate::sha256::FALSE@,
        Backend::Sha512 => crate::sha512::FALSE@,
        Backend::Blake3 => crate::blake3::FALSE@,
    }
}

/// The mask that binds an array element to its position `i`: the hash of
/// the position, written as a binary64 number.
pub open spec fn index_mask(b: Backend, i: int) -> Seq<u8> {
    hash_of(b, be_bytes(double_bits_of_u64(i as u64)))
}

/// The mask that binds a property's value to its key: the hash of the key's
/// UTF-8 bytes.
pub open spec fn key_mask(b: Backend, key: Seq<char>) -> Seq<u8> {
    hash_of(b, encode_utf8(key))
}

/// What each element of an array contributes to the array's digest.
pub open spec fn array_terms(b: Backend, a: Seq<Tree>) -> Seq<Seq<u8>>
    decreases a, 0nat,
{
    Seq::new(
        a.len(),
        |i: int|
            if 0 <= i < a.len() {
                and_seq(digest_of(b, a[i]), index_mask(b, i))
            } else {
                Seq::empty()
            },
    )
}

/// What each property of an object contributes to the object's digest.
pub open spec fn object_terms(b: Backend, o: Seq<(Seq<char>, Tree)>) -> Seq<Seq<u8>>
    decreases o, 0nat,
{
    Seq::new(
        o.len(),
        |i: int|
            if 0 <= i < o.len() {
                and_seq(digest_of(b, o[i].1), key_mask(b, o[i].0))
            } else {
                Seq::empty()
            },
    )
}

/// The digest of the tree `t` under backend `b`.
pub open spec fn digest_of(b: Backend, t: Tree) -> Seq<u8>
    decreases t, 1nat,
{
    match t {
        Tree::Null => null_sentinel(b),
        Tree::Bool(v) => if v {
            true_sentinel(b)
        } else {
            false_sentinel(b)
        },
        Tree::Number(bits) => hash_of(b, be_bytes(bits)),
        Tree::String(s) => hash_of(b, encode_utf8(s)),
        Tree::Array(a) => xor_all(width(b), array_terms(b, a)),
        Tree::Object(o) => xor_all(width(b), object_terms(b, o)),
    }
}

/// Folding a digest into zero bytes leaves the digest.
pub proof fn lemma_xor_into_zeros(d: Seq<u8>)
    ensures
        xor_seq(zeros(d.len()), d) == d,
{
    assert forall|i: int| 0 <= i < d.len() implies xor_seq(zeros(d.len()), d)[i] == d[i] by {
        let x = d[i];
        assert(0u8 ^ x == x) by (bit_vector);
    }
    assert(xor_seq(zeros(d.len()), d) =~= d);
}

/// Calls `byteorder::NetworkEndian::write_u64` on a buffer of eight bytes.
/// Trusted: the buffer then holds the bytes of `x`, most significant first.
#[verifier::external_body]
fn write_be(x: u64) -> (out: [u8; 8])
    ensures
        out@ == be_bytes(x),
{
    let mut out = [0u8; 8];
    NetworkEndian::write_u64(&mut out, x);
    out
}

/// Hashes the eight big-endian bytes of `bits`.
pub fn hash_bits(b: Backend, bits: u64) -> (d: Vec<u8>)
    ensures
        d@ == hash_of(b, be_bytes(bits)),
        d.len() == width(b),
{
    let bytes = write_be(bits);
    hash(b, array_as_slice(&bytes))
}

/// Hashes the UTF-8 bytes of `text`.
pub fn hash_text(b: Backend, text: &String) -> (d: Vec<u8>)
    ensures
        d@ == hash_of(b, encode_utf8(text@)),
        d.len() == width(b),
{
    hash(b, text.as_str().as_bytes())
}

/// The all-zero digest of backend `b`: the fold over nothing.
pub fn zero_digest(b: Backend) -> (d: Vec<u8>)
    ensures
        d@ == zeros(width(b)),
{
    let n = digest_width(b);
    let mut d: Vec<u8> = Vec::new();
    while d.len() < n
        invariant
            d.len() <= n,
            forall|j: int| 0 <= j < d.len() ==> d@[j] == 0u8,
        decreases n - d.len(),
    {
        d.push(0u8);
    }
    assert(d@ =~= zeros(width(b)));
    d
}

/// Fuses `mask` into `d` by bitwise AND.
pub fn and_into(d: &mut Vec<u8>, mask: &Vec<u8>)
    requires
        old(d).len() == mask.len(),
    ensures
        final(d)@ == and_seq(old(d)@, mask@),
{
    let n = d.len();
    let mut i: usize = 0;
    while i < n
        invariant
            i <= n,
            d.len() == n,
            mask.len() == n,
            old(d).len() == n,
            forall|j: int| 0 <= j < i ==> d@[j] == old(d)@[j] & mask@[j],
            forall|j: int| i <= j < n ==> d@[j] == old(d)@[j],
        decreases n - i,
    {
        let x: u8 = d[i] & mask[i];
        d.set(i, x);
        i += 1;
    }
    assert(d@ =~= and_seq(old(d)@, mask@));
}

/// Folds `term` into `acc` by bitwise XOR.
pub fn xor_into(acc: &mut Vec<u8>, term: &Vec<u8>)
    requires
        old(acc).len() == term.len(),
    ensures
        final(acc)@ == xor_seq(old(acc)@, term@),
{
    let n = acc.len();
    let mut i: usize = 0;
    while i < n
        invariant
            i <= n,
            acc.len() == n,
            term.len() == n,
            old(acc).len() == n,
            forall|j: int| 0 <= j < i ==> acc@[j] == old(acc)@[j] ^ term@[j],
            forall|j: int| i <= j < n ==> acc@[j] == old(acc)@[j],
        decreases n - i,
    {
        let x: u8 = acc[i] ^ term[i];
        acc.set(i, x);
        i += 1;
    }
    assert(acc@ =~= xor_seq(old(acc)@, term@));
}

/// Folds `term` into the fixed-size accumulator `acc` by bitwise XOR.
pub fn xor_into_array<const N: usize>(acc: &mut [u8; N], term: &Vec<u8>)
    requires
        term.len() == N,
    ensures
        final(acc)@ == xor_seq(old(acc)@, term@),
{
    let mut i: usize = 0;
    while i < N
        invariant
            i <= N,
            term.len() == N,
            acc@.len() == N,
            forall|j: int| 0 <= j < i ==> acc@[j] == old(acc)@[j] ^ term@[j],
            forall|j: int| i <= j < N ==> acc@[j] == old(acc)@[j],
        decreases N - i,
    {
        let x: u8 = acc[i] ^ term[i];
        acc[i] = x;
        i += 1;
    }
    assert(acc@ =~= xor_seq(old(acc)@, term@));
}

/// The digest of the null value, of `true` or of `false`.
fn sentinel(b: Backend, v: &Value) -> (d: Vec<u8>)
    requires
        v is Null || v is Bool,
    ensures
        d@ == digest_of(b, v@),
        d.len() == width(b),
{
    match (b, v) {
        (Backend::Sha256, Value::Null) => slice_to_vec(array_as_slice(&crate::sha256::NULL)),
        (Backend::Sha256, Value::Bool(true)) => slice_to_vec(array_as_slice(&crate::sha256::TRUE)),
        (Backend::Sha256, _) => slice_to_vec(array_as_slice(&crate::sha256::FALSE)),
        (Backend::Sha512, Value::Null) => slice_to_vec(array_as_slice(&crate::sha512::NULL)),
        (Backend::Sha512, Value::Bool(true)) => slice_to_vec(array_as_slice(&crate::sha512::TRUE)),
        (Backend::Sha512, _) => slice_to_vec(array_as_slice(&crate::sha512::FALSE)),
        (Backend::Blake3, Value::Null) => slice_to_vec(array_as_slice(&crate::blake3::NULL)),
        (Backend::Blake3, Value::Bool(true)) => slice_to_vec(array_as_slice(&crate::blake3::TRUE)),
        (Backend::Blake3, _) => slice_to_vec(array_as_slice(&crate::blake3::FALSE)),
    }
}

/// The binary64 bit pattern that `n` is hashed as.
pub fn bits_of_number(n: &Number) -> (bits: u64)
    ensures
        bits == n@,
{
    match n {
        Number::PosInt(u) => double_bits_from_u64(*u),
        Number::NegInt(i) => double_bits_from_i64(*i),
        Number::Float(bits) => *bits,
    }
}

/// Computes the digest of `v` under backend `b`.
///
/// The walk is recursive: it goes as deep as the tree is nested, so the
/// nesting that is supported is what the call stack holds.
pub fn digest(b: Backend, v: &Value) -> (d: Vec<u8>)
    ensures
        d@ == digest_of(b, v@),
        d.len() == width(b),
    decreases *v,
{
    match v {
        Value::Null => sentinel(b, v),
        Value::Bool(_) => sentinel(b, v),
        Value::Number(n) => hash_bits(b, bits_of_number(n)),
        Value::String(s) => hash_text(b, s),
        Value::Array(a) => {
            let ghost terms = array_terms(b, v@->Array_0);
            assert(terms.len() == a.len());
            assert forall|k: int| 0 <= k < a.len() implies #[trigger] terms[k] == and_seq(
                digest_of(b, a[k]@),
                index_mask(b, k),
            ) by {
                assert(v@->Array_0[k] == a[k]@);
            }
            let mut acc = zero_digest(b);
            let mut i: usize = 0;
            while i < a.len()
                invariant
                    i <= a.len(),
                    decreases_to!(*v => *a),
                    terms.len() == a.len(),
                    forall|k: int|
                        0 <= k < a.len() ==> #[trigger] terms[k] == and_seq(
                            digest_of(b, a[k]@),
                            index_mask(b, k),
                        ),
                    acc.len() == width(b),
                    acc@ == xor_all(width(b), terms.subrange(0, i as int)),
                decreases a.len() - i,
            {
                let mask = hash_bits(b, double_bits_from_u64(i as u64));
                proof {
                    assert(decreases_to!(*a => a[i as int]));
                }
                let mut term = digest(b, &a[i]);
                and_into(&mut term, &mask);
                xor_into(&mut acc, &term);
                proof {
                    let next = terms.subrange(0, i + 1);
                    assert(next.drop_last() =~= terms.subrange(0, i as int));
                    assert(next.last() == term@);
                }
                i += 1;
            }
            assert(terms.subrange(0, i as int) =~= terms);
            assert(digest_of(b, v@) == xor_all(width(b), terms));
            acc
        },
        Value::Object(o) => {
            let ghost terms = object_terms(b, v@->Object_0);
            assert(terms.len() == o.len());
            assert forall|k: int| 0 <= k < o.len() implies #[trigger] terms[k] == and_seq(
                digest_of(b, o[k].1@),
                key_mask(b, o[k].0@),
            ) by {
                assert(v@->Object_0[k] == (o[k].0@, o[k].1@));
            }
            let mut acc = zero_digest(b);
            let mut i: usize = 0;
            while i < o.len()
                invariant
                    i <= o.len(),
                    decreases_to!(*v => *o),
                    terms.len() == o.len(),
                    forall|k: int|
                        0 <= k < o.len() ==> #[trigger] terms[k] == and_seq(
                            digest_of(b, o[k].1@),
                            key_mask(b, o[k].0@),
                        ),
                    acc.len() == width(b),
                    acc@ == xor_all(width(b), terms.subrange(0, i as int)),
                decreases o.len() - i,
            {
                let mask = hash_text(b, &o[i].0);
                proof {
                    assert(decreases_to!(*o => o[i as int]));
                }
                let mut term = digest(b, &o[i].1);
                and_into(&mut term, &mask);
                xor_into(&mut acc, &term);
                proof {
                    let next = terms.subrange(0, i + 1);
                    assert(next.drop_last() =~= terms.subrange(0, i as int));
                    assert(next.last() == term@);
                }
                i += 1;
            }
            assert(terms.subrange(0, i as int) =~= terms);
            assert(digest_of(b, v@) == xor_all(width(b), terms));
            acc
        },
    }
}

} // verus!
