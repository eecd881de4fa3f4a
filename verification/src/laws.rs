//! What holds of the digest for every tree and every backend.

use vstd::prelude::*;
use crate::double::double_bits_of_u64;
use crate::engine::{
    and_seq, array_terms, digest_of, false_sentinel, index_mask, null_sentinel, object_terms,
    true_sentinel, xor_all, xor_seq, zeros,
};
use crate::hash::{width, Backend};
use crate::value::{Number, Tree, Value};

verus! {

/// `p` lists each of the positions `0..n` exactly once.
pub open spec fn is_permutation(p: Seq<int>, n: nat) -> bool {
    &&& p.len() == n
    &&& forall|i: int| 0 <= i < n ==> 0 <= #[trigger] p[i] < n
    &&& forall|i: int, j: int| 0 <= i < j < n ==> p[i] != p[j]
}

/// `o1` and `o2` hold the same keys, the one at `i` in `o1` standing at
/// `p[i]` in `o2`.
pub open spec fn same_keys(o1: Seq<(Seq<char>, Tree)>, o2: Seq<(Seq<char>, Tree)>, p: Seq<int>) -> bool {
    &&& o2.len() == o1.len()
    &&& is_permutation(p, o1.len())
    &&& forall|i: int| 0 <= i < o1.len() ==> (#[trigger] o1[i]).0 == o2[p[i]].0
}

/// `t1` and `t2` are the same tree, but for the order in which their objects
/// list their properties.
pub open spec fn same_up_to_key_order(t1: Tree, t2: Tree) -> bool
    decreases t1,
{
    match (t1, t2) {
        (Tree::Array(a1), Tree::Array(a2)) => {
            &&& a1.len() == a2.len()
            &&& forall|i: int| 0 <= i < a1.len() ==> same_up_to_key_order(#[trigger] a1[i], a2[i])
        },
        (Tree::Object(o1), Tree::Object(o2)) => exists|p: Seq<int>|
            {
                &&& #[trigger] same_keys(o1, o2, p)
                &&& forall|i: int|
                    0 <= i < o1.len() ==> same_up_to_key_order(
                        (#[trigger] o1[i]).1,
                        o2[p[i]].1,
                    )
            },
        (Tree::Array(_), _) | (Tree::Object(_), _) => false,
        _ => t1 == t2,
    }
}

/// Taking one term out of a fold and folding it in last changes nothing.
pub proof fn lemma_xor_all_remove(n: nat, terms: Seq<Seq<u8>>, j: int)
    requires
        0 <= j < terms.len(),
    ensures
        xor_all(n, terms) == xor_seq(xor_all(n, terms.remove(j)), terms[j]),
    decreases terms.len(),
{
    if j == terms.len() - 1 {
        assert(terms.remove(j) =~= terms.drop_last());
    } else {
        let front = terms.drop_last();
        lemma_xor_all_remove(n, front, j);
        let rest = terms.remove(j);
        assert(rest.drop_last() =~= front.remove(j));
        assert(rest.last() == terms.last());
        let base = xor_all(n, front.remove(j));
        assert(xor_all(n, terms) == xor_seq(xor_seq(base, terms[j]), terms.last()));
        assert(xor_all(n, rest) == xor_seq(base, terms.last()));
        assert forall|k: int| 0 <= k < base.len() implies xor_seq(
            xor_seq(base, terms[j]),
            terms.last(),
        )[k] == xor_seq(xor_seq(base, terms.last()), terms[j])[k] by {
            let x = base[k];
            let y = terms[j][k];
            let z = terms.last()[k];
            assert((x ^ y) ^ z == (x ^ z) ^ y) by (bit_vector);
        }
        assert(xor_seq(xor_seq(base, terms[j]), terms.last()) =~= xor_seq(
            xor_seq(base, terms.last()),
            terms[j],
        ));
    }
}

/// The fold does not depend on the order of its terms: two lists of which
/// one is a permutation of the other fold to the same bytes.
pub proof fn lemma_xor_all_permutation(n: nat, t1: Seq<Seq<u8>>, t2: Seq<Seq<u8>>, p: Seq<int>)
    requires
        t2.len() == t1.len(),
        is_permutation(p, t1.len()),
        forall|i: int| 0 <= i < t1.len() ==> #[trigger] t1[i] == t2[p[i]],
    ensures
        xor_all(n, t1) == xor_all(n, t2),
    decreases t1.len(),
{
    if t1.len() > 0 {
        let m = t1.len() - 1;
        let j = p[m];
        let s1 = t1.drop_last();
        let s2 = t2.remove(j);
        let q = Seq::new(
            m as nat,
            |i: int|
                if p[i] > j {
                    p[i] - 1
                } else {
                    p[i]
                },
        );
        assert forall|i: int| 0 <= i < m implies 0 <= #[trigger] q[i] < m && s1[i] == s2[q[i]] by {
            assert(p[i] != p[m]);
            assert(0 <= p[i] < t1.len());
            assert(t1[i] == t2[p[i]]);
        }
        assert forall|i: int, k: int| 0 <= i < k < m implies q[i] != q[k] by {
            assert(p[i] != p[k]);
            assert(p[i] != p[m]);
            assert(p[k] != p[m]);
        }
        lemma_xor_all_permutation(n, s1, s2, q);
        lemma_xor_all_remove(n, t2, j);
        assert(t1[m] == t2[p[m]]);
    }
}

/// Two objects that list the same properties in different orders have the
/// same digest, under every backend.
pub proof fn lemma_object_digest_ignores_listing_order(
    b: Backend,
    o1: Seq<(Seq<char>, Tree)>,
    o2: Seq<(Seq<char>, Tree)>,
    p: Seq<int>,
)
    requires
        o2.len() == o1.len(),
        is_permutation(p, o1.len()),
        forall|i: int| 0 <= i < o1.len() ==> #[trigger] o1[i] == o2[p[i]],
    ensures
        digest_of(b, Tree::Object(o1)) == digest_of(b, Tree::Object(o2)),
{
    let t1 = object_terms(b, o1);
    let t2 = object_terms(b, o2);
    assert forall|i: int| 0 <= i < t1.len() implies #[trigger] t1[i] == t2[p[i]] by {
        assert(o1[i] == o2[p[i]]);
        assert(0 <= p[i] < o1.len());
    }
    lemma_xor_all_permutation(width(b), t1, t2, p);
}

/// Every tree is the same as itself up to the order of properties.
pub proof fn lemma_same_up_to_key_order_reflexive(t: Tree)
    ensures
        same_up_to_key_order(t, t),
    decreases t,
{
    match t {
        Tree::Array(a) => {
            assert forall|i: int| 0 <= i < a.len() implies same_up_to_key_order(
                #[trigger] a[i],
                a[i],
            ) by {
                lemma_same_up_to_key_order_reflexive(a[i]);
            }
        },
        Tree::Object(o) => {
            let p = Seq::new(o.len(), |i: int| i);
            assert forall|i: int| 0 <= i < o.len() implies same_up_to_key_order(
                (#[trigger] o[i]).1,
                o[p[i]].1,
            ) by {
                lemma_same_up_to_key_order_reflexive(o[i].1);
            }
            assert(same_keys(o, o, p));
        },
        _ => {},
    }
}

/// Order-invariance for objects: two trees that differ only in the order in
/// which objects list their properties have the same digest, under every
/// backend.
pub proof fn lemma_digest_ignores_key_order(b: Backend, t1: Tree, t2: Tree)
    requires
        same_up_to_key_order(t1, t2),
    ensures
        digest_of(b, t1) == digest_of(b, t2),
    decreases t1,
{
    match (t1, t2) {
        (Tree::Array(a1), Tree::Array(a2)) => {
            let s1 = array_terms(b, a1);
            let s2 = array_terms(b, a2);
            assert forall|i: int| 0 <= i < s1.len() implies s1[i] == s2[i] by {
                assert(same_up_to_key_order(a1[i], a2[i]));
                lemma_digest_ignores_key_order(b, a1[i], a2[i]);
            }
            assert(s1 =~= s2);
        },
        (Tree::Object(o1), Tree::Object(o2)) => {
            let p = choose|p: Seq<int>|
                {
                    &&& #[trigger] same_keys(o1, o2, p)
                    &&& forall|i: int|
                        0 <= i < o1.len() ==> same_up_to_key_order(
                            (#[trigger] o1[i]).1,
                            o2[p[i]].1,
                        )
                };
            let s1 = object_terms(b, o1);
            let s2 = object_terms(b, o2);
            assert forall|i: int| 0 <= i < s1.len() implies #[trigger] s1[i] == s2[p[i]] by {
                assert(o1[i].0 == o2[p[i]].0);
                assert(0 <= p[i] < o1.len());
                lemma_digest_ignores_key_order(b, o1[i].1, o2[p[i]].1);
            }
            lemma_xor_all_permutation(width(b), s1, s2, p);
        },
        _ => {},
    }
}

/// The bits on which the digests of `x` and `y` differ and on which the masks
/// of the positions `i` and `j` differ too are all zero.
pub open spec fn swap_is_invisible(b: Backend, x: Tree, y: Tree, i: int, j: int) -> bool {
    forall|k: int|
        0 <= k < width(b) ==> (#[trigger] digest_of(b, x)[k] ^ digest_of(b, y)[k]) & (index_mask(
            b,
            i,
        )[k] ^ index_mask(b, j)[k]) == 0
}

/// Order-sensitivity for arrays, exactly: exchanging the elements at two
/// positions leaves the digest as it was if and only if their digests differ
/// on no bit on which the masks of the two positions differ. The elements'
/// digests are taken to have the backend's width, as every computed digest
/// has.
pub proof fn lemma_swap_changes_array_digest(b: Backend, a: Seq<Tree>, i: int, j: int)
    requires
        0 <= i < j < a.len(),
        digest_of(b, a[i]).len() == width(b),
        digest_of(b, a[j]).len() == width(b),
    ensures
        digest_of(b, Tree::Array(a)) == digest_of(b, Tree::Array(a.update(i, a[j]).update(j, a[i])))
            <==> swap_is_invisible(b, a[i], a[j], i, j),
{
    let n = width(b);
    let a2 = a.update(i, a[j]).update(j, a[i]);
    let t1 = array_terms(b, a);
    let t2 = array_terms(b, a2);
    lemma_xor_all_remove(n, t1, j);
    lemma_xor_all_remove(n, t1.remove(j), i);
    lemma_xor_all_remove(n, t2, j);
    lemma_xor_all_remove(n, t2.remove(j), i);
    assert(t1.remove(j).remove(i) =~= t2.remove(j).remove(i));
    let rest = xor_all(n, t1.remove(j).remove(i));
    lemma_xor_all_has_width(n, t1.remove(j).remove(i));
    let dx = digest_of(b, a[i]);
    let dy = digest_of(b, a[j]);
    let mi = index_mask(b, i);
    let mj = index_mask(b, j);
    let left = digest_of(b, Tree::Array(a));
    let right = digest_of(b, Tree::Array(a2));
    assert(left == xor_seq(xor_seq(rest, t1[i]), t1[j]));
    assert(right == xor_seq(xor_seq(rest, t2[i]), t2[j]));
    assert(t1[i] == and_seq(dx, mi) && t1[j] == and_seq(dy, mj));
    assert(t2[i] == and_seq(dy, mi) && t2[j] == and_seq(dx, mj));
    assert forall|k: int| 0 <= k < n implies (left[k] == right[k] <==> (dx[k] ^ dy[k]) & (mi[k]
        ^ mj[k]) == 0) by {
        let r = rest[k];
        let x = dx[k];
        let y = dy[k];
        let p = mi[k];
        let q = mj[k];
        assert(left[k] == (r ^ (x & p)) ^ (y & q));
        assert(right[k] == (r ^ (y & p)) ^ (x & q));
        assert(((r ^ (x & p)) ^ (y & q) == (r ^ (y & p)) ^ (x & q)) <==> ((x ^ y) & (p ^ q) == 0))
            by (bit_vector);
    }
    if swap_is_invisible(b, a[i], a[j], i, j) {
        assert(left =~= right);
    }
    if left == right {
        assert forall|k: int| 0 <= k < n implies (#[trigger] dx[k] ^ dy[k]) & (mi[k] ^ mj[k])
            == 0 by {
            assert(left[k] == right[k]);
        }
    }
}

/// A fold is as wide as its starting value.
pub proof fn lemma_xor_all_has_width(n: nat, terms: Seq<Seq<u8>>)
    ensures
        xor_all(n, terms).len() == n,
    decreases terms.len(),
{
    if terms.len() > 0 {
        lemma_xor_all_has_width(n, terms.drop_last());
    }
}

/// Determinism: the digest is a function of the backend and of the tree
/// that a value stands for, so two values that stand for the same tree have
/// the same digest.
pub proof fn lemma_digest_is_determined_by_the_tree(b: Backend, v1: Value, v2: Value)
    requires
        v1@ == v2@,
    ensures
        digest_of(b, v1@) == digest_of(b, v2@),
{
}

/// The fold over nothing: an empty array and an empty object both have the
/// all-zero digest, and so the same one.
pub proof fn lemma_empty_collections_collide(b: Backend)
    ensures
        digest_of(b, Tree::Array(Seq::empty())) == zeros(width(b)),
        digest_of(b, Tree::Object(Seq::empty())) == zeros(width(b)),
        digest_of(b, Tree::Array(Seq::empty())) == digest_of(b, Tree::Object(Seq::empty())),
{
}

/// The digests of null, `true` and `false` are three different constants.
pub proof fn lemma_sentinels_distinct(b: Backend)
    ensures
        digest_of(b, Tree::Null) == null_sentinel(b),
        digest_of(b, Tree::Bool(true)) == true_sentinel(b),
        digest_of(b, Tree::Bool(false)) == false_sentinel(b),
        null_sentinel(b) != true_sentinel(b),
        null_sentinel(b) != false_sentinel(b),
        true_sentinel(b) != false_sentinel(b),
{
    assert(null_sentinel(b)[0] != true_sentinel(b)[0]);
    assert(null_sentinel(b)[0] != false_sentinel(b)[0]);
    assert(true_sentinel(b)[0] != false_sentinel(b)[0]);
}

/// Numeric normalization: an integer stands for the binary64 number nearest
/// to it, and so has that number's digest.
pub proof fn lemma_integer_is_its_nearest_double(b: Backend, n: u64)
    ensures
        Value::Number(Number::PosInt(n))@ == Value::Number(Number::Float(double_bits_of_u64(n)))@,
        digest_of(b, Value::Number(Number::PosInt(n))@) == digest_of(
            b,
            Value::Number(Number::Float(double_bits_of_u64(n)))@,
        ),
{
}

} // verus!
