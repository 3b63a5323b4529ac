//! The mathematical model of the byte fold: `or_all`, the bitwise OR of a
//! sequence of bytes, together with the algebraic laws that callers of the
//! combiner may rely on.

use vstd::prelude::*;

verus! {

/// The bitwise OR of all bytes of `s`, folded left to right.
///
/// An empty sequence folds to `0`, the identity of OR.
pub open spec fn or_all(s: Seq<u8>) -> u8
    decreases s.len(),
{
    if s.len() == 0 {
        0u8
    } else {
        or_all(s.drop_last()) | s.last()
    }
}

/// Bit `k` of the byte `b`, as a truth value.
pub open spec fn bit_set(b: u8, k: u8) -> bool {
    ((b >> k) & 1) == 1
}

/// Pushing one more byte onto the sequence ORs it into the fold.
pub broadcast proof fn lemma_or_all_push(s: Seq<u8>, x: u8)
    ensures
        #[trigger] or_all(s.push(x)) == or_all(s) | x,
{
    assert(s.push(x).drop_last() =~= s);
}

/// Taking any one byte out of the sequence and ORing it back in yields the
/// same fold: the position of an element does not matter.
pub proof fn lemma_or_all_remove(s: Seq<u8>, i: int)
    requires
        0 <= i < s.len(),
    ensures
        or_all(s) == or_all(s.remove(i)) | s[i],
    decreases s.len(),
{
    if i == s.len() - 1 {
        assert(s.remove(i) =~= s.drop_last());
    } else {
        let t = s.drop_last();
        assert(s.remove(i).drop_last() =~= t.remove(i));
        assert(s.remove(i).last() == s.last());
        lemma_or_all_remove(t, i);
        let a = or_all(t.remove(i));
        let b = s[i];
        let c = s.last();
        assert(((a | c) | b) == ((a | b) | c)) by (bit_vector);
    }
}

/// Order independence: two sequences holding the same bytes, each the same
/// number of times, fold to the same byte — OR is commutative and
/// associative, so no permutation of a tuple's elements changes the result.
pub proof fn lemma_or_all_permutation(s: Seq<u8>, t: Seq<u8>)
    requires
        s.to_multiset() == t.to_multiset(),
    ensures
        or_all(s) == or_all(t),
    decreases s.len(),
{
    broadcast use vstd::seq_lib::group_to_multiset_ensures;

    if s.len() == 0 {
        assert(t.to_multiset().len() == 0);
        assert(t.len() == 0);
    } else {
        let x = s.last();
        assert(s.contains(x));
        assert(t.to_multiset().count(x) > 0);
        assert(t.contains(x));
        let i = choose|i: int| 0 <= i < t.len() && t[i] == x;
        let n = s.len() - 1;
        assert(s.remove(n).to_multiset() == s.to_multiset().remove(x));
        assert(t.remove(i).to_multiset() == t.to_multiset().remove(x));
        assert(s.remove(n) =~= s.drop_last());
        lemma_or_all_permutation(s.drop_last(), t.remove(i));
        lemma_or_all_remove(t, i);
    }
}

/// Zero element: if every byte of the sequence is zero, the fold is zero.
pub proof fn lemma_or_all_zero(s: Seq<u8>)
    requires
        forall|i: int| 0 <= i < s.len() ==> s[i] == 0,
    ensures
        or_all(s) == 0,
    decreases s.len(),
{
    if s.len() > 0 {
        assert(forall|i: int| 0 <= i < s.drop_last().len() ==> s.drop_last()[i] == 0);
        lemma_or_all_zero(s.drop_last());
        assert((0u8 | 0u8) == 0u8) by (bit_vector);
    }
}

/// Bit isolation: bit `k` of the fold is set exactly when at least one
/// byte of the sequence has bit `k` set.
pub proof fn lemma_or_all_bit(s: Seq<u8>, k: u8)
    requires
        k < 8,
    ensures
        bit_set(or_all(s), k) <==> exists|i: int| 0 <= i < s.len() && bit_set(s[i], k),
    decreases s.len(),
{
    if s.len() == 0 {
        assert(!bit_set(0u8, k)) by (bit_vector)
            requires
                k < 8,
        ;
    } else {
        let t = s.drop_last();
        lemma_or_all_bit(t, k);
        let x = or_all(t);
        let y = s.last();
        assert(bit_set(x | y, k) <==> (bit_set(x, k) || bit_set(y, k))) by (bit_vector);
        let n = s.len() - 1;
        if bit_set(or_all(s), k) {
            if bit_set(y, k) {
                assert(bit_set(s[n], k));
            } else {
                let j = choose|j: int| 0 <= j < t.len() && bit_set(t[j], k);
                assert(bit_set(s[j], k));
            }
        }
        if exists|i: int| 0 <= i < s.len() && bit_set(s[i], k) {
            let j = choose|j: int| 0 <= j < s.len() && bit_set(s[j], k);
            if j == n {
                assert(bit_set(y, k));
            } else {
                assert(bit_set(t[j], k));
            }
        }
    }
}

} // verus!
