//! A stable sort by lexicographic keys.
use vstd::prelude::*;

use crate::path::{lex_le, lex_less, lex_lt, lemma_lex_le_order, lemma_lex_trichotomy};

verus! {

/// Elements ordered by a key compared lexicographically.
pub trait SortKey {
    /// The key of an element.
    spec fn sort_key(&self) -> Seq<u64>;

    /// Computes the key of an element.
    fn sort_key_exec(&self) -> (key: Vec<u64>)
        ensures
            key@ == self.sort_key();
}

/// Every pair of elements is in key order.
pub open spec fn keys_sorted<T: SortKey>(s: Seq<T>) -> bool {
    forall|i: int, j: int| 0 <= i < j < s.len() ==> lex_le(#[trigger] s[i].sort_key(), #[trigger] s[j].sort_key())
}

/// `perm` is a bijection of `0..n`.
pub open spec fn is_permutation(perm: Seq<int>, n: nat) -> bool {
    &&& perm.len() == n
    &&& forall|k: int| 0 <= k < n ==> 0 <= #[trigger] perm[k] < n
    &&& forall|a: int, b: int| 0 <= a < b < n ==> #[trigger] perm[a] != #[trigger] perm[b]
}

/// `output` is `input` reordered by key, with elements of equal key kept in their input
/// order: the result of a stable sort.
pub open spec fn is_stable_sort_of<T: SortKey>(input: Seq<T>, output: Seq<T>) -> bool {
    exists|perm: Seq<int>| {
        &&& is_permutation(perm, input.len())
        &&& output.len() == input.len()
        &&& forall|k: int| 0 <= k < output.len() ==> #[trigger] output[k] == input[perm[k]]
        &&& keys_sorted(output)
        &&& forall|i: int, j: int| 0 <= i < j < output.len() && output[i].sort_key() == output[j].sort_key()
            ==> #[trigger] perm[i] < #[trigger] perm[j]
    }
}

/// The elements of a vector in reverse order.
pub fn reversed<T>(v: Vec<T>) -> (r: Vec<T>)
    ensures
        r@.len() == v@.len(),
        forall|i: int| 0 <= i < v@.len() ==> #[trigger] r@[i] == v@[v@.len() - 1 - i],
{
    let ghost input = v@;
    let mut v = v;
    let mut r: Vec<T> = Vec::new();
    while v.len() > 0
        invariant
            v@ == input.subrange(0, v@.len() as int),
            r@.len() == input.len() - v@.len(),
            forall|i: int| 0 <= i < r@.len() ==> #[trigger] r@[i] == input[input.len() - 1 - i],
        decreases v@.len(),
    {
        let m = v.pop().unwrap();
        r.push(m);
        assert(v@ =~= input.subrange(0, v@.len() as int));
    }
    r
}

/// Sorts by key, keeping elements with equal keys in input order (a stable sort).
pub fn stable_sort<T: SortKey>(items: Vec<T>) -> (out: Vec<T>)
    ensures
        is_stable_sort_of(items@, out@),
{
    let ghost input = items@;
    let total = items.len();
    let ghost n = items@.len();
    let mut pending = reversed(items);
    let mut out: Vec<T> = Vec::new();
    let mut keys: Vec<Vec<u64>> = Vec::new();
    let ghost mut perm: Seq<int> = seq![];
    let mut j: usize = 0;
    while pending.len() > 0
        invariant
            n == input.len(),
            n == total,
            pending@.len() == n - j,
            forall|i: int| 0 <= i < pending@.len() ==> #[trigger] pending@[i] == input[n - 1 - i],
            out@.len() == j,
            keys@.len() == j,
            perm.len() == j,
            forall|k: int| 0 <= k < j ==> #[trigger] keys@[k]@ == out@[k].sort_key(),
            forall|k: int| 0 <= k < j ==> #[trigger] out@[k] == input[perm[k]],
            forall|k: int| 0 <= k < j ==> 0 <= #[trigger] perm[k] < j,
            forall|a: int, b: int| 0 <= a < b < j ==> #[trigger] perm[a] != #[trigger] perm[b],
            keys_sorted(out@),
            forall|a: int, b: int| 0 <= a < b < j && out@[a].sort_key() == out@[b].sort_key()
                ==> #[trigger] perm[a] < #[trigger] perm[b],
        decreases pending@.len(),
    {
        let m = pending.pop().unwrap();
        assert(m == input[j as int]);
        let key = m.sort_key_exec();
        let mut p = out.len();
        while p > 0 && lex_less(key.as_slice(), keys[p - 1].as_slice())
            invariant
                0 <= p <= out@.len(),
                keys@.len() == out@.len(),
                forall|q: int| p <= q < out@.len() ==> lex_lt(key@, #[trigger] keys@[q]@),
            decreases p,
        {
            p -= 1;
        }
        let ghost old_out = out@;
        let ghost old_perm = perm;
        let ghost old_keys = keys@;
        proof {
            // Everything before the insertion point is not greater than the new key.
            assert forall|q: int| 0 <= q < p implies lex_le(#[trigger] old_out[q].sort_key(), key@) by {
                
                if p > 0 {
                    assert(keys@[p - 1]@ == out@[p - 1].sort_key());
                    if q < p - 1 {
                        assert(keys_sorted(old_out));
                        
                        lemma_lex_le_order(old_out[q].sort_key(), old_out[p - 1].sort_key(), key@);
                    }
                }
            }
        }
        out.insert(p, m);
        keys.insert(p, key);
        proof {
            perm = old_perm.insert(p as int, j as int);
            let nv = out@;
            assert forall|k: int| 0 <= k < j + 1 implies #[trigger] keys@[k]@ == out@[k].sort_key() by {
                if k < p {
                    assert(keys@[k] == old_keys[k]);
                } else if k > p {
                    assert(keys@[k] == old_keys[k - 1]);
                }
            }
            assert forall|k: int| 0 <= k < j + 1 implies #[trigger] out@[k] == input[perm[k]] by {
                if k < p {
                    assert(out@[k] == old_out[k]);
                } else if k > p {
                    assert(out@[k] == old_out[k - 1]);
                }
            }
            assert forall|a: int, b: int| 0 <= a < b < nv.len() implies lex_le(#[trigger] nv[a].sort_key(), #[trigger] nv[b].sort_key()) by {
                assert(nv[a] == out@[a]);
                assert(nv[b] == out@[b]);
                if a == p {
                    if b > p {
                        assert(out@[b] == old_out[b - 1]);
                        assert(keys@[b]@ == old_keys[b - 1]@);
                        lemma_lex_trichotomy(key@, old_keys[b - 1]@);
                    }
                } else if b == p {
                    assert(out@[a] == old_out[a]);
                } else {
                    let oa = if a < p { a } else { a - 1 };
                    let ob = if b < p { b } else { b - 1 };
                    assert(out@[a] == old_out[oa]);
                    assert(out@[b] == old_out[ob]);
                }
            }
            assert(keys_sorted(nv));
            assert forall|a: int, b: int| 0 <= a < b < j + 1 && out@[a].sort_key() == out@[b].sort_key()
                implies #[trigger] perm[a] < #[trigger] perm[b] by {
                if b == p {
                    assert(perm[b] == j);
                    assert(perm[a] == old_perm[a]);
                } else if a == p {
                    assert(out@[b] == old_out[b - 1]);
                    assert(keys@[b]@ == old_keys[b - 1]@);
                    assert(lex_lt(key@, old_keys[b - 1]@));
                    lemma_lex_trichotomy(key@, old_keys[b - 1]@);
                } else {
                    let oa = if a < p { a } else { a - 1 };
                    let ob = if b < p { b } else { b - 1 };
                    assert(out@[a] == old_out[oa]);
                    assert(out@[b] == old_out[ob]);
                }
            }
        }
        j += 1;
    }
    proof {
        let outv = out@;
        assert forall|k: int| 0 <= k < outv.len() implies #[trigger] outv[k] == input[perm[k]] by {
            
        }
        assert forall|i: int, j2: int| 0 <= i < j2 < outv.len() && outv[i].sort_key() == outv[j2].sort_key()
            implies #[trigger] perm[i] < #[trigger] perm[j2] by {
            assert(outv[i] == out@[i]);

        }
        assert(is_permutation(perm, input.len()));
    }
    out
}

} // verus!
