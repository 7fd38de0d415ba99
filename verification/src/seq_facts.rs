//! Small facts about sequences and the multisets of their elements, used
//! where the engine reorders collections without losing or inventing
//! elements.

use vstd::prelude::*;

use vstd::multiset::Multiset;
use vstd::seq_lib::lemma_multiset_commutative;

verus! {

/// Inserting one element keeps the multiset of a sequence's elements, plus
/// that element.
pub proof fn lemma_insert_to_multiset<A>(s: Seq<A>, p: int, x: A)
    requires
        0 <= p <= s.len(),
    ensures
        s.insert(p, x).to_multiset() =~= s.to_multiset().insert(x),
{
    broadcast use vstd::seq_lib::group_to_multiset_ensures;
    broadcast use vstd::multiset::group_multiset_axioms;

    let a = s.subrange(0, p);
    let b = s.subrange(p, s.len() as int);
    assert(s =~= a + b);
    assert(s.insert(p, x) =~= a.push(x) + b);
    lemma_multiset_commutative(a, b);
    lemma_multiset_commutative(a.push(x), b);
    assert(a.push(x).to_multiset() =~= a.to_multiset().insert(x));
}

/// Overwriting one position exchanges the old element for the new one in
/// the multiset of a sequence's elements.
pub proof fn lemma_update_to_multiset<A>(s: Seq<A>, i: int, x: A)
    requires
        0 <= i < s.len(),
    ensures
        s.update(i, x).to_multiset() =~= s.to_multiset().remove(s[i]).insert(x),
{
    broadcast use vstd::seq_lib::group_to_multiset_ensures;
    broadcast use vstd::multiset::group_multiset_axioms;

    let t = s.remove(i).insert(i, x);
    assert(s.update(i, x) =~= t);
    lemma_insert_to_multiset(s.remove(i), i, x);
}

/// Exchanging two positions keeps the multiset of a sequence's elements.
pub proof fn lemma_swap_to_multiset<A>(s: Seq<A>, i: int, j: int)
    requires
        0 <= i < s.len(),
        0 <= j < s.len(),
    ensures
        s.update(i, s[j]).update(j, s[i]).to_multiset() =~= s.to_multiset(),
{
    broadcast use vstd::seq_lib::group_to_multiset_ensures;
    broadcast use vstd::multiset::group_multiset_axioms;

    let s1 = s.update(i, s[j]);
    let s2 = s1.update(j, s[i]);
    lemma_update_to_multiset(s, i, s[j]);
    lemma_update_to_multiset(s1, j, s1[j]);
    assert(s.contains(s[i]));
    assert(s1.contains(s1[j]));
    if i == j {
        assert(s2.to_multiset() =~= s.to_multiset());
    } else {
        assert(s1[j] == s[j]);
        assert(s2.to_multiset() =~= s.to_multiset().remove(s[i]).insert(s[j]).remove(
            s[j],
        ).insert(s[i]));
        assert(s2.to_multiset() =~= s.to_multiset());
    }
}

} // verus!
