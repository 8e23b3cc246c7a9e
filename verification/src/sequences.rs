//! Facts about sequences that the loops over collections rest on.

use vstd::prelude::*;
use vstd::std_specs::btree::increasing_seq;
use vstd::std_specs::cmp::OrdSpec;

verus! {

/// The elements of a prefix, one longer, are those of the prefix and the
/// element that follows it.
pub proof fn lemma_prefix_set<T>(s: Seq<T>, i: int)
    requires
        0 <= i < s.len(),
    ensures
        s.take(i + 1).to_set() == s.take(i).to_set().insert(s[i]),
        i + 1 == s.len() ==> s.take(i + 1) == s,
{
    let a = s.take(i);
    let b = s.take(i + 1);
    assert(b =~= a.push(s[i]));
    assert forall|x: T| b.to_set().contains(x) <==> a.to_set().insert(s[i]).contains(x) by {
        if b.contains(x) {
            let k = choose|k: int| 0 <= k < b.len() && b[k] == x;
            if k < i {
                assert(a[k] == x);
            }
        }
        if a.contains(x) {
            let k = choose|k: int| 0 <= k < a.len() && a[k] == x;
            assert(b[k] == x);
        }
        assert(b[i] == s[i]);
    }
    assert(b.to_set() =~= a.to_set().insert(s[i]));
    if i + 1 == s.len() {
        assert(b =~= s);
    }
}

/// Keys that all lie in `dom`, and among which every element of `dom`
/// occurs, make up `dom`.
pub proof fn lemma_keys_cover(keys: Seq<u64>, dom: Set<u64>)
    requires
        forall|i: int| 0 <= i < keys.len() ==> dom.contains(#[trigger] keys[i]),
        forall|k: u64| dom.contains(k) ==> exists|i: int| 0 <= i < keys.len() && keys[i] == k,
    ensures
        keys.to_set() == dom,
{
    assert forall|k: u64| keys.to_set().contains(k) <==> dom.contains(k) by {
        if keys.contains(k) {
            let i = choose|i: int| 0 <= i < keys.len() && keys[i] == k;
            assert(dom.contains(keys[i]));
        }
        if dom.contains(k) {
            let i = choose|i: int| 0 <= i < keys.len() && keys[i] == k;
            assert(keys[i] == k);
        }
    }
    assert(keys.to_set() =~= dom);
}

/// A sequence of integers that a sorted collection hands out rises strictly.
pub proof fn lemma_increasing(s: Seq<u64>)
    requires
        increasing_seq(s),
    ensures
        forall|i: int, j: int| 0 <= i < j < s.len() ==> s[i] < s[j],
{
    broadcast use vstd::std_specs::btree::axiom_increasing_seq_meaning;
    broadcast use vstd::laws_cmp::group_laws_cmp;

    assert forall|i: int, j: int| 0 <= i < j < s.len() implies s[i] < s[j] by {
        assert(s[i].cmp_spec(&s[j]) is Less);
    }
}

} // verus!
