//! The loops over the sale ledger's collections: listing and delisting a
//! batch, taking listings away, and going through ids in their order.

use vstd::prelude::*;
use std::collections::BTreeMap;
use std::collections::BTreeSet;
use crate::model::{lemma_raw_ids_prefix, listed_after, raw_ids, sales_after};
use crate::primitives::{AccountId, Balance, IdentityId, NFTId, NftId};
use crate::sale::NftSaleDetails;
use crate::sequences::{lemma_keys_cover, lemma_prefix_set};

verus! {

/// The keys that a walk over a price list hands out, in its order.
pub(crate) open spec fn price_keys(s: Seq<(&u64, &Option<Balance>)>) -> Seq<u64> {
    s.map_values(|kv: (&u64, &Option<Balance>)| *kv.0)
}

/// The keys that a walk over the listings hands out, in its order.
pub(crate) open spec fn sale_keys(s: Seq<(&u64, &NftSaleDetails)>) -> Seq<u64> {
    s.map_values(|kv: (&u64, &NftSaleDetails)| *kv.0)
}

/// The ids that have a listing in `sales`.
pub(crate) fn listed_ids(sales: &BTreeMap<u64, NftSaleDetails>) -> (r: BTreeSet<u64>)
    ensures
        r@ == sales@.dom(),
{
    let mut listed: BTreeSet<u64> = BTreeSet::new();
    let ghost mut done: Set<u64> = Set::empty();
    for kv in it: sales.iter()
        invariant
            forall|i: int|
                0 <= i < it.seq().len() ==> sales@.contains_key(*(#[trigger] it.seq()[i]).0),
            forall|k: u64|
                sales@.contains_key(k) ==> exists|i: int|
                    0 <= i < it.seq().len() && *(#[trigger] it.seq()[i]).0 == k,
            done == sale_keys(it.seq()).take(it.index()).to_set(),
            it.index() == it.seq().len() ==> done == sales@.dom(),
            listed@ == done,
    {
        listed.insert(*kv.0);
        proof {
            lemma_prefix_set(sale_keys(it.seq()), it.index());
            done = done.insert(*kv.0);
            assert(sale_keys(it.seq()).to_set() == sales@.dom()) by {
                assert forall|k: u64| sales@.contains_key(k) implies exists|i: int|
                    0 <= i < sale_keys(it.seq()).len() && sale_keys(it.seq())[i] == k by {
                    let j = choose|j: int| 0 <= j < it.seq().len() && *it.seq()[j].0 == k;
                    assert(sale_keys(it.seq())[j] == k);
                }
                lemma_keys_cover(sale_keys(it.seq()), sales@.dom());
            }
        }
    }
    listed
}

/// Sets the prices `nfts` for the seller `did`, paid at `account`: an asset
/// given a price is listed at it and joins `held`; an asset given none loses
/// its listing and leaves `held`.
pub(crate) fn set_prices(
    sales: &mut BTreeMap<u64, NftSaleDetails>,
    listed: &mut BTreeSet<u64>,
    held: &mut BTreeSet<u64>,
    nfts: &BTreeMap<u64, Option<Balance>>,
    account: AccountId,
    did: IdentityId,
)
    requires
        old(listed)@ == old(sales)@.dom(),
    ensures
        final(sales)@ == sales_after(old(sales)@, account, did, nfts@),
        final(held)@ == listed_after(old(held)@, nfts@),
        final(listed)@ == final(sales)@.dom(),
{
    let ghost mut done: Set<u64> = Set::empty();
    proof {
        assert(sales@ =~= sales_after(old(sales)@, account, did, nfts@.restrict(done)));
        assert(held@ =~= listed_after(old(held)@, nfts@.restrict(done)));
    }
    for kv in it: nfts.iter()
        invariant
            forall|i: int|
                0 <= i < it.seq().len() ==> nfts@.contains_key(*(#[trigger] it.seq()[i]).0)
                    && nfts@[*it.seq()[i].0] == *it.seq()[i].1,
            forall|k: u64|
                nfts@.contains_key(k) ==> exists|i: int|
                    0 <= i < it.seq().len() && *(#[trigger] it.seq()[i]).0 == k,
            done == price_keys(it.seq()).take(it.index()).to_set(),
            it.index() == it.seq().len() ==> done == nfts@.dom(),
            sales@ == sales_after(old(sales)@, account, did, nfts@.restrict(done)),
            held@ == listed_after(old(held)@, nfts@.restrict(done)),
            listed@ == sales@.dom(),
    {
        let id = *kv.0;
        match *kv.1 {
            Some(price) => {
                held.insert(id);
                sales.insert(id, NftSaleDetails { account, did, price });
                listed.insert(id);
            },
            None => {
                held.remove(&id);
                sales.remove(&id);
                listed.remove(&id);
            },
        }
        proof {
            let keys = price_keys(it.seq());
            lemma_prefix_set(keys, it.index());
            assert(keys[it.index()] == id);
                    done = done.insert(id);
            assert(keys.to_set() == nfts@.dom()) by {
                assert forall|k: u64| nfts@.contains_key(k) implies exists|i: int|
                    0 <= i < keys.len() && keys[i] == k by {
                    let j = choose|j: int| 0 <= j < it.seq().len() && *it.seq()[j].0 == k;
                    assert(keys[j] == k);
                }
                lemma_keys_cover(keys, nfts@.dom());
            }
            assert(sales@ =~= sales_after(old(sales)@, account, did, nfts@.restrict(done)));
            assert(held@ =~= listed_after(old(held)@, nfts@.restrict(done)));
            assert(listed@ =~= sales@.dom());
        }
    }
    proof {
        assert(nfts@.restrict(nfts@.dom()) =~= nfts@);
    }
}

/// What is left of `held` once `ids` are taken out, where every one of them
/// is in it and none is named twice; `None` otherwise.
pub(crate) fn rest_without(held: &BTreeSet<u64>, ids: &Vec<NftId>) -> (r: Option<BTreeSet<u64>>)
    ensures
        match r {
            Some(rest) => {
                &&& ids@.no_duplicates()
                &&& forall|i: int| 0 <= i < ids@.len() ==> held@.contains((#[trigger] ids@[i]).0)
                &&& rest@ == held@.difference(raw_ids(ids@))
            },
            None => !(ids@.no_duplicates() && forall|i: int|
                0 <= i < ids@.len() ==> held@.contains((#[trigger] ids@[i]).0)),
        },
{
    let mut rest = held.clone();
    let mut i: usize = 0;
    proof {
        assert(raw_ids(ids@.take(0)) =~= Set::<u64>::empty());
        assert(rest@ =~= held@.difference(raw_ids(ids@.take(0))));
    }
    while i < ids.len()
        invariant
            i <= ids@.len(),
            ids@.take(i as int).no_duplicates(),
            forall|j: int| 0 <= j < i ==> held@.contains((#[trigger] ids@[j]).0),
            rest@ == held@.difference(raw_ids(ids@.take(i as int))),
        decreases ids@.len() - i,
    {
        let id = ids[i].0;
        let found = rest.remove(&id);
        proof {
            lemma_raw_ids_prefix(ids@, i as int);
            if found {
                assert(held@.contains(id));
                assert(!raw_ids(ids@.take(i as int)).contains(id));
                let longer = ids@.take(i + 1);
                assert forall|a: int, b: int|
                    0 <= a < longer.len() && 0 <= b < longer.len() && a != b implies longer[a]
                    != longer[b] by {
                    if a < i && b < i {
                        assert(ids@.take(i as int)[a] != ids@.take(i as int)[b]);
                    } else if a == i {
                        assert(ids@.take(i as int)[b] == ids@[b]);
                        assert(ids@.take(i as int).contains(ids@[b]));
                    } else {
                        assert(ids@.take(i as int)[a] == ids@[a]);
                        assert(ids@.take(i as int).contains(ids@[a]));
                    }
                }
                assert(rest@ =~= held@.difference(raw_ids(ids@.take(i + 1))));
            } else {
                if held@.contains(id) {
                    assert(raw_ids(ids@.take(i as int)).contains(id));
                    assert(ids@.take(i as int).contains(NftId(id)));
                    let k = choose|k: int|
                        0 <= k < ids@.take(i as int).len() && ids@.take(i as int)[k] == NftId(id);
                    assert(ids@[k] == ids@[i as int]);
                    assert(!ids@.no_duplicates());
                } else {
                    assert(!held@.contains(ids@[i as int].0));
                }
            }
        }
        if !found {
            return None;
        }
        i = i + 1;
    }
    proof {
        assert(ids@.take(i as int) =~= ids@);
    }
    Some(rest)
}

/// Takes the listing of each of `ids` away.
pub(crate) fn unlist_ids(
    sales: &mut BTreeMap<u64, NftSaleDetails>,
    listed: &mut BTreeSet<u64>,
    ids: &Vec<NftId>,
)
    requires
        old(listed)@ == old(sales)@.dom(),
    ensures
        final(sales)@ == old(sales)@.remove_keys(raw_ids(ids@)),
        final(listed)@ == final(sales)@.dom(),
{
    let mut i: usize = 0;
    proof {
        assert(raw_ids(ids@.take(0)) =~= Set::<u64>::empty());
        assert(sales@ =~= old(sales)@.remove_keys(raw_ids(ids@.take(0))));
    }
    while i < ids.len()
        invariant
            i <= ids@.len(),
            sales@ == old(sales)@.remove_keys(raw_ids(ids@.take(i as int))),
            listed@ == sales@.dom(),
        decreases ids@.len() - i,
    {
        let id = ids[i].0;
        sales.remove(&id);
        listed.remove(&id);
        proof {
            lemma_raw_ids_prefix(ids@, i as int);
            assert(sales@ =~= old(sales)@.remove_keys(raw_ids(ids@.take(i + 1))));
            assert(listed@ =~= sales@.dom());
        }
        i = i + 1;
    }
    proof {
        assert(ids@.take(i as int) =~= ids@);
    }
}

/// Takes away the listing of every asset in `nfts`.
pub(crate) fn unlist_all(
    sales: &mut BTreeMap<u64, NftSaleDetails>,
    listed: &mut BTreeSet<u64>,
    nfts: &BTreeSet<u64>,
)
    requires
        old(listed)@ == old(sales)@.dom(),
    ensures
        final(sales)@ == old(sales)@.remove_keys(nfts@),
        final(listed)@ == final(sales)@.dom(),
{
    let ghost mut done: Set<u64> = Set::empty();
    proof {
        assert(sales@ =~= old(sales)@.remove_keys(done));
    }
    for nft in it: nfts.iter()
        invariant
            it.seq().unref().to_set() == nfts@,
            done == it.seq().unref().take(it.index()).to_set(),
            it.index() == it.seq().len() ==> done == nfts@,
            sales@ == old(sales)@.remove_keys(done),
            listed@ == sales@.dom(),
    {
        sales.remove(nft);
        listed.remove(nft);
        proof {
            lemma_prefix_set(it.seq().unref(), it.index());
            done = done.insert(*nft);
            assert(sales@ =~= old(sales)@.remove_keys(done));
            assert(listed@ =~= sales@.dom());
        }
    }
}

/// The same ids in the ledger's own type.
pub(crate) fn ledger_ids(ids: &Vec<NftId>) -> (r: Vec<NFTId>)
    ensures
        r@ == ids@.map_values(|id: NftId| NFTId(id.0)),
{
    let mut out: Vec<NFTId> = Vec::new();
    let mut i: usize = 0;
    while i < ids.len()
        invariant
            i <= ids@.len(),
            out@ == ids@.take(i as int).map_values(|id: NftId| NFTId(id.0)),
        decreases ids@.len() - i,
    {
        out.push(ids[i].nft());
        proof {
            assert(ids@.take(i + 1) =~= ids@.take(i as int).push(ids@[i as int]));
            assert(out@ =~= ids@.take(i + 1).map_values(|id: NftId| NFTId(id.0)));
        }
        i = i + 1;
    }
    proof {
        assert(ids@.take(i as int) =~= ids@);
    }
    out
}

} // verus!
