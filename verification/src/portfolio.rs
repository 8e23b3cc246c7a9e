//! Custodial portfolios: what the marketplace records of a portfolio it has
//! custody of, and the registry that holds one such record per identity.

use vstd::prelude::*;
use std::collections::BTreeSet;
use crate::error::NftTraderError;
use crate::primitives::{IdentityId, NftId, PortfolioId};

verus! {

/// A custodial portfolio as a mathematical value.
#[verifier::ext_equal]
pub struct PortfolioModel {
    /// The portfolio on the ledger.
    pub id: PortfolioId,
    /// The ids of its assets that the marketplace tracks as listed.
    pub nfts: Set<u64>,
}

/// A portfolio in the marketplace's custody, with the ids of its assets that
/// are tracked as listed. The set holds the number inside each `NftId`.
#[derive(Clone, Debug, PartialEq, Eq)]
pub struct NftPortfolioDetails {
    /// The portfolio on the ledger.
    pub id: PortfolioId,
    /// The ids of its assets that are tracked as listed.
    pub nfts: BTreeSet<u64>,
}

impl View for NftPortfolioDetails {
    type V = PortfolioModel;

    open spec fn view(&self) -> PortfolioModel {
        PortfolioModel { id: self.id, nfts: self.nfts@ }
    }
}

impl NftPortfolioDetails {
    /// A record for `id` with no asset tracked.
    pub fn new(id: PortfolioId) -> (r: NftPortfolioDetails)
        ensures
            r@ == (PortfolioModel { id, nfts: Set::empty() }),
    {
        NftPortfolioDetails { id, nfts: BTreeSet::new() }
    }

    /// A copy of this record.
    pub fn duplicate(&self) -> (r: NftPortfolioDetails)
        ensures
            r@ == self@,
    {
        NftPortfolioDetails { id: self.id, nfts: self.nfts.clone() }
    }

    /// Stops tracking `nft`. Fails with `NotInPortfolio`, changing nothing,
    /// when the asset was not tracked.
    pub fn remove_nft(&mut self, nft: NftId) -> (r: Result<(), NftTraderError>)
        ensures
            final(self).id == old(self).id,
            final(self).nfts@ == old(self).nfts@.remove(nft.0),
            old(self).nfts@.contains(nft.0) ==> r == Ok::<(), NftTraderError>(()),
            !old(self).nfts@.contains(nft.0) ==> r == Err::<(), NftTraderError>(
                NftTraderError::NotInPortfolio,
            ),
    {
        if self.nfts.remove(&nft.0) {
            Ok(())
        } else {
            Err(NftTraderError::NotInPortfolio)
        }
    }
}

/// The identities that a list of custody records names, in its order.
pub open spec fn identities(records: Seq<(IdentityId, NftPortfolioDetails)>) -> Seq<IdentityId> {
    records.map_values(|r: (IdentityId, NftPortfolioDetails)| r.0)
}

/// Record `i` of `records` is that of `did`.
pub open spec fn names(
    records: Seq<(IdentityId, NftPortfolioDetails)>,
    did: IdentityId,
    i: int,
) -> bool {
    0 <= i < records.len() && records[i].0 == did
}

/// The map that a list of custody records stands for, where no identity is
/// named twice: each identity named, with the portfolio of its record.
pub open spec fn map_of(records: Seq<(IdentityId, NftPortfolioDetails)>) -> Map<
    IdentityId,
    PortfolioModel,
> {
    Map::new(
        |did: IdentityId| exists|i: int| names(records, did, i),
        |did: IdentityId| records[choose|i: int| names(records, did, i)].1@,
    )
}

/// Where no identity is named twice, each record is the entry of its
/// identity in the map, and the map has no other entries.
pub proof fn lemma_map_of_records(records: Seq<(IdentityId, NftPortfolioDetails)>)
    requires
        identities(records).no_duplicates(),
    ensures
        forall|i: int|
            0 <= i < records.len() ==> map_of(records).contains_key((#[trigger] records[i]).0)
                && map_of(records)[records[i].0] == records[i].1@,
        forall|did: IdentityId|
            map_of(records).contains_key(did) ==> exists|i: int| #[trigger] names(records, did, i),
{
    assert forall|i: int| 0 <= i < records.len() implies map_of(records).contains_key(
        (#[trigger] records[i]).0,
    ) && map_of(records)[records[i].0] == records[i].1@ by {
        let did = records[i].0;
        assert(names(records, did, i));
        let j = choose|j: int| names(records, did, j);
        assert(names(records, did, j));
        assert(identities(records)[i] == identities(records)[j]);
    }
}

/// One more record, of an identity not yet named, adds one entry to the map.
proof fn lemma_map_of_push(
    records: Seq<(IdentityId, NftPortfolioDetails)>,
    did: IdentityId,
    details: NftPortfolioDetails,
)
    requires
        identities(records).no_duplicates(),
        !map_of(records).contains_key(did),
    ensures
        identities(records.push((did, details))).no_duplicates(),
        map_of(records.push((did, details))) == map_of(records).insert(did, details@),
{
    let longer = records.push((did, details));
    let n = records.len() as int;
    assert forall|i: int, j: int|
        0 <= i < longer.len() && 0 <= j < longer.len() && i != j implies identities(longer)[i]
        != identities(longer)[j] by {
        if i < n && j < n {
            assert(identities(records)[i] != identities(records)[j]);
        } else if i == n {
            if longer[j].0 == did {
                assert(names(records, did, j));
            }
        } else {
            if longer[i].0 == did {
                assert(names(records, did, i));
            }
        }
    }
    assert(names(longer, did, n));
    assert forall|k: IdentityId| map_of(longer).contains_key(k) <==> (k == did || map_of(
        records,
    ).contains_key(k)) by {
        if map_of(longer).contains_key(k) && k != did {
            let j = choose|j: int| names(longer, k, j);
            assert(names(records, k, j));
        }
        if map_of(records).contains_key(k) {
            let j = choose|j: int| names(records, k, j);
            assert(names(longer, k, j));
        }
    }
    assert forall|k: IdentityId| map_of(longer).contains_key(k) implies map_of(longer)[k]
        == map_of(records).insert(did, details@)[k] by {
        let j = choose|j: int| names(longer, k, j);
        assert(names(longer, k, j));
        if k != did {
            assert(names(records, k, j));
            let o = choose|o: int| names(records, k, o);
            assert(names(records, k, o));
            assert(identities(records)[j] == identities(records)[o]);
        } else {
            if j != n {
                assert(names(records, did, j));
            }
        }
    }
    assert(map_of(longer) =~= map_of(records).insert(did, details@));
}

/// Without record `i`, the map lacks the identity of that record and is
/// otherwise the same.
proof fn lemma_map_of_remove(records: Seq<(IdentityId, NftPortfolioDetails)>, i: int)
    requires
        identities(records).no_duplicates(),
        0 <= i < records.len(),
    ensures
        identities(records.remove(i)).no_duplicates(),
        map_of(records.remove(i)) == map_of(records).remove(records[i].0),
{
    let shorter = records.remove(i);
    let did = records[i].0;
    let up = |j: int|
        if j < i {
            j
        } else {
            j + 1
        };
    assert forall|a: int, b: int|
        0 <= a < shorter.len() && 0 <= b < shorter.len() && a != b implies identities(shorter)[a]
        != identities(shorter)[b] by {
        assert(identities(records)[up(a)] != identities(records)[up(b)]);
    }
    lemma_map_of_records(records);
    lemma_map_of_records(shorter);
    assert forall|k: IdentityId| map_of(shorter).contains_key(k) <==> (k != did && map_of(
        records,
    ).contains_key(k)) by {
        if map_of(shorter).contains_key(k) {
            let j = choose|j: int| names(shorter, k, j);
            assert(names(records, k, up(j)));
            assert(identities(records)[up(j)] != identities(records)[i]);
        }
        if k != did && map_of(records).contains_key(k) {
            let o = choose|o: int| names(records, k, o);
            let j = if o < i {
                o
            } else {
                o - 1
            };
            assert(names(shorter, k, j));
        }
    }
    assert forall|k: IdentityId| map_of(shorter).contains_key(k) implies map_of(shorter)[k]
        == map_of(records)[k] by {
        let j = choose|j: int| names(shorter, k, j);
        assert(names(shorter, k, j));
        assert(shorter[j] == records[up(j)]);
        assert(map_of(shorter)[shorter[j].0] == shorter[j].1@);
        assert(map_of(records)[records[up(j)].0] == records[up(j)].1@);
    }
    assert(map_of(shorter) =~= map_of(records).remove(did));
}

/// The custody registry: for each identity at most one custodial portfolio.
pub struct PortfolioRegistry {
    records: Vec<(IdentityId, NftPortfolioDetails)>,
}

impl View for PortfolioRegistry {
    type V = Map<IdentityId, PortfolioModel>;

    /// The registry as a map from identity to custodial portfolio.
    closed spec fn view(&self) -> Map<IdentityId, PortfolioModel> {
        map_of(self.records@)
    }
}

impl PortfolioRegistry {
    /// No identity occurs in two records.
    pub closed spec fn wf(&self) -> bool {
        identities(self.records@).no_duplicates()
    }

    /// The identity of each record, in the order the records are kept.
    pub closed spec fn owners(&self) -> Seq<IdentityId> {
        identities(self.records@)
    }

    /// At most one custodial portfolio exists per identity: no identity owns
    /// two records, and the identities that own one are those the registry
    /// maps.
    pub proof fn lemma_one_portfolio_per_identity(&self)
        requires
            self.wf(),
        ensures
            self.owners().no_duplicates(),
            self.owners().to_set() == self@.dom(),
    {
        let owners = self.owners();
        assert forall|did: IdentityId| owners.to_set().contains(did) <==> self@.dom().contains(
            did,
        ) by {
            if owners.contains(did) {
                let i = choose|i: int| 0 <= i < owners.len() && owners[i] == did;
                assert(names(self.records@, did, i));
            }
            if self@.dom().contains(did) {
                let i = choose|i: int| names(self.records@, did, i);
                assert(owners[i] == did);
            }
        }
        assert(owners.to_set() =~= self@.dom());
    }

    /// A registry without records.
    pub fn new() -> (r: PortfolioRegistry)
        ensures
            r.wf(),
            r@ == Map::<IdentityId, PortfolioModel>::empty(),
    {
        let r = PortfolioRegistry { records: Vec::new() };
        proof {
            assert(r@ =~= Map::<IdentityId, PortfolioModel>::empty());
        }
        r
    }

    /// The registry that `records` stand for, or `None` where they name an
    /// identity twice.
    pub fn from_records(records: &Vec<(IdentityId, NftPortfolioDetails)>) -> (r: Option<
        PortfolioRegistry,
    >)
        ensures
            match r {
                Some(registry) => {
                    &&& identities(records@).no_duplicates()
                    &&& registry.wf()
                    &&& registry@ == map_of(records@)
                },
                None => !identities(records@).no_duplicates(),
            },
    {
        let mut registry = PortfolioRegistry::new();
        let mut i: usize = 0;
        proof {
            assert(registry@ =~= map_of(records@.take(0)));
        }
        while i < records.len()
            invariant
                i <= records@.len(),
                registry.wf(),
                identities(records@.take(i as int)).no_duplicates(),
                registry@ == map_of(records@.take(i as int)),
            decreases records@.len() - i,
        {
            let did = records[i].0;
            if registry.contains(did) {
                proof {
                    let j = choose|j: int| names(records@.take(i as int), did, j);
                    assert(names(records@.take(i as int), did, j));
                    assert(identities(records@)[j] == identities(records@)[i as int]);
                }
                return None;
            }
            let details = records[i].1.duplicate();
            registry.insert(did, details);
            proof {
                lemma_map_of_push(records@.take(i as int), did, records@[i as int].1);
                assert(records@.take(i + 1) =~= records@.take(i as int).push(records@[i as int]));
            }
            i = i + 1;
        }
        proof {
            assert(records@.take(i as int) =~= records@);
        }
        Some(registry)
    }

    /// The records of the registry: each identity that has a custodial
    /// portfolio, once, with a copy of the portfolio.
    pub fn records(&self) -> (r: Vec<(IdentityId, NftPortfolioDetails)>)
        requires
            self.wf(),
        ensures
            identities(r@) == self.owners(),
            identities(r@).no_duplicates(),
            map_of(r@) == self@,
    {
        let mut out: Vec<(IdentityId, NftPortfolioDetails)> = Vec::new();
        let mut i: usize = 0;
        while i < self.records.len()
            invariant
                i <= self.records@.len(),
                out@.len() == i,
                forall|j: int|
                    0 <= j < i ==> (#[trigger] out@[j]).0 == self.records@[j].0 && out@[j].1@
                        == self.records@[j].1@,
            decreases self.records@.len() - i,
        {
            out.push((self.records[i].0, self.records[i].1.duplicate()));
            i = i + 1;
        }
        proof {
            assert(identities(out@) =~= self.owners());
            lemma_map_of_records(out@);
            lemma_map_of_records(self.records@);
            assert forall|k: IdentityId| map_of(out@).contains_key(k) <==> self@.contains_key(
                k,
            ) by {
                if map_of(out@).contains_key(k) {
                    let j = choose|j: int| names(out@, k, j);
                    assert(names(self.records@, k, j));
                }
                if self@.contains_key(k) {
                    let j = choose|j: int| names(self.records@, k, j);
                    assert(names(out@, k, j));
                }
            }
            assert forall|k: IdentityId| map_of(out@).contains_key(k) implies map_of(out@)[k]
                == self@[k] by {
                let j = choose|j: int| names(out@, k, j);
                assert(names(out@, k, j));
                assert(map_of(out@)[out@[j].0] == out@[j].1@);
                assert(map_of(self.records@)[self.records@[j].0] == self.records@[j].1@);
            }
            assert(map_of(out@) =~= self@);
        }
        out
    }

    /// Where the record of `did` stands, if there is one.
    fn find(&self, did: IdentityId) -> (r: Option<usize>)
        requires
            self.wf(),
        ensures
            match r {
                Some(i) => names(self.records@, did, i as int) && self@.contains_key(did)
                    && self@[did] == self.records@[i as int].1@,
                None => !self@.contains_key(did),
            },
    {
        let mut i: usize = 0;
        while i < self.records.len()
            invariant
                self.wf(),
                i <= self.records@.len(),
                forall|j: int| 0 <= j < i ==> self.records@[j].0 != did,
            decreases self.records@.len() - i,
        {
            if self.records[i].0 == did {
                proof {
                    lemma_map_of_records(self.records@);
                }
                return Some(i);
            }
            i = i + 1;
        }
        proof {
            if self@.contains_key(did) {
                let j = choose|j: int| names(self.records@, did, j);
                assert(names(self.records@, did, j));
            }
        }
        None
    }

    /// Whether `did` has a custodial portfolio.
    pub fn contains(&self, did: IdentityId) -> (r: bool)
        requires
            self.wf(),
        ensures
            r == self@.contains_key(did),
    {
        self.find(did).is_some()
    }

    /// The custodial portfolio of `did`, if it has one.
    pub fn get(&self, did: IdentityId) -> (r: Option<&NftPortfolioDetails>)
        requires
            self.wf(),
        ensures
            match r {
                Some(p) => self@.contains_key(did) && p@ == self@[did],
                None => !self@.contains_key(did),
            },
    {
        match self.find(did) {
            Some(i) => Some(&self.records[i].1),
            None => None,
        }
    }

    /// Takes the record of `did` out and hands back its portfolio, if there
    /// was one.
    pub fn remove(&mut self, did: IdentityId) -> (r: Option<NftPortfolioDetails>)
        requires
            old(self).wf(),
        ensures
            final(self).wf(),
            final(self)@ == old(self)@.remove(did),
            match r {
                Some(p) => old(self)@.contains_key(did) && p@ == old(self)@[did],
                None => !old(self)@.contains_key(did),
            },
    {
        match self.find(did) {
            Some(i) => {
                let record = self.records.remove(i);
                proof {
                    lemma_map_of_remove(old(self).records@, i as int);
                }
                Some(record.1)
            },
            None => {
                proof {
                    assert(self@ =~= old(self)@.remove(did));
                }
                None
            },
        }
    }

    /// Records `details` as the custodial portfolio of `did`, in place of the
    /// one it had, if any.
    pub fn insert(&mut self, did: IdentityId, details: NftPortfolioDetails)
        requires
            old(self).wf(),
        ensures
            final(self).wf(),
            final(self)@ == old(self)@.insert(did, details@),
    {
        let _ = self.remove(did);
        proof {
            lemma_map_of_push(self.records@, did, details);
            assert(old(self)@.remove(did).insert(did, details@) =~= old(self)@.insert(
                did,
                details@,
            ));
        }
        self.records.push((did, details));
    }
}

} // verus!
