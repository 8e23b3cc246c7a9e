//! The marketplace: the custody registry, the sale ledger and the rules that
//! tie them together.
//!
//! The marketplace never reaches the asset ledger itself. Where an operation
//! needs the ledger, it comes in two parts. The first, named `.._request`,
//! changes nothing: it says whether the operation may go ahead and what to
//! ask of the ledger. The second takes what the ledger answered and changes
//! the marketplace. Every operation that fails leaves the marketplace as it
//! was.

use vstd::prelude::*;
use std::collections::BTreeMap;
use std::collections::BTreeSet;
use crate::error::{NftTraderError, PolymeshResult};
use crate::events::{NFTSold, NFTsForSale, PortfolioAdded, PortfolioRemoved, WithdrawnNFTs};
use crate::laws::{lemma_consistent_is_sound, lemma_step_keeps_invariants, minds_own_listings};
use crate::ledger::{
    venue_description, CustodyAcceptance, CustodyPortfolioRequest, CustodyQuery, Leg, NFTs,
    NftPurchase, PortfolioMove, Settlement, VenueDetails, VenueRequest, VenueType,
};
use crate::listings::{
    ledger_ids, listed_ids, price_keys, rest_without, sale_keys, set_prices, unlist_all,
    unlist_ids,
};
use crate::model::{
    answer_for, custody_check, custody_failure, first_unverified, is_price_list,
    lemma_first_unverified, raw_ids, Step, TraderModel,
};
use crate::portfolio::{
    identities, lemma_map_of_records, map_of, names, NftPortfolioDetails, PortfolioRegistry,
};
use crate::primitives::{
    AccountId, Balance, IdentityId, NFTId, NftId, PortfolioId, PortfolioKind, PortfolioName,
    PortfolioNumber, Ticker, VenueId,
};
use crate::sale::{NftPrice, NftSaleDetails};
use crate::sequences::{lemma_increasing, lemma_prefix_set};
use crate::state::ContractState;

verus! {

/// A marketplace instance for one collection.
pub struct NftTrader {
    state: ContractState,
    admin: Option<AccountId>,
    ticker: Ticker,
    venue: VenueId,
    did: IdentityId,
    portfolios: PortfolioRegistry,
    nft_sales: BTreeMap<u64, NftSaleDetails>,
    nfts: BTreeSet<u64>,
}

impl View for NftTrader {
    type V = TraderModel;

    closed spec fn view(&self) -> TraderModel {
        TraderModel {
            state: self.state,
            admin: self.admin,
            ticker: self.ticker,
            venue: self.venue,
            did: self.did,
            portfolios: self.portfolios@,
            sales: self.nft_sales@,
        }
    }
}

/// Everything a marketplace instance remembers, as plain values: what is
/// written down to keep an instance and read back to restore it.
pub struct TraderRecord {
    pub state: ContractState,
    pub admin: Option<AccountId>,
    pub ticker: Ticker,
    pub venue: VenueId,
    pub did: IdentityId,
    /// The custodial portfolio of each identity that has one.
    pub portfolios: Vec<(IdentityId, NftPortfolioDetails)>,
    /// The listing of each listed asset, by the number inside its id.
    pub sales: BTreeMap<u64, NftSaleDetails>,
}

impl TraderRecord {
    /// The instance that the record stands for, where it names no identity
    /// twice.
    pub open spec fn model(self) -> TraderModel {
        TraderModel {
            state: self.state,
            admin: self.admin,
            ticker: self.ticker,
            venue: self.venue,
            did: self.did,
            portfolios: map_of(self.portfolios@),
            sales: self.sales@,
        }
    }
}

impl NftTrader {
    /// The registry holds one record for an identity at most, and the set of
    /// listed ids is the set of ids that have a listing.
    pub closed spec fn wf(&self) -> bool {
        &&& self.portfolios.wf()
        &&& self.nfts@ == self.nft_sales@.dom()
    }

    /// The identity of each registered custodial portfolio, one entry for
    /// each registration.
    pub closed spec fn custodians(&self) -> Seq<IdentityId> {
        self.portfolios.owners()
    }

    /// At most one custodial portfolio exists per identity: no identity is
    /// registered twice.
    pub proof fn lemma_one_portfolio_per_identity(&self)
        requires
            self.wf(),
        ensures
            self.custodians().no_duplicates(),
            self.custodians().to_set() == self@.portfolios.dom(),
    {
        self.portfolios.lemma_one_portfolio_per_identity();
    }

    /// A fresh instance for the collection `ticker`, administered by `caller`.
    /// It is deployed, not yet initialized; it knows no venue and no identity
    /// of its own, holds no portfolio and lists nothing.
    pub fn new(ticker: Ticker, caller: AccountId) -> (r: Result<NftTrader, NftTraderError>)
        ensures
            r matches Ok(trader) && trader.wf() && trader@ == TraderModel::initial(ticker, caller)
                && trader@.sound() && trader@.consistent(),
    {
        let trader = NftTrader {
            state: ContractState::Deployed,
            admin: Some(caller),
            ticker,
            venue: VenueId(0),
            did: IdentityId::default(),
            portfolios: PortfolioRegistry::new(),
            nft_sales: BTreeMap::new(),
            nfts: BTreeSet::new(),
        };
        proof {
            assert(trader.nfts@ =~= trader.nft_sales@.dom());
            assert(trader@ =~= TraderModel::initial(ticker, caller));
        }
        Ok(trader)
    }

    /// Everything the instance remembers, as plain values.
    pub fn record(&self) -> (r: TraderRecord)
        requires
            self.wf(),
        ensures
            identities(r.portfolios@).no_duplicates(),
            r.model() == self@,
    {
        let r = TraderRecord {
            state: self.state,
            admin: self.admin,
            ticker: self.ticker,
            venue: self.venue,
            did: self.did,
            portfolios: self.portfolios.records(),
            sales: self.nft_sales.clone(),
        };
        proof {
            assert(r.model() =~= self@);
        }
        r
    }

    /// The instance that `record` stands for, or `None` where it names an
    /// identity twice.
    pub fn restore(record: TraderRecord) -> (r: Option<NftTrader>)
        ensures
            match r {
                Some(trader) => {
                    &&& identities(record.portfolios@).no_duplicates()
                    &&& trader.wf()
                    &&& trader@ == record.model()
                },
                None => !identities(record.portfolios@).no_duplicates(),
            },
    {
        let portfolios = match PortfolioRegistry::from_records(&record.portfolios) {
            None => {
                return None;
            },
            Some(portfolios) => portfolios,
        };
        let nfts = listed_ids(&record.sales);
        let trader = NftTrader {
            state: record.state,
            admin: record.admin,
            ticker: record.ticker,
            venue: record.venue,
            did: record.did,
            portfolios,
            nft_sales: record.sales,
            nfts,
        };
        proof {
            assert(trader@ =~= record.model());
        }
        Some(trader)
    }

    /// Whether every listed asset is in the registered custodial portfolio of
    /// its seller.
    pub fn is_sound(&self) -> (r: bool)
        requires
            self.wf(),
        ensures
            r == self@.sound(),
    {
        for kv in it: self.nft_sales.iter()
            invariant
                self.wf(),
                forall|i: int|
                    0 <= i < it.seq().len() ==> self.nft_sales@.contains_key(
                        *(#[trigger] it.seq()[i]).0,
                    ) && self.nft_sales@[*it.seq()[i].0] == *it.seq()[i].1,
                forall|k: u64|
                    self.nft_sales@.contains_key(k) ==> exists|i: int|
                        0 <= i < it.seq().len() && *(#[trigger] it.seq()[i]).0 == k,
                forall|j: int|
                    0 <= j < it.index() ==> self@.portfolios.contains_key(
                        self@.sales[*(#[trigger] it.seq()[j]).0].did,
                    ) && self@.portfolios[self@.sales[*it.seq()[j].0].did].nfts.contains(
                        *it.seq()[j].0,
                    ),
        {
            let held = match self.portfolios.get(kv.1.did) {
                None => false,
                Some(details) => details.nfts.contains(kv.0),
            };
            if !held {
                proof {
                    assert(self@.sales.contains_key(*kv.0));
                }
                return false;
            }
        }
        true
    }

    /// Whether listings and portfolios agree both ways: an identity's
    /// custodial portfolio holds an asset for sale exactly when the asset is
    /// listed with that identity as its seller.
    pub fn is_consistent(&self) -> (r: bool)
        requires
            self.wf(),
        ensures
            r == self@.consistent(),
    {
        if !self.is_sound() {
            proof {
                if self@.consistent() {
                    lemma_consistent_is_sound(self@);
                }
            }
            return false;
        }
        let records = self.portfolios.records();
        proof {
            lemma_map_of_records(records@);
        }
        let mut i: usize = 0;
        while i < records.len()
            invariant
                self.wf(),
                self@.sound(),
                i <= records@.len(),
                identities(records@).no_duplicates(),
                map_of(records@) == self@.portfolios,
                forall|j: int|
                    0 <= j < records@.len() ==> map_of(records@).contains_key(
                        (#[trigger] records@[j]).0,
                    ) && map_of(records@)[records@[j].0] == records@[j].1@,
                forall|did: IdentityId|
                    map_of(records@).contains_key(did) ==> exists|j: int| #[trigger]
                        names(records@, did, j),
                forall|j: int, id: u64|
                    0 <= j < i && (#[trigger] records@[j]).1.nfts@.contains(id)
                        ==> #[trigger] self@.sales.contains_key(id) && self@.sales[id].did
                        == records@[j].0,
            decreases records@.len() - i,
        {
            let did = records[i].0;
            if !self.sold_by(&records[i].1.nfts, did) {
                proof {
                    assert(self@.portfolios.contains_key(did));
                    assert(self@.portfolios[did].nfts == records@[i as int].1.nfts@);
                }
                return false;
            }
            proof {
                assert forall|j: int, id: u64|
                    0 <= j < i + 1 && (#[trigger] records@[j]).1.nfts@.contains(
                        id,
                    ) implies #[trigger] self@.sales.contains_key(id) && self@.sales[id].did
                    == records@[j].0 by {
                    if j == i {
                        assert(records@[i as int].1.nfts@.contains(id));
                    }
                }
            }
            i = i + 1;
        }
        proof {
            assert forall|did: IdentityId, id: u64|
                (self@.portfolios.contains_key(did)
                    && #[trigger] self@.portfolios[did].nfts.contains(id)) <==> (
                self@.sales.contains_key(id) && self@.sales[id].did == did) by {
                if self@.portfolios.contains_key(did) && self@.portfolios[did].nfts.contains(id) {
                    let j = choose|j: int| names(records@, did, j);
                    assert(names(records@, did, j));
                    assert(records@[j].1.nfts@.contains(id));
                }
            }
        }
        true
    }

    /// Whether every asset of `held` is listed with `did` as its seller.
    fn sold_by(&self, held: &BTreeSet<u64>, did: IdentityId) -> (r: bool)
        ensures
            r == (forall|id: u64|
                held@.contains(id) ==> #[trigger] self@.sales.contains_key(id)
                    && self@.sales[id].did == did),
    {
        let ghost mut done: Set<u64> = Set::empty();
        for nft in it: held.iter()
            invariant
                it.seq().unref().to_set() == held@,
                done == it.seq().unref().take(it.index()).to_set(),
                it.index() == it.seq().len() ==> done == held@,
                forall|id: u64|
                    done.contains(id) ==> #[trigger] self@.sales.contains_key(id)
                        && self@.sales[id].did == did,
        {
            let listed = match self.nft_sales.get(nft) {
                None => false,
                Some(sale) => sale.did == did,
            };
            proof {
                lemma_prefix_set(it.seq().unref(), it.index());
                assert(it.seq().unref()[it.index()] == *nft);
                assert(it.seq().unref().contains(*nft));
                assert(held@.contains(*nft));
            }
            if !listed {
                proof {
                    assert(!(self@.sales.contains_key(*nft) && self@.sales[*nft].did == did));
                }
                return false;
            }
            proof {
                done = done.insert(*nft);
            }
        }
        true
    }

    /// Passes only where `caller` is the administrator.
    pub fn ensure_admin(&self, caller: AccountId) -> (r: Result<(), NftTraderError>)
        ensures
            r == self@.admin_check(caller),
    {
        match self.admin {
            Some(admin) => if admin == caller {
                Ok(())
            } else {
                Err(NftTraderError::NotAdmin)
            },
            None => Err(NftTraderError::NotAdmin),
        }
    }

    /// Whether `caller` may initialize the instance now, and what to ask of
    /// the ledger for it: to create the venue at which sales will be settled.
    pub fn init_request(&self, caller: AccountId) -> (r: Result<VenueRequest, NftTraderError>)
        ensures
            match self@.init_check(caller) {
                Err(e) => r == Err::<VenueRequest, NftTraderError>(e),
                Ok(_) => {
                    &&& r matches Ok(request)
                    &&& request.details.0@ == venue_description()
                    &&& request.kind == VenueType::Other
                },
            },
    {
        match self.ensure_admin(caller) {
            Err(e) => {
                return Err(e);
            },
            Ok(_) => {},
        }
        match self.state {
            ContractState::Deployed => {},
            _ => {
                return Err(NftTraderError::AlreadyInitialized);
            },
        }
        let details = vec![
            78u8, 70u8, 84u8, 32u8, 84u8, 114u8, 97u8, 100u8, 101u8, 114u8, 32u8, 86u8, 101u8,
            110u8, 117u8, 101u8,
        ];
        proof {
            assert(details@ =~= venue_description());
        }
        Ok(VenueRequest { details: VenueDetails(details), kind: VenueType::Other })
    }

    /// Initializes the instance with its own identity and the venue that the
    /// ledger created for it, both in `created`; the ledger's error fails the
    /// call. Only the administrator may initialize, and only once.
    pub fn init(&mut self, caller: AccountId, created: PolymeshResult<(IdentityId, VenueId)>) -> (r:
        Result<(), NftTraderError>)
        requires
            old(self).wf(),
        ensures
            final(self).wf(),
            old(self)@.sound() ==> final(self)@.sound(),
            old(self)@.consistent() ==> final(self)@.consistent(),
            final(self)@ == old(self)@.step((Step::Init { caller, created })),
            match old(self)@.init_outcome(caller, created) {
                Err(e) => r == Err::<(), NftTraderError>(e) && final(self)@ == old(self)@,
                Ok(next) => r == Ok::<(), NftTraderError>(()) && final(self)@ == next,
            },
    {
        match self.ensure_admin(caller) {
            Err(e) => {
                return Err(e);
            },
            Ok(_) => {},
        }
        match self.state {
            ContractState::Deployed => {},
            _ => {
                return Err(NftTraderError::AlreadyInitialized);
            },
        }
        let (did, venue) = match created {
            Err(e) => {
                return Err(NftTraderError::PolymeshInk(e));
            },
            Ok(created) => created,
        };
        self.did = did;
        self.venue = venue;
        self.state = ContractState::Initialized;
        proof {
            lemma_step_keeps_invariants(old(self)@, Step::Init { caller, created });
        }
        Ok(())
    }

    /// Closes the instance, whatever state it is in. Only the administrator
    /// may do so. A closed instance trades no more, but owners can still
    /// withdraw their assets and take custody back.
    pub fn close(&mut self, caller: AccountId) -> (r: Result<(), NftTraderError>)
        requires
            old(self).wf(),
        ensures
            final(self).wf(),
            old(self)@.sound() ==> final(self)@.sound(),
            old(self)@.consistent() ==> final(self)@.consistent(),
            final(self)@ == old(self)@.step((Step::Close { caller })),
            match old(self)@.close_outcome(caller) {
                Err(e) => r == Err::<(), NftTraderError>(e) && final(self)@ == old(self)@,
                Ok(next) => r == Ok::<(), NftTraderError>(()) && final(self)@ == next,
            },
    {
        match self.ensure_admin(caller) {
            Err(e) => {
                return Err(e);
            },
            Ok(_) => {},
        }
        self.state = ContractState::Closed;
        proof {
            lemma_step_keeps_invariants(old(self)@, Step::Close { caller });
        }
        Ok(())
    }

    /// The caller's identity, where the caller has a custodial portfolio.
    fn custodian(&self, caller_did: PolymeshResult<IdentityId>) -> (r: Result<
        IdentityId,
        NftTraderError,
    >)
        requires
            self.wf(),
        ensures
            r == self@.custodian(caller_did),
    {
        match caller_did {
            Err(e) => Err(NftTraderError::PolymeshInk(e)),
            Ok(did) => if self.portfolios.contains(did) {
                Ok(did)
            } else {
                Err(NftTraderError::NoPortfolio)
            },
        }
    }

    /// The caller's custodial portfolio. Fails with the ledger's error where
    /// the caller's identity could not be had, with `NoPortfolio` where the
    /// caller has none.
    pub fn ensure_has_portfolio(&self, caller_did: PolymeshResult<IdentityId>) -> (r: Result<
        &NftPortfolioDetails,
        NftTraderError,
    >)
        requires
            self.wf(),
        ensures
            match self@.custodian(caller_did) {
                Err(e) => r == Err::<&NftPortfolioDetails, NftTraderError>(e),
                Ok(did) => r matches Ok(details) && details@ == self@.portfolios[did],
            },
    {
        match self.custodian(caller_did) {
            Err(e) => Err(e),
            Ok(did) => Ok(self.portfolios.get(did).unwrap()),
        }
    }

    /// The caller's identity, where the caller has no custodial portfolio.
    /// Fails with the ledger's error where the caller's identity could not be
    /// had, with `AlreadyHavePortfolio` where the caller has one.
    pub fn ensure_no_portfolio(&self, caller_did: PolymeshResult<IdentityId>) -> (r: Result<
        IdentityId,
        NftTraderError,
    >)
        requires
            self.wf(),
        ensures
            r == self@.newcomer(caller_did),
    {
        match caller_did {
            Err(e) => Err(NftTraderError::PolymeshInk(e)),
            Ok(did) => if self.portfolios.contains(did) {
                Err(NftTraderError::AlreadyHavePortfolio)
            } else {
                Ok(did)
            },
        }
    }

    /// The caller's custodial portfolio on the ledger, or `None` where the
    /// caller has none or the caller's identity could not be had.
    pub fn have_portfolio(&self, caller_did: PolymeshResult<IdentityId>) -> (r: Result<
        Option<PortfolioId>,
        NftTraderError,
    >)
        requires
            self.wf(),
        ensures
            match self@.custodian(caller_did) {
                Err(_) => r == Ok::<Option<PortfolioId>, NftTraderError>(None),
                Ok(did) => r == Ok::<Option<PortfolioId>, NftTraderError>(
                    Some(self@.portfolios[did].id),
                ),
            },
    {
        match self.ensure_has_portfolio(caller_did) {
            Err(_) => Ok(None),
            Ok(details) => Ok(Some(details.id)),
        }
    }

    /// Whether the caller may have a portfolio created for custody now, and
    /// what to ask of the ledger for it.
    pub fn create_portfolio_request(
        &self,
        caller_did: PolymeshResult<IdentityId>,
        portfolio_name: PortfolioName,
    ) -> (r: Result<CustodyPortfolioRequest, NftTraderError>)
        requires
            self.wf(),
        ensures
            match self@.add_check(caller_did) {
                Err(e) => r == Err::<CustodyPortfolioRequest, NftTraderError>(e),
                Ok(did) => r == Ok::<CustodyPortfolioRequest, NftTraderError>(
                    CustodyPortfolioRequest { owner: did, name: portfolio_name },
                ),
            },
    {
        match self.state.ensure_ready() {
            Err(e) => {
                return Err(e);
            },
            Ok(_) => {},
        }
        match self.ensure_no_portfolio(caller_did) {
            Err(e) => Err(e),
            Ok(did) => Ok(CustodyPortfolioRequest { owner: did, name: portfolio_name }),
        }
    }

    /// Registers the portfolio that the ledger created for the caller and
    /// gave into the marketplace's custody, named in `created`, as the
    /// caller's custodial portfolio; the ledger's error fails the call. The
    /// portfolio starts with no asset listed.
    pub fn create_portfolio(
        &mut self,
        caller_did: PolymeshResult<IdentityId>,
        created: PolymeshResult<PortfolioId>,
    ) -> (r: Result<PortfolioAdded, NftTraderError>)
        requires
            old(self).wf(),
        ensures
            final(self).wf(),
            old(self)@.sound() ==> final(self)@.sound(),
            old(self)@.consistent() ==> final(self)@.consistent(),
            final(self)@ == old(self)@.step((Step::CreatePortfolio { caller_did, created })),
            match old(self)@.create_outcome(caller_did, created) {
                Err(e) => r == Err::<PortfolioAdded, NftTraderError>(e) && final(self)@ == old(
                    self,
                )@,
                Ok(next) => {
                    &&& final(self)@ == next
                    &&& created matches Ok(portfolio)
                    &&& r == Ok::<PortfolioAdded, NftTraderError>(PortfolioAdded { portfolio })
                },
            },
    {
        match self.state.ensure_ready() {
            Err(e) => {
                return Err(e);
            },
            Ok(_) => {},
        }
        let did = match self.ensure_no_portfolio(caller_did) {
            Err(e) => {
                return Err(e);
            },
            Ok(did) => did,
        };
        let portfolio = match created {
            Err(e) => {
                return Err(NftTraderError::PolymeshInk(e));
            },
            Ok(portfolio) => portfolio,
        };
        self.portfolios.insert(did, NftPortfolioDetails::new(portfolio));
        proof {
            lemma_step_keeps_invariants(old(self)@, Step::CreatePortfolio { caller_did, created });
        }
        Ok(PortfolioAdded { portfolio })
    }

    /// Whether the caller may give the portfolio numbered `portfolio` into
    /// custody now, and what to ask of the ledger for it: to accept custody
    /// under the authorization `auth_id`.
    pub fn add_portfolio_request(
        &self,
        caller_did: PolymeshResult<IdentityId>,
        auth_id: u64,
        portfolio: PortfolioNumber,
    ) -> (r: Result<CustodyAcceptance, NftTraderError>)
        requires
            self.wf(),
        ensures
            match self@.add_check(caller_did) {
                Err(e) => r == Err::<CustodyAcceptance, NftTraderError>(e),
                Ok(_) => r == Ok::<CustodyAcceptance, NftTraderError>(
                    CustodyAcceptance { auth_id, kind: PortfolioKind::User(portfolio) },
                ),
            },
    {
        match self.state.ensure_ready() {
            Err(e) => {
                return Err(e);
            },
            Ok(_) => {},
        }
        match self.ensure_no_portfolio(caller_did) {
            Err(e) => Err(e),
            Ok(_) => Ok(CustodyAcceptance { auth_id, kind: PortfolioKind::User(portfolio) }),
        }
    }

    /// Registers the portfolio of which the ledger gave custody, named in
    /// `accepted`, as the caller's custodial portfolio; the ledger's error
    /// fails the call. Fails with `InvalidPortfolioAuthorization` where the
    /// portfolio is not the caller's own.
    pub fn add_portfolio(
        &mut self,
        caller_did: PolymeshResult<IdentityId>,
        accepted: PolymeshResult<PortfolioId>,
    ) -> (r: Result<PortfolioAdded, NftTraderError>)
        requires
            old(self).wf(),
        ensures
            final(self).wf(),
            old(self)@.sound() ==> final(self)@.sound(),
            old(self)@.consistent() ==> final(self)@.consistent(),
            final(self)@ == old(self)@.step((Step::AddPortfolio { caller_did, accepted })),
            match old(self)@.add_outcome(caller_did, accepted) {
                Err(e) => r == Err::<PortfolioAdded, NftTraderError>(e) && final(self)@ == old(
                    self,
                )@,
                Ok(next) => {
                    &&& final(self)@ == next
                    &&& accepted matches Ok(portfolio)
                    &&& r == Ok::<PortfolioAdded, NftTraderError>(PortfolioAdded { portfolio })
                },
            },
    {
        match self.state.ensure_ready() {
            Err(e) => {
                return Err(e);
            },
            Ok(_) => {},
        }
        let did = match self.ensure_no_portfolio(caller_did) {
            Err(e) => {
                return Err(e);
            },
            Ok(did) => did,
        };
        let portfolio = match accepted {
            Err(e) => {
                return Err(NftTraderError::PolymeshInk(e));
            },
            Ok(portfolio) => portfolio,
        };
        if did != portfolio.did {
            return Err(NftTraderError::InvalidPortfolioAuthorization);
        }
        self.portfolios.insert(did, NftPortfolioDetails::new(portfolio));
        proof {
            lemma_step_keeps_invariants(old(self)@, Step::AddPortfolio { caller_did, accepted });
        }
        Ok(PortfolioAdded { portfolio })
    }

    /// Whether the caller may take custody back now, and of which portfolio
    /// the marketplace is to quit custody on the ledger.
    pub fn remove_portfolio_request(&self, caller_did: PolymeshResult<IdentityId>) -> (r: Result<
        PortfolioId,
        NftTraderError,
    >)
        requires
            self.wf(),
        ensures
            match self@.remove_check(caller_did) {
                Err(e) => r == Err::<PortfolioId, NftTraderError>(e),
                Ok(did) => r == Ok::<PortfolioId, NftTraderError>(self@.portfolios[did].id),
            },
    {
        match self.state.ensure_withdraw() {
            Err(e) => {
                return Err(e);
            },
            Ok(_) => {},
        }
        match self.ensure_has_portfolio(caller_did) {
            Err(e) => Err(e),
            Ok(details) => Ok(details.id),
        }
    }

    /// Records that the caller's custodial portfolio went back to its owner:
    /// the registration is gone, and with it the listing of every asset the
    /// portfolio held for sale. `quit` is what the ledger answered when asked
    /// to quit custody; its error fails the call.
    pub fn remove_portfolio(
        &mut self,
        caller_did: PolymeshResult<IdentityId>,
        quit: PolymeshResult<()>,
    ) -> (r: Result<PortfolioRemoved, NftTraderError>)
        requires
            old(self).wf(),
        ensures
            final(self).wf(),
            old(self)@.sound() ==> final(self)@.sound(),
            old(self)@.consistent() ==> final(self)@.consistent(),
            final(self)@ == old(self)@.step((Step::RemovePortfolio { caller_did, quit })),
            match old(self)@.remove_outcome(caller_did, quit) {
                Err(e) => r == Err::<PortfolioRemoved, NftTraderError>(e) && final(self)@ == old(
                    self,
                )@,
                Ok(next) => {
                    &&& final(self)@ == next
                    &&& old(self)@.custodian(caller_did) matches Ok(did)
                    &&& r == Ok::<PortfolioRemoved, NftTraderError>(
                        PortfolioRemoved { portfolio: old(self)@.portfolios[did].id },
                    )
                },
            },
    {
        match self.state.ensure_withdraw() {
            Err(e) => {
                return Err(e);
            },
            Ok(_) => {},
        }
        let did = match self.custodian(caller_did) {
            Err(e) => {
                return Err(e);
            },
            Ok(did) => did,
        };
        match quit {
            Err(e) => {
                return Err(NftTraderError::PolymeshInk(e));
            },
            Ok(_) => {},
        }
        let details = self.portfolios.remove(did).unwrap();
        unlist_all(&mut self.nft_sales, &mut self.nfts, &details.nfts);
        proof {
            assert(self@ =~= old(self)@.without_portfolio(did));
        }
        proof {
            lemma_step_keeps_invariants(old(self)@, Step::RemovePortfolio { caller_did, quit });
        }
        Ok(PortfolioRemoved { portfolio: details.id })
    }

    /// Checks, from what the ledger answered in `owners`, that `portfolio`
    /// holds every asset that `nfts` names. The assets are gone through by
    /// rising id, and the first that fails decides the error: the ledger's
    /// own where the ledger failed, `NotInPortfolio` where it names another
    /// holder, none, or was not asked.
    pub fn ensure_nft_in_portfolio(
        portfolio: PortfolioId,
        nfts: &BTreeMap<u64, Option<Balance>>,
        owners: BTreeMap<u64, PolymeshResult<Option<PortfolioId>>>,
    ) -> (r: Result<(), NftTraderError>)
        ensures
            r == custody_check(nfts@.dom(), owners@, portfolio),
    {
        let mut left = owners;
        for kv in it: nfts.iter()
            invariant
                forall|i: int|
                    0 <= i < it.seq().len() ==> nfts@.contains_key(*(#[trigger] it.seq()[i]).0),
                forall|k: u64|
                    nfts@.contains_key(k) ==> exists|i: int|
                        0 <= i < it.seq().len() && *(#[trigger] it.seq()[i]).0 == k,
                vstd::std_specs::btree::increasing_seq(price_keys(it.seq())),
                forall|k: u64|
                    (forall|j: int| 0 <= j < it.index() ==> *(#[trigger] it.seq()[j]).0 != k)
                        ==> #[trigger] answer_for(left@, k) == answer_for(owners@, k),
                forall|j: int|
                    0 <= j < it.index() ==> custody_failure(
                        answer_for(owners@, *(#[trigger] it.seq()[j]).0),
                        portfolio,
                    ) is None,
        {
            let id = *kv.0;
            let ghost prev = left@;
            proof {
                lemma_increasing(price_keys(it.seq()));
                assert forall|j: int| 0 <= j < it.index() implies *(#[trigger] it.seq()[j]).0
                    != id by {
                    assert(price_keys(it.seq())[j] < price_keys(it.seq())[it.index()]);
                }
                assert(answer_for(left@, id) == answer_for(owners@, id));
                assert forall|k: u64| nfts@.contains_key(k) && k < id implies custody_failure(
                    #[trigger] answer_for(owners@, k),
                    portfolio,
                ) is None by {
                    let j = choose|j: int| 0 <= j < it.seq().len() && *it.seq()[j].0 == k;
                    assert(price_keys(it.seq())[j] == k);
                    assert(price_keys(it.seq())[it.index()] == id);
                    assert(j < it.index());
                }
            }
            let failure = match left.remove(&id) {
                None => Some(NftTraderError::NotInPortfolio),
                Some(Err(e)) => Some(NftTraderError::PolymeshInk(e)),
                Some(Ok(None)) => Some(NftTraderError::NotInPortfolio),
                Some(Ok(Some(holder))) => if holder == portfolio {
                    None
                } else {
                    Some(NftTraderError::NotInPortfolio)
                },
            };
            proof {
                assert(left@ == prev.remove(id));
                assert(failure == custody_failure(answer_for(owners@, id), portfolio));
            }
            match failure {
                Some(e) => {
                    proof {
                        assert(nfts@.dom().contains(id));
                        assert(first_unverified(nfts@.dom(), owners@, portfolio, id));
                        lemma_first_unverified(nfts@.dom(), owners@, portfolio, id);
                    }
                    return Err(e);
                },
                None => {},
            }
            proof {
                assert forall|k: u64|
                    (forall|j: int| 0 <= j < it.index() + 1 ==> *(#[trigger] it.seq()[j]).0 != k)
                    implies #[trigger] answer_for(left@, k) == answer_for(owners@, k) by {
                    assert(*it.seq()[it.index()].0 != k);
                    assert(forall|j: int| 0 <= j < it.index() ==> *(#[trigger] it.seq()[j]).0 != k);
                    assert(answer_for(prev, k) == answer_for(owners@, k));
                }
            }
        }
        Ok(())
    }

    /// Whether the caller may set the prices `nfts` now, as far as the
    /// marketplace alone can tell, and what to ask of the ledger before it
    /// can be done: who holds each of the assets named, by rising id.
    pub fn nft_for_sell_request(
        &self,
        caller_did: PolymeshResult<IdentityId>,
        nfts: &BTreeMap<u64, Option<Balance>>,
    ) -> (r: Result<CustodyQuery, NftTraderError>)
        requires
            self.wf(),
        ensures
            match self@.trade_check(caller_did) {
                Err(e) => r == Err::<CustodyQuery, NftTraderError>(e),
                Ok(did) => {
                    &&& r matches Ok(query)
                    &&& query.portfolio == self@.portfolios[did].id
                    &&& query.nfts.ticker == self@.ticker
                    &&& forall|k: u64| nfts@.contains_key(k) <==> query.nfts.ids@.contains(NFTId(k))
                    &&& forall|i: int, j: int|
                        0 <= i < j < query.nfts.ids@.len() ==> query.nfts.ids@[i].0
                            < query.nfts.ids@[j].0
                },
            },
    {
        match self.state.ensure_ready() {
            Err(e) => {
                return Err(e);
            },
            Ok(_) => {},
        }
        let did = match self.custodian(caller_did) {
            Err(e) => {
                return Err(e);
            },
            Ok(did) => did,
        };
        let portfolio = self.portfolios.get(did).unwrap().id;
        let mut ids: Vec<NFTId> = Vec::new();
        for kv in it: nfts.iter()
            invariant
                forall|i: int|
                    0 <= i < it.seq().len() ==> nfts@.contains_key(*(#[trigger] it.seq()[i]).0),
                forall|k: u64|
                    nfts@.contains_key(k) ==> exists|i: int|
                        0 <= i < it.seq().len() && *(#[trigger] it.seq()[i]).0 == k,
                vstd::std_specs::btree::increasing_seq(price_keys(it.seq())),
                ids@.len() == it.index(),
                forall|j: int| 0 <= j < ids@.len() ==> (#[trigger] ids@[j]).0 == *it.seq()[j].0,
                it.index() == it.seq().len() ==> {
                    &&& forall|k: u64| nfts@.contains_key(k) <==> ids@.contains(NFTId(k))
                    &&& forall|i: int, j: int|
                        0 <= i < j < ids@.len() ==> ids@[i].0 < ids@[j].0
                },
        {
            ids.push(NFTId(*kv.0));
            proof {
                lemma_increasing(price_keys(it.seq()));
                assert forall|i: int, j: int| 0 <= i < j < ids@.len() implies ids@[i].0
                    < ids@[j].0 by {
                    assert(price_keys(it.seq())[i] < price_keys(it.seq())[j]);
                }
                assert(it.index() + 1 == it.seq().len() ==> forall|k: u64|
                    nfts@.contains_key(k) <==> ids@.contains(NFTId(k))) by {
                    assert forall|k: u64| it.index() + 1 == it.seq().len() implies (
                    nfts@.contains_key(k) <==> ids@.contains(NFTId(k))) by {
                        if nfts@.contains_key(k) {
                            let j = choose|j: int| 0 <= j < it.seq().len() && *it.seq()[j].0 == k;
                            assert(ids@[j] == NFTId(k));
                        }
                        if ids@.contains(NFTId(k)) {
                            let j = choose|j: int| 0 <= j < ids@.len() && ids@[j] == NFTId(k);
                            assert(*it.seq()[j].0 == k);
                        }
                    }
                }
            }
        }
        Ok(CustodyQuery { portfolio, nfts: NFTs { ticker: self.ticker, ids } })
    }

    /// Sets the prices `nfts` for assets of the caller's custodial portfolio:
    /// an asset given a price is listed at it, with `caller` as the account to
    /// pay; an asset given `None` is delisted. `owners` holds what the ledger
    /// answered about who holds each asset. Unless it shows the caller's
    /// portfolio to hold every asset named, nothing is listed or delisted.
    pub fn nft_for_sell(
        &mut self,
        caller: AccountId,
        caller_did: PolymeshResult<IdentityId>,
        nfts: BTreeMap<u64, Option<Balance>>,
        owners: BTreeMap<u64, PolymeshResult<Option<PortfolioId>>>,
    ) -> (r: Result<NFTsForSale, NftTraderError>)
        requires
            old(self).wf(),
        ensures
            final(self).wf(),
            old(self)@.sound() ==> final(self)@.sound(),
            old(self)@.consistent() && minds_own_listings(
                old(self)@,
                (Step::NftForSell { caller, caller_did, nfts: nfts@, owners: owners@ }),
            ) ==> final(self)@.consistent(),
            final(self)@ == old(self)@.step(
                (Step::NftForSell { caller, caller_did, nfts: nfts@, owners: owners@ }),
            ),
            match old(self)@.sell_outcome(caller, caller_did, nfts@, owners@) {
                Err(e) => r == Err::<NFTsForSale, NftTraderError>(e) && final(self)@ == old(self)@,
                Ok(next) => {
                    &&& final(self)@ == next
                    &&& r matches Ok(event)
                    &&& old(self)@.custodian(caller_did) matches Ok(did)
                    &&& event.portfolio == old(self)@.portfolios[did].id
                    &&& event.nfts == nfts
                },
            },
    {
        match self.state.ensure_ready() {
            Err(e) => {
                return Err(e);
            },
            Ok(_) => {},
        }
        let did = match self.custodian(caller_did) {
            Err(e) => {
                return Err(e);
            },
            Ok(did) => did,
        };
        let portfolio = self.portfolios.get(did).unwrap().id;
        match Self::ensure_nft_in_portfolio(portfolio, &nfts, owners) {
            Err(e) => {
                return Err(e);
            },
            Ok(_) => {},
        }
        let mut details = self.portfolios.remove(did).unwrap();
        set_prices(&mut self.nft_sales, &mut self.nfts, &mut details.nfts, &nfts, caller, did);
        self.portfolios.insert(did, details);
        proof {
            assert(self@.portfolios =~= old(self)@.listed(caller, did, nfts@).portfolios);
            assert(self@ =~= old(self)@.listed(caller, did, nfts@));
        }
        proof {
            lemma_step_keeps_invariants(
                old(self)@,
                Step::NftForSell { caller, caller_did, nfts: nfts@, owners: owners@ },
            );
        }
        Ok(NFTsForSale { portfolio, nfts })
    }

    /// Takes the listing of `nft` away.
    fn remove_nft(&mut self, nft: NftId)
        requires
            old(self).wf(),
        ensures
            final(self).wf(),
            final(self)@ == (TraderModel { sales: old(self)@.sales.remove(nft.0), ..old(self)@ }),
    {
        self.nft_sales.remove(&nft.0);
        self.nfts.remove(&nft.0);
        proof {
            assert(self.nfts@ =~= self.nft_sales@.dom());
        }
    }

    /// Takes `ids` out of the custodial portfolio of `did`, which is left
    /// with `rest`, and takes their listings away.
    fn take_from_portfolio(&mut self, did: IdentityId, ids: &Vec<NftId>, rest: BTreeSet<u64>) -> (r:
        PortfolioId)
        requires
            old(self).wf(),
            old(self)@.portfolios.contains_key(did),
            rest@ == old(self)@.portfolios[did].nfts.difference(raw_ids(ids@)),
        ensures
            final(self).wf(),
            r == old(self)@.portfolios[did].id,
            final(self)@ == old(self)@.withdrawn(did, ids@),
    {
        let mut details = self.portfolios.remove(did).unwrap();
        let portfolio = details.id;
        details.nfts = rest;
        self.portfolios.insert(did, details);
        unlist_ids(&mut self.nft_sales, &mut self.nfts, ids);
        proof {
            assert(self@.portfolios =~= old(self)@.withdrawn(did, ids@).portfolios);
            assert(self@ =~= old(self)@.withdrawn(did, ids@));
        }
        portfolio
    }

    /// Takes `ids` out of the custodial portfolio of `did` and takes their
    /// listings away. Unless every one of them is in the portfolio and none
    /// is named twice, fails with `NotInPortfolio` and changes nothing.
    fn remove_portfolio_nfts(&mut self, did: IdentityId, ids: &Vec<NftId>) -> (r: Result<
        PortfolioId,
        NftTraderError,
    >)
        requires
            old(self).wf(),
            old(self)@.portfolios.contains_key(did),
        ensures
            final(self).wf(),
            if ids@.no_duplicates() && forall|i: int|
                0 <= i < ids@.len() ==> old(self)@.portfolios[did].nfts.contains(
                    (#[trigger] ids@[i]).0,
                ) {
                &&& r == Ok::<PortfolioId, NftTraderError>(old(self)@.portfolios[did].id)
                &&& final(self)@ == old(self)@.withdrawn(did, ids@)
            } else {
                &&& r == Err::<PortfolioId, NftTraderError>(NftTraderError::NotInPortfolio)
                &&& final(self)@ == old(self)@
            },
    {
        match rest_without(&self.portfolios.get(did).unwrap().nfts, ids) {
            None => Err(NftTraderError::NotInPortfolio),
            Some(rest) => Ok(self.take_from_portfolio(did, ids, rest)),
        }
    }

    /// The request to settle the move of `id` from `sender` to `receiver`.
    pub fn transfer_nft(&self, sender: PortfolioId, receiver: PortfolioId, id: NftId) -> (r:
        Settlement)
        ensures
            r@ == self@.settlement(sender, receiver, id),
    {
        let leg = Leg { sender, receiver, nfts: NFTs { ticker: self.ticker, ids: vec![id.nft()] } };
        proof {
            assert(leg.nfts.ids@ =~= seq![NFTId(id.0)]);
            assert(leg@ =~= self@.settlement(sender, receiver, id).legs[0]);
        }
        let r =
            Settlement { venue: self.venue, legs: vec![leg], portfolios: vec![sender, receiver] };
        proof {
            assert(r.legs@ =~= seq![leg]);
            assert(r@.legs =~= self@.settlement(sender, receiver, id).legs);
            assert(r@.portfolios =~= self@.settlement(sender, receiver, id).portfolios);
        }
        r
    }

    /// Decides a purchase: the listing, the seller's portfolio and the
    /// buyer's, where the caller may buy `nft` for `amount`.
    fn purchase_plan(
        &self,
        caller_did: PolymeshResult<IdentityId>,
        nft: NftId,
        amount: Balance,
    ) -> (r: Result<(NftSaleDetails, PortfolioId, PortfolioId), NftTraderError>)
        requires
            self.wf(),
        ensures
            match self@.buy_check(caller_did, nft, amount) {
                Err(e) => r == Err::<(NftSaleDetails, PortfolioId, PortfolioId), NftTraderError>(
                    e,
                ),
                Ok(buyer) => r == Ok::<(NftSaleDetails, PortfolioId, PortfolioId), NftTraderError>(
                    (
                        self@.sales[nft.0],
                        self@.portfolios[self@.sales[nft.0].did].id,
                        self@.portfolios[buyer].id,
                    ),
                ),
            },
    {
        match self.state.ensure_ready() {
            Err(e) => {
                return Err(e);
            },
            Ok(_) => {},
        }
        let sale = match self.nft_sales.get(&nft.0) {
            None => {
                return Err(NftTraderError::NotForSale);
            },
            Some(sale) => *sale,
        };
        let seller = match self.portfolios.get(sale.did) {
            None => {
                return Err(NftTraderError::MissingPortfolio);
            },
            Some(seller) => seller,
        };
        if sale.price > amount {
            return Err(NftTraderError::TransferredValueTooLow);
        }
        let buyer = match self.custodian(caller_did) {
            Err(e) => {
                return Err(e);
            },
            Ok(buyer) => buyer,
        };
        let receiver = self.portfolios.get(buyer).unwrap().id;
        if !seller.nfts.contains(&nft.0) {
            return Err(NftTraderError::NotInPortfolio);
        }
        Ok((sale, seller.id, receiver))
    }

    /// Whether the caller may buy `nft` with `amount` attached, and what to
    /// ask of the ledger for it: to settle the move of the asset from the
    /// seller's custodial portfolio to the buyer's, and then to pay the whole
    /// of `amount`, not the price alone, to the seller's account.
    pub fn buy_nft_request(
        &self,
        caller_did: PolymeshResult<IdentityId>,
        nft: NftId,
        amount: Balance,
    ) -> (r: Result<NftPurchase, NftTraderError>)
        requires
            self.wf(),
        ensures
            match self@.buy_check(caller_did, nft, amount) {
                Err(e) => r == Err::<NftPurchase, NftTraderError>(e),
                Ok(buyer) => {
                    &&& r matches Ok(purchase)
                    &&& purchase.settlement@ == self@.settlement(
                        self@.portfolios[self@.sales[nft.0].did].id,
                        self@.portfolios[buyer].id,
                        nft,
                    )
                    &&& purchase.payee == self@.sales[nft.0].account
                    &&& purchase.amount == amount
                },
            },
    {
        match self.purchase_plan(caller_did, nft, amount) {
            Err(e) => Err(e),
            Ok((sale, sender, receiver)) => Ok(
                NftPurchase {
                    settlement: self.transfer_nft(sender, receiver, nft),
                    payee: sale.account,
                    amount,
                },
            ),
        }
    }

    /// Records the sale of `nft` to the caller, who attached `amount`.
    /// `settled` is what the ledger answered when asked to settle the asset's
    /// move to the buyer; its error fails the sale. `paid` says whether
    /// `amount` then reached the seller's account; where it did not, the sale
    /// fails with `FailedToPaySeller`, and whoever runs the marketplace has to
    /// see that the settlement is undone. After a sale the asset has no
    /// listing and its seller's portfolio holds it no longer.
    pub fn buy_nft(
        &mut self,
        caller_did: PolymeshResult<IdentityId>,
        nft: NftId,
        amount: Balance,
        settled: PolymeshResult<()>,
        paid: bool,
    ) -> (r: Result<NFTSold, NftTraderError>)
        requires
            old(self).wf(),
        ensures
            final(self).wf(),
            old(self)@.sound() ==> final(self)@.sound(),
            old(self)@.consistent() ==> final(self)@.consistent(),
            final(self)@ == old(self)@.step(
                (Step::BuyNft { caller_did, nft, amount, settled, paid }),
            ),
            match old(self)@.buy_outcome(caller_did, nft, amount, settled, paid) {
                Err(e) => r == Err::<NFTSold, NftTraderError>(e) && final(self)@ == old(self)@,
                Ok(next) => {
                    &&& final(self)@ == next
                    &&& old(self)@.custodian(caller_did) matches Ok(buyer)
                    &&& r == Ok::<NFTSold, NftTraderError>(
                        NFTSold { portfolio: old(self)@.portfolios[buyer].id, id: nft, amount },
                    )
                },
            },
            old(self)@.state.ready() is Ok && !old(self)@.sales.contains_key(nft.0) ==> r == Err::<
                NFTSold,
                NftTraderError,
            >(NftTraderError::NotForSale) && final(self)@ == old(self)@,
            old(self)@.state.ready() is Ok && old(self)@.sales.contains_key(nft.0)
                && old(self)@.portfolios.contains_key(old(self)@.sales[nft.0].did) && old(
                self,
            )@.sales[nft.0].price > amount ==> r == Err::<NFTSold, NftTraderError>(
                NftTraderError::TransferredValueTooLow,
            ) && final(self)@.sales.contains_key(nft.0) && final(self)@ == old(self)@,
            r is Ok ==> !final(self)@.sales.contains_key(nft.0),
    {
        let (sale, _, receiver) = match self.purchase_plan(caller_did, nft, amount) {
            Err(e) => {
                return Err(e);
            },
            Ok(plan) => plan,
        };
        match settled {
            Err(e) => {
                return Err(NftTraderError::PolymeshInk(e));
            },
            Ok(_) => {},
        }
        if !paid {
            return Err(NftTraderError::FailedToPaySeller);
        }
        self.remove_nft(nft);
        let ids = vec![nft];
        proof {
            assert(ids@.no_duplicates());
            assert(raw_ids(ids@) =~= set![nft.0]);
        }
        let _ = self.remove_portfolio_nfts(sale.did, &ids);
        proof {
            let mid = TraderModel { sales: old(self)@.sales.remove(nft.0), ..old(self)@ };
            assert(self@ == mid.withdrawn(sale.did, ids@));
            assert(self@.sales =~= old(self)@.sold(nft).sales);
            assert(self@.portfolios[sale.did].nfts =~= old(self)@.sold(
                nft,
            ).portfolios[sale.did].nfts);
            assert(self@.portfolios =~= old(self)@.sold(nft).portfolios);
            assert(self@ =~= old(self)@.sold(nft));
        }
        proof {
            lemma_step_keeps_invariants(
                old(self)@,
                Step::BuyNft { caller_did, nft, amount, settled, paid },
            );
        }
        Ok(NFTSold { portfolio: receiver, id: nft, amount })
    }

    /// Whether the caller may withdraw `ids` now, and what to ask of the
    /// ledger for it: to move them from the caller's custodial portfolio to
    /// the caller's portfolio `dest`.
    pub fn withdraw_request(
        &self,
        caller_did: PolymeshResult<IdentityId>,
        ids: &Vec<NftId>,
        dest: PortfolioKind,
    ) -> (r: Result<PortfolioMove, NftTraderError>)
        requires
            self.wf(),
        ensures
            match self@.withdraw_check(caller_did, ids@) {
                Err(e) => r == Err::<PortfolioMove, NftTraderError>(e),
                Ok(did) => {
                    &&& r matches Ok(request)
                    &&& request.from == self@.portfolios[did].id
                    &&& request.to == (PortfolioId {
                        did: self@.portfolios[did].id.did,
                        kind: dest,
                    })
                    &&& request.nfts.ticker == self@.ticker
                    &&& request.nfts.ids@ == ids@.map_values(|id: NftId| NFTId(id.0))
                },
            },
    {
        match self.state.ensure_withdraw() {
            Err(e) => {
                return Err(e);
            },
            Ok(_) => {},
        }
        let did = match self.custodian(caller_did) {
            Err(e) => {
                return Err(e);
            },
            Ok(did) => did,
        };
        let details = self.portfolios.get(did).unwrap();
        match rest_without(&details.nfts, ids) {
            None => {
                return Err(NftTraderError::NotInPortfolio);
            },
            Some(_) => {},
        }
        let from = details.id;
        let to = PortfolioId { did: from.did, kind: dest };
        Ok(PortfolioMove { from, to, nfts: NFTs { ticker: self.ticker, ids: ledger_ids(ids) } })
    }

    /// Records that `ids` have left the caller's custodial portfolio: they
    /// are held there no longer, and none of them is listed. `moved` is what
    /// the ledger answered when asked to move them out; its error fails the
    /// withdrawal.
    pub fn withdraw(
        &mut self,
        caller_did: PolymeshResult<IdentityId>,
        ids: Vec<NftId>,
        moved: PolymeshResult<()>,
    ) -> (r: Result<WithdrawnNFTs, NftTraderError>)
        requires
            old(self).wf(),
        ensures
            final(self).wf(),
            old(self)@.sound() ==> final(self)@.sound(),
            old(self)@.consistent() ==> final(self)@.consistent(),
            final(self)@ == old(self)@.step((Step::Withdraw { caller_did, ids: ids@, moved })),
            match old(self)@.withdraw_outcome(caller_did, ids@, moved) {
                Err(e) => r == Err::<WithdrawnNFTs, NftTraderError>(e) && final(self)@ == old(
                    self,
                )@,
                Ok(next) => {
                    &&& final(self)@ == next
                    &&& old(self)@.custodian(caller_did) matches Ok(did)
                    &&& r == Ok::<WithdrawnNFTs, NftTraderError>(
                        WithdrawnNFTs { portfolio: old(self)@.portfolios[did].id, nfts: ids },
                    )
                },
            },
    {
        match self.state.ensure_withdraw() {
            Err(e) => {
                return Err(e);
            },
            Ok(_) => {},
        }
        let did = match self.custodian(caller_did) {
            Err(e) => {
                return Err(e);
            },
            Ok(did) => did,
        };
        let rest = match rest_without(&self.portfolios.get(did).unwrap().nfts, &ids) {
            None => {
                return Err(NftTraderError::NotInPortfolio);
            },
            Some(rest) => rest,
        };
        match moved {
            Err(e) => {
                return Err(NftTraderError::PolymeshInk(e));
            },
            Ok(_) => {},
        }
        let portfolio = self.take_from_portfolio(did, &ids, rest);
        proof {
            lemma_step_keeps_invariants(
                old(self)@,
                Step::Withdraw { caller_did, ids: ids@, moved },
            );
        }
        Ok(WithdrawnNFTs { portfolio, nfts: ids })
    }

    /// The venue at which sales are settled.
    pub fn venue(&self) -> (r: Result<VenueId, NftTraderError>)
        ensures
            match self@.state.ready() {
                Err(e) => r == Err::<VenueId, NftTraderError>(e),
                Ok(_) => r == Ok::<VenueId, NftTraderError>(self@.venue),
            },
    {
        match self.state.ensure_ready() {
            Err(e) => Err(e),
            Ok(_) => Ok(self.venue),
        }
    }

    /// The marketplace's own identity on the ledger.
    pub fn contract_did(&self) -> (r: Result<IdentityId, NftTraderError>)
        ensures
            match self@.state.ready() {
                Err(e) => r == Err::<IdentityId, NftTraderError>(e),
                Ok(_) => r == Ok::<IdentityId, NftTraderError>(self@.did),
            },
    {
        match self.state.ensure_ready() {
            Err(e) => Err(e),
            Ok(_) => Ok(self.did),
        }
    }

    /// The collection that is traded.
    pub fn ticker(&self) -> (r: Result<Ticker, NftTraderError>)
        ensures
            match self@.state.ready() {
                Err(e) => r == Err::<Ticker, NftTraderError>(e),
                Ok(_) => r == Ok::<Ticker, NftTraderError>(self@.ticker),
            },
    {
        match self.state.ensure_ready() {
            Err(e) => Err(e),
            Ok(_) => Ok(self.ticker),
        }
    }

    /// The administrator.
    pub fn admin(&self) -> (r: Result<Option<AccountId>, NftTraderError>)
        ensures
            match self@.state.ready() {
                Err(e) => r == Err::<Option<AccountId>, NftTraderError>(e),
                Ok(_) => r == Ok::<Option<AccountId>, NftTraderError>(self@.admin),
            },
    {
        match self.state.ensure_ready() {
            Err(e) => Err(e),
            Ok(_) => Ok(self.admin),
        }
    }

    /// Whether the marketplace trades: it is initialized and not closed.
    pub fn is_open(&self) -> (r: Result<bool, NftTraderError>)
        ensures
            r == Ok::<bool, NftTraderError>(self@.state == ContractState::Initialized),
    {
        match self.state.ensure_ready() {
            Err(_) => Ok(false),
            Ok(_) => Ok(true),
        }
    }

    /// The ids of all listed assets, each as the number inside its `NftId`.
    pub fn nfts(&self) -> (r: Result<BTreeSet<u64>, NftTraderError>)
        requires
            self.wf(),
        ensures
            r matches Ok(ids) && ids@ == self@.sales.dom(),
    {
        Ok(self.nfts.clone())
    }

    /// The listing of `nft`, if it is listed.
    pub fn nft_sale_details(&self, nft: NftId) -> (r: Result<
        Option<NftSaleDetails>,
        NftTraderError,
    >)
        ensures
            r == Ok::<Option<NftSaleDetails>, NftTraderError>(
                if self@.sales.contains_key(nft.0) {
                    Some(self@.sales[nft.0])
                } else {
                    None
                },
            ),
    {
        match self.nft_sales.get(&nft.0) {
            None => Ok(None),
            Some(sale) => Ok(Some(*sale)),
        }
    }

    /// The price of every listed asset, by rising id.
    pub fn nft_prices(&self) -> (r: Result<Vec<NftPrice>, NftTraderError>)
        ensures
            r matches Ok(prices) && is_price_list(self@.sales, prices@),
    {
        let mut available: Vec<NftPrice> = Vec::new();
        for kv in it: self.nft_sales.iter()
            invariant
                forall|i: int|
                    0 <= i < it.seq().len() ==> self.nft_sales@.contains_key(
                        *(#[trigger] it.seq()[i]).0,
                    ) && self.nft_sales@[*it.seq()[i].0] == *it.seq()[i].1,
                forall|k: u64|
                    self.nft_sales@.contains_key(k) ==> exists|i: int|
                        0 <= i < it.seq().len() && *(#[trigger] it.seq()[i]).0 == k,
                vstd::std_specs::btree::increasing_seq(sale_keys(it.seq())),
                available@.len() == it.index(),
                forall|j: int|
                    0 <= j < available@.len() ==> (#[trigger] available@[j]).id.0 == *it.seq()[j].0
                        && available@[j].price == it.seq()[j].1.price,
                forall|j: int|
                    0 <= j < available@.len() ==> self.nft_sales@.contains_key(
                        (#[trigger] available@[j]).id.0,
                    ) && available@[j].price == self.nft_sales@[available@[j].id.0].price,
                it.index() == it.seq().len() ==> {
                    &&& forall|id: u64|
                        self.nft_sales@.contains_key(id) ==> exists|i: int|
                            0 <= i < available@.len() && (#[trigger] available@[i]).id == NftId(id)
                    &&& forall|i: int, j: int|
                        0 <= i < j < available@.len() ==> available@[i].id.0 < available@[j].id.0
                },
        {
            available.push(NftPrice { id: NftId(*kv.0), price: kv.1.price });
            proof {
                lemma_increasing(sale_keys(it.seq()));
                assert forall|i: int, j: int|
                    0 <= i < j < available@.len() implies available@[i].id.0
                    < available@[j].id.0 by {
                    assert(sale_keys(it.seq())[i] < sale_keys(it.seq())[j]);
                }
                assert(it.index() + 1 == it.seq().len() ==> forall|id: u64|
                    self.nft_sales@.contains_key(id) ==> exists|i: int|
                        0 <= i < available@.len() && (#[trigger] available@[i]).id == NftId(
                            id,
                        )) by {
                    assert forall|id: u64|
                        it.index() + 1 == it.seq().len() && self.nft_sales@.contains_key(
                            id,
                        ) implies exists|i: int|
                        0 <= i < available@.len() && (#[trigger] available@[i]).id == NftId(
                            id,
                        ) by {
                        let j = choose|j: int| 0 <= j < it.seq().len() && *it.seq()[j].0 == id;
                        assert(available@[j].id == NftId(id));
                    }
                }
            }
        }
        proof {
            assert(forall|id: u64|
                self@.sales.contains_key(id) ==> exists|i: int|
                    0 <= i < available@.len() && (#[trigger] available@[i]).id == NftId(id));
            assert(forall|i: int, j: int|
                0 <= i < j < available@.len() ==> available@[i].id.0 < available@[j].id.0);
            assert(is_price_list(self@.sales, available@));
        }
        Ok(available)
    }
}

} // verus!
