//! The marketplace as a mathematical value: what it remembers, when each
//! operation is owed success, and what an operation leaves behind.

use vstd::prelude::*;
use crate::error::{NftTraderError, PolymeshResult};
use crate::ledger::{AssetsModel, LegModel, SettlementModel};
use crate::portfolio::PortfolioModel;
use crate::primitives::{
    AccountId, Balance, IdentityId, NFTId, NftId, PortfolioId, Ticker, VenueId,
};
use crate::sale::{NftPrice, NftSaleDetails};
use crate::state::ContractState;

verus! {

/// The numbers inside the ids of `ids`, as a set.
pub open spec fn raw_ids(ids: Seq<NftId>) -> Set<u64> {
    Set::new(|id: u64| ids.contains(NftId(id)))
}

/// The ids of a prefix, one longer, are those of the prefix and the id that
/// follows it.
pub proof fn lemma_raw_ids_prefix(ids: Seq<NftId>, i: int)
    requires
        0 <= i < ids.len(),
    ensures
        raw_ids(ids.take(i + 1)) == raw_ids(ids.take(i)).insert(ids[i].0),
        raw_ids(ids.take(0)) == Set::<u64>::empty(),
        i + 1 == ids.len() ==> ids.take(i + 1) == ids,
{
    let a = ids.take(i);
    let b = ids.take(i + 1);
    assert(b =~= a.push(ids[i]));
    assert forall|x: u64| raw_ids(b).contains(x) <==> raw_ids(a).insert(ids[i].0).contains(x) by {
        if b.contains(NftId(x)) {
            let k = choose|k: int| 0 <= k < b.len() && b[k] == NftId(x);
            if k < i {
                assert(a[k] == NftId(x));
            }
        }
        if a.contains(NftId(x)) {
            let k = choose|k: int| 0 <= k < a.len() && a[k] == NftId(x);
            assert(b[k] == NftId(x));
        }
        assert(b[i] == ids[i]);
    }
    assert(raw_ids(b) =~= raw_ids(a).insert(ids[i].0));
    assert(raw_ids(ids.take(0)) =~= Set::<u64>::empty());
    if i + 1 == ids.len() {
        assert(b =~= ids);
    }
}

/// Why the ledger's answer does not show `portfolio` to hold an asset, or
/// `None` when it does show that. `answer` is `None` where the ledger was not
/// asked about the asset.
pub open spec fn custody_failure(
    answer: Option<PolymeshResult<Option<PortfolioId>>>,
    portfolio: PortfolioId,
) -> Option<NftTraderError> {
    match answer {
        None => Some(NftTraderError::NotInPortfolio),
        Some(Err(e)) => Some(NftTraderError::PolymeshInk(e)),
        Some(Ok(holder)) => if holder == Some(portfolio) {
            None
        } else {
            Some(NftTraderError::NotInPortfolio)
        },
    }
}

/// The ledger's answer about asset `id`, if it was asked.
pub open spec fn answer_for(
    owners: Map<u64, PolymeshResult<Option<PortfolioId>>>,
    id: u64,
) -> Option<PolymeshResult<Option<PortfolioId>>> {
    if owners.contains_key(id) {
        Some(owners[id])
    } else {
        None
    }
}

/// Asset `id` is the one with the least id, among `nfts`, that `owners` does
/// not show to be held by `portfolio`.
pub open spec fn first_unverified(
    nfts: Set<u64>,
    owners: Map<u64, PolymeshResult<Option<PortfolioId>>>,
    portfolio: PortfolioId,
    id: u64,
) -> bool {
    &&& nfts.contains(id)
    &&& custody_failure(answer_for(owners, id), portfolio) is Some
    &&& forall|k: u64|
        nfts.contains(k) && k < id ==> custody_failure(
            #[trigger] answer_for(owners, k),
            portfolio,
        ) is None
}

/// Whether `owners` shows every asset of `nfts` to be held by `portfolio`.
/// Where it does not, the error is that of the asset with the least id among
/// those it fails for.
pub open spec fn custody_check(
    nfts: Set<u64>,
    owners: Map<u64, PolymeshResult<Option<PortfolioId>>>,
    portfolio: PortfolioId,
) -> Result<(), NftTraderError> {
    if forall|id: u64|
        nfts.contains(id) ==> custody_failure(#[trigger] answer_for(owners, id), portfolio)
            is None {
        Ok(())
    } else {
        let id = choose|id: u64| first_unverified(nfts, owners, portfolio, id);
        Err(custody_failure(answer_for(owners, id), portfolio).unwrap())
    }
}

/// Where `owners` fails to show that `portfolio` holds some asset of `nfts`,
/// there is a first such asset: the custody check fails, and with the
/// failure of the asset that has the least id among those.
pub proof fn lemma_least_unverified(
    nfts: Set<u64>,
    owners: Map<u64, PolymeshResult<Option<PortfolioId>>>,
    portfolio: PortfolioId,
    id: u64,
)
    requires
        nfts.contains(id),
        custody_failure(answer_for(owners, id), portfolio) is Some,
    ensures
        exists|least: u64| least <= id && first_unverified(nfts, owners, portfolio, least),
        custody_check(nfts, owners, portfolio) is Err,
    decreases id,
{
    if forall|k: u64|
        nfts.contains(k) && k < id ==> custody_failure(#[trigger] answer_for(owners, k), portfolio)
            is None {
        assert(first_unverified(nfts, owners, portfolio, id));
    } else {
        let k = choose|k: u64|
            nfts.contains(k) && k < id && custody_failure(
                #[trigger] answer_for(owners, k),
                portfolio,
            ) is Some;
        lemma_least_unverified(nfts, owners, portfolio, k);
        let least = choose|least: u64|
            least <= k && first_unverified(nfts, owners, portfolio, least);
        assert(least <= id && first_unverified(nfts, owners, portfolio, least));
    }
}

/// The assets that a portfolio tracks once the prices `nfts` are set: those
/// given a price, and those of `before` that `nfts` does not name.
pub open spec fn listed_after(before: Set<u64>, nfts: Map<u64, Option<Balance>>) -> Set<u64> {
    Set::new(
        |id: u64|
            if nfts.contains_key(id) {
                nfts[id] is Some
            } else {
                before.contains(id)
            },
    )
}

/// The listings once the seller `did`, paid at `account`, has set the prices
/// `nfts`: one for each asset given a price, and those of `sales` for assets
/// that `nfts` does not name.
pub open spec fn sales_after(
    sales: Map<u64, NftSaleDetails>,
    account: AccountId,
    did: IdentityId,
    nfts: Map<u64, Option<Balance>>,
) -> Map<u64, NftSaleDetails> {
    Map::new(
        |id: u64|
            if nfts.contains_key(id) {
                nfts[id] is Some
            } else {
                sales.contains_key(id)
            },
        |id: u64|
            if nfts.contains_key(id) {
                NftSaleDetails { account, did, price: nfts[id].unwrap() }
            } else {
                sales[id]
            },
    )
}

/// `prices` is the price list of `sales`: one line for each listing, with its
/// price, by rising id.
pub open spec fn is_price_list(sales: Map<u64, NftSaleDetails>, prices: Seq<NftPrice>) -> bool {
    &&& forall|i: int|
        0 <= i < prices.len() ==> sales.contains_key((#[trigger] prices[i]).id.0)
            && prices[i].price == sales[prices[i].id.0].price
    &&& forall|id: u64|
        sales.contains_key(id) ==> exists|i: int|
            0 <= i < prices.len() && (#[trigger] prices[i]).id == NftId(id)
    &&& forall|i: int, j: int| 0 <= i < j < prices.len() ==> prices[i].id.0 < prices[j].id.0
}

/// Once `id` is known to be the first asset that fails the custody check,
/// the check's answer is the failure of `id`.
pub proof fn lemma_first_unverified(
    nfts: Set<u64>,
    owners: Map<u64, PolymeshResult<Option<PortfolioId>>>,
    portfolio: PortfolioId,
    id: u64,
)
    requires
        first_unverified(nfts, owners, portfolio, id),
    ensures
        custody_check(nfts, owners, portfolio) == Err::<(), NftTraderError>(
            custody_failure(answer_for(owners, id), portfolio).unwrap(),
        ),
{
    let c = choose|k: u64| first_unverified(nfts, owners, portfolio, k);
    assert(first_unverified(nfts, owners, portfolio, c));
    assert(custody_failure(answer_for(owners, c), portfolio) is Some);
    assert(custody_failure(answer_for(owners, id), portfolio) is Some);
    assert(c == id);
}

/// What a marketplace instance remembers.
#[verifier::ext_equal]
pub struct TraderModel {
    /// Where the instance stands in its life.
    pub state: ContractState,
    /// The account that may initialize and close the instance.
    pub admin: Option<AccountId>,
    /// The collection that is traded.
    pub ticker: Ticker,
    /// The venue at which sales are settled.
    pub venue: VenueId,
    /// The marketplace's own identity on the ledger.
    pub did: IdentityId,
    /// The custodial portfolio of each identity that has one.
    pub portfolios: Map<IdentityId, PortfolioModel>,
    /// The listing of each listed asset, by the number inside its id.
    pub sales: Map<u64, NftSaleDetails>,
}

impl TraderModel {
    /// A fresh instance for the collection `ticker`, administered by `admin`.
    pub open spec fn initial(ticker: Ticker, admin: AccountId) -> TraderModel {
        TraderModel {
            state: ContractState::Deployed,
            admin: Some(admin),
            ticker,
            venue: VenueId(0),
            did: IdentityId::zero(),
            portfolios: Map::empty(),
            sales: Map::empty(),
        }
    }

    /// Every listed asset is tracked in the custodial portfolio of its seller,
    /// and that portfolio is registered.
    pub open spec fn sound(self) -> bool {
        forall|id: u64| #[trigger]
            self.sales.contains_key(id) ==> self.portfolios.contains_key(self.sales[id].did)
                && self.portfolios[self.sales[id].did].nfts.contains(id)
    }

    /// An identity's custodial portfolio tracks an asset exactly when the
    /// asset is listed with that identity as its seller.
    pub open spec fn consistent(self) -> bool {
        forall|did: IdentityId, id: u64|
            (self.portfolios.contains_key(did) && #[trigger] self.portfolios[did].nfts.contains(id))
                <==> (self.sales.contains_key(id) && self.sales[id].did == did)
    }

    /// Whether `caller` may administer the instance.
    pub open spec fn admin_check(self, caller: AccountId) -> Result<(), NftTraderError> {
        if self.admin == Some(caller) {
            Ok(())
        } else {
            Err(NftTraderError::NotAdmin)
        }
    }

    /// The caller's identity, where the caller has a custodial portfolio.
    pub open spec fn custodian(self, caller_did: PolymeshResult<IdentityId>) -> Result<
        IdentityId,
        NftTraderError,
    > {
        match caller_did {
            Err(e) => Err(NftTraderError::PolymeshInk(e)),
            Ok(did) => if self.portfolios.contains_key(did) {
                Ok(did)
            } else {
                Err(NftTraderError::NoPortfolio)
            },
        }
    }

    /// The caller's identity, where the caller has no custodial portfolio.
    pub open spec fn newcomer(self, caller_did: PolymeshResult<IdentityId>) -> Result<
        IdentityId,
        NftTraderError,
    > {
        match caller_did {
            Err(e) => Err(NftTraderError::PolymeshInk(e)),
            Ok(did) => if self.portfolios.contains_key(did) {
                Err(NftTraderError::AlreadyHavePortfolio)
            } else {
                Ok(did)
            },
        }
    }

    /// Whether the caller may trade now; if so, the caller's identity.
    pub open spec fn trade_check(self, caller_did: PolymeshResult<IdentityId>) -> Result<
        IdentityId,
        NftTraderError,
    > {
        match self.state.ready() {
            Err(e) => Err(e),
            Ok(_) => self.custodian(caller_did),
        }
    }

    /// Whether `caller` may initialize the instance now.
    pub open spec fn init_check(self, caller: AccountId) -> Result<(), NftTraderError> {
        if self.admin != Some(caller) {
            Err(NftTraderError::NotAdmin)
        } else if self.state != ContractState::Deployed {
            Err(NftTraderError::AlreadyInitialized)
        } else {
            Ok(())
        }
    }

    /// The instance once initialized with its identity and venue.
    pub open spec fn initialized(self, did: IdentityId, venue: VenueId) -> TraderModel {
        TraderModel { state: ContractState::Initialized, did, venue, ..self }
    }

    /// The instance once closed.
    pub open spec fn closed(self) -> TraderModel {
        TraderModel { state: ContractState::Closed, ..self }
    }

    /// Whether the caller may give a portfolio into custody now; if so, the
    /// caller's identity.
    pub open spec fn add_check(self, caller_did: PolymeshResult<IdentityId>) -> Result<
        IdentityId,
        NftTraderError,
    > {
        match self.state.ready() {
            Err(e) => Err(e),
            Ok(_) => self.newcomer(caller_did),
        }
    }

    /// The instance once `portfolio` is registered for `did`, with no asset
    /// tracked.
    pub open spec fn with_portfolio(self, did: IdentityId, portfolio: PortfolioId) -> TraderModel {
        TraderModel {
            portfolios: self.portfolios.insert(
                did,
                PortfolioModel { id: portfolio, nfts: Set::empty() },
            ),
            ..self
        }
    }

    /// Whether the caller may take assets or custody back now; if so, the
    /// caller's identity.
    pub open spec fn remove_check(self, caller_did: PolymeshResult<IdentityId>) -> Result<
        IdentityId,
        NftTraderError,
    > {
        match self.state.withdrawable() {
            Err(e) => Err(e),
            Ok(_) => self.custodian(caller_did),
        }
    }

    /// The instance once the portfolio of `did` has gone back to its owner:
    /// the registration is gone, and so is the listing of every asset the
    /// portfolio tracked.
    pub open spec fn without_portfolio(self, did: IdentityId) -> TraderModel {
        TraderModel {
            portfolios: self.portfolios.remove(did),
            sales: self.sales.remove_keys(self.portfolios[did].nfts),
            ..self
        }
    }

    /// Whether the caller may withdraw `ids` now; if so, the caller's
    /// identity. Each id must be tracked in the caller's portfolio, and none
    /// may be named twice.
    pub open spec fn withdraw_check(
        self,
        caller_did: PolymeshResult<IdentityId>,
        ids: Seq<NftId>,
    ) -> Result<IdentityId, NftTraderError> {
        match self.remove_check(caller_did) {
            Err(e) => Err(e),
            Ok(did) => if ids.no_duplicates() && forall|i: int|
                0 <= i < ids.len() ==> self.portfolios[did].nfts.contains((#[trigger] ids[i]).0) {
                Ok(did)
            } else {
                Err(NftTraderError::NotInPortfolio)
            },
        }
    }

    /// The instance once `ids` have left the portfolio of `did`: they are
    /// tracked no longer, and none of them is listed.
    pub open spec fn withdrawn(self, did: IdentityId, ids: Seq<NftId>) -> TraderModel {
        TraderModel {
            portfolios: self.portfolios.insert(
                did,
                PortfolioModel {
                    id: self.portfolios[did].id,
                    nfts: self.portfolios[did].nfts.difference(raw_ids(ids)),
                },
            ),
            sales: self.sales.remove_keys(raw_ids(ids)),
            ..self
        }
    }

    /// Whether the caller may set the prices `nfts` now, given what the
    /// ledger answered about who holds each asset; if so, the caller's
    /// identity.
    pub open spec fn sell_check(
        self,
        caller_did: PolymeshResult<IdentityId>,
        nfts: Map<u64, Option<Balance>>,
        owners: Map<u64, PolymeshResult<Option<PortfolioId>>>,
    ) -> Result<IdentityId, NftTraderError> {
        match self.trade_check(caller_did) {
            Err(e) => Err(e),
            Ok(did) => match custody_check(nfts.dom(), owners, self.portfolios[did].id) {
                Err(e) => Err(e),
                Ok(_) => Ok(did),
            },
        }
    }

    /// The instance once `caller`, of identity `did`, has set the prices
    /// `nfts`.
    pub open spec fn listed(
        self,
        caller: AccountId,
        did: IdentityId,
        nfts: Map<u64, Option<Balance>>,
    ) -> TraderModel {
        TraderModel {
            portfolios: self.portfolios.insert(
                did,
                PortfolioModel {
                    id: self.portfolios[did].id,
                    nfts: listed_after(self.portfolios[did].nfts, nfts),
                },
            ),
            sales: sales_after(self.sales, caller, did, nfts),
            ..self
        }
    }

    /// The settlement that moves `nft` from `sender` to `receiver`: one leg, at
    /// the instance's venue, on behalf of both portfolios.
    pub open spec fn settlement(
        self,
        sender: PortfolioId,
        receiver: PortfolioId,
        nft: NftId,
    ) -> SettlementModel {
        SettlementModel {
            venue: self.venue,
            legs: seq![
                LegModel {
                    sender,
                    receiver,
                    nfts: AssetsModel { ticker: self.ticker, ids: seq![NFTId(nft.0)] },
                },
            ],
            portfolios: seq![sender, receiver],
        }
    }

    /// Whether the caller may buy `nft` for `amount` now; if so, the buyer's
    /// identity.
    pub open spec fn buy_check(
        self,
        caller_did: PolymeshResult<IdentityId>,
        nft: NftId,
        amount: Balance,
    ) -> Result<IdentityId, NftTraderError> {
        match self.state.ready() {
            Err(e) => Err(e),
            Ok(_) => if !self.sales.contains_key(nft.0) {
                Err(NftTraderError::NotForSale)
            } else if !self.portfolios.contains_key(self.sales[nft.0].did) {
                Err(NftTraderError::MissingPortfolio)
            } else if self.sales[nft.0].price > amount {
                Err(NftTraderError::TransferredValueTooLow)
            } else {
                match self.custodian(caller_did) {
                    Err(e) => Err(e),
                    Ok(buyer) => if !self.portfolios[self.sales[nft.0].did].nfts.contains(nft.0) {
                        Err(NftTraderError::NotInPortfolio)
                    } else {
                        Ok(buyer)
                    },
                }
            },
        }
    }

    /// The instance once `nft` is sold: its listing is gone, and its seller's
    /// portfolio tracks it no longer.
    pub open spec fn sold(self, nft: NftId) -> TraderModel {
        let seller = self.sales[nft.0].did;
        TraderModel {
            portfolios: self.portfolios.insert(
                seller,
                PortfolioModel {
                    id: self.portfolios[seller].id,
                    nfts: self.portfolios[seller].nfts.remove(nft.0),
                },
            ),
            sales: self.sales.remove(nft.0),
            ..self
        }
    }
}

/// One call that can change a marketplace instance, with everything it was
/// given: what the caller sent and what the ledger answered.
pub enum Step {
    Init { caller: AccountId, created: PolymeshResult<(IdentityId, VenueId)> },
    Close { caller: AccountId },
    CreatePortfolio {
        caller_did: PolymeshResult<IdentityId>,
        created: PolymeshResult<PortfolioId>,
    },
    AddPortfolio { caller_did: PolymeshResult<IdentityId>, accepted: PolymeshResult<PortfolioId> },
    RemovePortfolio { caller_did: PolymeshResult<IdentityId>, quit: PolymeshResult<()> },
    Withdraw { caller_did: PolymeshResult<IdentityId>, ids: Seq<NftId>, moved: PolymeshResult<()> },
    NftForSell {
        caller: AccountId,
        caller_did: PolymeshResult<IdentityId>,
        nfts: Map<u64, Option<Balance>>,
        owners: Map<u64, PolymeshResult<Option<PortfolioId>>>,
    },
    BuyNft {
        caller_did: PolymeshResult<IdentityId>,
        nft: NftId,
        amount: Balance,
        settled: PolymeshResult<()>,
        paid: bool,
    },
}

impl TraderModel {
    /// What initializing comes to: the initialized instance, or the error.
    /// `created` is what the ledger answered when asked for the
    /// marketplace's own identity and a new venue.
    pub open spec fn init_outcome(
        self,
        caller: AccountId,
        created: PolymeshResult<(IdentityId, VenueId)>,
    ) -> Result<TraderModel, NftTraderError> {
        match self.init_check(caller) {
            Err(e) => Err(e),
            Ok(_) => match created {
                Err(e) => Err(NftTraderError::PolymeshInk(e)),
                Ok((did, venue)) => Ok(self.initialized(did, venue)),
            },
        }
    }

    /// What closing comes to: the closed instance, or the error.
    pub open spec fn close_outcome(self, caller: AccountId) -> Result<TraderModel, NftTraderError> {
        match self.admin_check(caller) {
            Err(e) => Err(e),
            Ok(_) => Ok(self.closed()),
        }
    }

    /// What creating a custodial portfolio comes to. `created` is what the
    /// ledger answered when asked to create it.
    pub open spec fn create_outcome(
        self,
        caller_did: PolymeshResult<IdentityId>,
        created: PolymeshResult<PortfolioId>,
    ) -> Result<TraderModel, NftTraderError> {
        match self.add_check(caller_did) {
            Err(e) => Err(e),
            Ok(did) => match created {
                Err(e) => Err(NftTraderError::PolymeshInk(e)),
                Ok(portfolio) => Ok(self.with_portfolio(did, portfolio)),
            },
        }
    }

    /// What accepting custody of a portfolio comes to. `accepted` is what
    /// the ledger answered when asked to accept custody; the portfolio it
    /// names must be the caller's own.
    pub open spec fn add_outcome(
        self,
        caller_did: PolymeshResult<IdentityId>,
        accepted: PolymeshResult<PortfolioId>,
    ) -> Result<TraderModel, NftTraderError> {
        match self.add_check(caller_did) {
            Err(e) => Err(e),
            Ok(did) => match accepted {
                Err(e) => Err(NftTraderError::PolymeshInk(e)),
                Ok(portfolio) => if did != portfolio.did {
                    Err(NftTraderError::InvalidPortfolioAuthorization)
                } else {
                    Ok(self.with_portfolio(did, portfolio))
                },
            },
        }
    }

    /// What returning custody comes to. `quit` is what the ledger answered
    /// when asked to quit custody of the portfolio.
    pub open spec fn remove_outcome(
        self,
        caller_did: PolymeshResult<IdentityId>,
        quit: PolymeshResult<()>,
    ) -> Result<TraderModel, NftTraderError> {
        match self.remove_check(caller_did) {
            Err(e) => Err(e),
            Ok(did) => match quit {
                Err(e) => Err(NftTraderError::PolymeshInk(e)),
                Ok(_) => Ok(self.without_portfolio(did)),
            },
        }
    }

    /// What withdrawing `ids` comes to. `moved` is what the ledger answered
    /// when asked to move the assets out.
    pub open spec fn withdraw_outcome(
        self,
        caller_did: PolymeshResult<IdentityId>,
        ids: Seq<NftId>,
        moved: PolymeshResult<()>,
    ) -> Result<TraderModel, NftTraderError> {
        match self.withdraw_check(caller_did, ids) {
            Err(e) => Err(e),
            Ok(did) => match moved {
                Err(e) => Err(NftTraderError::PolymeshInk(e)),
                Ok(_) => Ok(self.withdrawn(did, ids)),
            },
        }
    }

    /// What setting the prices `nfts` comes to. `owners` is what the ledger
    /// answered when asked who holds each asset.
    pub open spec fn sell_outcome(
        self,
        caller: AccountId,
        caller_did: PolymeshResult<IdentityId>,
        nfts: Map<u64, Option<Balance>>,
        owners: Map<u64, PolymeshResult<Option<PortfolioId>>>,
    ) -> Result<TraderModel, NftTraderError> {
        match self.sell_check(caller_did, nfts, owners) {
            Err(e) => Err(e),
            Ok(did) => Ok(self.listed(caller, did, nfts)),
        }
    }

    /// What buying `nft` with `amount` attached comes to. `settled` is what
    /// the ledger answered when asked to settle the asset's move to the
    /// buyer; `paid` says whether `amount` then reached the seller's account.
    pub open spec fn buy_outcome(
        self,
        caller_did: PolymeshResult<IdentityId>,
        nft: NftId,
        amount: Balance,
        settled: PolymeshResult<()>,
        paid: bool,
    ) -> Result<TraderModel, NftTraderError> {
        match self.buy_check(caller_did, nft, amount) {
            Err(e) => Err(e),
            Ok(_) => match settled {
                Err(e) => Err(NftTraderError::PolymeshInk(e)),
                Ok(_) => if paid {
                    Ok(self.sold(nft))
                } else {
                    Err(NftTraderError::FailedToPaySeller)
                },
            },
        }
    }

    /// What `step` comes to: the instance after it, or the error.
    pub open spec fn outcome(self, step: Step) -> Result<TraderModel, NftTraderError> {
        match step {
            Step::Init { caller, created } => self.init_outcome(caller, created),
            Step::Close { caller } => self.close_outcome(caller),
            Step::CreatePortfolio { caller_did, created } => self.create_outcome(
                caller_did,
                created,
            ),
            Step::AddPortfolio { caller_did, accepted } => self.add_outcome(caller_did, accepted),
            Step::RemovePortfolio { caller_did, quit } => self.remove_outcome(caller_did, quit),
            Step::Withdraw { caller_did, ids, moved } => self.withdraw_outcome(
                caller_did,
                ids,
                moved,
            ),
            Step::NftForSell { caller, caller_did, nfts, owners } => self.sell_outcome(
                caller,
                caller_did,
                nfts,
                owners,
            ),
            Step::BuyNft { caller_did, nft, amount, settled, paid } => self.buy_outcome(
                caller_did,
                nft,
                amount,
                settled,
                paid,
            ),
        }
    }

    /// The instance after `step`: changed as the call says where the call
    /// succeeds, and as it was where the call fails.
    pub open spec fn step(self, step: Step) -> TraderModel {
        match self.outcome(step) {
            Ok(next) => next,
            Err(_) => self,
        }
    }

    /// The instance after all of `steps`, one after the other.
    pub open spec fn run(self, steps: Seq<Step>) -> TraderModel
        decreases steps.len(),
    {
        if steps.len() == 0 {
            self
        } else {
            self.run(steps.drop_last()).step(steps.last())
        }
    }
}

} // verus!
