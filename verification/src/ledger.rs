//! What the marketplace asks of the asset ledger. The marketplace never
//! reaches the ledger itself: each operation names the request to make, and
//! whoever runs the marketplace carries it out and reports how it went.

use vstd::prelude::*;
use crate::primitives::{
    AccountId, Balance, IdentityId, NFTId, PortfolioId, PortfolioKind, PortfolioName, Ticker,
    VenueId,
};

verus! {

/// The description the marketplace gives its venue: the ASCII bytes of
/// "NFT Trader Venue".
pub open spec fn venue_description() -> Seq<u8> {
    seq![
        78u8, 70u8, 84u8, 32u8, 84u8, 114u8, 97u8, 100u8, 101u8, 114u8, 32u8, 86u8, 101u8, 110u8,
        117u8, 101u8,
    ]
}

/// The free-form description of a settlement venue.
#[derive(Clone, Debug, PartialEq, Eq)]
pub struct VenueDetails(pub Vec<u8>);

/// The kinds of settlement venue the ledger knows.
#[derive(Clone, Copy, Debug, PartialEq, Eq, Structural)]
pub enum VenueType {
    Other,
    Distribution,
    Sto,
    Exchange,
}

/// A request to create the settlement venue.
#[derive(Clone, Debug, PartialEq, Eq)]
pub struct VenueRequest {
    pub details: VenueDetails,
    pub kind: VenueType,
}

/// A request to create a portfolio for `owner` and take custody of it.
#[derive(Clone, Debug, PartialEq, Eq)]
pub struct CustodyPortfolioRequest {
    pub owner: IdentityId,
    pub name: PortfolioName,
}

/// A request to accept custody of one of the caller's portfolios under the
/// authorization `auth_id`.
#[derive(Clone, Copy, Debug, PartialEq, Eq)]
pub struct CustodyAcceptance {
    pub auth_id: u64,
    pub kind: PortfolioKind,
}

/// Some assets of one collection.
#[derive(Clone, Debug, PartialEq, Eq)]
pub struct NFTs {
    pub ticker: Ticker,
    pub ids: Vec<NFTId>,
}

/// Some assets of one collection, as a mathematical value.
#[verifier::ext_equal]
pub struct AssetsModel {
    pub ticker: Ticker,
    pub ids: Seq<NFTId>,
}

impl View for NFTs {
    type V = AssetsModel;

    open spec fn view(&self) -> AssetsModel {
        AssetsModel { ticker: self.ticker, ids: self.ids@ }
    }
}

/// A request to learn which portfolio holds each of `nfts`, in order. The
/// answers decide whether `portfolio` may list them.
#[derive(Clone, Debug, PartialEq, Eq)]
pub struct CustodyQuery {
    pub portfolio: PortfolioId,
    pub nfts: NFTs,
}

/// A request to move assets between two portfolios outside any settlement.
#[derive(Clone, Debug, PartialEq, Eq)]
pub struct PortfolioMove {
    pub from: PortfolioId,
    pub to: PortfolioId,
    pub nfts: NFTs,
}

/// One leg of a settlement: assets that pass from `sender` to `receiver`.
#[derive(Clone, Debug, PartialEq, Eq)]
pub struct Leg {
    pub sender: PortfolioId,
    pub receiver: PortfolioId,
    pub nfts: NFTs,
}

/// One leg of a settlement, as a mathematical value.
#[verifier::ext_equal]
pub struct LegModel {
    pub sender: PortfolioId,
    pub receiver: PortfolioId,
    pub nfts: AssetsModel,
}

impl View for Leg {
    type V = LegModel;

    open spec fn view(&self) -> LegModel {
        LegModel { sender: self.sender, receiver: self.receiver, nfts: self.nfts@ }
    }
}

/// A request to settle `legs` at `venue`, all of them or none, on behalf of
/// `portfolios`.
#[derive(Clone, Debug, PartialEq, Eq)]
pub struct Settlement {
    pub venue: VenueId,
    pub legs: Vec<Leg>,
    pub portfolios: Vec<PortfolioId>,
}

/// A settlement request as a mathematical value.
#[verifier::ext_equal]
pub struct SettlementModel {
    pub venue: VenueId,
    pub legs: Seq<LegModel>,
    pub portfolios: Seq<PortfolioId>,
}

impl View for Settlement {
    type V = SettlementModel;

    open spec fn view(&self) -> SettlementModel {
        SettlementModel {
            venue: self.venue,
            legs: self.legs@.map_values(|leg: Leg| leg@),
            portfolios: self.portfolios@,
        }
    }
}

/// The two requests a purchase consists of: settle the asset's move to the
/// buyer, then pay `amount` to `payee`.
#[derive(Clone, Debug, PartialEq, Eq)]
pub struct NftPurchase {
    pub settlement: Settlement,
    pub payee: AccountId,
    pub amount: Balance,
}

} // verus!
