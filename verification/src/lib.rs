//! Escrow bookkeeping for a custodial marketplace of non-fungible assets.
//!
//! Owners give a portfolio of their assets into the marketplace's custody,
//! list assets of it at a fixed price, and buyers pay the price to have an
//! asset moved into their own custodial portfolio. The assets themselves live
//! on a ledger outside: this crate keeps the books (who gave custody of which
//! portfolio, what is listed at what price) and decides every call. What has
//! to happen on the ledger it hands out as a request, and it takes the
//! ledger's answer as an argument.
//!
//! - [`trader`] holds the marketplace and its operations,
//! - [`model`] says what each operation comes to, over maps and sets,
//! - [`laws`] proves what holds in every state an instance can reach,
//! - [`portfolio`] holds the custody registry, [`state`] the lifecycle,
//! - [`ledger`], [`events`], [`sale`], [`error`] and [`primitives`] hold the
//!   values that go in and out.

pub mod error;
pub mod events;
pub mod laws;
pub mod ledger;
mod listings;
pub mod model;
pub mod portfolio;
pub mod primitives;
pub mod sale;
mod sequences;
pub mod state;
pub mod trader;

pub use error::{InkEnvError, NftTraderError, PolymeshError, PolymeshInkError, PolymeshResult};
pub use events::{NFTSold, NFTsForSale, PortfolioAdded, PortfolioRemoved, WithdrawnNFTs};
pub use ledger::{
    CustodyAcceptance, CustodyPortfolioRequest, CustodyQuery, Leg, NFTs, NftPurchase,
    PortfolioMove, Settlement, VenueDetails, VenueRequest, VenueType,
};
pub use portfolio::{NftPortfolioDetails, PortfolioModel, PortfolioRegistry};
pub use primitives::{
    AccountId, Balance, IdentityId, NFTId, NftId, PortfolioId, PortfolioKind, PortfolioName,
    PortfolioNumber, Ticker, VenueId,
};
pub use sale::{NftPrice, NftSaleDetails};
pub use state::ContractState;
pub use model::{Step, TraderModel};
pub use trader::{NftTrader, TraderRecord};
