//! What the marketplace announces after a call has gone through.

use vstd::prelude::*;
use std::collections::BTreeMap;
use crate::primitives::{Balance, NftId, PortfolioId};

verus! {

/// A portfolio came into the marketplace's custody.
#[derive(Clone, Copy, Debug, PartialEq, Eq)]
pub struct PortfolioAdded {
    pub portfolio: PortfolioId,
}

/// A portfolio went back to its owner.
#[derive(Clone, Copy, Debug, PartialEq, Eq)]
pub struct PortfolioRemoved {
    pub portfolio: PortfolioId,
}

/// Assets were withdrawn from a custodial portfolio.
#[derive(Clone, Debug, PartialEq, Eq)]
pub struct WithdrawnNFTs {
    pub portfolio: PortfolioId,
    pub nfts: Vec<NftId>,
}

/// Prices were set or taken back for assets of a custodial portfolio. The map
/// is keyed by the number inside each `NftId`; `None` stands for a delisting.
#[derive(Clone, Debug, PartialEq, Eq)]
pub struct NFTsForSale {
    pub portfolio: PortfolioId,
    pub nfts: BTreeMap<u64, Option<Balance>>,
}

/// An asset was sold. `portfolio` is the buyer's, `amount` what the buyer paid.
#[derive(Clone, Copy, Debug, PartialEq, Eq)]
pub struct NFTSold {
    pub portfolio: PortfolioId,
    pub id: NftId,
    pub amount: Balance,
}

} // verus!
