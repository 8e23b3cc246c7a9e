//! Listings: an asset offered at a fixed price.

use vstd::prelude::*;
use crate::primitives::{AccountId, Balance, IdentityId, NftId};

verus! {

/// The listing of one asset: who sells it, where the payment goes, and the
/// price.
#[derive(Clone, Copy, Debug, PartialEq, Eq)]
pub struct NftSaleDetails {
    /// The seller's account, which receives the payment.
    pub account: AccountId,
    /// The seller's identity.
    pub did: IdentityId,
    /// The price.
    pub price: Balance,
}

/// The price one asset is listed at.
#[derive(Clone, Copy, Debug, PartialEq, Eq)]
pub struct NftPrice {
    pub id: NftId,
    pub price: Balance,
}

} // verus!
