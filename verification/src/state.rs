//! The lifecycle of a marketplace instance, and which operations each state
//! lets through.

use vstd::prelude::*;
use crate::error::NftTraderError;

verus! {

/// Where a marketplace instance stands in its life. It only moves forward:
/// from `Deployed` to `Initialized`, and from either to `Closed`.
#[derive(Clone, Copy, Debug, PartialEq, Eq, Structural)]
pub enum ContractState {
    /// Deployed, with no settlement venue yet.
    Deployed,
    /// Ready to trade.
    Initialized,
    /// Trading has stopped; owners can still take their assets back.
    Closed,
}

impl Default for ContractState {
    fn default() -> (r: ContractState)
        ensures
            r == ContractState::Deployed,
    {
        ContractState::Deployed
    }
}

impl ContractState {
    /// Whether listing and buying are let through in this state.
    pub open spec fn ready(self) -> Result<(), NftTraderError> {
        match self {
            ContractState::Initialized => Ok(()),
            ContractState::Closed => Err(NftTraderError::ContractClosed),
            ContractState::Deployed => Err(NftTraderError::NotInitialized),
        }
    }

    /// Whether withdrawing and returning custody are let through in this
    /// state.
    pub open spec fn withdrawable(self) -> Result<(), NftTraderError> {
        match self {
            ContractState::Initialized => Ok(()),
            ContractState::Closed => Ok(()),
            ContractState::Deployed => Err(NftTraderError::NotInitialized),
        }
    }

    /// Stands before listing and buying: passes only while the marketplace is
    /// initialized.
    pub fn ensure_ready(&self) -> (r: Result<(), NftTraderError>)
        ensures
            r == self.ready(),
    {
        match self {
            ContractState::Initialized => Ok(()),
            ContractState::Closed => Err(NftTraderError::ContractClosed),
            ContractState::Deployed => Err(NftTraderError::NotInitialized),
        }
    }

    /// Stands before withdrawing and returning custody: passes once the
    /// marketplace has been initialized, closed or not.
    pub fn ensure_withdraw(&self) -> (r: Result<(), NftTraderError>)
        ensures
            r == self.withdrawable(),
    {
        match self {
            ContractState::Initialized => Ok(()),
            ContractState::Closed => Ok(()),
            ContractState::Deployed => Err(NftTraderError::NotInitialized),
        }
    }
}

} // verus!
