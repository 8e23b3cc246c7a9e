//! Why a marketplace call fails, and the ledger's own errors that it hands on.

use vstd::prelude::*;
use vstd::std_specs::convert::FromSpecImpl;

verus! {

/// A failure reported by the ledger's runtime interface.
#[derive(Clone, Debug, PartialEq, Eq)]
pub enum PolymeshInkError {
    /// A value could not be encoded or decoded.
    ParityScaleCodec(String),
    /// The runtime answered with a non-zero status.
    Generic { status_code: u32 },
    /// A call into the runtime was refused.
    ExtrinsicCallFailed { error_msg: String },
}

/// What went wrong in the contract environment during a delegated call.
#[derive(Clone, Copy, Debug, PartialEq, Eq)]
pub enum InkEnvError {
    ScaleDecodeError,
    CalleeTrapped,
    CalleeReverted,
    KeyNotFound,
    TransferFailed,
    _EndowmentTooLow,
    CodeNotFound,
    NotCallable,
    LoggingDisabled,
    EcdsaRecoveryFailed,
}

/// An error of the asset ledger.
#[derive(Clone, Debug, PartialEq, Eq)]
pub enum PolymeshError {
    /// The ledger's runtime failed.
    PolymeshRuntime(PolymeshInkError),
    /// The calling account has no identity.
    MissingIdentity,
    /// The custody authorization did not give custody of the portfolio.
    InvalidPortfolioAuthorization,
    /// A delegated call failed.
    InkDelegateCallError { selector: [u8; 4], err: Option<InkEnvError> },
}

impl From<PolymeshInkError> for PolymeshError {
    fn from(err: PolymeshInkError) -> (r: PolymeshError) {
        PolymeshError::PolymeshRuntime(err)
    }
}

impl FromSpecImpl<PolymeshInkError> for PolymeshError {
    open spec fn obeys_from_spec() -> bool {
        true
    }

    open spec fn from_spec(err: PolymeshInkError) -> PolymeshError {
        PolymeshError::PolymeshRuntime(err)
    }
}

/// What the ledger answers: a value, or its error.
pub type PolymeshResult<T> = Result<T, PolymeshError>;

/// Why a marketplace call failed.
#[derive(Clone, Debug, PartialEq, Eq)]
pub enum NftTraderError {
    /// The ledger failed; its error is handed on as it came.
    PolymeshInk(PolymeshError),
    /// The marketplace has not been initialized yet.
    NotInitialized,
    /// The marketplace was initialized before.
    AlreadyInitialized,
    /// The marketplace is closed: only withdrawing and returning custody remain.
    ContractClosed,
    /// The custody authorization names a portfolio of another identity.
    InvalidPortfolioAuthorization,
    /// The caller has a custodial portfolio already.
    AlreadyHavePortfolio,
    /// The caller has no custodial portfolio.
    NoPortfolio,
    /// The seller's custodial portfolio is gone.
    MissingPortfolio,
    /// An asset is not in the portfolio it was expected in.
    NotInPortfolio,
    /// The asset is not listed.
    NotForSale,
    /// The attached payment is below the price.
    TransferredValueTooLow,
    /// The payment could not be delivered to the seller.
    FailedToPaySeller,
    /// The caller is not the administrator.
    NotAdmin,
}

impl From<PolymeshError> for NftTraderError {
    fn from(err: PolymeshError) -> (r: NftTraderError) {
        NftTraderError::PolymeshInk(err)
    }
}

impl FromSpecImpl<PolymeshError> for NftTraderError {
    open spec fn obeys_from_spec() -> bool {
        true
    }

    open spec fn from_spec(err: PolymeshError) -> NftTraderError {
        NftTraderError::PolymeshInk(err)
    }
}

impl From<PolymeshInkError> for NftTraderError {
    fn from(err: PolymeshInkError) -> (r: NftTraderError) {
        NftTraderError::PolymeshInk(PolymeshError::PolymeshRuntime(err))
    }
}

impl FromSpecImpl<PolymeshInkError> for NftTraderError {
    open spec fn obeys_from_spec() -> bool {
        true
    }

    open spec fn from_spec(err: PolymeshInkError) -> NftTraderError {
        NftTraderError::PolymeshInk(PolymeshError::PolymeshRuntime(err))
    }
}

} // verus!
