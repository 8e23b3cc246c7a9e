//! Plain identifiers shared by the marketplace and the asset ledger it
//! works against.

use vstd::prelude::*;
use vstd::std_specs::cmp::PartialEqSpecImpl;

verus! {

/// An amount of the chain's native currency.
pub type Balance = u128;

/// Tells whether two 32-byte keys hold the same bytes.
fn same_bytes(a: &[u8; 32], b: &[u8; 32]) -> (r: bool)
    ensures
        r == (*a == *b),
{
    let mut i: usize = 0;
    while i < 32
        invariant
            i <= 32,
            forall|j: int| 0 <= j < i ==> a[j] == b[j],
        decreases 32 - i,
    {
        if a[i] != b[i] {
            return false;
        }
        i = i + 1;
    }
    proof {
        assert(*a =~= *b);
    }
    true
}

/// A payment account: the key that signs calls and receives payments.
#[derive(Clone, Copy, Debug)]
pub struct AccountId(pub [u8; 32]);

impl PartialEq for AccountId {
    fn eq(&self, other: &Self) -> (r: bool) {
        same_bytes(&self.0, &other.0)
    }
}

impl Eq for AccountId {

}

impl PartialEqSpecImpl for AccountId {
    open spec fn obeys_eq_spec() -> bool {
        true
    }

    open spec fn eq_spec(&self, other: &Self) -> bool {
        *self == *other
    }
}

/// The identity of an account holder. One identity may control many
/// accounts; custody is registered per identity.
#[derive(Clone, Copy, Debug)]
pub struct IdentityId(pub [u8; 32]);

impl IdentityId {
    /// The identity whose bytes are all zero. An instance carries it until
    /// it learns its own.
    pub open spec fn zero() -> IdentityId {
        IdentityId(vstd::array::spec_array_fill_for_copy_type::<u8, 32>(0u8))
    }
}

/// Every byte of the zero identity is zero.
pub proof fn lemma_zero_identity()
    ensures
        forall|i: int| 0 <= i < 32 ==> IdentityId::zero().0[i] == 0u8,
{
}

impl Default for IdentityId {
    fn default() -> (r: IdentityId)
        ensures
            r == IdentityId::zero(),
    {
        IdentityId([0u8; 32])
    }
}

impl PartialEq for IdentityId {
    fn eq(&self, other: &Self) -> (r: bool) {
        same_bytes(&self.0, &other.0)
    }
}

impl Eq for IdentityId {

}

impl PartialEqSpecImpl for IdentityId {
    open spec fn obeys_eq_spec() -> bool {
        true
    }

    open spec fn eq_spec(&self, other: &Self) -> bool {
        *self == *other
    }
}

/// The ticker of the one collection a marketplace instance trades.
#[derive(Clone, Copy, Debug, PartialEq, Eq)]
pub struct Ticker(pub [u8; 12]);

/// A settlement venue on the ledger.
#[derive(Clone, Copy, Debug, PartialEq, Eq, Structural)]
pub struct VenueId(pub u64);

impl Default for VenueId {
    fn default() -> (r: VenueId)
        ensures
            r == VenueId(0),
    {
        VenueId(0)
    }
}

/// The number of a user-created portfolio within its owner's identity.
#[derive(Clone, Copy, Debug, PartialEq, Eq, Structural)]
pub struct PortfolioNumber(pub u64);

/// Which of an identity's portfolios is meant.
#[derive(Clone, Copy, Debug, PartialEq, Eq, Structural)]
pub enum PortfolioKind {
    /// The portfolio every identity has from the start.
    Default,
    /// A portfolio the identity created.
    User(PortfolioNumber),
}

/// A portfolio on the ledger: its owner and which of the owner's portfolios.
#[derive(Clone, Copy, Debug)]
pub struct PortfolioId {
    pub did: IdentityId,
    pub kind: PortfolioKind,
}

impl PartialEq for PortfolioId {
    fn eq(&self, other: &Self) -> (r: bool) {
        self.did == other.did && self.kind == other.kind
    }
}

impl Eq for PortfolioId {

}

impl PartialEqSpecImpl for PortfolioId {
    open spec fn obeys_eq_spec() -> bool {
        true
    }

    open spec fn eq_spec(&self, other: &Self) -> bool {
        *self == *other
    }
}

/// The name a new portfolio is created under.
#[derive(Clone, Debug, PartialEq, Eq)]
pub struct PortfolioName(pub Vec<u8>);

/// The id of one asset as the ledger writes it.
#[derive(Clone, Copy, Debug, PartialEq, Eq, Structural)]
pub struct NFTId(pub u64);

/// The id of one asset of the traded collection.
#[derive(Clone, Copy, Debug, Default, PartialEq, Eq, PartialOrd, Ord, Hash, Structural)]
pub struct NftId(pub u64);

impl NftId {
    /// The same id in the ledger's own type.
    pub fn nft(self) -> (r: NFTId)
        ensures
            r == NFTId(self.0),
    {
        NFTId(self.0)
    }
}

impl From<NFTId> for NftId {
    fn from(id: NFTId) -> (r: NftId) {
        NftId(id.0)
    }
}

impl vstd::std_specs::convert::FromSpecImpl<NFTId> for NftId {
    open spec fn obeys_from_spec() -> bool {
        true
    }

    open spec fn from_spec(id: NFTId) -> NftId {
        NftId(id.0)
    }
}

impl From<&NFTId> for NftId {
    fn from(id: &NFTId) -> (r: NftId) {
        NftId(id.0)
    }
}

impl vstd::std_specs::convert::FromSpecImpl<&NFTId> for NftId {
    open spec fn obeys_from_spec() -> bool {
        true
    }

    open spec fn from_spec(id: &NFTId) -> NftId {
        NftId(id.0)
    }
}

} // verus!
