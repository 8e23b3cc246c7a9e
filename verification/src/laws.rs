//! What holds of a marketplace instance in every state it can reach.

use vstd::prelude::*;
use crate::error::{NftTraderError, PolymeshResult};
use crate::model::{raw_ids, Step, TraderModel};
use crate::primitives::{AccountId, Balance, IdentityId, NftId, Ticker};
use crate::state::ContractState;

verus! {

/// How far along its life an instance is.
pub open spec fn age(state: ContractState) -> int {
    match state {
        ContractState::Deployed => 0,
        ContractState::Initialized => 1,
        ContractState::Closed => 2,
    }
}

/// `step` does not touch the listing that an identity other than the caller
/// holds: where it sets or takes back prices, each asset it names is either
/// unlisted or listed by the caller.
pub open spec fn minds_own_listings(m: TraderModel, step: Step) -> bool {
    match step {
        Step::NftForSell { caller, caller_did, nfts, owners } => match m.sell_check(
            caller_did,
            nfts,
            owners,
        ) {
            Ok(did) => forall|id: u64|
                nfts.contains_key(id) && #[trigger] m.sales.contains_key(id) ==> m.sales[id].did
                    == did,
            Err(_) => true,
        },
        _ => true,
    }
}

/// Each of `steps`, taken in turn from `m`, minds its own listings.
pub open spec fn all_mind_own_listings(m: TraderModel, steps: Seq<Step>) -> bool {
    forall|i: int|
        0 <= i < steps.len() ==> minds_own_listings(m.run(steps.take(i)), #[trigger] steps[i])
}

/// A fresh instance lists nothing and holds no portfolio, so its listings
/// and portfolios agree.
pub proof fn lemma_initial_consistent(ticker: Ticker, admin: AccountId)
    ensures
        TraderModel::initial(ticker, admin).consistent(),
        TraderModel::initial(ticker, admin).sound(),
{
}

/// Listings and portfolios that agree both ways are sound: every listed
/// asset is in its seller's registered portfolio.
pub proof fn lemma_consistent_is_sound(m: TraderModel)
    requires
        m.consistent(),
    ensures
        m.sound(),
{
    assert forall|id: u64| #[trigger] m.sales.contains_key(id) implies m.portfolios.contains_key(
        m.sales[id].did,
    ) && m.portfolios[m.sales[id].did].nfts.contains(id) by {
        let did = m.sales[id].did;
        assert(m.portfolios[did].nfts.contains(id));
    }
}

/// No call breaks soundness: after any call, succeeded or failed, every
/// listed asset is still in the registered custodial portfolio of its seller.
pub proof fn lemma_step_keeps_sound(m: TraderModel, step: Step)
    requires
        m.sound(),
    ensures
        m.step(step).sound(),
{
    let n = m.step(step);
    assert forall|id: u64| #[trigger] n.sales.contains_key(id) implies n.portfolios.contains_key(
        n.sales[id].did,
    ) && n.portfolios[n.sales[id].did].nfts.contains(id) by {
        if m.sales.contains_key(id) {
            assert(m.portfolios[m.sales[id].did].nfts.contains(id));
        }
        if let Step::Withdraw { ids, .. } = step {
            assert(n != m ==> !raw_ids(ids).contains(id));
        }
    }
}

/// Whatever calls are made on a fresh instance, every listed asset is in the
/// registered custodial portfolio of its seller.
pub proof fn lemma_reachable_sound(ticker: Ticker, admin: AccountId, steps: Seq<Step>)
    ensures
        TraderModel::initial(ticker, admin).run(steps).sound(),
    decreases steps.len(),
{
    if steps.len() > 0 {
        lemma_reachable_sound(ticker, admin, steps.drop_last());
        lemma_step_keeps_sound(
            TraderModel::initial(ticker, admin).run(steps.drop_last()),
            steps.last(),
        );
    }
}

/// A call that minds its own listings keeps listings and portfolios in
/// agreement: after it, an identity's portfolio holds an asset for sale
/// exactly when the asset is listed with that identity as seller.
pub proof fn lemma_step_keeps_consistent(m: TraderModel, step: Step)
    requires
        m.consistent(),
        minds_own_listings(m, step),
    ensures
        m.step(step).consistent(),
{
    let n = m.step(step);
    lemma_consistent_is_sound(m);
    assert forall|d: IdentityId, id: u64|
        (n.portfolios.contains_key(d) && #[trigger] n.portfolios[d].nfts.contains(id)) <==> (
        n.sales.contains_key(id) && n.sales[id].did == d) by {
        if m.portfolios.contains_key(d) {
            assert(m.portfolios[d].nfts.contains(id) <==> m.sales.contains_key(id)
                && m.sales[id].did == d);
        }
        if m.sales.contains_key(id) {
            assert(m.portfolios[m.sales[id].did].nfts.contains(id));
        }
        if let Step::Withdraw { caller_did, ids, .. } = step {
            if raw_ids(ids).contains(id) && m.withdraw_check(caller_did, ids) is Ok {
                let k = choose|k: int| 0 <= k < ids.len() && ids[k] == NftId(id);
                assert(m.portfolios[m.withdraw_check(caller_did, ids)->Ok_0].nfts.contains(
                    ids[k].0,
                ));
            }
        }
    }
}

/// Both at once: a call keeps a sound instance sound, and, where it minds
/// its own listings, keeps listings and portfolios in agreement.
pub proof fn lemma_step_keeps_invariants(m: TraderModel, step: Step)
    ensures
        m.sound() ==> m.step(step).sound(),
        m.consistent() && minds_own_listings(m, step) ==> m.step(step).consistent(),
{
    if m.sound() {
        lemma_step_keeps_sound(m, step);
    }
    if m.consistent() && minds_own_listings(m, step) {
        lemma_step_keeps_consistent(m, step);
    }
}

/// Whatever calls are made on a fresh instance, as long as each minds its
/// own listings, an asset has a listing exactly when the custodial portfolio
/// of its seller holds it for sale.
pub proof fn lemma_reachable_consistent(ticker: Ticker, admin: AccountId, steps: Seq<Step>)
    requires
        all_mind_own_listings(TraderModel::initial(ticker, admin), steps),
    ensures
        TraderModel::initial(ticker, admin).run(steps).consistent(),
    decreases steps.len(),
{
    let start = TraderModel::initial(ticker, admin);
    if steps.len() > 0 {
        let before = steps.drop_last();
        assert forall|i: int| 0 <= i < before.len() implies minds_own_listings(
            start.run(before.take(i)),
            #[trigger] before[i],
        ) by {
            assert(before.take(i) =~= steps.take(i));
            assert(before[i] == steps[i]);
        }
        lemma_reachable_consistent(ticker, admin, before);
        assert(steps.take(steps.len() - 1) =~= before);
        assert(minds_own_listings(start.run(before), steps[steps.len() - 1]));
        lemma_step_keeps_consistent(start.run(before), steps.last());
    }
}

/// An instance never goes back in its life: no call takes it from closed to
/// open, or from initialized to deployed.
pub proof fn lemma_state_never_reverses(m: TraderModel, step: Step)
    ensures
        age(m.state) <= age(m.step(step).state),
{
}

/// Closing is idempotent: closing a closed instance leaves it as it is.
pub proof fn lemma_close_is_idempotent(m: TraderModel, caller: AccountId)
    ensures
        m.step(Step::Close { caller }).step(Step::Close { caller }) == m.step(
            Step::Close { caller },
        ),
{
}

/// Once an instance is closed, listing and buying fail with `ContractClosed`
/// and change nothing.
pub proof fn lemma_closed_trades_no_more(m: TraderModel, step: Step)
    requires
        m.state == ContractState::Closed,
    ensures
        step matches Step::NftForSell { caller_did, nfts, owners, .. } ==> m.sell_check(
            caller_did,
            nfts,
            owners,
        ) == Err::<IdentityId, NftTraderError>(NftTraderError::ContractClosed) && m.step(step)
            == m,
        step matches Step::BuyNft { caller_did, nft, amount, .. } ==> m.buy_check(
            caller_did,
            nft,
            amount,
        ) == Err::<IdentityId, NftTraderError>(NftTraderError::ContractClosed) && m.step(step)
            == m,
{
}

/// A closed instance still gives back: withdrawing and returning custody
/// are let through as in an open one, and come to the same.
pub proof fn lemma_closed_gives_back(m: TraderModel, step: Step)
    requires
        m.state == ContractState::Closed,
    ensures
        step matches Step::Withdraw { caller_did, ids, moved } ==> m.withdraw_outcome(
            caller_did,
            ids,
            moved,
        ) == match m.custodian(caller_did) {
            Err(e) => Err::<TraderModel, NftTraderError>(e),
            Ok(did) => if !(ids.no_duplicates() && forall|i: int|
                0 <= i < ids.len() ==> m.portfolios[did].nfts.contains((#[trigger] ids[i]).0)) {
                Err(NftTraderError::NotInPortfolio)
            } else {
                match moved {
                    Err(e) => Err(NftTraderError::PolymeshInk(e)),
                    Ok(_) => Ok(m.withdrawn(did, ids)),
                }
            },
        },
        step matches Step::RemovePortfolio { caller_did, quit } ==> m.remove_outcome(
            caller_did,
            quit,
        ) == match m.custodian(caller_did) {
            Err(e) => Err::<TraderModel, NftTraderError>(e),
            Ok(did) => match quit {
                Err(e) => Err(NftTraderError::PolymeshInk(e)),
                Ok(_) => Ok(m.without_portfolio(did)),
            },
        },
{
}

/// In a sound instance a purchase never fails for want of the seller's
/// portfolio or of the asset in it.
pub proof fn lemma_sound_purchase(
    m: TraderModel,
    caller_did: PolymeshResult<IdentityId>,
    nft: NftId,
    amount: Balance,
)
    requires
        m.sound(),
    ensures
        m.buy_check(caller_did, nft, amount) != Err::<IdentityId, NftTraderError>(
            NftTraderError::MissingPortfolio,
        ),
        m.buy_check(caller_did, nft, amount) != Err::<IdentityId, NftTraderError>(
            NftTraderError::NotInPortfolio,
        ),
{
    if m.sales.contains_key(nft.0) {
        assert(m.portfolios.contains_key(m.sales[nft.0].did));
    }
}

} // verus!
