use nft_trader::{
    AccountId, Balance, ContractState, IdentityId, Leg, NFTId, NFTSold, NFTs, NftId,
    NftPortfolioDetails, NftSaleDetails, NftTrader, NftTraderError, PolymeshError,
    PolymeshResult, PortfolioId, PortfolioKind, PortfolioNumber, Settlement, Ticker,
    TraderRecord, VenueId,
};
use std::collections::BTreeMap;

fn account(n: u8) -> AccountId {
    AccountId([n; 32])
}

fn identity(n: u8) -> IdentityId {
    IdentityId([n; 32])
}

fn portfolio(owner: u8, number: u64) -> PortfolioId {
    PortfolioId { did: identity(owner), kind: PortfolioKind::User(PortfolioNumber(number)) }
}

fn ticker() -> Ticker {
    Ticker(*b"NFTCOLLECTN1")
}

fn list(trader: &mut NftTrader, seller: u8, ids: &[(u64, Balance)]) {
    let nfts: BTreeMap<u64, Option<Balance>> =
        ids.iter().map(|(id, price)| (*id, Some(*price))).collect();
    let owners: BTreeMap<u64, PolymeshResult<Option<PortfolioId>>> =
        ids.iter().map(|(id, _)| (*id, Ok(Some(portfolio(seller, 1))))).collect();
    trader.nft_for_sell(account(seller + 20), Ok(identity(seller)), nfts, owners).unwrap();
}

fn market() -> NftTrader {
    let mut trader = NftTrader::new(ticker(), account(1)).unwrap();
    trader.init(account(1), Ok((identity(9), VenueId(42)))).unwrap();
    trader.add_portfolio(Ok(identity(2)), Ok(portfolio(2, 1))).unwrap();
    trader.add_portfolio(Ok(identity(3)), Ok(portfolio(3, 4))).unwrap();
    list(&mut trader, 2, &[(7, 100), (8, 5)]);
    trader
}

fn unchanged(before: &TraderRecord, trader: &NftTrader) -> bool {
    let after = trader.record();
    before.state == after.state
        && before.admin == after.admin
        && before.ticker == after.ticker
        && before.venue == after.venue
        && before.did == after.did
        && before.portfolios == after.portfolios
        && before.sales == after.sales
}

#[test]
fn the_settlement_moves_one_asset_between_two_portfolios() {
    let trader = market();
    let settlement = trader.transfer_nft(portfolio(2, 1), portfolio(3, 4), NftId(7));
    assert_eq!(
        settlement,
        Settlement {
            venue: VenueId(42),
            legs: vec![Leg {
                sender: portfolio(2, 1),
                receiver: portfolio(3, 4),
                nfts: NFTs { ticker: ticker(), ids: vec![NFTId(7)] },
            }],
            portfolios: vec![portfolio(2, 1), portfolio(3, 4)],
        }
    );
}

#[test]
fn the_request_settles_to_the_buyer_and_pays_the_whole_amount() {
    let trader = market();
    let purchase = trader.buy_nft_request(Ok(identity(3)), NftId(7), 150).unwrap();
    assert_eq!(
        purchase.settlement,
        trader.transfer_nft(portfolio(2, 1), portfolio(3, 4), NftId(7))
    );
    assert_eq!(purchase.payee, account(22));
    assert_eq!(purchase.amount, 150);
    assert!(trader.nft_sale_details(NftId(7)).unwrap().is_some());
}

#[test]
fn a_sale_removes_the_listing_and_announces_the_buyer() {
    let mut trader = market();
    let event = trader.buy_nft(Ok(identity(3)), NftId(7), 150, Ok(()), true).unwrap();
    assert_eq!(event, NFTSold { portfolio: portfolio(3, 4), id: NftId(7), amount: 150 });
    assert_eq!(trader.nft_sale_details(NftId(7)), Ok(None));
    assert_eq!(trader.nfts().unwrap().into_iter().collect::<Vec<u64>>(), vec![8]);
    assert!(trader.is_sound() && trader.is_consistent());
    let seller = trader.ensure_has_portfolio(Ok(identity(2))).unwrap();
    assert_eq!(seller.nfts.iter().cloned().collect::<Vec<u64>>(), vec![8]);
    assert!(trader.ensure_has_portfolio(Ok(identity(3))).unwrap().nfts.is_empty());
}

#[test]
fn paying_the_exact_price_is_enough() {
    let mut trader = market();
    assert!(trader.buy_nft_request(Ok(identity(3)), NftId(7), 100).is_ok());
    assert_eq!(
        trader.buy_nft(Ok(identity(3)), NftId(7), 100, Ok(()), true),
        Ok(NFTSold { portfolio: portfolio(3, 4), id: NftId(7), amount: 100 })
    );
}

#[test]
fn an_asset_is_sold_once() {
    let mut trader = market();
    trader.buy_nft(Ok(identity(3)), NftId(7), 100, Ok(()), true).unwrap();
    assert_eq!(
        trader.buy_nft(Ok(identity(3)), NftId(7), 100, Ok(()), true),
        Err(NftTraderError::NotForSale)
    );
}

#[test]
fn an_unlisted_asset_is_not_for_sale() {
    let mut trader = market();
    let before = trader.record();
    assert_eq!(
        trader.buy_nft_request(Ok(identity(3)), NftId(55), 1000),
        Err(NftTraderError::NotForSale)
    );
    assert_eq!(
        trader.buy_nft(Ok(identity(3)), NftId(55), 1000, Ok(()), true),
        Err(NftTraderError::NotForSale)
    );
    assert!(unchanged(&before, &trader));
}

#[test]
fn too_small_a_payment_leaves_the_listing() {
    let mut trader = market();
    let before = trader.record();
    assert_eq!(
        trader.buy_nft_request(Ok(identity(3)), NftId(7), 99),
        Err(NftTraderError::TransferredValueTooLow)
    );
    assert_eq!(
        trader.buy_nft(Ok(identity(3)), NftId(7), 99, Ok(()), true),
        Err(NftTraderError::TransferredValueTooLow)
    );
    assert_eq!(
        trader.nft_sale_details(NftId(7)),
        Ok(Some(NftSaleDetails { account: account(22), did: identity(2), price: 100 }))
    );
    assert!(unchanged(&before, &trader));
}

#[test]
fn a_buyer_needs_a_portfolio() {
    let mut trader = market();
    let before = trader.record();
    assert_eq!(
        trader.buy_nft(Ok(identity(4)), NftId(7), 150, Ok(()), true),
        Err(NftTraderError::NoPortfolio)
    );
    assert_eq!(
        trader.buy_nft(Err(PolymeshError::MissingIdentity), NftId(7), 150, Ok(()), true),
        Err(NftTraderError::PolymeshInk(PolymeshError::MissingIdentity))
    );
    assert!(unchanged(&before, &trader));
}

#[test]
fn the_price_is_looked_at_before_the_buyer() {
    let mut trader = market();
    assert_eq!(
        trader.buy_nft(Ok(identity(4)), NftId(7), 99, Ok(()), true),
        Err(NftTraderError::TransferredValueTooLow)
    );
    assert_eq!(
        trader.buy_nft(Err(PolymeshError::MissingIdentity), NftId(55), 99, Ok(()), true),
        Err(NftTraderError::NotForSale)
    );
}

#[test]
fn a_payment_that_does_not_arrive_undoes_the_sale() {
    let mut trader = market();
    let before = trader.record();
    assert_eq!(
        trader.buy_nft(Ok(identity(3)), NftId(7), 150, Ok(()), false),
        Err(NftTraderError::FailedToPaySeller)
    );
    assert!(unchanged(&before, &trader));
    assert!(trader.nft_sale_details(NftId(7)).unwrap().is_some());
}

#[test]
fn buying_needs_an_open_marketplace() {
    let mut fresh = NftTrader::new(ticker(), account(1)).unwrap();
    assert_eq!(
        fresh.buy_nft(Ok(identity(3)), NftId(7), 150, Ok(()), true),
        Err(NftTraderError::NotInitialized)
    );
    let mut trader = market();
    trader.close(account(1)).unwrap();
    let before = trader.record();
    assert_eq!(
        trader.buy_nft(Ok(identity(3)), NftId(7), 150, Ok(()), true),
        Err(NftTraderError::ContractClosed)
    );
    assert!(unchanged(&before, &trader));
}

#[test]
fn a_seller_can_buy_the_own_asset() {
    let mut trader = market();
    let purchase = trader.buy_nft_request(Ok(identity(2)), NftId(8), 5).unwrap();
    assert_eq!(purchase.settlement.legs[0].sender, portfolio(2, 1));
    assert_eq!(purchase.settlement.legs[0].receiver, portfolio(2, 1));
    assert_eq!(
        trader.buy_nft(Ok(identity(2)), NftId(8), 5, Ok(()), true),
        Ok(NFTSold { portfolio: portfolio(2, 1), id: NftId(8), amount: 5 })
    );
    assert_eq!(trader.nfts().unwrap().into_iter().collect::<Vec<u64>>(), vec![7]);
}

fn broken_record(seller_has_portfolio: bool) -> TraderRecord {
    let mut sales = BTreeMap::new();
    sales.insert(7, NftSaleDetails { account: account(22), did: identity(2), price: 100 });
    let mut portfolios = vec![(identity(3), NftPortfolioDetails::new(portfolio(3, 4)))];
    if seller_has_portfolio {
        portfolios.push((identity(2), NftPortfolioDetails::new(portfolio(2, 1))));
    }
    TraderRecord {
        state: ContractState::Initialized,
        admin: Some(account(1)),
        ticker: ticker(),
        venue: VenueId(42),
        did: identity(9),
        portfolios,
        sales,
    }
}

#[test]
fn a_listing_whose_seller_is_gone_cannot_be_bought() {
    let mut trader = NftTrader::restore(broken_record(false)).unwrap();
    assert!(!trader.is_sound());
    assert!(!trader.is_consistent());
    assert_eq!(
        trader.buy_nft(Ok(identity(3)), NftId(7), 150, Ok(()), true),
        Err(NftTraderError::MissingPortfolio)
    );
    assert_eq!(
        trader.buy_nft(Ok(identity(3)), NftId(7), 1, Ok(()), true),
        Err(NftTraderError::MissingPortfolio)
    );
    assert!(trader.nft_sale_details(NftId(7)).unwrap().is_some());
}

#[test]
fn a_listing_that_its_sellers_portfolio_does_not_hold_cannot_be_bought() {
    let mut trader = NftTrader::restore(broken_record(true)).unwrap();
    assert!(!trader.is_sound());
    assert_eq!(
        trader.buy_nft(Ok(identity(3)), NftId(7), 150, Ok(()), true),
        Err(NftTraderError::NotInPortfolio)
    );
    assert_eq!(
        trader.buy_nft(Ok(identity(4)), NftId(7), 150, Ok(()), true),
        Err(NftTraderError::NoPortfolio)
    );
    assert!(trader.nft_sale_details(NftId(7)).unwrap().is_some());
}

#[test]
fn a_settlement_the_ledger_refuses_sells_nothing() {
    let mut trader = market();
    let before = trader.record();
    let refused = PolymeshError::InvalidPortfolioAuthorization;
    assert_eq!(
        trader.buy_nft(Ok(identity(3)), NftId(7), 150, Err(refused.clone()), false),
        Err(NftTraderError::PolymeshInk(refused.clone()))
    );
    assert_eq!(
        trader.buy_nft(Ok(identity(3)), NftId(7), 150, Err(refused.clone()), true),
        Err(NftTraderError::PolymeshInk(refused.clone()))
    );
    assert_eq!(
        trader.buy_nft(Ok(identity(3)), NftId(7), 99, Err(refused), true),
        Err(NftTraderError::TransferredValueTooLow)
    );
    assert!(unchanged(&before, &trader));
}
