use nft_trader::{
    AccountId, Balance, IdentityId, NFTId, NftId, NftPortfolioDetails, NftTrader, NftTraderError,
    PolymeshError, PolymeshResult, PortfolioId, PortfolioKind, PortfolioNumber, PortfolioRemoved,
    Ticker, VenueId, WithdrawnNFTs,
};
use std::collections::BTreeMap;

fn account(n: u8) -> AccountId {
    AccountId([n; 32])
}

fn identity(n: u8) -> IdentityId {
    IdentityId([n; 32])
}

fn portfolio(owner: u8, number: u64) -> PortfolioId {
    PortfolioId { did: identity(owner), kind: PortfolioKind::User(PortfolioNumber(number)) }
}

fn ticker() -> Ticker {
    Ticker(*b"NFTCOLLECTN1")
}

fn list(trader: &mut NftTrader, seller: u8, ids: &[(u64, Balance)]) {
    let nfts: BTreeMap<u64, Option<Balance>> =
        ids.iter().map(|(id, price)| (*id, Some(*price))).collect();
    let owners: BTreeMap<u64, PolymeshResult<Option<PortfolioId>>> =
        ids.iter().map(|(id, _)| (*id, Ok(Some(portfolio(seller, 1))))).collect();
    trader.nft_for_sell(account(seller + 20), Ok(identity(seller)), nfts, owners).unwrap();
}

fn trader_with_listings() -> NftTrader {
    let mut trader = NftTrader::new(ticker(), account(1)).unwrap();
    trader.init(account(1), Ok((identity(9), VenueId(42)))).unwrap();
    trader.add_portfolio(Ok(identity(2)), Ok(portfolio(2, 1))).unwrap();
    trader.add_portfolio(Ok(identity(3)), Ok(portfolio(3, 1))).unwrap();
    list(&mut trader, 2, &[(7, 100), (8, 5), (9, 1)]);
    list(&mut trader, 3, &[(1, 10)]);
    trader
}

#[test]
fn the_request_moves_the_assets_to_the_callers_own_portfolio() {
    let trader = trader_with_listings();
    let request = trader
        .withdraw_request(Ok(identity(2)), &vec![NftId(9), NftId(7)], PortfolioKind::Default)
        .unwrap();
    assert_eq!(request.from, portfolio(2, 1));
    assert_eq!(request.to, PortfolioId { did: identity(2), kind: PortfolioKind::Default });
    assert_eq!(request.nfts.ticker, ticker());
    assert_eq!(request.nfts.ids, vec![NFTId(9), NFTId(7)]);
    assert_eq!(trader.nfts().unwrap().len(), 4);
}

#[test]
fn withdrawing_takes_the_assets_off_the_books() {
    let mut trader = trader_with_listings();
    let event = trader.withdraw(Ok(identity(2)), vec![NftId(9), NftId(7)], Ok(())).unwrap();
    assert_eq!(event, WithdrawnNFTs { portfolio: portfolio(2, 1), nfts: vec![NftId(9), NftId(7)] });
    assert_eq!(trader.nfts().unwrap().into_iter().collect::<Vec<u64>>(), vec![1, 8]);
    assert_eq!(trader.nft_sale_details(NftId(7)), Ok(None));
    assert_eq!(trader.nft_sale_details(NftId(9)), Ok(None));
    let details = trader.ensure_has_portfolio(Ok(identity(2))).unwrap();
    assert_eq!(details.nfts.iter().cloned().collect::<Vec<u64>>(), vec![8]);
}

#[test]
fn an_asset_that_is_not_listed_in_the_portfolio_cannot_be_withdrawn() {
    let mut trader = trader_with_listings();
    assert_eq!(
        trader.withdraw_request(Ok(identity(2)), &vec![NftId(7), NftId(1)], PortfolioKind::Default),
        Err(NftTraderError::NotInPortfolio)
    );
    assert_eq!(
        trader.withdraw(Ok(identity(2)), vec![NftId(7), NftId(1)], Ok(())),
        Err(NftTraderError::NotInPortfolio)
    );
    assert_eq!(
        trader.withdraw(Ok(identity(2)), vec![NftId(55)], Ok(())),
        Err(NftTraderError::NotInPortfolio)
    );
    assert_eq!(trader.nfts().unwrap().len(), 4);
    let details = trader.ensure_has_portfolio(Ok(identity(2))).unwrap();
    assert_eq!(details.nfts.iter().cloned().collect::<Vec<u64>>(), vec![7, 8, 9]);
}

#[test]
fn an_asset_named_twice_cannot_be_withdrawn() {
    let mut trader = trader_with_listings();
    assert_eq!(
        trader.withdraw(Ok(identity(2)), vec![NftId(7), NftId(8), NftId(7)], Ok(())),
        Err(NftTraderError::NotInPortfolio)
    );
    assert_eq!(
        trader.withdraw_request(Ok(identity(2)), &vec![NftId(7), NftId(7)], PortfolioKind::Default),
        Err(NftTraderError::NotInPortfolio)
    );
    assert_eq!(trader.nfts().unwrap().len(), 4);
}

#[test]
fn withdrawing_nothing_succeeds() {
    let mut trader = trader_with_listings();
    let request = trader
        .withdraw_request(
            Ok(identity(2)),
            &Vec::new(),
            PortfolioKind::User(PortfolioNumber(5)),
        )
        .unwrap();
    assert!(request.nfts.ids.is_empty());
    assert_eq!(request.to, portfolio(2, 5));
    assert_eq!(
        trader.withdraw(Ok(identity(2)), Vec::new(), Ok(())),
        Ok(WithdrawnNFTs { portfolio: portfolio(2, 1), nfts: Vec::new() })
    );
    assert_eq!(trader.nfts().unwrap().len(), 4);
}

#[test]
fn withdrawing_needs_a_portfolio_and_an_initialized_marketplace() {
    let mut trader = trader_with_listings();
    assert_eq!(
        trader.withdraw(Ok(identity(4)), vec![NftId(7)], Ok(())),
        Err(NftTraderError::NoPortfolio)
    );
    let mut fresh = NftTrader::new(ticker(), account(1)).unwrap();
    assert_eq!(
        fresh.withdraw(Ok(identity(2)), vec![NftId(7)], Ok(())),
        Err(NftTraderError::NotInitialized)
    );
    assert_eq!(
        fresh.withdraw_request(Ok(identity(2)), &vec![NftId(7)], PortfolioKind::Default),
        Err(NftTraderError::NotInitialized)
    );
}

#[test]
fn returning_custody_clears_the_listings_of_the_portfolio() {
    let mut trader = trader_with_listings();
    assert_eq!(
        trader.remove_portfolio(Ok(identity(2)), Ok(())),
        Ok(PortfolioRemoved { portfolio: portfolio(2, 1) })
    );
    assert_eq!(trader.nfts().unwrap().into_iter().collect::<Vec<u64>>(), vec![1]);
    assert_eq!(trader.nft_sale_details(NftId(7)), Ok(None));
    assert!(trader.nft_sale_details(NftId(1)).unwrap().is_some());
    assert_eq!(trader.have_portfolio(Ok(identity(2))), Ok(None));
}

#[test]
fn a_closed_marketplace_still_gives_assets_and_custody_back() {
    let mut trader = trader_with_listings();
    trader.close(account(1)).unwrap();
    assert_eq!(
        trader.nft_for_sell(account(22), Ok(identity(2)), BTreeMap::new(), BTreeMap::new()),
        Err(NftTraderError::ContractClosed)
    );
    assert_eq!(
        trader.buy_nft_request(Ok(identity(3)), NftId(7), 1000),
        Err(NftTraderError::ContractClosed)
    );
    assert_eq!(
        trader.buy_nft(Ok(identity(3)), NftId(7), 1000, Ok(()), true),
        Err(NftTraderError::ContractClosed)
    );
    assert!(trader
        .withdraw_request(Ok(identity(2)), &vec![NftId(7)], PortfolioKind::Default)
        .is_ok());
    assert!(trader.withdraw(Ok(identity(2)), vec![NftId(7)], Ok(())).is_ok());
    assert_eq!(trader.remove_portfolio_request(Ok(identity(2))), Ok(portfolio(2, 1)));
    assert!(trader.remove_portfolio(Ok(identity(2)), Ok(())).is_ok());
    assert_eq!(trader.remove_portfolio_request(Ok(identity(3))), Ok(portfolio(3, 1)));
    assert!(trader.remove_portfolio(Ok(identity(3)), Ok(())).is_ok());
    assert!(trader.record().sales.is_empty());
    assert!(trader.record().portfolios.is_empty());
}

#[test]
fn a_portfolio_record_gives_up_only_what_it_lists() {
    let mut details = NftPortfolioDetails::new(portfolio(2, 1));
    details.nfts.insert(7);
    assert_eq!(details.remove_nft(NftId(8)), Err(NftTraderError::NotInPortfolio));
    assert_eq!(details.nfts.len(), 1);
    assert_eq!(details.remove_nft(NftId(7)), Ok(()));
    assert!(details.nfts.is_empty());
    assert_eq!(details.remove_nft(NftId(7)), Err(NftTraderError::NotInPortfolio));
    assert_eq!(details.id, portfolio(2, 1));
    let copy = details.duplicate();
    assert_eq!(copy, details);
}

#[test]
fn a_move_the_ledger_refuses_withdraws_nothing() {
    let mut trader = trader_with_listings();
    assert_eq!(
        trader.withdraw(Ok(identity(2)), vec![NftId(7)], Err(PolymeshError::MissingIdentity)),
        Err(NftTraderError::PolymeshInk(PolymeshError::MissingIdentity))
    );
    assert_eq!(
        trader.withdraw(Ok(identity(2)), vec![NftId(55)], Err(PolymeshError::MissingIdentity)),
        Err(NftTraderError::NotInPortfolio)
    );
    assert_eq!(trader.nfts().unwrap().len(), 4);
    assert!(trader.nft_sale_details(NftId(7)).unwrap().is_some());
}
