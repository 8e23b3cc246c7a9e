use nft_trader::{
    AccountId, ContractState, IdentityId, InkEnvError, NFTId, NftId, NftPortfolioDetails,
    NftSaleDetails, NftTrader, NftTraderError, PolymeshError, PolymeshInkError, PortfolioId,
    PortfolioKind, PortfolioNumber, PortfolioRegistry, Ticker, TraderRecord, VenueId,
};
use std::collections::BTreeMap;

fn account(n: u8) -> AccountId {
    AccountId([n; 32])
}

fn identity(n: u8) -> IdentityId {
    IdentityId([n; 32])
}

fn portfolio(owner: u8, number: u64) -> PortfolioId {
    PortfolioId { did: identity(owner), kind: PortfolioKind::User(PortfolioNumber(number)) }
}

fn details(owner: u8, ids: &[u64]) -> NftPortfolioDetails {
    let mut details = NftPortfolioDetails::new(portfolio(owner, 1));
    for id in ids {
        details.nfts.insert(*id);
    }
    details
}

#[test]
fn identities_differ_by_any_byte() {
    let mut other = [5u8; 32];
    assert_eq!(IdentityId(other), identity(5));
    other[31] = 6;
    assert_ne!(IdentityId(other), identity(5));
    let mut first = [5u8; 32];
    first[0] = 4;
    assert_ne!(AccountId(first), account(5));
    assert_eq!(AccountId([5u8; 32]), account(5));
    assert_eq!(IdentityId::default(), IdentityId([0u8; 32]));
    assert_eq!(VenueId::default(), VenueId(0));
}

#[test]
fn portfolios_differ_by_owner_and_kind() {
    assert_eq!(portfolio(2, 1), portfolio(2, 1));
    assert_ne!(portfolio(2, 1), portfolio(3, 1));
    assert_ne!(portfolio(2, 1), portfolio(2, 2));
    assert_ne!(portfolio(2, 1), PortfolioId { did: identity(2), kind: PortfolioKind::Default });
}

#[test]
fn asset_ids_convert_both_ways() {
    assert_eq!(NftId(7).nft(), NFTId(7));
    assert_eq!(NftId::from(NFTId(9)), NftId(9));
    assert_eq!(NftId::from(&NFTId(u64::MAX)), NftId(u64::MAX));
    assert_eq!(NftId::default(), NftId(0));
    assert!(NftId(3) < NftId(4));
}

#[test]
fn ledger_errors_are_wrapped_as_they_are() {
    let runtime = PolymeshInkError::ParityScaleCodec(String::from("bad input"));
    assert_eq!(
        PolymeshError::from(runtime.clone()),
        PolymeshError::PolymeshRuntime(runtime.clone())
    );
    assert_eq!(
        NftTraderError::from(runtime.clone()),
        NftTraderError::PolymeshInk(PolymeshError::PolymeshRuntime(runtime))
    );
    let delegate = PolymeshError::InkDelegateCallError {
        selector: [1, 2, 3, 4],
        err: Some(InkEnvError::CalleeTrapped),
    };
    assert_eq!(NftTraderError::from(delegate.clone()), NftTraderError::PolymeshInk(delegate));
}

#[test]
fn the_registry_keeps_one_portfolio_per_identity() {
    let mut registry = PortfolioRegistry::new();
    assert!(!registry.contains(identity(2)));
    assert!(registry.get(identity(2)).is_none());
    registry.insert(identity(2), details(2, &[7]));
    registry.insert(identity(3), details(3, &[]));
    registry.insert(identity(2), details(2, &[8, 9]));
    assert!(registry.contains(identity(2)));
    assert_eq!(registry.get(identity(2)), Some(&details(2, &[8, 9])));
    assert_eq!(registry.records().len(), 2);
    assert_eq!(registry.remove(identity(2)), Some(details(2, &[8, 9])));
    assert_eq!(registry.remove(identity(2)), None);
    assert!(!registry.contains(identity(2)));
    assert_eq!(registry.get(identity(3)), Some(&details(3, &[])));
    assert_eq!(registry.records(), vec![(identity(3), details(3, &[]))]);
}

#[test]
fn a_registry_comes_back_from_its_records() {
    let records = vec![(identity(2), details(2, &[7])), (identity(3), details(3, &[1, 2]))];
    let registry = PortfolioRegistry::from_records(&records).unwrap();
    assert_eq!(registry.get(identity(2)), Some(&details(2, &[7])));
    assert_eq!(registry.get(identity(3)), Some(&details(3, &[1, 2])));
    assert!(!registry.contains(identity(4)));
    assert_eq!(registry.records(), records);
    assert!(PortfolioRegistry::from_records(&Vec::new()).unwrap().records().is_empty());
}

#[test]
fn records_that_name_an_identity_twice_are_refused() {
    let records = vec![
        (identity(2), details(2, &[7])),
        (identity(3), details(3, &[])),
        (identity(2), details(2, &[8])),
    ];
    assert!(PortfolioRegistry::from_records(&records).is_none());
    let record = TraderRecord {
        state: ContractState::Initialized,
        admin: None,
        ticker: Ticker([0; 12]),
        venue: VenueId(1),
        did: identity(9),
        portfolios: records,
        sales: BTreeMap::new(),
    };
    assert!(NftTrader::restore(record).is_none());
}

#[test]
fn an_instance_comes_back_from_its_record() {
    let mut sales = BTreeMap::new();
    sales.insert(7, NftSaleDetails { account: account(22), did: identity(2), price: 100 });
    sales.insert(1, NftSaleDetails { account: account(23), did: identity(3), price: 4 });
    let record = TraderRecord {
        state: ContractState::Closed,
        admin: Some(account(1)),
        ticker: Ticker(*b"NFTCOLLECTN1"),
        venue: VenueId(42),
        did: identity(9),
        portfolios: vec![(identity(2), details(2, &[7])), (identity(3), details(3, &[1]))],
        sales: sales.clone(),
    };
    let mut trader = NftTrader::restore(record).unwrap();
    assert_eq!(trader.is_open(), Ok(false));
    assert_eq!(trader.nfts().unwrap().into_iter().collect::<Vec<u64>>(), vec![1, 7]);
    assert_eq!(trader.nft_sale_details(NftId(7)), Ok(Some(sales[&7])));
    assert_eq!(trader.have_portfolio(Ok(identity(3))), Ok(Some(portfolio(3, 1))));
    let again = trader.record();
    assert_eq!(again.state, ContractState::Closed);
    assert_eq!(again.admin, Some(account(1)));
    assert_eq!(again.ticker, Ticker(*b"NFTCOLLECTN1"));
    assert_eq!(again.venue, VenueId(42));
    assert_eq!(again.did, identity(9));
    assert_eq!(again.sales, sales);
    assert_eq!(
        again.portfolios,
        vec![(identity(2), details(2, &[7])), (identity(3), details(3, &[1]))]
    );
    assert!(trader.withdraw(Ok(identity(2)), vec![NftId(7)], Ok(())).is_ok());
    assert_eq!(trader.nfts().unwrap().into_iter().collect::<Vec<u64>>(), vec![1]);
}

#[test]
fn an_instance_without_admin_obeys_nobody() {
    let record = TraderRecord {
        state: ContractState::Deployed,
        admin: None,
        ticker: Ticker([0; 12]),
        venue: VenueId(0),
        did: identity(0),
        portfolios: Vec::new(),
        sales: BTreeMap::new(),
    };
    let mut trader = NftTrader::restore(record).unwrap();
    assert_eq!(trader.ensure_admin(account(0)), Err(NftTraderError::NotAdmin));
    assert_eq!(trader.close(account(1)), Err(NftTraderError::NotAdmin));
    assert_eq!(trader.init_request(account(1)), Err(NftTraderError::NotAdmin));
}

#[test]
fn a_portfolio_that_holds_an_unlisted_asset_for_sale_is_found_out() {
    let record = TraderRecord {
        state: ContractState::Initialized,
        admin: Some(account(1)),
        ticker: Ticker([0; 12]),
        venue: VenueId(1),
        did: identity(9),
        portfolios: vec![(identity(2), details(2, &[7]))],
        sales: BTreeMap::new(),
    };
    let trader = NftTrader::restore(record).unwrap();
    assert!(trader.is_sound());
    assert!(!trader.is_consistent());
    let mut sales = BTreeMap::new();
    sales.insert(7, NftSaleDetails { account: account(22), did: identity(3), price: 100 });
    let record = TraderRecord {
        state: ContractState::Initialized,
        admin: Some(account(1)),
        ticker: Ticker([0; 12]),
        venue: VenueId(1),
        did: identity(9),
        portfolios: vec![(identity(2), details(2, &[7])), (identity(3), details(3, &[7]))],
        sales,
    };
    let trader = NftTrader::restore(record).unwrap();
    assert!(trader.is_sound());
    assert!(!trader.is_consistent());
}
