use catch_contracts::error::Error;
use catch_contracts::market::{Contract, STORAGE_PER_SALE};

fn s(x: &str) -> String {
    String::from(x)
}

#[test]
fn market_storage_accounting() {
    let mut m = Contract::new(s("market.near"));
    assert_eq!(m.storage_minimum_balance(), 10_000_000_000_000_000_000_000);
    assert_eq!(m.storage_deposit(&s("amy.near"), STORAGE_PER_SALE - 1, None), Err(Error::InsufficientDeposit));
    assert_eq!(m.storage_deposit(&s("amy.near"), STORAGE_PER_SALE, None), Ok(()));
    assert_eq!(m.storage_deposit(&s("amy.near"), STORAGE_PER_SALE, Some(s("bo.near"))), Ok(()));
    assert_eq!(m.storage_deposit(&s("bo.near"), STORAGE_PER_SALE, None), Ok(()));
    assert_eq!(m.storage_balance_of(&s("bo.near")), 2 * STORAGE_PER_SALE);
    assert!(m.has_storage_for_new_sale(&s("bo.near")));
    assert!(m.record_sale(&s("bo.near"), s("nft.near.t1")));
    assert!(!m.record_sale(&s("bo.near"), s("nft.near.t1")));
    assert!(m.record_sale(&s("bo.near"), s("nft.near.t2")));
    assert!(!m.has_storage_for_new_sale(&s("bo.near")));
    assert_eq!(m.storage_withdraw(&s("bo.near"), 0), Err(Error::RequiresOneYocto));
    assert_eq!(m.storage_withdraw(&s("bo.near"), 1), Ok(0));
    assert_eq!(m.storage_balance_of(&s("bo.near")), 2 * STORAGE_PER_SALE);
    assert_eq!(m.storage_withdraw(&s("amy.near"), 1), Ok(STORAGE_PER_SALE));
    assert_eq!(m.storage_balance_of(&s("amy.near")), 0);
    assert_eq!(m.storage_deposit(&s("cy.near"), u128::MAX, None), Ok(()));
    assert_eq!(m.storage_deposit(&s("cy.near"), STORAGE_PER_SALE, None), Err(Error::Overflow));
}

#[test]
fn market_token_list_is_owner_only() {
    let mut m = Contract::new(s("market.near"));
    assert_eq!(m.add_ft_token_ids(&s("amy.near"), vec![s("usdc.near")]), Err(Error::NotOwner));
    assert_eq!(
        m.add_ft_token_ids(&s("market.near"), vec![s("usdc.near"), s("near"), s("usdc.near")]),
        Ok(vec![true, false, false])
    );
}
