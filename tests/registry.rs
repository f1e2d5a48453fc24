use catch_contracts::error::Error;
use catch_contracts::fungible::PromiseOutcome;
use catch_contracts::nft::{
    assert_token_availability, internal_is_token_expired, refund_approved_account_ids, refund_deposit,
    Contract, NFTContractMetadata, TokenInfo, TokenMetadata,
};
use catch_contracts::nft_views::NonFungibleTokenMetadata;
use catch_contracts::table::Table;

const PRICE: u128 = 10_000_000_000_000_000_000;
const DEPOSIT: u128 = 1_000 * PRICE;
const GAS: u64 = 1_000_000_000_000_000_000;
const MARKET: &str = "marketplace.catchlabs.test.near";

fn s(x: &str) -> String {
    String::from(x)
}

fn contract_metadata() -> NFTContractMetadata {
    NFTContractMetadata {
        spec: s("nft-1.0.0"),
        name: s("Catch"),
        symbol: s("CATCH"),
        icon: None,
        base_uri: s("ipfs"),
        reference: s("ipfs://example.com/hash"),
        reference_hash: vec![5_u8; 32],
    }
}

fn token_metadata(copies: Option<u64>, expires_at: Option<u64>) -> TokenMetadata {
    TokenMetadata {
        title: s("Pass"),
        description: None,
        media: s("ipfs://media"),
        media_hash: vec![1_u8; 32],
        copies,
        issued_at: None,
        expires_at,
        starts_at: None,
        updated_at: None,
        extra: None,
        reference: None,
        reference_hash: None,
    }
}

fn info(token_id: &str, copies: Option<u64>, deps: Vec<String>, events: Vec<String>) -> TokenInfo {
    TokenInfo {
        token_id: s(token_id),
        token_metadata: token_metadata(copies, None),
        token_dependency_by_id: deps,
        event_dependency_by_id: events,
    }
}

/// A registry with event `event1` issuing `pass` (ten copies), and event
/// `event2` issuing `vip`, which needs a `event1.pass`.
fn registry() -> Contract {
    let mut c = Contract::new(s("nft.catchlabs.near"), contract_metadata()).unwrap();
    let storage = c
        .organise_event(&s("organiser.near"), &s("event1"), vec![info("pass", Some(10), vec![], vec![])])
        .unwrap();
    assert_eq!(storage, 15 * 10);
    c.organise_event(
        &s("organiser.near"),
        &s("event2"),
        vec![info("vip", None, vec![s("event1.pass")], vec![])],
    )
    .unwrap();
    c
}

fn issue(c: &mut Contract, account: &str, token: &str) -> Result<u128, Error> {
    c.nft_event_register(&s(account), &s(token), DEPOSIT, 0).map(|r| r.refund)
}

#[test]
fn new_rejects_bad_inputs() {
    let mut m = contract_metadata();
    m.reference_hash = vec![5_u8; 3];
    assert_eq!(Contract::new(s("nft.near"), m).err(), Some(Error::InvalidMetadata));
    assert_eq!(Contract::new(s("nft..near"), contract_metadata()).err(), Some(Error::InvalidId));
}

#[test]
fn organise_event_errors() {
    let mut c = registry();
    let r = c.organise_event(&s("o.near"), &s("bad.event"), vec![]);
    assert_eq!(r, Err(Error::InvalidId));
    let r = c.organise_event(&s("o.near"), &s("e3"), vec![info("a.b", None, vec![], vec![])]);
    assert_eq!(r, Err(Error::InvalidId));
    let r = c.organise_event(&s("o.near"), &s("event1"), vec![info("other", None, vec![], vec![])]);
    assert_eq!(r, Err(Error::AlreadyExists));
    let r = c.organise_event(&s("o.near"), &s("event3"), vec![info("pass", None, vec![], vec![])]);
    assert_eq!(r, Ok(15));
    let r = c.organise_event(
        &s("o.near"),
        &s("event4"),
        vec![info("x", None, vec![], vec![]), info("x", None, vec![], vec![])],
    );
    assert_eq!(r, Err(Error::AlreadyExists));
    let r = c.organise_event(&s("o.near"), &s("event5"), vec![info("x", Some(u64::MAX), vec![], vec![])]);
    assert_eq!(r, Ok(12 * (u64::MAX as u128)));
    assert!(c.tokens_by_id.contains_key(&s("event3.pass")));
    assert!(!c.tokens_by_id.contains_key(&s("event4.x")));
}

#[test]
fn issuance_follows_dependencies() {
    let mut c = registry();
    // Z lacks the prerequisite pass
    assert_eq!(issue(&mut c, "zed.near", "event2.vip"), Err(Error::DependencyNotSatisfied));
    assert!(!c.owns_token(&s("zed.near"), &s("event2.vip")));
    // after Z acquires it, the same issuance succeeds
    assert_eq!(issue(&mut c, "zed.near", "event1.pass"), Ok(DEPOSIT - 12 * PRICE));
    assert_eq!(issue(&mut c, "zed.near", "event2.vip"), Ok(DEPOSIT));
    assert!(c.owns_token(&s("zed.near"), &s("event2.vip")));
    let token = c.tokens_by_id.get(&s("event2.vip")).unwrap();
    assert_eq!(token.copies_minted, 1);
    assert!(c.internal_is_eligible_to_mint_token(&s("zed.near"), token));
    assert!(!c.internal_is_eligible_to_mint_token(&s("amy.near"), token));
}

#[test]
fn issuance_errors() {
    let mut c = registry();
    c.organise_event(&s("o.near"), &s("solo"), vec![info("one", Some(1), vec![], vec![])]).unwrap();
    assert_eq!(issue(&mut c, "amy.near", "solo.missing"), Err(Error::UnknownAsset));
    assert_eq!(c.nft_event_register(&s("amy.near"), &s("solo.one"), 0, 0).err(), Some(Error::InsufficientDeposit));
    assert_eq!(issue(&mut c, "amy.near", "solo.one"), Ok(DEPOSIT - 12 * PRICE));
    assert_eq!(issue(&mut c, "bo.near", "solo.one"), Err(Error::AssetExhausted));
    assert_eq!(issue(&mut c, "amy.near", "event1.pass"), Ok(DEPOSIT));
    assert_eq!(issue(&mut c, "amy.near", "event1.pass"), Err(Error::AlreadyExists));
    let token = c.tokens_by_id.get(&s("solo.one")).unwrap();
    assert_eq!(assert_token_availability(token), Err(Error::AssetExhausted));
}

#[test]
fn event_dependencies_need_a_pass_of_the_event() {
    let mut c = registry();
    c.organise_event(&s("o.near"), &s("after"), vec![info("party", None, vec![], vec![s("event1")])]).unwrap();
    c.organise_event(&s("o.near"), &s("ghost"), vec![info("x", None, vec![], vec![s("nowhere")])]).unwrap();
    issue(&mut c, "amy.near", "event1.pass").unwrap();
    assert_eq!(issue(&mut c, "bo.near", "after.party"), Err(Error::DependencyNotSatisfied));
    assert_eq!(issue(&mut c, "amy.near", "after.party"), Ok(DEPOSIT));
    assert_eq!(issue(&mut c, "amy.near", "ghost.x"), Err(Error::DependencyNotSatisfied));
}

#[test]
fn expiry_is_checked_in_nanoseconds() {
    let mut c = Contract::new(s("nft.near"), contract_metadata()).unwrap();
    let mut i = info("day", None, vec![], vec![]);
    i.token_metadata.expires_at = Some(1_000);
    c.organise_event(&s("o.near"), &s("e"), vec![i]).unwrap();
    let token = c.tokens_by_id.get(&s("e.day")).unwrap();
    assert_eq!(internal_is_token_expired(token, 1_000_000_000), Ok(false));
    assert_eq!(internal_is_token_expired(token, 1_000_000_001), Ok(true));
    assert_eq!(c.nft_event_register(&s("amy.near"), &s("e.day"), DEPOSIT, 1_000_000_001).err(), Some(Error::AssetExpired));
    let mut j = info("far", None, vec![], vec![]);
    j.token_metadata.expires_at = Some(u64::MAX);
    c.organise_event(&s("o.near"), &s("f"), vec![j]).unwrap();
    let token = c.tokens_by_id.get(&s("f.far")).unwrap();
    assert_eq!(internal_is_token_expired(token, 0), Err(Error::Overflow));
}

#[test]
fn owner_transfer_moves_the_copy() {
    let mut c = registry();
    issue(&mut c, "amy.near", "event1.pass").unwrap();
    let t = c
        .nft_transfer(&s("amy.near"), 1, &s("bo.near"), &s("event1.pass.amy.near"), None, Some(s("gift")), 0)
        .unwrap();
    assert_eq!(t.old_owner_id, s("amy.near"));
    assert_eq!(t.log.new_owner_id, s("bo.near"));
    assert!(c.owns_token(&s("bo.near"), &s("event1.pass")));
    assert!(!c.owns_token(&s("amy.near"), &s("event1.pass")));
    assert!(c.tokens_per_owner.get(&s("amy.near")).is_none());
}

#[test]
fn transfer_errors() {
    let mut c = registry();
    issue(&mut c, "amy.near", "event1.pass").unwrap();
    issue(&mut c, "bo.near", "event1.pass").unwrap();
    let full = s("event1.pass.amy.near");
    assert_eq!(c.nft_transfer(&s("amy.near"), 0, &s("cy.near"), &full, None, None, 0).err(), Some(Error::RequiresOneYocto));
    assert_eq!(c.nft_transfer(&s("amy.near"), 1, &s("cy.near"), &s("event1pass"), None, None, 0).err(), Some(Error::InvalidId));
    assert_eq!(c.nft_transfer(&s("amy.near"), 1, &s("cy.near"), &s("event1.none.amy.near"), None, None, 0).err(), Some(Error::UnknownAsset));
    assert_eq!(c.nft_transfer(&s("cy.near"), 1, &s("dee.near"), &s("event1.pass.cy.near"), None, None, 0).err(), Some(Error::NotOwner));
    assert_eq!(c.nft_transfer(&s("amy.near"), 1, &s("amy.near"), &full, None, None, 0).err(), Some(Error::SameAccount));
    assert_eq!(c.nft_transfer(&s("cy.near"), 1, &s("dee.near"), &full, None, None, 0).err(), Some(Error::Unauthorized));
    assert_eq!(c.nft_transfer(&s("amy.near"), 1, &s("bo.near"), &full, None, None, 0).err(), Some(Error::AlreadyExists));
    assert_eq!(
        c.nft_transfer(&s("amy.near"), 1, &s("cy.near"), &s("event2.vip.amy.near"), None, None, 0).err(),
        Some(Error::NotOwner)
    );
    assert!(c.owns_token(&s("amy.near"), &s("event1.pass")));
}

#[test]
fn approval_errors_and_refunds() {
    let mut c = registry();
    issue(&mut c, "amy.near", "event1.pass").unwrap();
    let full = s("event1.pass.amy.near");
    assert_eq!(c.nft_approve(&s("amy.near"), 0, &full, &s(MARKET), None, 0).err(), Some(Error::InsufficientDeposit));
    assert_eq!(c.nft_approve(&s("amy.near"), 1, &full, &s("other.near"), None, 0).err(), Some(Error::UnapprovedMarketplace));
    assert_eq!(c.nft_approve(&s("bo.near"), DEPOSIT, &full, &s(MARKET), None, 0).err(), Some(Error::NotOwner));
    let needed = (MARKET.len() as u128 + 12) * PRICE;
    assert_eq!(c.nft_approve(&s("amy.near"), needed - 1, &full, &s(MARKET), None, 0).err(), Some(Error::InsufficientDeposit));
    let a = c.nft_approve(&s("amy.near"), needed + 5, &full, &s(MARKET), Some(s("list")), 0).unwrap();
    assert_eq!(a.approval_id, 0);
    assert_eq!(a.refund, 5);
    let notice = a.notice.unwrap();
    assert_eq!(notice.token_id, full);
    assert_eq!(notice.owner_id, s("amy.near"));
    assert_eq!(notice.msg, s("list"));
    // approving again adds no storage
    let a = c.nft_approve(&s("amy.near"), 1, &full, &s(MARKET), None, 0).unwrap();
    assert_eq!(a.approval_id, 1);
    assert!(a.notice.is_none());
    assert_eq!(c.nft_is_approved(&full, &s(MARKET), Some(1)), Ok(true));
    assert_eq!(c.nft_is_approved(&full, &s(MARKET), Some(0)), Ok(false));
    assert_eq!(c.nft_is_approved(&full, &s(MARKET), None), Ok(true));
    assert_eq!(c.nft_is_approved(&s("event1.none.amy.near"), &s(MARKET), None), Err(Error::UnknownAsset));
    assert_eq!(c.nft_revoke(&s("amy.near"), 2, &full, &s(MARKET)), Err(Error::RequiresOneYocto));
    assert_eq!(c.nft_revoke(&s("bo.near"), 1, &full, &s(MARKET)), Err(Error::NotOwner));
    assert_eq!(c.nft_revoke(&s("amy.near"), 1, &full, &s(MARKET)), Ok(needed));
    assert_eq!(c.nft_revoke(&s("amy.near"), 1, &full, &s(MARKET)), Ok(0));
    assert_eq!(c.nft_is_approved(&full, &s(MARKET), None), Ok(false));
}

#[test]
fn revoke_all_clears_and_keeps_the_counter() {
    let mut c = registry();
    issue(&mut c, "amy.near", "event1.pass").unwrap();
    let full = s("event1.pass.amy.near");
    c.approve_marketplaces(&s("nft.catchlabs.near"), vec![s("second.near")]).unwrap();
    c.nft_approve(&s("amy.near"), DEPOSIT, &full, &s(MARKET), None, 0).unwrap();
    c.nft_approve(&s("amy.near"), DEPOSIT, &full, &s("second.near"), None, 0).unwrap();
    let expected = ((MARKET.len() as u128 + 12) + (11 + 12)) * PRICE;
    assert_eq!(c.nft_revoke_all(&s("amy.near"), 1, &full), Ok(expected));
    assert_eq!(c.nft_revoke_all(&s("amy.near"), 1, &full), Ok(0));
    assert_eq!(c.nft_is_approved(&full, &s("second.near"), None), Ok(false));
    let a = c.nft_approve(&s("amy.near"), DEPOSIT, &full, &s(MARKET), None, 0).unwrap();
    assert_eq!(a.approval_id, 2);
}

#[test]
fn approve_marketplaces_is_owner_only() {
    let mut c = registry();
    assert_eq!(c.approve_marketplaces(&s("amy.near"), vec![s("m.near")]), Err(Error::NotOwner));
    assert_eq!(c.approve_marketplaces(&s("nft.catchlabs.near"), vec![s("M!")]), Err(Error::InvalidId));
    assert_eq!(
        c.approve_marketplaces(&s("nft.catchlabs.near"), vec![s("m.near"), s(MARKET), s("m.near")]),
        Ok(vec![true, false, false])
    );
}

#[test]
fn superseded_approval_ids_are_rejected() {
    let mut c = registry();
    issue(&mut c, "amy.near", "event1.pass").unwrap();
    let full = s("event1.pass.amy.near");
    let first = c.nft_approve(&s("amy.near"), DEPOSIT, &full, &s(MARKET), None, 0).unwrap();
    let second = c.nft_approve(&s("amy.near"), DEPOSIT, &full, &s(MARKET), None, 0).unwrap();
    assert_ne!(first.approval_id, second.approval_id);
    let r = c.nft_transfer(&s(MARKET), 1, &s("bo.near"), &full, Some(first.approval_id), None, 0);
    assert_eq!(r.err(), Some(Error::Unauthorized));
    c.nft_revoke(&s("amy.near"), 1, &full, &s(MARKET)).unwrap();
    let r = c.nft_transfer(&s(MARKET), 1, &s("bo.near"), &full, Some(second.approval_id), None, 0);
    assert_eq!(r.err(), Some(Error::Unauthorized));
    let r = c.nft_transfer(&s(MARKET), 1, &s("bo.near"), &full, None, None, 0);
    assert_eq!(r.err(), Some(Error::Unauthorized));
}

#[test]
fn transfer_clears_approvals_and_keeps_the_counter() {
    let mut c = registry();
    issue(&mut c, "amy.near", "event1.pass").unwrap();
    let full = s("event1.pass.amy.near");
    let a = c.nft_approve(&s("amy.near"), DEPOSIT, &full, &s(MARKET), None, 0).unwrap();
    let t = c.nft_transfer(&s(MARKET), 1, &s("bo.near"), &full, Some(a.approval_id), None, 0).unwrap();
    let cleared = t.old_approval_info.unwrap();
    assert_eq!(
        refund_approved_account_ids(&cleared.approved_account_ids),
        Ok((MARKET.len() as u128 + 12) * PRICE)
    );
    assert_eq!(t.log.authorized_id, Some(s(MARKET)));
    let bo_full = s("event1.pass.bo.near");
    assert_eq!(c.nft_is_approved(&bo_full, &s(MARKET), None), Ok(false));
    let b = c.nft_approve(&s("bo.near"), DEPOSIT, &bo_full, &s(MARKET), None, 0).unwrap();
    assert!(b.approval_id > a.approval_id);
}

#[test]
fn scenario_transfer_call_with_pinned_approval() {
    let mut c = registry();
    issue(&mut c, "owner.near", "event1.pass").unwrap();
    let full = s("event1.pass.owner.near");
    let mut id = 0;
    for _ in 0..8 {
        id = c.nft_approve(&s("owner.near"), DEPOSIT, &full, &s(MARKET), None, 0).unwrap().approval_id;
    }
    assert_eq!(id, 7);
    let call = c
        .nft_transfer_call(&s(MARKET), 1, GAS, &s("receiver.near"), &full, Some(7), None, s("hi"), 0)
        .unwrap();
    assert_eq!(call.token_id, s("event1.pass"));
    // in the window, the new holder approves another account, which gets id 8
    c.approve_marketplaces(&s("nft.catchlabs.near"), vec![s("other.near")]).unwrap();
    let recv_full = s("event1.pass.receiver.near");
    let other = c.nft_approve(&s("receiver.near"), DEPOSIT, &recv_full, &s("other.near"), None, 0).unwrap();
    assert_eq!(other.approval_id, 8);
    // the receiver keeps the copy
    let res = c
        .nft_resolve_transfer(
            &s("nft.near"),
            &s("nft.near"),
            &s("owner.near"),
            &s("receiver.near"),
            &call.token_id,
            call.transfer.old_approval_info,
            &PromiseOutcome::Successful(b"false".to_vec()),
        )
        .unwrap();
    assert!(res.kept);
    assert!(c.owns_token(&s("receiver.near"), &s("event1.pass")));
    // a new attempt under id 7 fails
    let r = c.nft_transfer(&s(MARKET), 1, &s("third.near"), &recv_full, Some(7), None, 0);
    assert_eq!(r.err(), Some(Error::Unauthorized));
    assert_eq!(c.nft_is_approved(&recv_full, &s("other.near"), Some(8)), Ok(true));
}

#[test]
fn rejected_transfer_call_returns_the_copy() {
    for outcome in [
        PromiseOutcome::Successful(b"true".to_vec()),
        PromiseOutcome::Successful(b"garbage".to_vec()),
        PromiseOutcome::Failed,
    ] {
        let mut c = registry();
        issue(&mut c, "amy.near", "event1.pass").unwrap();
        let full = s("event1.pass.amy.near");
        c.nft_approve(&s("amy.near"), DEPOSIT, &full, &s(MARKET), None, 0).unwrap();
        let call = c
            .nft_transfer_call(&s("amy.near"), 1, GAS, &s("bo.near"), &full, None, None, s(""), 0)
            .unwrap();
        let bo_full = s("event1.pass.bo.near");
        c.nft_approve(&s("bo.near"), DEPOSIT, &bo_full, &s(MARKET), None, 0).unwrap();
        let res = c
            .nft_resolve_transfer(
                &s("nft.near"),
                &s("nft.near"),
                &s("amy.near"),
                &s("bo.near"),
                &call.token_id,
                call.transfer.old_approval_info,
                &outcome,
            )
            .unwrap();
        assert!(!res.kept);
        assert_eq!(res.refund, Some((MARKET.len() as u128 + 12) * PRICE));
        assert!(c.owns_token(&s("amy.near"), &s("event1.pass")));
        assert!(!c.owns_token(&s("bo.near"), &s("event1.pass")));
        // the owner's approval from before the transfer is back
        assert_eq!(c.nft_is_approved(&full, &s(MARKET), Some(0)), Ok(true));
        // and the counter did not go back
        let a = c.nft_approve(&s("amy.near"), DEPOSIT, &full, &s(MARKET), None, 0).unwrap();
        assert_eq!(a.approval_id, 2);
    }
}

#[test]
fn reconciliation_leaves_a_moved_copy_alone() {
    let mut c = registry();
    issue(&mut c, "amy.near", "event1.pass").unwrap();
    let call = c
        .nft_transfer_call(&s("amy.near"), 1, GAS, &s("bo.near"), &s("event1.pass.amy.near"), None, None, s(""), 0)
        .unwrap();
    c.nft_transfer(&s("bo.near"), 1, &s("cy.near"), &s("event1.pass.bo.near"), None, None, 0).unwrap();
    let res = c
        .nft_resolve_transfer(
            &s("nft.near"),
            &s("nft.near"),
            &s("amy.near"),
            &s("bo.near"),
            &call.token_id,
            call.transfer.old_approval_info,
            &PromiseOutcome::Failed,
        )
        .unwrap();
    assert!(res.kept);
    assert!(c.owns_token(&s("cy.near"), &s("event1.pass")));
    let r = c.nft_resolve_transfer(
        &s("cy.near"),
        &s("nft.near"),
        &s("amy.near"),
        &s("cy.near"),
        &s("event1.pass"),
        None,
        &PromiseOutcome::Failed,
    );
    assert!(matches!(r, Err(Error::Unauthorized)));
}

#[test]
fn transfer_call_checks_gas() {
    let mut c = registry();
    issue(&mut c, "amy.near", "event1.pass").unwrap();
    let r = c.nft_transfer_call(&s("amy.near"), 1, 45_000_000_000_000, &s("bo.near"), &s("event1.pass.amy.near"), None, None, s(""), 0);
    assert!(matches!(r, Err(Error::InsufficientExecutionBudget)));
}

#[test]
fn deposit_and_refund_helpers() {
    assert_eq!(refund_deposit(10, 10 * PRICE + 2), Ok(2));
    assert_eq!(refund_deposit(10, 10 * PRICE + 1), Ok(0));
    assert_eq!(refund_deposit(10, 10 * PRICE - 1), Err(Error::InsufficientDeposit));
    assert_eq!(refund_deposit(u128::MAX, 0), Err(Error::Overflow));
    let mut t: Table<u64> = Table::new();
    assert_eq!(refund_approved_account_ids(&t), Ok(0));
    t.insert(s("ab.near"), 3);
    assert_eq!(refund_approved_account_ids(&t), Ok(19 * PRICE));
}

#[test]
fn token_views() {
    let mut c = registry();
    issue(&mut c, "amy.near", "event1.pass").unwrap();
    let full = s("event1.pass.amy.near");
    c.nft_approve(&s("amy.near"), DEPOSIT, &full, &s(MARKET), None, 0).unwrap();
    let j = c.nft_token(&full).unwrap().unwrap();
    assert_eq!(j.token_id, full);
    assert_eq!(j.owner_id, s("amy.near"));
    assert_eq!(j.metadata.title, s("Pass"));
    assert_eq!(j.metadata.copies, Some(10));
    assert_eq!(j.approved_account_ids.get(&s(MARKET)), Some(&0));
    assert!(c.nft_token(&s("event1.none.amy.near")).unwrap().is_none());
    let g = c.nft_token_general(&s("event2.vip")).unwrap();
    assert_eq!(g.token_dependency_by_id, vec![s("event1.pass")]);
    assert!(c.nft_token_general(&s("event2.none")).is_none());
    assert_eq!(c.nft_supply_for_owner(&s("amy.near")), 1);
    assert_eq!(c.nft_supply_for_owner(&s("bo.near")), 0);
    assert_eq!(c.nft_total_supply(), 2);
    assert_eq!(c.can_token_be_minted(&s("event1.pass")), Ok(true));
    assert_eq!(c.is_token_expired(&s("event1.pass"), u64::MAX), Ok(false));
    assert_eq!(c.is_eligible_to_mint_token(&s("bo.near"), &s("event2.vip")), Ok(false));
    assert_eq!(c.is_eligible_to_mint_token(&s("amy.near"), &s("event2.vip")), Ok(true));
    assert_eq!(c.is_eligible_to_mint_token(&s("amy.near"), &s("nope.x")), Err(Error::UnknownAsset));
    assert_eq!(c.assert_owner(&s("nft.catchlabs.near")), Ok(()));
    let d = Contract::new_default_meta(s("owner.near")).unwrap();
    assert_eq!(d.metadata.symbol, s("CATCH"));
}

#[test]
fn pages_and_payout() {
    let mut c = registry();
    c.approve_marketplaces(&s("nft.catchlabs.near"), vec![s("b.near"), s("c.near")]).unwrap();
    assert_eq!(c.get_approved_marketplace(None, None), vec![s(MARKET), s("b.near"), s("c.near")]);
    assert_eq!(c.get_approved_marketplace(Some(1), Some(1)), vec![s("b.near")]);
    assert!(c.get_approved_marketplace(Some(u128::MAX), None).is_empty());
    let events = c.get_events(None, Some(1));
    assert_eq!(events.len(), 1);
    assert_eq!(events[0].0, s("event1"));
    assert_eq!(events[0].1.event_passes, vec![s("event1.pass")]);
    assert_eq!(c.nft_tokens(None, None).len(), 2);
    assert_eq!(c.nft_tokens(Some(1), None)[0].token_id, s("event2.vip"));
    issue(&mut c, "amy.near", "event1.pass").unwrap();
    issue(&mut c, "amy.near", "event2.vip").unwrap();
    let mine = c.nft_tokens_for_owner(&s("amy.near"), None, None).unwrap();
    assert_eq!(mine.len(), 2);
    assert_eq!(mine[1].token_id, s("event2.vip.amy.near"));
    assert!(c.nft_tokens_for_owner(&s("bo.near"), None, None).unwrap().is_empty());
    let (t, payout) = c
        .nft_transfer_payout(&s("amy.near"), 1, &s("bo.near"), &s("event1.pass.amy.near"), None, 500, None, 0)
        .unwrap();
    assert_eq!(t.old_owner_id, s("amy.near"));
    assert_eq!(payout.get(&s("amy.near")), Some(&500));
}

#[test]
fn registry_metadata() {
    let c = registry();
    let m = c.nft_metadata();
    assert_eq!(m.symbol, s("CATCH"));
    assert_eq!(m.reference_hash, vec![5_u8; 32]);
}
