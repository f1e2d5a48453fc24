use catch_contracts::error::Error;
use catch_contracts::fungible::{Contract, FungibleTokenCore, FungibleTokenMetadata, PromiseOutcome, StorageManager};
use catch_contracts::ledger::{FungibleToken, Settlement};

const ONE_YOCTO: u128 = 1;
const STORAGE_COST: u128 = 1_250_000_000_000_000_000_000;
const ACCOUNT_STORAGE_USAGE: u64 = 125;
const TOTAL_SUPPLY: u128 = 1_000_000_000_000_000;
const GAS: u64 = 1_000_000_000_000_000_000;

fn alice() -> String {
    String::from("alice.near")
}
fn bob() -> String {
    String::from("bob.near")
}
fn carol() -> String {
    String::from("carol.near")
}
fn dex() -> String {
    String::from("dex.near")
}
fn nft() -> String {
    String::from("nft.catchlabs.near")
}
fn current() -> String {
    String::from("mike.near")
}

fn metadata() -> FungibleTokenMetadata {
    FungibleTokenMetadata {
        spec: String::from("1.1.0"),
        name: String::from("CAT Token"),
        symbol: String::from("CAT"),
        icon: Some(String::from("C-A-T-C-H")),
        reference: Some(String::from(
            "https://github.com/near/core-contracts/tree/master/w-near-141",
        )),
        reference_hash: Some(vec![5_u8; 32]),
        decimals: 0,
    }
}

fn create_contract() -> Contract {
    Contract::new(dex(), TOTAL_SUPPLY, metadata(), ACCOUNT_STORAGE_USAGE)
        .unwrap()
        .0
}

fn register(contract: &mut Contract, account: String) {
    contract
        .storage_deposit(&dex(), STORAGE_COST, Some(account))
        .unwrap();
}

#[test]
fn contract_creation_with_new() {
    let contract = create_contract();

    assert_eq!(contract.ft_total_supply(), 1_000_000_000_000_000);
    assert_eq!(contract.ft_balance_of(&alice()), 0);
    assert_eq!(contract.ft_balance_of(&bob()), 0);
    assert_eq!(contract.ft_balance_of(&carol()), 0);
    assert_eq!(contract.ft_balance_of(&dex()), 1_000_000_000_000_000);
}

#[test]
fn new_records_the_mint() {
    let (_, log) = Contract::new(dex(), TOTAL_SUPPLY, metadata(), ACCOUNT_STORAGE_USAGE).unwrap();
    assert_eq!(log.owner_id, dex());
    assert_eq!(log.amount, TOTAL_SUPPLY);
    assert_eq!(log.memo, Some(String::from("Mint")));
}

#[test]
fn new_refuses_invalid_owner_and_metadata() {
    let r = Contract::new(String::from("Dex!"), TOTAL_SUPPLY, metadata(), ACCOUNT_STORAGE_USAGE);
    assert_eq!(r.err(), Some(Error::InvalidId));
    let mut m = metadata();
    m.reference_hash = Some(vec![5_u8; 31]);
    let r = Contract::new(dex(), TOTAL_SUPPLY, m, ACCOUNT_STORAGE_USAGE);
    assert_eq!(r.err(), Some(Error::InvalidMetadata));
    let mut m = metadata();
    m.reference = None;
    let r = Contract::new(dex(), TOTAL_SUPPLY, m, ACCOUNT_STORAGE_USAGE);
    assert_eq!(r.err(), Some(Error::InvalidMetadata));
}

#[test]
fn test_ft_transfer() {
    let mut contract = create_contract();
    let amount = 100_000_000;
    let remaining_balance = contract.ft_total_supply() - amount;

    register(&mut contract, carol());
    let log = contract
        .ft_transfer(&dex(), ONE_YOCTO, &carol(), amount, None)
        .unwrap();
    assert_eq!(contract.ft_balance_of(&carol()), amount);
    assert_eq!(contract.ft_balance_of(&dex()), remaining_balance);
    assert_eq!(log.old_owner_id, dex());
    assert_eq!(log.new_owner_id, carol());
    assert_eq!(log.amount, amount);
}

#[test]
fn test_ft_transfer_fails() {
    let mut contract = create_contract();
    let amount = 100_000_000;
    let r = contract.ft_transfer(&dex(), ONE_YOCTO, &carol(), amount, None);
    assert_eq!(r.err(), Some(Error::AccountNotRegistered));
}

#[test]
fn ft_transfer_errors() {
    let mut contract = create_contract();
    register(&mut contract, carol());
    let r = contract.ft_transfer(&dex(), 0, &carol(), 5, None);
    assert_eq!(r.err(), Some(Error::RequiresOneYocto));
    let r = contract.ft_transfer(&dex(), ONE_YOCTO, &dex(), 5, None);
    assert_eq!(r.err(), Some(Error::SameAccount));
    let r = contract.ft_transfer(&dex(), ONE_YOCTO, &carol(), 0, None);
    assert_eq!(r.err(), Some(Error::NonPositiveAmount));
    let r = contract.ft_transfer(&carol(), ONE_YOCTO, &dex(), 1, None);
    assert_eq!(r.err(), Some(Error::InsufficientBalance));
    let r = contract.ft_transfer(&bob(), ONE_YOCTO, &dex(), 1, None);
    assert_eq!(r.err(), Some(Error::AccountNotRegistered));
    assert_eq!(contract.ft_balance_of(&dex()), TOTAL_SUPPLY);
    assert_eq!(contract.ft_balance_of(&carol()), 0);
}

#[test]
fn deposit_overflow_is_reported() {
    let mut token = FungibleToken::new(dex(), u128::MAX);
    assert_eq!(token.internal_deposit(&dex(), 1), Err(Error::Overflow));
    assert_eq!(token.internal_deposit(&carol(), 1), Err(Error::AccountNotRegistered));
    assert_eq!(token.internal_withdraw(&dex(), 5), Ok(()));
    assert_eq!(token.ft_balance_of(&dex()), u128::MAX - 5);
    assert_eq!(token.internal_deposit(&dex(), 5), Ok(()));
    assert_eq!(token.ft_balance_of(&dex()), u128::MAX);
}

#[test]
fn storage_deposit_fails() {
    let mut contract = create_contract();
    let r = contract.storage_deposit(&carol(), 500, Some(carol()));
    assert_eq!(r.err(), Some(Error::InsufficientDeposit));
}

#[test]
fn storage_deposit_refunds() {
    let mut contract = create_contract();
    let bounds = contract.storage_balance_bounds();
    assert_eq!(bounds.min, STORAGE_COST);
    assert_eq!(bounds.max, Some(STORAGE_COST));
    let d = contract.storage_deposit(&dex(), STORAGE_COST + 7, Some(carol())).unwrap();
    assert_eq!(d.refund, 7);
    assert_eq!(d.balance.total, STORAGE_COST);
    assert_eq!(d.balance.available, 0);
    let d = contract.storage_deposit(&dex(), 9, Some(carol())).unwrap();
    assert_eq!(d.refund, 9);
    let d = contract.storage_deposit(&bob(), STORAGE_COST, None).unwrap();
    assert_eq!(d.refund, 0);
    assert!(contract.storage_balance_of(&bob()).is_some());
    let r = contract.storage_deposit(&dex(), STORAGE_COST, Some(String::from("Not Valid")));
    assert_eq!(r.err(), Some(Error::InvalidId));
}

#[test]
fn storage_unregister_fails() {
    let mut contract = create_contract();
    register(&mut contract, carol());
    contract
        .ft_transfer(&dex(), ONE_YOCTO, &carol(), 1000, None)
        .unwrap();

    let r = contract.storage_unregister(&carol(), ONE_YOCTO, Some(false));
    assert_eq!(r, Err(Error::PositiveBalance));
}

#[test]
fn storage_unregister() {
    let mut contract = create_contract();
    // carol holds no account yet
    assert_eq!(contract.storage_unregister(&carol(), ONE_YOCTO, Some(false)), Ok(false));

    register(&mut contract, carol());
    contract
        .ft_transfer(&dex(), ONE_YOCTO, &carol(), 1000, None)
        .unwrap();

    let remaining_balance = contract.ft_total_supply() - 1000;

    // with force the balance is burnt
    assert_eq!(contract.storage_unregister(&carol(), ONE_YOCTO, Some(true)), Ok(true));
    assert_eq!(contract.ft_balance_of(&dex()), remaining_balance);
    assert_eq!(contract.ft_balance_of(&carol()), 0);
    assert!(!contract.storage_balance_of(&carol()).is_some());
    assert_eq!(contract.ft_total_supply(), remaining_balance);
}

#[test]
fn internal_storage_unregister_reports_burn_and_refund() {
    let mut contract = create_contract();
    register(&mut contract, carol());
    contract.ft_transfer(&dex(), ONE_YOCTO, &carol(), 30, None).unwrap();
    assert_eq!(
        contract.internal_storage_unregister(&carol(), 2, Some(true)).err(),
        Some(Error::RequiresOneYocto)
    );
    let u = contract
        .internal_storage_unregister(&carol(), ONE_YOCTO, Some(true))
        .unwrap()
        .unwrap();
    assert_eq!(u.account_id, carol());
    assert_eq!(u.balance, 30);
    assert_eq!(u.log.amount, 30);
    assert_eq!(u.storage_refund, STORAGE_COST + 1);
}

#[test]
fn transfer_reward_invalid_caller() {
    let mut contract = create_contract();
    let r = contract.transfer_player_reward(&dex(), &carol(), vec![0]);
    assert_eq!(r, Err(Error::Unauthorized));
}

#[test]
fn transfer_reward_invalid_player() {
    let mut contract = create_contract();
    let r = contract.transfer_player_reward(&nft(), &carol(), vec![0]);
    assert_eq!(r, Err(Error::AccountNotRegistered));
}

#[test]
fn transfer_reward_invalid_objective() {
    let mut contract = create_contract();
    register(&mut contract, carol());
    let r = contract.transfer_player_reward(&nft(), &carol(), vec![2]);
    assert_eq!(r, Err(Error::InvalidObjective));
}

#[test]
fn transfer_reward() {
    let mut contract = create_contract();
    register(&mut contract, carol());

    let rewards = 3000;

    assert_eq!(contract.transfer_player_reward(&nft(), &carol(), vec![0, 1]), Ok(3000));
    assert_eq!(contract.ft_balance_of(&carol()), rewards);
    assert_eq!(contract.ft_balance_of(&dex()), TOTAL_SUPPLY - rewards);
    assert_eq!(contract.ft_total_supply(), TOTAL_SUPPLY);
    let stats = &contract.catch_objectives.stats;
    assert_eq!(stats[0].winner_count, 1);
    assert_eq!(stats[1].winner_count, 1);
}

#[test]
fn transfer_call_checks_deposit_and_gas() {
    let mut contract = create_contract();
    register(&mut contract, carol());
    let r = contract.ft_transfer_call(&dex(), 0, GAS, &carol(), 10, None, String::new());
    assert_eq!(r.err(), Some(Error::RequiresOneYocto));
    let r = contract.ft_transfer_call(
        &dex(),
        ONE_YOCTO,
        35_000_000_000_000,
        &carol(),
        10,
        None,
        String::new(),
    );
    assert_eq!(r.err(), Some(Error::InsufficientExecutionBudget));
    assert_eq!(contract.ft_balance_of(&carol()), 0);
    let call = contract
        .ft_transfer_call(&dex(), ONE_YOCTO, 35_000_000_000_001, &carol(), 10, None, String::from("m"))
        .unwrap();
    assert_eq!(call.notify_gas, 5_000_000_000_001);
    assert_eq!(call.resolve_gas, 5_000_000_000_000);
    assert_eq!(call.amount, 10);
    assert_eq!(call.msg, "m");
    assert_eq!(contract.ft_balance_of(&carol()), 10);
}

/// X holds 1000 and sends all of it to Y, whose notification answers that
/// 600 went unused.
fn scenario(x_removed_before_callback: bool) -> (Contract, u128, Option<Settlement>) {
    let mut contract = create_contract();
    let x = alice();
    let y = bob();
    register(&mut contract, x.clone());
    register(&mut contract, y.clone());
    contract.ft_transfer(&dex(), ONE_YOCTO, &x, 1000, None).unwrap();

    let call = contract
        .ft_transfer_call(&x, ONE_YOCTO, GAS, &y, 1000, None, String::from("use 400"))
        .unwrap();
    assert_eq!(contract.ft_balance_of(&x), 0);
    assert_eq!(contract.ft_balance_of(&y), 1000);

    if x_removed_before_callback {
        assert_eq!(contract.storage_unregister(&x, ONE_YOCTO, None), Ok(true));
    }
    let outcome = PromiseOutcome::Successful(b"\"600\"".to_vec());
    let res = contract
        .ft_resolve_transfer(&current(), &current(), &call.sender_id, &call.receiver_id, call.amount, &outcome)
        .unwrap();
    (contract, res.used_amount, res.settlement)
}

#[test]
fn scenario_partial_use_refunds_the_sender() {
    let (contract, used, settlement) = scenario(false);
    assert_eq!(contract.ft_balance_of(&alice()), 600);
    assert_eq!(contract.ft_balance_of(&bob()), 400);
    assert_eq!(contract.ft_total_supply(), TOTAL_SUPPLY);
    assert_eq!(used, 400);
    match settlement {
        Some(Settlement::Refunded(log)) => {
            assert_eq!(log.old_owner_id, bob());
            assert_eq!(log.new_owner_id, alice());
            assert_eq!(log.amount, 600);
            assert_eq!(log.memo, Some(String::from("refund")));
        }
        _ => panic!("expected a refund"),
    }
}

#[test]
fn scenario_refund_to_removed_sender_is_burned() {
    let (contract, used, settlement) = scenario(true);
    assert_eq!(contract.ft_balance_of(&bob()), 400);
    assert!(contract.storage_balance_of(&alice()).is_none());
    assert_eq!(contract.ft_total_supply(), TOTAL_SUPPLY - 600);
    assert_eq!(used, 1000);
    match settlement {
        Some(Settlement::Burned(log)) => {
            assert_eq!(log.owner_id, bob());
            assert_eq!(log.amount, 600);
        }
        _ => panic!("expected a burn"),
    }
}

#[test]
fn failed_or_unreadable_notification_refunds_everything() {
    for outcome in [
        PromiseOutcome::Failed,
        PromiseOutcome::Successful(b"not json".to_vec()),
        PromiseOutcome::Successful(b"600".to_vec()),
    ] {
        let mut contract = create_contract();
        register(&mut contract, carol());
        contract.ft_transfer_call(&dex(), ONE_YOCTO, GAS, &carol(), 50, None, String::new()).unwrap();
        let res = contract
            .ft_resolve_transfer(&current(), &current(), &dex(), &carol(), 50, &outcome)
            .unwrap();
        assert_eq!(res.used_amount, 0);
        assert_eq!(contract.ft_balance_of(&carol()), 0);
        assert_eq!(contract.ft_balance_of(&dex()), TOTAL_SUPPLY);
    }
}

#[test]
fn refund_is_capped_by_what_the_receiver_still_holds() {
    let mut contract = create_contract();
    register(&mut contract, carol());
    register(&mut contract, bob());
    contract.ft_transfer_call(&dex(), ONE_YOCTO, GAS, &carol(), 1000, None, String::new()).unwrap();
    // carol spends most of it before the callback
    contract.ft_transfer(&carol(), ONE_YOCTO, &bob(), 900, None).unwrap();
    let outcome = PromiseOutcome::Successful(b"\"5000\"".to_vec());
    let res = contract
        .ft_resolve_transfer(&current(), &current(), &dex(), &carol(), 1000, &outcome)
        .unwrap();
    assert_eq!(res.used_amount, 900);
    assert_eq!(contract.ft_balance_of(&carol()), 0);
    assert_eq!(contract.ft_balance_of(&bob()), 900);
    assert_eq!(contract.ft_balance_of(&dex()), TOTAL_SUPPLY - 900);
    assert_eq!(contract.ft_total_supply(), TOTAL_SUPPLY);
}

#[test]
fn full_use_refunds_nothing() {
    let mut contract = create_contract();
    register(&mut contract, carol());
    contract.ft_transfer_call(&dex(), ONE_YOCTO, GAS, &carol(), 1000, None, String::new()).unwrap();
    let outcome = PromiseOutcome::Successful(b"\"0\"".to_vec());
    let res = contract
        .ft_resolve_transfer(&current(), &current(), &dex(), &carol(), 1000, &outcome)
        .unwrap();
    assert_eq!(res.used_amount, 1000);
    assert!(res.settlement.is_none());
    assert_eq!(contract.ft_balance_of(&carol()), 1000);
}

#[test]
fn resolve_only_by_the_contract_itself() {
    let mut contract = create_contract();
    register(&mut contract, carol());
    contract.ft_transfer_call(&dex(), ONE_YOCTO, GAS, &carol(), 10, None, String::new()).unwrap();
    let r = contract.ft_resolve_transfer(&carol(), &current(), &dex(), &carol(), 10, &PromiseOutcome::Failed);
    assert!(matches!(r, Err(Error::Unauthorized)));
    assert_eq!(contract.ft_balance_of(&carol()), 10);
}

#[test]
fn reconciliation_is_deterministic() {
    let run = || {
        let mut contract = create_contract();
        register(&mut contract, carol());
        contract.ft_transfer_call(&dex(), ONE_YOCTO, GAS, &carol(), 100, None, String::new()).unwrap();
        let outcome = PromiseOutcome::Successful(b"\"30\"".to_vec());
        let res = contract
            .ft_resolve_transfer(&current(), &current(), &dex(), &carol(), 100, &outcome)
            .unwrap();
        (
            contract.ft_balance_of(&dex()),
            contract.ft_balance_of(&carol()),
            contract.ft_total_supply(),
            res.used_amount,
        )
    };
    assert_eq!(run(), run());
    assert_eq!(run(), (TOTAL_SUPPLY - 70, 70, TOTAL_SUPPLY, 70));
}

#[test]
fn supply_equals_sum_of_balances_across_a_sequence() {
    let mut contract = create_contract();
    for a in [alice(), bob(), carol()] {
        register(&mut contract, a);
    }
    let sum = |c: &Contract| -> u128 {
        [alice(), bob(), carol(), dex()].iter().map(|a| c.ft_balance_of(a)).sum()
    };
    contract.ft_transfer(&dex(), ONE_YOCTO, &alice(), 500, None).unwrap();
    assert_eq!(sum(&contract), contract.ft_total_supply());
    contract.ft_transfer(&alice(), ONE_YOCTO, &bob(), 200, None).unwrap();
    assert_eq!(sum(&contract), contract.ft_total_supply());
    contract.ft_transfer_call(&bob(), ONE_YOCTO, GAS, &carol(), 150, None, String::new()).unwrap();
    assert_eq!(sum(&contract), contract.ft_total_supply());
    contract
        .ft_resolve_transfer(&current(), &current(), &bob(), &carol(), 150, &PromiseOutcome::Successful(b"\"50\"".to_vec()))
        .unwrap();
    assert_eq!(sum(&contract), contract.ft_total_supply());
    assert_eq!(contract.storage_unregister(&carol(), ONE_YOCTO, Some(true)), Ok(true));
    assert_eq!(sum(&contract), contract.ft_total_supply());
    assert_eq!(contract.ft_total_supply(), TOTAL_SUPPLY - 100);
}

#[test]
fn sub_account_creation_and_callback() {
    let mut contract = create_contract();
    let r = contract.create_sub_account(&carol(), GAS, &s("player"), &current());
    assert_eq!(r.err(), Some(Error::NotOwner));
    let r = contract.create_sub_account(&dex(), 10_000_000_000_000, &s("player"), &current());
    assert_eq!(r.err(), Some(Error::InsufficientExecutionBudget));
    let r = contract.create_sub_account(&dex(), GAS, &s("Player"), &current());
    assert_eq!(r.err(), Some(Error::InvalidId));
    let sub = contract.create_sub_account(&dex(), GAS, &s("player"), &current()).unwrap();
    assert_eq!(sub.account_id, "player.mike.near");
    assert_eq!(sub.storage_cost, STORAGE_COST);
    assert_eq!(sub.callback_gas, GAS - 5_000_000_000_000);

    let r = contract.acc_creation_callback(&carol(), &current(), STORAGE_COST, sub.account_id.clone(), true);
    assert_eq!(r.err().map(|e| e), Some(Error::Unauthorized));
    let r = contract.acc_creation_callback(&current(), &current(), STORAGE_COST, sub.account_id.clone(), false);
    assert_eq!(r.err(), Some(Error::AccountNotRegistered));
    let r = contract.acc_creation_callback(&current(), &current(), 1, sub.account_id.clone(), true);
    assert_eq!(r.err(), Some(Error::InsufficientDeposit));
    let b = contract
        .acc_creation_callback(&current(), &current(), STORAGE_COST, sub.account_id.clone(), true)
        .unwrap();
    assert_eq!(b.total, STORAGE_COST);
    assert!(contract.storage_balance_of(&sub.account_id).is_some());
    assert_eq!(contract.assert_owner(&dex()), Ok(()));
    assert_eq!(contract.assert_owner(&carol()), Err(Error::NotOwner));
}

#[test]
fn objectives_page() {
    let contract = create_contract();
    assert_eq!(contract.get_objectives(2, 3).len(), 0);
    let page = contract.get_objectives(0, 3);
    assert_eq!(page.len(), 2);
    assert_eq!(page[0].objective.title, "Objective1");
    assert_eq!(page[0].objective.reward, 1000);
    assert_eq!(page[1].obj_metadata.reference, "ipfs://achievement2");
    assert_eq!(page[1].obj_metadata.reference_hash, vec![2_u8; 32]);
    let page = contract.get_objectives(1, 1);
    assert_eq!(page.len(), 1);
    assert_eq!(page[0].objective.reward, 2000);
}

fn s(x: &str) -> String {
    String::from(x)
}

#[test]
fn event_records_carry_the_standard() {
    use_event_log();
}

fn use_event_log() {
    let e = catch_contracts::events::FtMintLog { owner_id: dex(), amount: 100, memo: None }.into_event();
    assert_eq!(e.standard, "nep141");
    assert_eq!(e.version, "1.0.0");
    match e.event {
        catch_contracts::events::EventLogVariant::FtMint(m) => assert_eq!(m.amount, 100),
        _ => panic!("expected a mint"),
    }
}

#[test]
fn get_objectives() {
    let contract = create_contract();

    // from index 2 lies past both objectives
    let json_objs = contract.get_objectives(2, 3);
    assert!(json_objs.is_empty());

    let expected = vec![
        (String::from("Objective1"), 1000_u128, "ipfs://achievement1".to_string(), vec![1_u8; 32]),
        (String::from("Objective2"), 2000_u128, "ipfs://achievement2".to_string(), vec![2_u8; 32]),
    ];
    let all = contract.get_objectives(0, 3);
    assert_eq!(all.len(), expected.len());
    for (got, (title, reward, reference, hash)) in all.iter().zip(expected.iter()) {
        assert_eq!(&got.objective.title, title);
        assert_eq!(got.objective.reward, *reward);
        assert_eq!(&got.obj_metadata.reference, reference);
        assert_eq!(&got.obj_metadata.reference_hash, hash);
        assert_eq!(got.stats.winner_count, 0);
        assert_eq!(got.stats.rarity, catch_contracts::game::Rarity::Common);
    }
}
