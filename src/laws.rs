//! Properties that relate several operations, stated over the spec
//! functions that the operations' contracts use, and proved.
use crate::fungible::{declared_unused, unused_spec, PromiseOutcome};
use crate::ledger::{balance_in, reconciled, refund_of};
use crate::nft::Contract;
use vstd::prelude::*;

verus! {

/// A superseded approval id no longer authorizes a transfer. Re-approving
/// an account hands it the copy's next id, which differs from every id
/// handed out before; so a transfer by that account under any earlier id
/// is refused.
pub proof fn lemma_reapproval_fences_old_id(
    before: Contract,
    after: Contract,
    token_id: Seq<char>,
    owner: Seq<char>,
    account: Seq<char>,
    old_id: u64,
    receiver: Seq<char>,
    now: u64,
)
    requires
        before.wf(),
        before.tokens_by_id@.contains_key(token_id),
        old_id < before.tokens_by_id@[token_id].info_of(owner).1,
        Contract::approvals_set(
            &after,
            &before,
            token_id,
            owner,
            before.tokens_by_id@[token_id].info_of(owner).0.insert(
                account,
                before.tokens_by_id@[token_id].info_of(owner).1,
            ),
            (before.tokens_by_id@[token_id].info_of(owner).1 + 1) as u64,
        ),
        account != owner,
    ensures
        !after.tokens_by_id@[token_id].is_authorized(owner, account, Some(old_id)),
        after.transfer_error(account, receiver, token_id, owner, Some(old_id), now) is Some,
{
}

/// After a revoke, the account is approved under no id at all.
pub proof fn lemma_revoke_fences_account(
    before: Contract,
    after: Contract,
    token_id: Seq<char>,
    owner: Seq<char>,
    account: Seq<char>,
    approval_id: Option<u64>,
    receiver: Seq<char>,
    now: u64,
)
    requires
        before.wf(),
        before.tokens_by_id@.contains_key(token_id),
        Contract::approvals_set(
            &after,
            &before,
            token_id,
            owner,
            before.tokens_by_id@[token_id].info_of(owner).0.remove(account),
            before.tokens_by_id@[token_id].info_of(owner).1,
        ),
        account != owner,
    ensures
        !after.tokens_by_id@[token_id].is_authorized(owner, account, approval_id),
        after.transfer_error(account, receiver, token_id, owner, approval_id, now) is Some,
{
}

/// After a copy changes hands, no approval given on it survives: the new
/// holder's copy carries no approvals, and its id counter is at least the
/// previous holder's, so ids it hands out later never repeat the old ones.
pub proof fn lemma_transfer_fences_approvals(
    before: Contract,
    after: Contract,
    token_id: Seq<char>,
    owner: Seq<char>,
    new_owner: Seq<char>,
    account: Seq<char>,
    approval_id: Option<u64>,
    receiver: Seq<char>,
    now: u64,
)
    requires
        before.wf(),
        before.tokens_by_id@.contains_key(token_id),
        Contract::transferred(&after, &before, token_id, owner, new_owner),
        owner != new_owner,
        account != new_owner,
    ensures
        !after.tokens_by_id@[token_id].is_authorized(new_owner, account, approval_id),
        after.transfer_error(account, receiver, token_id, new_owner, approval_id, now) is Some,
        after.tokens_by_id@[token_id].info_of(new_owner).1 >= before.tokens_by_id@[token_id].info_of(
            owner,
        ).1,
        !after.owns(owner, token_id),
{
    assert(after.owns(new_owner, token_id));
    assert(!after.owns(owner, token_id));
}

/// Reconciliation is a function of what it is given: the balances, the
/// supply, the transfer, and what the notification returned. Two runs on
/// the same inputs end in the same ledger and report the same used amount.
pub proof fn lemma_reconciliation_deterministic(
    balances: Map<Seq<char>, u128>,
    supply: u128,
    sender: Seq<char>,
    receiver: Seq<char>,
    amount: u128,
    first: PromiseOutcome,
    second: PromiseOutcome,
)
    requires
        first == second,
    ensures
        reconciled(
            balances,
            supply,
            sender,
            receiver,
            amount,
            unused_spec(amount, declared_unused(&first)),
        ) == reconciled(
            balances,
            supply,
            sender,
            receiver,
            amount,
            unused_spec(amount, declared_unused(&second)),
        ),
{
}

/// Running reconciliation a second time on its own result changes nothing
/// once the first run left nothing to refund: the receiver holds nothing
/// more, or nothing was left unused.
pub proof fn lemma_reconciliation_settled(
    balances: Map<Seq<char>, u128>,
    supply: u128,
    sender: Seq<char>,
    receiver: Seq<char>,
    amount: u128,
    unused: u128,
)
    requires
        sender != receiver,
        balance_in(balances, receiver) <= supply,
        ({
            let (m1, _, _) = reconciled(balances, supply, sender, receiver, amount, unused);
            balance_in(m1, receiver) == 0 || unused == 0
        }),
    ensures
        ({
            let (m1, s1, _) = reconciled(balances, supply, sender, receiver, amount, unused);
            let (m2, s2, _) = reconciled(m1, s1 as u128, sender, receiver, amount, unused);
            m2 == m1 && s2 == s1
        }),
{
}

/// The refund never exceeds the amount sent, the amount the receiver
/// declared unused, or what the receiver holds when reconciliation runs.
pub proof fn lemma_refund_capped(
    balances: Map<Seq<char>, u128>,
    receiver: Seq<char>,
    amount: u128,
    declared: Option<u128>,
)
    ensures
        refund_of(balances, receiver, unused_spec(amount, declared)) <= amount,
        refund_of(balances, receiver, unused_spec(amount, declared)) <= balance_in(
            balances,
            receiver,
        ),
        declared matches Some(d) ==> refund_of(balances, receiver, unused_spec(amount, declared))
            <= d,
{
}

} // verus!
