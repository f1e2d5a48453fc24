//! The fungible balance ledger: accounts, balances and the total supply,
//! with checked arithmetic and the conservation invariant.
use crate::error::Error;
use crate::events::{FtBurnLog, FtTransferLog};
use crate::table::Table;
use vstd::prelude::*;

verus! {

/// The sum of the balances of a list of entries.
pub open spec fn sum_balances(s: Seq<(String, u128)>) -> int
    decreases s.len(),
{
    if s.len() == 0 {
        0
    } else {
        sum_balances(s.drop_last()) + s.last().1
    }
}

pub proof fn lemma_sum_push(s: Seq<(String, u128)>, e: (String, u128))
    ensures
        sum_balances(s.push(e)) == sum_balances(s) + e.1,
{
    assert(s.push(e).drop_last() =~= s);
}

pub proof fn lemma_sum_update(s: Seq<(String, u128)>, i: int, e: (String, u128))
    requires
        0 <= i < s.len(),
    ensures
        sum_balances(s.update(i, e)) == sum_balances(s) - s[i].1 + e.1,
    decreases s.len(),
{
    let t = s.update(i, e);
    if i == s.len() - 1 {
        assert(t.drop_last() =~= s.drop_last());
    } else {
        assert(t.drop_last() =~= s.drop_last().update(i, e));
        lemma_sum_update(s.drop_last(), i, e);
    }
}

pub proof fn lemma_sum_remove(s: Seq<(String, u128)>, i: int)
    requires
        0 <= i < s.len(),
    ensures
        sum_balances(s.remove(i)) == sum_balances(s) - s[i].1,
    decreases s.len(),
{
    let t = s.remove(i);
    if i == s.len() - 1 {
        assert(t =~= s.drop_last());
    } else {
        assert(t.drop_last() =~= s.drop_last().remove(i));
        lemma_sum_remove(s.drop_last(), i);
    }
}

pub proof fn lemma_sum_nonneg(s: Seq<(String, u128)>)
    ensures
        sum_balances(s) >= 0,
    decreases s.len(),
{
    if s.len() > 0 {
        lemma_sum_nonneg(s.drop_last());
    }
}

/// One entry, and two entries at distinct positions, are at most the sum.
pub proof fn lemma_sum_bounds(s: Seq<(String, u128)>, i: int, j: int)
    requires
        0 <= i < s.len(),
        0 <= j < s.len(),
    ensures
        s[i].1 <= sum_balances(s),
        i != j ==> s[i].1 + s[j].1 <= sum_balances(s),
    decreases s.len(),
{
    let n = s.len() - 1;
    lemma_sum_nonneg(s.drop_last());
    if i < n && j < n {
        lemma_sum_bounds(s.drop_last(), i, j);
    } else if i < n {
        lemma_sum_bounds(s.drop_last(), i, i);
    } else if j < n {
        lemma_sum_bounds(s.drop_last(), j, j);
    }
}

/// The balance of `id` in `m`, zero for an account with no record.
pub open spec fn balance_in(m: Map<Seq<char>, u128>, id: Seq<char>) -> u128 {
    if m.contains_key(id) {
        m[id]
    } else {
        0
    }
}

/// Why a transfer of `amount` from `sender` to `receiver` is refused, if it is.
pub open spec fn transfer_error(
    m: Map<Seq<char>, u128>,
    sender: Seq<char>,
    receiver: Seq<char>,
    amount: u128,
) -> Option<Error> {
    if sender == receiver {
        Some(Error::SameAccount)
    } else if amount == 0 {
        Some(Error::NonPositiveAmount)
    } else if !m.contains_key(sender) {
        Some(Error::AccountNotRegistered)
    } else if m[sender] < amount {
        Some(Error::InsufficientBalance)
    } else if !m.contains_key(receiver) {
        Some(Error::AccountNotRegistered)
    } else if m[receiver] + amount > u128::MAX {
        Some(Error::Overflow)
    } else {
        None
    }
}

/// The balances after a transfer that `transfer_error` admits.
pub open spec fn transferred(
    m: Map<Seq<char>, u128>,
    sender: Seq<char>,
    receiver: Seq<char>,
    amount: u128,
) -> Map<Seq<char>, u128> {
    m.insert(sender, (m[sender] - amount) as u128).insert(receiver, (m[receiver] + amount) as u128)
}

/// The part of a transfer that reconciliation hands back to the sender:
/// what the receiver left unused, but no more than the receiver still holds.
pub open spec fn refund_of(m: Map<Seq<char>, u128>, receiver: Seq<char>, unused: u128) -> u128 {
    let rb = balance_in(m, receiver);
    if unused > 0 && rb > 0 {
        if rb < unused {
            rb
        } else {
            unused
        }
    } else {
        0
    }
}

/// How reconciliation leaves the ledger: the balances, the total supply, and
/// the amount that counts as used by the receiver.
pub open spec fn reconciled(
    m: Map<Seq<char>, u128>,
    supply: u128,
    sender: Seq<char>,
    receiver: Seq<char>,
    amount: u128,
    unused: u128,
) -> (Map<Seq<char>, u128>, int, int) {
    let refund = refund_of(m, receiver, unused);
    if refund == 0 {
        (m, supply as int, amount as int)
    } else {
        let m1 = m.insert(receiver, (m[receiver] - refund) as u128);
        if m1.contains_key(sender) {
            (m1.insert(sender, (m1[sender] + refund) as u128), supply as int, amount - refund)
        } else {
            (m1, supply - refund, amount as int)
        }
    }
}

/// The record that reconciliation writes, if it moves anything.
pub enum Settlement {
    /// The refund went back to the sender.
    Refunded(FtTransferLog),
    /// The sender's account is gone, so the refund was destroyed.
    Burned(FtBurnLog),
}

pub struct Resolution {
    /// The part of the transferred amount that stays with the receiver or was burned.
    pub used_amount: u128,
    pub settlement: Option<Settlement>,
}

/// The ledger of balances.
pub struct FungibleToken {
    /// Account identifier to balance.
    pub accounts: Table<u128>,
    /// Total supply of the token.
    pub total_supply: u128,
}

impl FungibleToken {
    /// The balances as a map.
    pub open spec fn balances(&self) -> Map<Seq<char>, u128> {
        self.accounts@
    }

    /// The sum of all balances equals the total supply.
    pub open spec fn conserved(&self) -> bool {
        sum_balances(self.accounts.entries@) == self.total_supply
    }

    pub open spec fn wf(&self) -> bool {
        self.accounts.wf() && self.conserved()
    }

    /// A ledger whose whole supply is held by `owner_id`.
    pub fn new(owner_id: String, total_supply: u128) -> (r: Self)
        ensures
            r.wf(),
            r.balances() == Map::<Seq<char>, u128>::empty().insert(owner_id@, total_supply),
            r.total_supply == total_supply,
    {
        let ghost e = (owner_id, total_supply);
        let mut accounts = Table::new();
        accounts.push_new(owner_id, total_supply);
        proof {
            assert(accounts.entries@ =~= Seq::<(String, u128)>::empty().push(e));
            lemma_sum_push(Seq::<(String, u128)>::empty(), e);
        }
        FungibleToken { accounts, total_supply }
    }

    pub fn ft_total_supply(&self) -> (r: u128)
        ensures
            r == self.total_supply,
    {
        self.total_supply
    }

    pub fn ft_balance_of(&self, account_id: &String) -> (r: u128)
        requires
            self.wf(),
        ensures
            r == balance_in(self.balances(), account_id@),
    {
        match self.accounts.get(account_id) {
            Some(b) => *b,
            None => 0,
        }
    }

    /// Whether the account holds a balance record.
    pub fn is_registered(&self, account_id: &String) -> (r: bool)
        requires
            self.wf(),
        ensures
            r == self.balances().contains_key(account_id@),
    {
        self.accounts.contains_key(account_id)
    }

    /// Opens a zero balance for an account that holds none.
    pub fn register(&mut self, account_id: String)
        requires
            old(self).wf(),
            !old(self).balances().contains_key(account_id@),
        ensures
            final(self).wf(),
            final(self).balances() == old(self).balances().insert(account_id@, 0),
            final(self).total_supply == old(self).total_supply,
    {
        proof {
            lemma_sum_push(self.accounts.entries@, (account_id, 0u128));
        }
        self.accounts.push_new(account_id, 0);
    }

    /// Removes an account, burning its balance.
    pub fn unregister(&mut self, account_id: &String) -> (r: Option<u128>)
        requires
            old(self).wf(),
        ensures
            final(self).wf(),
            match r {
                Some(b) => old(self).balances().contains_key(account_id@) && b == old(self).balances()[account_id@]
                    && final(self).balances() == old(self).balances().remove(account_id@)
                    && final(self).total_supply == old(self).total_supply - b,
                None => !old(self).balances().contains_key(account_id@) && *final(self) == *old(self),
            },
    {
        match self.accounts.find(account_id) {
            Some(i) => {
                proof {
                    lemma_sum_remove(self.accounts.entries@, i as int);
                    lemma_sum_bounds(self.accounts.entries@, i as int, i as int);
                }
                let (_key, b) = self.accounts.remove_at(i);
                self.total_supply = self.total_supply - b;
                Some(b)
            },
            None => None,
        }
    }

    /// Adds `amount` to a registered account. The total supply is left as it is.
    pub fn internal_deposit(&mut self, account_id: &String, amount: u128) -> (r: Result<(), Error>)
        requires
            old(self).accounts.wf(),
        ensures
            final(self).accounts.wf(),
            final(self).total_supply == old(self).total_supply,
            !old(self).balances().contains_key(account_id@) ==> r == Err::<(), Error>(
                Error::AccountNotRegistered,
            ),
            old(self).balances().contains_key(account_id@) && old(self).balances()[account_id@]
                + amount > u128::MAX ==> r == Err::<(), Error>(Error::Overflow),
            old(self).balances().contains_key(account_id@) && old(self).balances()[account_id@]
                + amount <= u128::MAX ==> r is Ok,
            r is Err ==> *final(self) == *old(self),
            r is Ok ==> old(self).balances().contains_key(account_id@) && final(self).balances()
                == old(self).balances().insert(
                account_id@,
                (old(self).balances()[account_id@] + amount) as u128,
            ) && sum_balances(final(self).accounts.entries@) == sum_balances(
                old(self).accounts.entries@,
            ) + amount,
    {
        match self.accounts.find(account_id) {
            None => Err(Error::AccountNotRegistered),
            Some(i) => {
                let balance = self.accounts.entries[i].1;
                match balance.checked_add(amount) {
                    None => Err(Error::Overflow),
                    Some(new_balance) => {
                        proof {
                            lemma_sum_update(
                                self.accounts.entries@,
                                i as int,
                                (self.accounts.entries@[i as int].0, new_balance),
                            );
                        }
                        self.accounts.set_at(i, new_balance);
                        Ok(())
                    },
                }
            },
        }
    }

    /// Takes `amount` from a registered account. The total supply is left as it is.
    pub fn internal_withdraw(&mut self, account_id: &String, amount: u128) -> (r: Result<(), Error>)
        requires
            old(self).accounts.wf(),
        ensures
            final(self).accounts.wf(),
            final(self).total_supply == old(self).total_supply,
            !old(self).balances().contains_key(account_id@) ==> r == Err::<(), Error>(
                Error::AccountNotRegistered,
            ),
            old(self).balances().contains_key(account_id@) && old(self).balances()[account_id@]
                < amount ==> r == Err::<(), Error>(Error::InsufficientBalance),
            old(self).balances().contains_key(account_id@) && old(self).balances()[account_id@]
                >= amount ==> r is Ok,
            r is Err ==> *final(self) == *old(self),
            r is Ok ==> old(self).balances().contains_key(account_id@) && final(self).balances()
                == old(self).balances().insert(
                account_id@,
                (old(self).balances()[account_id@] - amount) as u128,
            ) && sum_balances(final(self).accounts.entries@) == sum_balances(
                old(self).accounts.entries@,
            ) - amount,
    {
        match self.accounts.find(account_id) {
            None => Err(Error::AccountNotRegistered),
            Some(i) => {
                let balance = self.accounts.entries[i].1;
                match balance.checked_sub(amount) {
                    None => Err(Error::InsufficientBalance),
                    Some(new_balance) => {
                        proof {
                            lemma_sum_update(
                                self.accounts.entries@,
                                i as int,
                                (self.accounts.entries@[i as int].0, new_balance),
                            );
                        }
                        self.accounts.set_at(i, new_balance);
                        Ok(())
                    },
                }
            },
        }
    }

    /// Moves `amount` from `sender_id` to `receiver_id` in one step, or
    /// changes nothing and says why.
    pub fn internal_transfer(
        &mut self,
        sender_id: &String,
        receiver_id: &String,
        amount: u128,
        memo: Option<String>,
    ) -> (r: Result<FtTransferLog, Error>)
        requires
            old(self).wf(),
        ensures
            final(self).wf(),
            match transfer_error(old(self).balances(), sender_id@, receiver_id@, amount) {
                Some(e) => r == Err::<FtTransferLog, Error>(e) && *final(self) == *old(self),
                None => (r matches Ok(log) && final(self).balances() == transferred(
                    old(self).balances(),
                    sender_id@,
                    receiver_id@,
                    amount,
                ) && final(self).total_supply == old(self).total_supply && log.old_owner_id@
                    == sender_id@ && log.new_owner_id@ == receiver_id@ && log.amount == amount
                    && log.memo == memo),
            },
    {
        if *sender_id == *receiver_id {
            return Err(Error::SameAccount);
        }
        if amount == 0 {
            return Err(Error::NonPositiveAmount);
        }
        let si = match self.accounts.find(sender_id) {
            Some(i) => i,
            None => return Err(Error::AccountNotRegistered),
        };
        if self.accounts.entries[si].1 < amount {
            return Err(Error::InsufficientBalance);
        }
        let ri = match self.accounts.find(receiver_id) {
            Some(i) => i,
            None => return Err(Error::AccountNotRegistered),
        };
        proof {
            lemma_sum_bounds(self.accounts.entries@, si as int, ri as int);
        }
        if self.accounts.entries[ri].1 > u128::MAX - amount {
            return Err(Error::Overflow);
        }
        let ghost m0 = self.balances();
        let r1 = self.internal_withdraw(sender_id, amount);
        assert(r1 is Ok);
        let r2 = self.internal_deposit(receiver_id, amount);
        assert(r2 is Ok);
        Ok(FtTransferLog {
            old_owner_id: sender_id.clone(),
            new_owner_id: receiver_id.clone(),
            amount,
            memo,
        })
    }

    /// Reconciles a transfer of `amount` from `sender_id` to `receiver_id`
    /// whose receiver left `unused` of it unused. It reads the balances as they
    /// are now: the receiver gives back at most what it still holds; the
    /// sender gets it back if its account still exists, else it is burned.
    pub fn internal_resolve_transfer(
        &mut self,
        sender_id: &String,
        receiver_id: &String,
        amount: u128,
        unused: u128,
    ) -> (r: Resolution)
        requires
            old(self).wf(),
            unused <= amount,
        ensures
            final(self).wf(),
            ({
                let (m, supply, used) = reconciled(
                    old(self).balances(),
                    old(self).total_supply,
                    sender_id@,
                    receiver_id@,
                    amount,
                    unused,
                );
                final(self).balances() == m && final(self).total_supply == supply && r.used_amount
                    == used
            }),
            ({
                let refund = refund_of(old(self).balances(), receiver_id@, unused);
                match r.settlement {
                    None => refund == 0,
                    Some(Settlement::Refunded(log)) => refund > 0 && log.old_owner_id@
                        == receiver_id@ && log.new_owner_id@ == sender_id@ && log.amount == refund
                        && (log.memo matches Some(m) && m@ == "refund"@),
                    Some(Settlement::Burned(log)) => refund > 0 && log.owner_id@ == receiver_id@
                        && log.amount == refund && (log.memo matches Some(m) && m@ == "burn"@),
                }
            }),
    {
        if unused > 0 {
            if let Some(ri) = self.accounts.find(receiver_id) {
                let receiver_balance = self.accounts.entries[ri].1;
                if receiver_balance > 0 {
                    let refund_amount = if receiver_balance < unused {
                        receiver_balance
                    } else {
                        unused
                    };
                    let ghost s0 = self.accounts.entries@;
                    proof {
                        lemma_sum_update(
                            s0,
                            ri as int,
                            (s0[ri as int].0, (receiver_balance - refund_amount) as u128),
                        );
                        lemma_sum_bounds(s0, ri as int, ri as int);
                    }
                    self.accounts.set_at(ri, receiver_balance - refund_amount);
                    match self.accounts.find(sender_id) {
                        Some(si) => {
                            let ghost s1 = self.accounts.entries@;
                            proof {
                                if si != ri {
                                    lemma_sum_bounds(s0, si as int, ri as int);
                                }
                                lemma_sum_update(
                                    s1,
                                    si as int,
                                    (s1[si as int].0, (s1[si as int].1 + refund_amount) as u128),
                                );
                            }
                            let sender_balance = self.accounts.entries[si].1;
                            self.accounts.set_at(si, sender_balance + refund_amount);
                            return Resolution {
                                used_amount: amount - refund_amount,
                                settlement: Some(
                                    Settlement::Refunded(
                                        FtTransferLog {
                                            old_owner_id: receiver_id.clone(),
                                            new_owner_id: sender_id.clone(),
                                            amount: refund_amount,
                                            memo: Some("refund".to_owned()),
                                        },
                                    ),
                                ),
                            };
                        },
                        None => {
                            self.total_supply = self.total_supply - refund_amount;
                            return Resolution {
                                used_amount: amount,
                                settlement: Some(
                                    Settlement::Burned(
                                        FtBurnLog {
                                            owner_id: receiver_id.clone(),
                                            amount: refund_amount,
                                            memo: Some("burn".to_owned()),
                                        },
                                    ),
                                ),
                            };
                        },
                    }
                }
            }
        }
        Resolution { used_amount: amount, settlement: None }
    }
}

} // verus!
