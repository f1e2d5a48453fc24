//! The marketplace's storage accounting: what each account has paid for the
//! storage of its sales, and the fungible tokens that sales may be priced in.
use crate::error::Error;
use crate::fungible::STORAGE_PRICE_PER_BYTE;
use crate::table::Table;
use vstd::prelude::*;

verus! {

/// The deposit that one sale's storage takes.
pub const STORAGE_PER_SALE: u128 = 1000 * STORAGE_PRICE_PER_BYTE;

/// What a buyer names: the token of an NFT contract.
pub struct PurchaseArgs {
    pub nft_contract_id: String,
    pub token_id: String,
}

pub struct Contract {
    pub owner_id: String,
    /// Seller to the identifiers of its sales.
    pub by_owner_id: Table<Table<()>>,
    pub approved_ft_tokens: Table<()>,
    /// Account to the storage deposit it has paid.
    pub storage_deposits: Table<u128>,
}

impl Contract {
    pub open spec fn wf(&self) -> bool {
        &&& self.by_owner_id.wf()
        &&& forall|a: Seq<char>| #[trigger]
            self.by_owner_id@.contains_key(a) ==> self.by_owner_id@[a].wf()
        &&& self.approved_ft_tokens.wf()
        &&& self.storage_deposits.wf()
    }

    /// The number of sales that `account` has listed.
    pub open spec fn sales_of(&self, account: Seq<char>) -> int {
        if self.by_owner_id@.contains_key(account) {
            self.by_owner_id@[account].entries@.len() as int
        } else {
            0
        }
    }

    pub open spec fn deposit_of(&self, account: Seq<char>) -> u128 {
        if self.storage_deposits@.contains_key(account) {
            self.storage_deposits@[account]
        } else {
            0
        }
    }

    /// A marketplace with no sales that takes NEAR.
    pub fn new(owner_id: String) -> (r: Contract)
        ensures
            r.wf(),
            r.owner_id == owner_id,
            r.approved_ft_tokens@.dom() == set!["near"@],
            r.storage_deposits@ == Map::<Seq<char>, u128>::empty(),
            r.by_owner_id@ == Map::<Seq<char>, Table<()>>::empty(),
    {
        let mut approved_ft_tokens = Table::new();
        approved_ft_tokens.push_new("near".to_owned(), ());
        assert(approved_ft_tokens@.dom() =~= set!["near"@]);
        Contract {
            owner_id,
            by_owner_id: Table::new(),
            approved_ft_tokens,
            storage_deposits: Table::new(),
        }
    }

    /// Adds fungible tokens that sales may be priced in. Only the owner may
    /// call it. Says for each whether it was new.
    #[verifier::loop_isolation(false)]
    pub fn add_ft_token_ids(&mut self, predecessor_id: &String, ft_token_ids: Vec<String>) -> (r: Result<Vec<bool>, Error>)
        requires
            old(self).wf(),
        ensures
            final(self).wf(),
            predecessor_id@ != old(self).owner_id@ ==> r == Err::<Vec<bool>, Error>(Error::NotOwner)
                && *final(self) == *old(self),
            predecessor_id@ == old(self).owner_id@ ==> (r matches Ok(added) && added@.len()
                == ft_token_ids@.len() && final(self).approved_ft_tokens@.dom()
                =~= old(self).approved_ft_tokens@.dom() + Set::new(|m: Seq<char>| exists|i: int| 0 <= i < ft_token_ids@.len() && #[trigger] ft_token_ids@[i]@ == m)
                && forall|i: int| 0 <= i < ft_token_ids@.len() ==> #[trigger] added@[i] == !(old(self).approved_ft_tokens@.contains_key(ft_token_ids@[i]@) || exists|j: int| 0 <= j < i && ft_token_ids@[j]@ == ft_token_ids@[i]@)),
    {
        if *predecessor_id != self.owner_id {
            return Err(Error::NotOwner);
        }
        let n = ft_token_ids.len();
        let ghost before = self.approved_ft_tokens@;
        let mut added: Vec<bool> = Vec::new();
        let mut i: usize = 0;
        while i < n
            invariant
                n == ft_token_ids@.len(),
                i <= n,
                added@.len() == i,
                self.wf(),
                self.approved_ft_tokens@.dom() =~= before.dom() + Set::new(|m: Seq<char>| exists|k: int| 0 <= k < i && #[trigger] ft_token_ids@[k]@ == m),
                forall|k: int| 0 <= k < i ==> #[trigger] added@[k] == !(before.contains_key(ft_token_ids@[k]@) || exists|j: int| 0 <= j < k && ft_token_ids@[j]@ == ft_token_ids@[k]@),
            decreases n - i,
        {
            let fresh = self.approved_ft_tokens.insert(ft_token_ids[i].clone(), ()).is_none();
            proof {
                assert(fresh == !(before.contains_key(ft_token_ids@[i as int]@) || exists|j: int| 0 <= j < i && ft_token_ids@[j]@ == ft_token_ids@[i as int]@)) by {
                    if exists|j: int| 0 <= j < i && ft_token_ids@[j]@ == ft_token_ids@[i as int]@ {
                        let j = choose|j: int| 0 <= j < i && ft_token_ids@[j]@ == ft_token_ids@[i as int]@;
                        assert(ft_token_ids@[j]@ == ft_token_ids@[i as int]@);
                    }
                }
            }
            added.push(fresh);
            i = i + 1;
        }
        Ok(added)
    }

    /// Adds the attached deposit, at least one sale's worth, to what
    /// `account_id` (the caller when none is named) has paid for storage.
    pub fn storage_deposit(&mut self, predecessor_id: &String, attached_deposit: u128, account_id: Option<String>) -> (r: Result<(), Error>)
        requires
            old(self).wf(),
        ensures
            final(self).wf(),
            ({
                let target = match account_id {
                    Some(a) => a@,
                    None => predecessor_id@,
                };
                let paid = old(self).deposit_of(target);
                if attached_deposit < STORAGE_PER_SALE {
                    r == Err::<(), Error>(Error::InsufficientDeposit) && *final(self) == *old(self)
                } else if paid + attached_deposit > u128::MAX {
                    r == Err::<(), Error>(Error::Overflow) && *final(self) == *old(self)
                } else {
                    r is Ok && final(self).storage_deposits@ == old(self).storage_deposits@.insert(
                        target,
                        (paid + attached_deposit) as u128,
                    ) && final(self).by_owner_id == old(self).by_owner_id
                        && final(self).approved_ft_tokens == old(self).approved_ft_tokens
                        && final(self).owner_id == old(self).owner_id
                }
            }),
    {
        let target = match account_id {
            Some(a) => a,
            None => predecessor_id.clone(),
        };
        if attached_deposit < STORAGE_PER_SALE {
            return Err(Error::InsufficientDeposit);
        }
        let paid = match self.storage_deposits.get(&target) {
            Some(b) => *b,
            None => 0,
        };
        let balance = match paid.checked_add(attached_deposit) {
            Some(b) => b,
            None => return Err(Error::Overflow),
        };
        self.storage_deposits.insert(target, balance);
        Ok(())
    }

    /// Pays the caller back the storage deposit that its listed sales do not
    /// need. The call must attach exactly one yoctoNEAR.
    pub fn storage_withdraw(&mut self, predecessor_id: &String, attached_deposit: u128) -> (r: Result<u128, Error>)
        requires
            old(self).wf(),
        ensures
            final(self).wf(),
            ({
                let paid = old(self).deposit_of(predecessor_id@);
                let needed = old(self).sales_of(predecessor_id@) * STORAGE_PER_SALE;
                if attached_deposit != 1 {
                    r == Err::<u128, Error>(Error::RequiresOneYocto) && *final(self) == *old(self)
                } else if needed > paid {
                    r == Err::<u128, Error>(Error::InsufficientBalance) && *final(self) == *old(self)
                } else {
                    &&& r == Ok::<u128, Error>((paid - needed) as u128)
                    &&& final(self).storage_deposits@ == if needed > 0 {
                        old(self).storage_deposits@.insert(predecessor_id@, needed as u128)
                    } else {
                        old(self).storage_deposits@.remove(predecessor_id@)
                    }
                    &&& final(self).by_owner_id == old(self).by_owner_id
                }
            }),
    {
        if attached_deposit != 1 {
            return Err(Error::RequiresOneYocto);
        }
        let paid = match self.storage_deposits.get(predecessor_id) {
            Some(b) => *b,
            None => 0,
        };
        let sales = match self.by_owner_id.get(predecessor_id) {
            Some(s) => s.entries.len(),
            None => 0,
        };
        let needed = match (sales as u128).checked_mul(STORAGE_PER_SALE) {
            Some(v) => v,
            None => return Err(Error::InsufficientBalance),
        };
        if needed > paid {
            return Err(Error::InsufficientBalance);
        }
        self.storage_deposits.remove(predecessor_id);
        if needed > 0 {
            self.storage_deposits.insert(predecessor_id.clone(), needed);
        }
        Ok(paid - needed)
    }

    pub fn storage_minimum_balance(&self) -> (r: u128)
        ensures
            r == STORAGE_PER_SALE,
    {
        STORAGE_PER_SALE
    }

    pub fn storage_balance_of(&self, account_id: &String) -> (r: u128)
        requires
            self.wf(),
        ensures
            r == self.deposit_of(account_id@),
    {
        match self.storage_deposits.get(account_id) {
            Some(b) => *b,
            None => 0,
        }
    }

    /// Whether `signer_id` has paid for the storage of one more sale.
    pub fn has_storage_for_new_sale(&self, signer_id: &String) -> (r: bool)
        requires
            self.wf(),
        ensures
            r == ((self.sales_of(signer_id@) + 1) * STORAGE_PER_SALE <= self.deposit_of(signer_id@)),
    {
        let paid = self.storage_balance_of(signer_id);
        let sales = match self.by_owner_id.get(signer_id) {
            Some(s) => s.entries.len(),
            None => 0,
        };
        match ((sales as u128) + 1).checked_mul(STORAGE_PER_SALE) {
            Some(v) => v <= paid,
            None => false,
        }
    }
}


impl Contract {
    /// Records that `owner_id` lists sale `sale_id`. Says whether it was new.
    pub fn record_sale(&mut self, owner_id: &String, sale_id: String) -> (r: bool)
        requires
            old(self).wf(),
        ensures
            final(self).wf(),
            final(self).by_owner_id@.contains_key(owner_id@),
            final(self).by_owner_id@[owner_id@]@.dom() == (if old(self).by_owner_id@.contains_key(owner_id@) {
                old(self).by_owner_id@[owner_id@]@.dom()
            } else {
                Set::<Seq<char>>::empty()
            }).insert(sale_id@),
            final(self).by_owner_id@.remove(owner_id@) == old(self).by_owner_id@.remove(owner_id@),
            r == !(old(self).by_owner_id@.contains_key(owner_id@) && old(self).by_owner_id@[owner_id@]@.contains_key(sale_id@)),
            final(self).storage_deposits == old(self).storage_deposits,
            final(self).approved_ft_tokens == old(self).approved_ft_tokens,
            final(self).owner_id == old(self).owner_id,
    {
        let mut set = match self.by_owner_id.remove(owner_id) {
            Some(s) => s,
            None => Table::new(),
        };
        let ghost before = set@;
        let fresh = set.insert(sale_id, ()).is_none();
        assert(set@.dom() =~= before.dom().insert(sale_id@));
        self.by_owner_id.insert(owner_id.clone(), set);
        assert(self.by_owner_id@.remove(owner_id@) =~= old(self).by_owner_id@.remove(owner_id@));
        fresh
    }
}

} // verus!
