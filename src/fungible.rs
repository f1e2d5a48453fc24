//! The fungible-token contract: entry points of the ledger, the transfer
//! with a receiver notification, its reconciliation, and account registration.
use crate::error::Error;
use crate::events::{FtBurnLog, FtMintLog, FtTransferLog};
use crate::game::{apply_wins, rewards_of, CatchObjectives, JsonObjective};
use crate::ledger::{
    balance_in, reconciled, refund_of, transfer_error, transferred, FungibleToken, Resolution,
    Settlement,
};
use vstd::prelude::*;
use vstd::utf8::encode_utf8;

verus! {

pub const GAS_FOR_RESOLVE_TRANSFER: u64 = 5_000_000_000_000;

pub const GAS_FOR_FT_TRANSFER_CALL: u64 = 25_000_000_000_000 + GAS_FOR_RESOLVE_TRANSFER;

/// The price of one byte of storage, in yoctoNEAR.
pub const STORAGE_PRICE_PER_BYTE: u128 = 10_000_000_000_000_000_000;

/// What `serde_json` makes of a byte string as the JSON form of a `U128`
/// (a string of decimal digits), if it reads it.
pub uninterp spec fn json_u128_of(b: Seq<u8>) -> Option<u128>;

/// Relies on `near_sdk::serde_json::from_slice::<near_sdk::json_types::U128>`
/// to read the amount that a receiver reports as unused.
#[verifier::external_body]
fn parse_json_u128(value: &Vec<u8>) -> (r: Option<u128>)
    ensures
        r == json_u128_of(value@),
{
    match near_sdk::serde_json::from_slice::<near_sdk::json_types::U128>(value) {
        Ok(v) => Some(v.0),
        Err(_) => None,
    }
}

/// Relies on `near_sdk::env::storage_byte_cost`, which returns the constant
/// `near_sdk::env::STORAGE_PRICE_PER_BYTE`.
#[verifier::external_body]
fn storage_byte_cost() -> (r: u128)
    ensures
        r == STORAGE_PRICE_PER_BYTE,
{
    near_sdk::env::storage_byte_cost()
}

pub open spec fn is_separator(c: u8) -> bool {
    c == 45 || c == 95 || c == 46
}

pub open spec fn is_account_id_byte(c: u8) -> bool {
    (97 <= c <= 122) || (48 <= c <= 57) || is_separator(c)
}

/// A NEAR account identifier: 2 to 64 bytes of lower-case letters, digits and
/// the separators `-`, `_`, `.`, with no separator first, last, or next to another.
pub open spec fn valid_account_id(b: Seq<u8>) -> bool {
    &&& 2 <= b.len() <= 64
    &&& forall|i: int| 0 <= i < b.len() ==> #[trigger] is_account_id_byte(b[i])
    &&& !is_separator(b[0])
    &&& !is_separator(b[b.len() - 1])
    &&& forall|i: int|
        0 <= i < b.len() - 1 ==> !(#[trigger] is_separator(b[i]) && is_separator(b[i + 1]))
}

/// Relies on `near_sdk::env::is_valid_account_id`, which checks the rule that
/// `valid_account_id` states.
#[verifier::external_body]
pub(crate) fn is_valid_account_id(id: &str) -> (r: bool)
    ensures
        r == valid_account_id(encode_utf8(id@)),
{
    near_sdk::env::is_valid_account_id(id.as_bytes())
}

/// The unused amount that reconciliation works with: what the receiver
/// declared, but no more than was sent; all of it when nothing readable came back.
pub open spec fn unused_spec(amount: u128, declared: Option<u128>) -> u128 {
    match declared {
        Some(d) => if d < amount {
            d
        } else {
            amount
        },
        None => amount,
    }
}

/// How the receiver's notification ended.
pub enum PromiseOutcome {
    /// It returned these bytes.
    Successful(Vec<u8>),
    /// It failed, or its context could not be reached.
    Failed,
}

pub open spec fn declared_unused(outcome: &PromiseOutcome) -> Option<u128> {
    match outcome {
        PromiseOutcome::Successful(v) => json_u128_of(v@),
        PromiseOutcome::Failed => None,
    }
}

/// Caps the receiver's declared unused amount by the amount sent.
pub fn unused_amount(amount: u128, declared: Option<u128>) -> (r: u128)
    ensures
        r == unused_spec(amount, declared),
        r <= amount,
{
    match declared {
        Some(d) => if d < amount {
            d
        } else {
            amount
        },
        None => amount,
    }
}

pub struct FungibleTokenMetadata {
    pub spec: String,
    pub name: String,
    pub symbol: String,
    pub icon: Option<String>,
    pub reference: Option<String>,
    pub reference_hash: Option<Vec<u8>>,
    pub decimals: u8,
}

impl FungibleTokenMetadata {
    pub open spec fn valid(&self) -> bool {
        &&& self.reference.is_some() == self.reference_hash.is_some()
        &&& self.reference_hash matches Some(h) ==> h@.len() == 32
    }

    /// A reference link and the hash of its contents come together, and the
    /// hash is 32 bytes long.
    pub fn assert_valid_metadata(&self) -> (r: Result<(), Error>)
        ensures
            r is Ok <==> self.valid(),
            r is Err ==> r == Err::<(), Error>(Error::InvalidMetadata),
    {
        if self.reference.is_some() != self.reference_hash.is_some() {
            return Err(Error::InvalidMetadata);
        }
        if let Some(h) = &self.reference_hash {
            if h.len() != 32 {
                return Err(Error::InvalidMetadata);
            }
        }
        Ok(())
    }
}

pub struct StorageBalance {
    pub total: u128,
    pub available: u128,
}

pub struct StorageBalanceBounds {
    pub min: u128,
    pub max: Option<u128>,
}

/// The outcome of a storage deposit: the account's storage balance and the
/// part of the attached deposit that goes back to the caller.
pub struct StorageDeposit {
    pub balance: StorageBalance,
    pub refund: u128,
}

/// An account removed from the ledger, with the balance burned and the
/// storage deposit paid back to it.
pub struct Unregistered {
    pub account_id: String,
    pub balance: u128,
    pub log: FtBurnLog,
    pub storage_refund: u128,
}

/// A transfer applied to the ledger whose receiver is now to be notified,
/// with the gas for the notification and for the reconciliation after it.
pub struct TransferCall {
    pub log: FtTransferLog,
    pub sender_id: String,
    pub receiver_id: String,
    pub amount: u128,
    pub msg: String,
    pub notify_gas: u64,
    pub resolve_gas: u64,
}

pub struct Contract {
    pub owner_id: String,
    pub token: FungibleToken,
    /// The storage in bytes that one account takes.
    pub account_storage_usage: u64,
    pub ft_metadata: FungibleTokenMetadata,
    pub catch_objectives: CatchObjectives,
}

/// The account of the contract that reports which objectives a player achieved.
pub const REWARD_DISTRIBUTOR: &'static str = "nft.catchlabs.near";

impl Contract {
    pub open spec fn wf(&self) -> bool {
        self.token.wf() && self.catch_objectives.wf()
    }

    pub open spec fn storage_min(&self) -> int {
        self.account_storage_usage * STORAGE_PRICE_PER_BYTE
    }

    /// A contract whose owner holds the whole initial supply, with the record
    /// of that mint.
    pub fn new(
        owner_id: String,
        total_supply: u128,
        metadata: FungibleTokenMetadata,
        account_storage_usage: u64,
    ) -> (r: Result<(Contract, FtMintLog), Error>)
        ensures
            !valid_account_id(encode_utf8(owner_id@)) ==> r == Err::<(Contract, FtMintLog), Error>(
                Error::InvalidId,
            ),
            valid_account_id(encode_utf8(owner_id@)) && !metadata.valid() ==> r == Err::<
                (Contract, FtMintLog),
                Error,
            >(Error::InvalidMetadata),
            valid_account_id(encode_utf8(owner_id@)) && metadata.valid() ==> (r matches Ok(
                (c, log),
            ) && c.wf() && c.owner_id@ == owner_id@ && c.token.balances() == Map::<
                Seq<char>,
                u128,
            >::empty().insert(owner_id@, total_supply) && c.token.total_supply == total_supply
                && c.account_storage_usage == account_storage_usage && log.owner_id@ == owner_id@
                && log.amount == total_supply && (log.memo matches Some(m) && m@ == "Mint"@)),
    {
        if !is_valid_account_id(owner_id.as_str()) {
            return Err(Error::InvalidId);
        }
        if metadata.assert_valid_metadata().is_err() {
            return Err(Error::InvalidMetadata);
        }
        let token = FungibleToken::new(owner_id.clone(), total_supply);
        let log = FtMintLog { owner_id: owner_id.clone(), amount: total_supply, memo: Some("Mint".to_owned()) };
        let catch_objectives = CatchObjectives::default();
        Ok(
            (
                Contract {
                    owner_id,
                    token,
                    account_storage_usage,
                    ft_metadata: metadata,
                    catch_objectives,
                },
                log,
            ),
        )
    }

    /// Reconciles a transfer made by `ft_transfer_call` once its notification
    /// has ended. Only the contract itself may call it. The refund is capped
    /// by the amount sent, the amount declared unused, and the receiver's
    /// balance now.
    pub fn ft_resolve_transfer(
        &mut self,
        predecessor_id: &String,
        current_account_id: &String,
        sender_id: &String,
        receiver_id: &String,
        amount: u128,
        outcome: &PromiseOutcome,
    ) -> (r: Result<Resolution, Error>)
        requires
            old(self).wf(),
        ensures
            final(self).wf(),
            predecessor_id@ != current_account_id@ ==> r == Err::<Resolution, Error>(
                Error::Unauthorized,
            ) && *final(self) == *old(self),
            predecessor_id@ == current_account_id@ ==> (r matches Ok(res) && {
                let unused = unused_spec(amount, declared_unused(outcome));
                let (m, supply, used) = reconciled(
                    old(self).token.balances(),
                    old(self).token.total_supply,
                    sender_id@,
                    receiver_id@,
                    amount,
                    unused,
                );
                let refund = refund_of(old(self).token.balances(), receiver_id@, unused);
                &&& final(self).token.balances() == m
                &&& final(self).token.total_supply == supply
                &&& res.used_amount == used
                &&& refund <= amount
                &&& refund <= balance_in(old(self).token.balances(), receiver_id@)
                &&& (declared_unused(outcome) matches Some(d) ==> refund <= d)
                &&& match res.settlement {
                    None => refund == 0,
                    Some(Settlement::Refunded(log)) => refund > 0 && log.old_owner_id@
                        == receiver_id@ && log.new_owner_id@ == sender_id@ && log.amount == refund,
                    Some(Settlement::Burned(log)) => refund > 0 && log.owner_id@ == receiver_id@
                        && log.amount == refund,
                }
            }),
    {
        if *predecessor_id != *current_account_id {
            return Err(Error::Unauthorized);
        }
        let declared = match outcome {
            PromiseOutcome::Successful(value) => parse_json_u128(value),
            PromiseOutcome::Failed => None,
        };
        let unused = unused_amount(amount, declared);
        Ok(self.token.internal_resolve_transfer(sender_id, receiver_id, amount, unused))
    }

    /// The objectives from position `from_index` on, at most `limit` of them.
    pub fn get_objectives(&self, from_index: u8, limit: u8) -> (r: Vec<JsonObjective>)
        requires
            self.wf(),
        ensures
            r@.len() == (if from_index as int >= self.catch_objectives.objectives@.len() {
                0
            } else if self.catch_objectives.objectives@.len() - from_index < limit {
                self.catch_objectives.objectives@.len() - from_index
            } else {
                limit as int
            }),
            forall|k: int|
                0 <= k < r@.len() ==> {
                    let i = from_index + k;
                    &&& (#[trigger] r@[k]).objective.title == self.catch_objectives.objectives@[i].title
                    &&& r@[k].objective.reward == self.catch_objectives.objectives@[i].reward
                    &&& r@[k].stats == self.catch_objectives.stats@[i]
                },
    {
        self.catch_objectives.get_objectives(from_index, limit)
    }

    /// The storage deposit that registration asks for, which is also the most it takes.
    pub fn storage_balance_bounds(&self) -> (r: StorageBalanceBounds)
        ensures
            r.min == self.storage_min(),
            r.max == Some(self.storage_min() as u128),
    {
        let cost = storage_byte_cost();
        assert(self.account_storage_usage * cost <= u64::MAX * STORAGE_PRICE_PER_BYTE) by (nonlinear_arith)
            requires cost == STORAGE_PRICE_PER_BYTE;
        let min = (self.account_storage_usage as u128) * cost;
        StorageBalanceBounds { min, max: Some(min) }
    }

    pub fn internal_storage_balance_of(&self, account_id: &String) -> (r: Option<StorageBalance>)
        requires
            self.wf(),
        ensures
            self.token.balances().contains_key(account_id@) ==> (r matches Some(b) && b.total
                == self.storage_min() && b.available == 0),
            !self.token.balances().contains_key(account_id@) ==> r is None,
    {
        if self.token.is_registered(account_id) {
            Some(StorageBalance { total: self.storage_balance_bounds().min, available: 0 })
        } else {
            None
        }
    }

    /// Removes the caller's account. An account with a positive balance goes
    /// only with `force`, and its balance is burned. The call must attach
    /// exactly one yoctoNEAR. `None` when the caller holds no account.
    pub fn internal_storage_unregister(
        &mut self,
        predecessor_id: &String,
        attached_deposit: u128,
        force: Option<bool>,
    ) -> (r: Result<Option<Unregistered>, Error>)
        requires
            old(self).wf(),
        ensures
            final(self).wf(),
            ({
                let m = old(self).token.balances();
                let id = predecessor_id@;
                let force = force == Some(true);
                if attached_deposit != 1 {
                    r == Err::<Option<Unregistered>, Error>(Error::RequiresOneYocto) && *final(self) == *old(self)
                } else if !m.contains_key(id) {
                    r matches Ok(None) && *final(self) == *old(self)
                } else if m[id] > 0 && !force {
                    r == Err::<Option<Unregistered>, Error>(Error::PositiveBalance) && *final(self) == *old(self)
                } else {
                    r matches Ok(Some(u)) && u.account_id@ == id && u.balance == m[id]
                        && final(self).token.balances() == m.remove(id)
                        && final(self).token.total_supply == old(self).token.total_supply - m[id]
                        && u.log.owner_id@ == id && u.log.amount == m[id]
                        && u.storage_refund == old(self).storage_min() + 1
                        && final(self).account_storage_usage == old(self).account_storage_usage
                }
            }),
    {
        if attached_deposit != 1 {
            return Err(Error::RequiresOneYocto);
        }
        let force = match force {
            Some(f) => f,
            None => false,
        };
        let balance = self.token.ft_balance_of(predecessor_id);
        if !self.token.is_registered(predecessor_id) {
            return Ok(None);
        }
        if balance > 0 && !force {
            return Err(Error::PositiveBalance);
        }
        let min = self.storage_balance_bounds().min;
        let removed = self.token.unregister(predecessor_id);
        let log = FtBurnLog {
            owner_id: predecessor_id.clone(),
            amount: balance,
            memo: Some("Account Unregistered ! & Tokens burnt if there".to_owned()),
        };
        Ok(Some(Unregistered { account_id: predecessor_id.clone(), balance, log, storage_refund: min + 1 }))
    }

}


/// Why rewarding `player` for the objectives at `indexes` is refused, if it is.
pub open spec fn reward_error(c: &Contract, caller: Seq<char>, player: Seq<char>, indexes: Seq<u8>) -> Option<Error> {
    let objectives = c.catch_objectives.objectives@;
    let stats = c.catch_objectives.stats@;
    let m = c.token.balances();
    if caller != REWARD_DISTRIBUTOR@ {
        Some(Error::Unauthorized)
    } else if !m.contains_key(player) {
        Some(Error::AccountNotRegistered)
    } else if exists|k: int| 0 <= k < indexes.len() && #[trigger] indexes[k] >= objectives.len() {
        Some(Error::InvalidObjective)
    } else if exists|k: int| 0 <= k < indexes.len() && stats[#[trigger] indexes[k] as int].winner_count + indexes.len() > u128::MAX {
        Some(Error::Overflow)
    } else if rewards_of(objectives, indexes) > u128::MAX {
        Some(Error::Overflow)
    } else if !m.contains_key(c.owner_id@) {
        Some(Error::AccountNotRegistered)
    } else if m[c.owner_id@] < rewards_of(objectives, indexes) {
        Some(Error::InsufficientBalance)
    } else {
        None
    }
}

proof fn lemma_rewards_nonneg(objectives: Seq<crate::game::Objective>, indexes: Seq<u8>)
    ensures
        rewards_of(objectives, indexes) >= 0,
    decreases indexes.len(),
{
    if indexes.len() > 0 {
        lemma_rewards_nonneg(objectives, indexes.drop_last());
    }
}

proof fn lemma_rewards_prefix(objectives: Seq<crate::game::Objective>, indexes: Seq<u8>, i: int)
    requires
        0 <= i <= indexes.len(),
    ensures
        0 <= rewards_of(objectives, indexes.take(i)) <= rewards_of(objectives, indexes),
    decreases indexes.len() - i,
{
    if i < indexes.len() {
        assert(indexes.take(i + 1).drop_last() =~= indexes.take(i));
        lemma_rewards_prefix(objectives, indexes, i + 1);
        lemma_rewards_nonneg(objectives, indexes.take(i));
    } else {
        assert(indexes.take(i) =~= indexes);
        lemma_rewards_nonneg(objectives, indexes);
    }
}

proof fn lemma_wins_keep_len(stats: Seq<crate::game::ObjectiveStats>, indexes: Seq<u8>)
    requires
        forall|k: int| 0 <= k < indexes.len() ==> #[trigger] indexes[k] < stats.len(),
    ensures
        apply_wins(stats, indexes).len() == stats.len(),
        forall|j: int| 0 <= j < stats.len() ==> apply_wins(stats, indexes)[j].winner_count <= stats[j].winner_count + indexes.len(),
    decreases indexes.len(),
{
    if indexes.len() > 0 {
        let p = indexes.drop_last();
        assert forall|k: int| 0 <= k < p.len() implies #[trigger] p[k] < stats.len() by {
            assert(p[k] == indexes[k]);
        }
        lemma_wins_keep_len(stats, p);
        assert(indexes.last() == indexes[indexes.len() - 1]);
    }
}

impl Contract {
    /// Pays `player_id` the rewards of the objectives at `obj_index`, from the
    /// owner's balance, and counts a win for each. Only the reward
    /// distributor may call it.
    #[verifier::loop_isolation(false)]
    pub fn transfer_player_reward(
        &mut self,
        predecessor_id: &String,
        player_id: &String,
        obj_index: Vec<u8>,
    ) -> (r: Result<u128, Error>)
        requires
            old(self).wf(),
        ensures
            final(self).wf(),
            match reward_error(old(self), predecessor_id@, player_id@, obj_index@) {
                Some(e) => r == Err::<u128, Error>(e) && *final(self) == *old(self),
                None => {
                    let prize = rewards_of(old(self).catch_objectives.objectives@, obj_index@);
                    let m = old(self).token.balances();
                    let owner = old(self).owner_id@;
                    &&& r == Ok::<u128, Error>(prize as u128)
                    &&& final(self).token.total_supply == old(self).token.total_supply
                    &&& final(self).token.balances() == m.insert(owner, (m[owner] - prize) as u128).insert(
                        player_id@,
                        (m.insert(owner, (m[owner] - prize) as u128)[player_id@] + prize) as u128,
                    )
                    &&& final(self).catch_objectives.stats@ == apply_wins(
                        old(self).catch_objectives.stats@,
                        obj_index@,
                    )
                    &&& final(self).catch_objectives.objectives == old(self).catch_objectives.objectives
                },
            },
    {
        proof {
            reveal_strlit("nft.catchlabs.near");
        }
        let distributor = REWARD_DISTRIBUTOR.to_owned();
        if *predecessor_id != distributor {
            return Err(Error::Unauthorized);
        }
        if !self.token.is_registered(player_id) {
            return Err(Error::AccountNotRegistered);
        }
        let n = obj_index.len();
        let mut k: usize = 0;
        while k < n
            invariant
                n == obj_index@.len(),
                k <= n,
                self.catch_objectives.wf(),
                forall|q: int| 0 <= q < k ==> #[trigger] obj_index@[q] < self.catch_objectives.objectives@.len(),
            decreases n - k,
        {
            if obj_index[k] as usize >= self.catch_objectives.objectives.len() {
                assert(obj_index@[k as int] >= self.catch_objectives.objectives@.len());
                return Err(Error::InvalidObjective);
            }
            k = k + 1;
        }
        k = 0;
        while k < n
            invariant
                n == obj_index@.len(),
                k <= n,
                self.catch_objectives.wf(),
                forall|q: int| 0 <= q < n ==> #[trigger] obj_index@[q] < self.catch_objectives.objectives@.len(),
                forall|q: int| 0 <= q < k ==> self.catch_objectives.stats@[#[trigger] obj_index@[q] as int].winner_count + n <= u128::MAX,
            decreases n - k,
        {
            let i = obj_index[k] as usize;
            if self.catch_objectives.stats[i].winner_count > u128::MAX - (n as u128) {
                return Err(Error::Overflow);
            }
            k = k + 1;
        }
        let mut prize: u128 = 0;
        k = 0;
        while k < n
            invariant
                n == obj_index@.len(),
                k <= n,
                self.catch_objectives.wf(),
                forall|q: int| 0 <= q < n ==> #[trigger] obj_index@[q] < self.catch_objectives.objectives@.len(),
                prize == rewards_of(self.catch_objectives.objectives@, obj_index@.take(k as int)),
            decreases n - k,
        {
            let i = obj_index[k] as usize;
            proof {
                assert(obj_index@.take(k + 1).drop_last() =~= obj_index@.take(k as int));
            }
            let reward = self.catch_objectives.objectives[i].reward;
            match prize.checked_add(reward) {
                Some(p) => prize = p,
                None => {
                    proof {
                        lemma_rewards_prefix(self.catch_objectives.objectives@, obj_index@, k + 1);
                    }
                    return Err(Error::Overflow);
                },
            }
            k = k + 1;
        }
        proof {
            assert(obj_index@.take(n as int) =~= obj_index@);
        }
        if !self.token.is_registered(&self.owner_id) {
            return Err(Error::AccountNotRegistered);
        }
        if self.token.ft_balance_of(&self.owner_id) < prize {
            return Err(Error::InsufficientBalance);
        }
        let owner = self.owner_id.clone();
        let ghost s0 = self.token.accounts.entries@;
        let w = self.token.internal_withdraw(&owner, prize);
        assert(w is Ok);
        let pi = match self.token.accounts.find(player_id) {
            Some(i) => i,
            None => return Err(Error::AccountNotRegistered),
        };
        proof {
            crate::ledger::lemma_sum_bounds(self.token.accounts.entries@, pi as int, pi as int);
        }
        let d = self.token.internal_deposit(player_id, prize);
        assert(d is Ok);
        let ghost stats0 = self.catch_objectives.stats@;
        let ghost objectives0 = self.catch_objectives.objectives@;
        let ghost rest = *self;
        proof {
            lemma_wins_keep_len(stats0, obj_index@);
        }
        k = 0;
        while k < n
            invariant
                n == obj_index@.len(),
                k <= n,
                self.catch_objectives.wf(),
                self.catch_objectives.objectives@ == objectives0,
                self.catch_objectives.objectives == rest.catch_objectives.objectives,
                self.token == rest.token,
                self.owner_id == rest.owner_id,
                self.account_storage_usage == rest.account_storage_usage,
                stats0.len() == objectives0.len(),
                forall|q: int| 0 <= q < n ==> #[trigger] obj_index@[q] < objectives0.len(),
                forall|q: int| 0 <= q < n ==> stats0[#[trigger] obj_index@[q] as int].winner_count + n <= u128::MAX,
                self.catch_objectives.stats@ == apply_wins(stats0, obj_index@.take(k as int)),
            decreases n - k,
        {
            let ghost pre = obj_index@.take(k as int);
            proof {
                assert(obj_index@.take(k + 1).drop_last() =~= pre);
                assert forall|q: int| 0 <= q < pre.len() implies #[trigger] pre[q] < stats0.len() by {
                    assert(pre[q] == obj_index@[q]);
                }
                lemma_wins_keep_len(stats0, pre);
                let j = obj_index@[k as int] as int;
                assert(stats0[j].winner_count + n <= u128::MAX);
            }
            let u = self.catch_objectives.update_stats(obj_index[k]);
            assert(u is Ok);
            k = k + 1;
        }
        proof {
            assert(obj_index@.take(n as int) =~= obj_index@);
        }
        Ok(prize)
    }
}


/// Gas that account creation and its callback each need.
pub const GAS_FOR_ACC_CREATION: u64 = 5_000_000_000_000;

pub const GAS_FOR_CALLBACK: u64 = 5_000_000_000_000;

/// A sub-account to create, with the deposit that its registration takes
/// and the gas left for the callback that registers it.
pub struct SubAccount {
    pub account_id: String,
    pub storage_cost: u128,
    pub callback_gas: u64,
}

impl Contract {
    /// Refuses a caller other than the contract's owner.
    pub fn assert_owner(&self, predecessor_id: &String) -> (r: Result<(), Error>)
        ensures
            r is Ok <==> predecessor_id@ == self.owner_id@,
            r is Err ==> r == Err::<(), Error>(Error::NotOwner),
    {
        if *predecessor_id == self.owner_id {
            Ok(())
        } else {
            Err(Error::NotOwner)
        }
    }

    /// Decides the creation of the player account `prefix.current_account_id`:
    /// only the owner may ask, the gas must cover the creation and its
    /// callback, and the new identifier must be a valid account identifier.
    pub fn create_sub_account(
        &self,
        predecessor_id: &String,
        prepaid_gas: u64,
        prefix: &String,
        current_account_id: &String,
    ) -> (r: Result<SubAccount, Error>)
        ensures
            predecessor_id@ != self.owner_id@ ==> r == Err::<SubAccount, Error>(Error::NotOwner),
            predecessor_id@ == self.owner_id@ && prepaid_gas <= GAS_FOR_ACC_CREATION + GAS_FOR_CALLBACK
                ==> r == Err::<SubAccount, Error>(Error::InsufficientExecutionBudget),
            predecessor_id@ == self.owner_id@ && prepaid_gas > GAS_FOR_ACC_CREATION + GAS_FOR_CALLBACK
                ==> {
                let id = prefix@ + seq!['.'] + current_account_id@;
                if valid_account_id(encode_utf8(id)) {
                    r matches Ok(a) && a.account_id@ == id && a.storage_cost == self.storage_min()
                        && a.callback_gas == prepaid_gas - GAS_FOR_ACC_CREATION
                } else {
                    r == Err::<SubAccount, Error>(Error::InvalidId)
                }
            },
    {
        if *predecessor_id != self.owner_id {
            return Err(Error::NotOwner);
        }
        if prepaid_gas <= GAS_FOR_ACC_CREATION + GAS_FOR_CALLBACK {
            return Err(Error::InsufficientExecutionBudget);
        }
        let account_id = crate::ids::build_full_token_id(prefix.clone(), current_account_id.clone());
        if !is_valid_account_id(account_id.as_str()) {
            return Err(Error::InvalidId);
        }
        let storage_cost = self.storage_balance_bounds().min;
        Ok(SubAccount { account_id, storage_cost, callback_gas: prepaid_gas - GAS_FOR_ACC_CREATION })
    }

    /// Registers a newly created account once its creation has succeeded,
    /// against a deposit of at least the storage minimum. Only the contract
    /// itself may call it.
    pub fn acc_creation_callback(
        &mut self,
        predecessor_id: &String,
        current_account_id: &String,
        attached_deposit: u128,
        account_id: String,
        created: bool,
    ) -> (r: Result<StorageBalance, Error>)
        requires
            old(self).wf(),
        ensures
            final(self).wf(),
            final(self).token.total_supply == old(self).token.total_supply,
            ({
                let m = old(self).token.balances();
                if predecessor_id@ != current_account_id@ {
                    r == Err::<StorageBalance, Error>(Error::Unauthorized) && *final(self) == *old(self)
                } else if !created {
                    r == Err::<StorageBalance, Error>(Error::AccountNotRegistered) && *final(self) == *old(self)
                } else if m.contains_key(account_id@) {
                    r matches Ok(b) && b.total == old(self).storage_min() && b.available == 0
                        && *final(self) == *old(self)
                } else if attached_deposit < old(self).storage_min() {
                    r == Err::<StorageBalance, Error>(Error::InsufficientDeposit) && *final(self) == *old(self)
                } else {
                    r matches Ok(b) && b.total == old(self).storage_min() && b.available == 0
                        && final(self).token.balances() == m.insert(account_id@, 0)
                }
            }),
    {
        if *predecessor_id != *current_account_id {
            return Err(Error::Unauthorized);
        }
        if !created {
            return Err(Error::AccountNotRegistered);
        }
        let min = self.storage_balance_bounds().min;
        if !self.token.is_registered(&account_id) {
            if attached_deposit < min {
                return Err(Error::InsufficientDeposit);
            }
            self.token.register(account_id);
        }
        Ok(StorageBalance { total: min, available: 0 })
    }
}


/// The fungible-token standard's transfers and queries.
pub trait FungibleTokenCore: Sized {
    /// The invariant of the implementing state.
    spec fn ledger_wf(&self) -> bool;

    fn ft_transfer(
        &mut self,
        predecessor_id: &String,
        attached_deposit: u128,
        receiver_id: &String,
        amount: u128,
        memo: Option<String>,
    ) -> (r: Result<FtTransferLog, Error>)
        requires
            old(self).ledger_wf(),
        ensures
            final(self).ledger_wf(),
    ;

    fn ft_transfer_call(
        &mut self,
        predecessor_id: &String,
        attached_deposit: u128,
        prepaid_gas: u64,
        receiver_id: &String,
        amount: u128,
        memo: Option<String>,
        msg: String,
    ) -> (r: Result<TransferCall, Error>)
        requires
            old(self).ledger_wf(),
        ensures
            final(self).ledger_wf(),
    ;

    fn ft_total_supply(&self) -> u128;

    fn ft_balance_of(&self, account_id: &String) -> u128
        requires
            self.ledger_wf(),
    ;
}

/// Registration of accounts against a storage deposit.
pub trait StorageManager: Sized {
    /// The invariant of the implementing state.
    spec fn storage_wf(&self) -> bool;

    fn storage_deposit(
        &mut self,
        predecessor_id: &String,
        attached_deposit: u128,
        account_id: Option<String>,
    ) -> (r: Result<StorageDeposit, Error>)
        requires
            old(self).storage_wf(),
        ensures
            final(self).storage_wf(),
    ;

    fn storage_unregister(
        &mut self,
        predecessor_id: &String,
        attached_deposit: u128,
        force: Option<bool>,
    ) -> (r: Result<bool, Error>)
        requires
            old(self).storage_wf(),
        ensures
            final(self).storage_wf(),
    ;

    fn storage_balance_of(&self, account_id: &String) -> Option<StorageBalance>
        requires
            self.storage_wf(),
    ;
}

impl FungibleTokenCore for Contract {
    open spec fn ledger_wf(&self) -> bool {
        self.wf()
    }

    fn ft_total_supply(&self) -> (r: u128)
        ensures
            r == self.token.total_supply,
    {
        self.token.ft_total_supply()
    }

    fn ft_balance_of(&self, account_id: &String) -> (r: u128)
        ensures
            r == balance_in(self.token.balances(), account_id@),
    {
        self.token.ft_balance_of(account_id)
    }

    /// Moves `amount` from the caller to `receiver_id`. The call must attach
    /// exactly one yoctoNEAR.
    fn ft_transfer(
        &mut self,
        predecessor_id: &String,
        attached_deposit: u128,
        receiver_id: &String,
        amount: u128,
        memo: Option<String>,
    ) -> (r: Result<FtTransferLog, Error>)
        ensures
            final(self).wf(),
            attached_deposit != 1 ==> r == Err::<FtTransferLog, Error>(Error::RequiresOneYocto),
            attached_deposit == 1 ==> match transfer_error(
                old(self).token.balances(),
                predecessor_id@,
                receiver_id@,
                amount,
            ) {
                Some(e) => r == Err::<FtTransferLog, Error>(e),
                None => (r matches Ok(log) && final(self).token.balances() == transferred(
                    old(self).token.balances(),
                    predecessor_id@,
                    receiver_id@,
                    amount,
                ) && log.old_owner_id@ == predecessor_id@ && log.new_owner_id@ == receiver_id@
                    && log.amount == amount && log.memo == memo),
            },
            r is Err ==> *final(self) == *old(self),
            final(self).token.total_supply == old(self).token.total_supply,
    {
        if attached_deposit != 1 {
            return Err(Error::RequiresOneYocto);
        }
        self.token.internal_transfer(predecessor_id, receiver_id, amount, memo)
    }

    /// Moves `amount` from the caller to `receiver_id` at once, and hands
    /// back what the receiver is to be told, with the gas split between the
    /// notification and the reconciliation after it. Nothing changes unless
    /// exactly one yoctoNEAR is attached and the gas covers both steps.
    fn ft_transfer_call(
        &mut self,
        predecessor_id: &String,
        attached_deposit: u128,
        prepaid_gas: u64,
        receiver_id: &String,
        amount: u128,
        memo: Option<String>,
        msg: String,
    ) -> (r: Result<TransferCall, Error>)
        ensures
            final(self).wf(),
            attached_deposit != 1 ==> r == Err::<TransferCall, Error>(Error::RequiresOneYocto),
            attached_deposit == 1 && prepaid_gas <= GAS_FOR_FT_TRANSFER_CALL
                + GAS_FOR_RESOLVE_TRANSFER ==> r == Err::<TransferCall, Error>(
                Error::InsufficientExecutionBudget,
            ),
            attached_deposit == 1 && prepaid_gas > GAS_FOR_FT_TRANSFER_CALL
                + GAS_FOR_RESOLVE_TRANSFER ==> match transfer_error(
                old(self).token.balances(),
                predecessor_id@,
                receiver_id@,
                amount,
            ) {
                Some(e) => r == Err::<TransferCall, Error>(e),
                None => (r matches Ok(call) && final(self).token.balances() == transferred(
                    old(self).token.balances(),
                    predecessor_id@,
                    receiver_id@,
                    amount,
                ) && call.log.old_owner_id@ == predecessor_id@ && call.log.new_owner_id@
                    == receiver_id@ && call.log.amount == amount && call.log.memo == memo
                    && call.sender_id@ == predecessor_id@ && call.receiver_id@ == receiver_id@
                    && call.amount == amount && call.msg == msg && call.notify_gas == prepaid_gas
                    - GAS_FOR_FT_TRANSFER_CALL && call.resolve_gas == GAS_FOR_RESOLVE_TRANSFER),
            },
            r is Err ==> *final(self) == *old(self),
            final(self).token.total_supply == old(self).token.total_supply,
    {
        if attached_deposit != 1 {
            return Err(Error::RequiresOneYocto);
        }
        if prepaid_gas <= GAS_FOR_FT_TRANSFER_CALL + GAS_FOR_RESOLVE_TRANSFER {
            return Err(Error::InsufficientExecutionBudget);
        }
        let log = match self.token.internal_transfer(predecessor_id, receiver_id, amount, memo) {
            Ok(log) => log,
            Err(e) => return Err(e),
        };
        Ok(TransferCall {
            log,
            sender_id: predecessor_id.clone(),
            receiver_id: receiver_id.clone(),
            amount,
            msg,
            notify_gas: prepaid_gas - GAS_FOR_FT_TRANSFER_CALL,
            resolve_gas: GAS_FOR_RESOLVE_TRANSFER,
        })
    }

}

impl StorageManager for Contract {
    open spec fn storage_wf(&self) -> bool {
        self.wf()
    }

    /// Registers `account_id`, or the caller when none is named, against a
    /// deposit of at least the storage minimum; what exceeds the minimum, or
    /// the whole deposit for an account already registered, goes back.
    fn storage_deposit(
        &mut self,
        predecessor_id: &String,
        attached_deposit: u128,
        account_id: Option<String>,
    ) -> (r: Result<StorageDeposit, Error>)
        ensures
            final(self).wf(),
            final(self).token.total_supply == old(self).token.total_supply,
            ({
                let target = match account_id {
                    Some(a) => a@,
                    None => predecessor_id@,
                };
                if account_id matches Some(a) && !valid_account_id(encode_utf8(a@)) {
                    r == Err::<StorageDeposit, Error>(Error::InvalidId) && *final(self) == *old(self)
                } else if old(self).token.balances().contains_key(target) {
                    r matches Ok(d) && d.refund == attached_deposit && d.balance.total
                        == old(self).storage_min() && d.balance.available == 0 && *final(self)
                        == *old(self)
                } else if attached_deposit < old(self).storage_min() {
                    r == Err::<StorageDeposit, Error>(Error::InsufficientDeposit) && *final(self)
                        == *old(self)
                } else {
                    r matches Ok(d) && d.refund == attached_deposit - old(self).storage_min()
                        && d.balance.total == old(self).storage_min() && d.balance.available == 0
                        && final(self).token.balances() == old(self).token.balances().insert(
                        target,
                        0,
                    ) && final(self).account_storage_usage == old(self).account_storage_usage
                }
            }),
    {
        let target = match account_id {
            Some(a) => {
                if !is_valid_account_id(a.as_str()) {
                    return Err(Error::InvalidId);
                }
                a
            },
            None => predecessor_id.clone(),
        };
        let min = self.storage_balance_bounds().min;
        if self.token.is_registered(&target) {
            return Ok(StorageDeposit { balance: StorageBalance { total: min, available: 0 }, refund: attached_deposit });
        }
        if attached_deposit < min {
            return Err(Error::InsufficientDeposit);
        }
        self.token.register(target);
        Ok(StorageDeposit { balance: StorageBalance { total: min, available: 0 }, refund: attached_deposit - min })
    }

    /// Whether the caller's account was removed; see `internal_storage_unregister`.
    fn storage_unregister(
        &mut self,
        predecessor_id: &String,
        attached_deposit: u128,
        force: Option<bool>,
    ) -> (r: Result<bool, Error>)
        ensures
            final(self).wf(),
            ({
                let m = old(self).token.balances();
                let id = predecessor_id@;
                if attached_deposit != 1 {
                    r == Err::<bool, Error>(Error::RequiresOneYocto) && *final(self) == *old(self)
                } else if !m.contains_key(id) {
                    r == Ok::<bool, Error>(false) && *final(self) == *old(self)
                } else if m[id] > 0 && force != Some(true) {
                    r == Err::<bool, Error>(Error::PositiveBalance) && *final(self) == *old(self)
                } else {
                    r == Ok::<bool, Error>(true) && final(self).token.balances() == m.remove(id)
                        && final(self).token.total_supply == old(self).token.total_supply - m[id]
                }
            }),
    {
        match self.internal_storage_unregister(predecessor_id, attached_deposit, force) {
            Ok(Some(_)) => Ok(true),
            Ok(None) => Ok(false),
            Err(e) => Err(e),
        }
    }
    /// The storage balance of a registered account, `None` for another.
    fn storage_balance_of(&self, account_id: &String) -> (r: Option<StorageBalance>)
        ensures
            self.token.balances().contains_key(account_id@) ==> (r matches Some(b) && b.total
                == self.storage_min() && b.available == 0),
            !self.token.balances().contains_key(account_id@) ==> r is None,
    {
        self.internal_storage_balance_of(account_id)
    }

}

} // verus!
