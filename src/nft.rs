//! The registry of event passes: who holds a copy of which token, the
//! approvals that let another account move a copy, and the dependency gate
//! that decides who may receive one.
use crate::error::Error;
use crate::fungible::{is_valid_account_id, valid_account_id, PromiseOutcome, STORAGE_PRICE_PER_BYTE};
use crate::ids::{
    assert_valid_id, build_full_token_id, valid_id, bytes_for_approved_account_id, bytes_for_token_or_event_or_account_id,
    has_two_dots, resolve_token_id, splits_into,
};
use crate::table::Table;
use vstd::prelude::*;
use vstd::utf8::encode_utf8;

verus! {

/// The accounts that the holder of a copy has approved, each with the id it
/// was given, and the id that the next approval gets.
pub struct ApprovalInfo {
    pub approved_account_ids: Table<u64>,
    pub next_approval_id: u64,
}

impl ApprovalInfo {
    /// Every id handed out so far is below the next one.
    pub open spec fn wf(&self) -> bool {
        &&& self.approved_account_ids.wf()
        &&& forall|a: Seq<char>| #[trigger]
            self.approved_account_ids@.contains_key(a) ==> self.approved_account_ids@[a]
                < self.next_approval_id
    }

    pub fn new(next_approval_id: u64) -> (r: ApprovalInfo)
        ensures
            r.wf(),
            r.approved_account_ids@ == Map::<Seq<char>, u64>::empty(),
            r.next_approval_id == next_approval_id,
    {
        ApprovalInfo { approved_account_ids: Table::new(), next_approval_id }
    }
}

/// A kind of pass that an event issues, of which accounts hold copies.
pub struct Token {
    /// `event_id.token_id`
    pub token_id: String,
    pub copies_minted: u64,
    pub max_copies: u64,
    /// Milliseconds since the epoch after which the pass is void.
    pub expires_at: Option<u64>,
    /// Tokens that a receiver must hold.
    pub token_dependency_by_id: Vec<String>,
    /// Events of which a receiver must hold some pass.
    pub event_dependency_by_id: Vec<String>,
    /// Holder of a copy to the approvals on that copy.
    pub account_approval_info_per_owner: Table<ApprovalInfo>,
}

impl Token {
    pub open spec fn wf(&self) -> bool {
        &&& self.account_approval_info_per_owner.wf()
        &&& forall|o: Seq<char>| #[trigger]
            self.account_approval_info_per_owner@.contains_key(o)
                ==> self.account_approval_info_per_owner@[o].wf()
    }

    /// The approvals on `owner`'s copy and the next id, as they stand.
    pub open spec fn info_of(&self, owner: Seq<char>) -> (Map<Seq<char>, u64>, u64) {
        if self.account_approval_info_per_owner@.contains_key(owner) {
            let i = self.account_approval_info_per_owner@[owner];
            (i.approved_account_ids@, i.next_approval_id)
        } else {
            (Map::empty(), 0)
        }
    }

    /// `account` may move `owner`'s copy, under the id `approval_id` if one is named.
    pub open spec fn is_authorized(
        &self,
        owner: Seq<char>,
        account: Seq<char>,
        approval_id: Option<u64>,
    ) -> bool {
        let (m, _) = self.info_of(owner);
        m.contains_key(account) && match approval_id {
            Some(id) => m[account] == id,
            None => true,
        }
    }

    /// Whether the pass has expired at `now` (nanoseconds), or the overflow
    /// that turning its expiry into nanoseconds meets.
    pub open spec fn expiry(&self, now: u64) -> Result<bool, Error> {
        match self.expires_at {
            None => Ok(false),
            Some(t) => if t * 1_000_000 > u64::MAX {
                Err(Error::Overflow)
            } else {
                Ok(t * 1_000_000 < now)
            },
        }
    }

    /// The scalar fields and dependencies, which a transfer leaves as they are.
    pub open spec fn same_terms(&self, other: &Token) -> bool {
        &&& self.token_id == other.token_id
        &&& self.copies_minted == other.copies_minted
        &&& self.max_copies == other.max_copies
        &&& self.expires_at == other.expires_at
        &&& self.token_dependency_by_id == other.token_dependency_by_id
        &&& self.event_dependency_by_id == other.event_dependency_by_id
    }
}

/// Whether `token` has expired at `block_timestamp` (nanoseconds).
pub fn internal_is_token_expired(token: &Token, block_timestamp: u64) -> (r: Result<bool, Error>)
    ensures
        r == token.expiry(block_timestamp),
{
    match token.expires_at {
        None => Ok(false),
        Some(t) => match t.checked_mul(1_000_000) {
            None => Err(Error::Overflow),
            Some(ns) => Ok(ns < block_timestamp),
        },
    }
}

/// Refuses a token of which every copy has been issued.
pub fn assert_token_availability(token: &Token) -> (r: Result<(), Error>)
    ensures
        token.copies_minted < token.max_copies ==> r is Ok,
        token.copies_minted >= token.max_copies ==> r == Err::<(), Error>(Error::AssetExhausted),
{
    if token.copies_minted < token.max_copies {
        Ok(())
    } else {
        Err(Error::AssetExhausted)
    }
}

pub struct Event {
    pub organiser: String,
    /// The tokens that the event issues.
    pub event_passes: Vec<String>,
}

pub struct NFTContractMetadata {
    pub spec: String,
    pub name: String,
    pub symbol: String,
    pub icon: Option<String>,
    pub base_uri: String,
    pub reference: String,
    pub reference_hash: Vec<u8>,
}

impl NFTContractMetadata {
    /// The reference hash is 32 bytes long.
    pub fn assert_valid_metadata(&self) -> (r: Result<(), Error>)
        ensures
            r is Ok <==> self.reference_hash@.len() == 32,
            r is Err ==> r == Err::<(), Error>(Error::InvalidMetadata),
    {
        if self.reference_hash.len() == 32 {
            Ok(())
        } else {
            Err(Error::InvalidMetadata)
        }
    }
}

pub struct TokenMetadata {
    pub title: String,
    pub description: Option<String>,
    pub media: String,
    pub media_hash: Vec<u8>,
    /// How many copies may be issued.
    pub copies: Option<u64>,
    pub issued_at: Option<u64>,
    pub expires_at: Option<u64>,
    pub starts_at: Option<u64>,
    pub updated_at: Option<u64>,
    pub extra: Option<String>,
    pub reference: Option<String>,
    pub reference_hash: Option<Vec<u8>>,
}

/// A record of copies that changed hands.
pub struct NftTransferLog {
    pub authorized_id: Option<String>,
    pub old_owner_id: String,
    pub new_owner_id: String,
    pub token_ids: Vec<String>,
    pub memo: Option<String>,
}

/// A record of copies issued.
pub struct NftMintLog {
    pub owner_id: String,
    pub token_ids: Vec<String>,
    pub memo: Option<String>,
}

/// The outcome of a transfer: the previous holder, the approvals that the
/// transfer cleared, and the record of it.
pub struct NftTransfer {
    pub old_owner_id: String,
    pub old_approval_info: Option<ApprovalInfo>,
    pub log: NftTransferLog,
}

/// What an approval asks of the approved account.
pub struct ApprovalNotice {
    pub token_id: String,
    pub owner_id: String,
    pub approval_id: u64,
    pub msg: String,
}

pub struct Approval {
    pub approval_id: u64,
    /// The part of the attached deposit that goes back to the caller.
    pub refund: u128,
    pub notice: Option<ApprovalNotice>,
}

/// The storage that a list of approvals takes, in bytes.
pub open spec fn approvals_storage(s: Seq<(String, u64)>) -> int
    decreases s.len(),
{
    if s.len() == 0 {
        0
    } else {
        approvals_storage(s.drop_last()) + encode_utf8(s.last().0@).len() + 12
    }
}

proof fn lemma_approvals_storage_prefix(s: Seq<(String, u64)>, i: int)
    requires
        0 <= i <= s.len(),
    ensures
        0 <= approvals_storage(s.take(i)) <= approvals_storage(s),
    decreases s.len() - i,
{
    if i < s.len() {
        assert(s.take(i + 1).drop_last() =~= s.take(i));
        lemma_approvals_storage_prefix(s, i + 1);
        lemma_approvals_storage_nonneg(s.take(i));
    } else {
        assert(s.take(i) =~= s);
        lemma_approvals_storage_nonneg(s);
    }
}

proof fn lemma_approvals_storage_nonneg(s: Seq<(String, u64)>)
    ensures
        approvals_storage(s) >= 0,
    decreases s.len(),
{
    if s.len() > 0 {
        lemma_approvals_storage_nonneg(s.drop_last());
    }
}

/// The deposit that the storage of these approvals paid for, which goes
/// back to the holder when they are removed.
pub fn refund_approved_account_ids(approved_account_ids: &Table<u64>) -> (r: Result<u128, Error>)
    ensures
        approvals_storage(approved_account_ids.entries@) * STORAGE_PRICE_PER_BYTE <= u128::MAX
            ==> r == Ok::<u128, Error>(
            (approvals_storage(approved_account_ids.entries@) * STORAGE_PRICE_PER_BYTE) as u128,
        ),
        approvals_storage(approved_account_ids.entries@) * STORAGE_PRICE_PER_BYTE > u128::MAX
            ==> r == Err::<u128, Error>(Error::Overflow),
{
    let ghost s = approved_account_ids.entries@;
    let mut total: u128 = 0;
    let mut i: usize = 0;
    while i < approved_account_ids.entries.len()
        invariant
            s == approved_account_ids.entries@,
            i <= s.len(),
            total == approvals_storage(s.take(i as int)),
        decreases s.len() - i,
    {
        let b = bytes_for_approved_account_id(approved_account_ids.entries[i].0.as_str());
        proof {
            assert(s.take(i + 1).drop_last() =~= s.take(i as int));
        }
        match total.checked_add(b) {
            Some(t) => total = t,
            None => {
                proof {
                    lemma_approvals_storage_prefix(s, i + 1);
                    assert(approvals_storage(s) * STORAGE_PRICE_PER_BYTE > u128::MAX) by (nonlinear_arith)
                        requires approvals_storage(s) > u128::MAX;
                }
                return Err(Error::Overflow);
            },
        }
        i = i + 1;
    }
    proof {
        assert(s.take(i as int) =~= s);
    }
    match total.checked_mul(STORAGE_PRICE_PER_BYTE) {
        Some(v) => Ok(v),
        None => Err(Error::Overflow),
    }
}

/// Checks that `attached_deposit` pays for `storage_used` bytes and gives
/// what is left over, when it is more than one yoctoNEAR.
pub fn refund_deposit(storage_used: u128, attached_deposit: u128) -> (r: Result<u128, Error>)
    ensures
        storage_used * STORAGE_PRICE_PER_BYTE > u128::MAX ==> r == Err::<u128, Error>(Error::Overflow),
        storage_used * STORAGE_PRICE_PER_BYTE <= u128::MAX && attached_deposit < storage_used
            * STORAGE_PRICE_PER_BYTE ==> r == Err::<u128, Error>(Error::InsufficientDeposit),
        storage_used * STORAGE_PRICE_PER_BYTE <= attached_deposit ==> r == Ok::<u128, Error>(
            if attached_deposit - storage_used * STORAGE_PRICE_PER_BYTE > 1 {
                (attached_deposit - storage_used * STORAGE_PRICE_PER_BYTE) as u128
            } else {
                0
            },
        ),
{
    let required = match storage_used.checked_mul(STORAGE_PRICE_PER_BYTE) {
        Some(v) => v,
        None => return Err(Error::Overflow),
    };
    if attached_deposit < required {
        return Err(Error::InsufficientDeposit);
    }
    let refund = attached_deposit - required;
    if refund > 1 {
        Ok(refund)
    } else {
        Ok(0)
    }
}

pub struct Contract {
    pub owner_id: String,
    /// Account to the tokens of which it holds a copy.
    pub tokens_per_owner: Table<Table<()>>,
    pub tokens_by_id: Table<Token>,
    pub token_metadata_by_id: Table<TokenMetadata>,
    pub events_by_id: Table<Event>,
    pub approved_marketplaces: Table<()>,
    pub metadata: NFTContractMetadata,
}

impl Contract {
    pub open spec fn wf(&self) -> bool {
        &&& self.tokens_per_owner.wf()
        &&& forall|a: Seq<char>| #[trigger]
            self.tokens_per_owner@.contains_key(a) ==> self.tokens_per_owner@[a].wf()
        &&& self.tokens_by_id.wf()
        &&& forall|t: Seq<char>| #[trigger]
            self.tokens_by_id@.contains_key(t) ==> self.tokens_by_id@[t].wf()
        &&& self.token_metadata_by_id.wf()
        &&& self.events_by_id.wf()
        &&& self.approved_marketplaces.wf()
    }

    /// `account` holds a copy of token `token_id`.
    pub open spec fn owns(&self, account: Seq<char>, token_id: Seq<char>) -> bool {
        self.tokens_per_owner@.contains_key(account) && self.tokens_per_owner@[account]@.contains_key(
            token_id,
        )
    }

    /// `account` holds a copy of each of `ids`.
    pub open spec fn holds_all(&self, account: Seq<char>, ids: Seq<String>) -> bool {
        forall|i: int| 0 <= i < ids.len() ==> #[trigger] self.owns(account, ids[i]@)
    }

    /// Event `event_id` exists and `account` holds a copy of one of its passes.
    pub open spec fn holds_pass_of(&self, account: Seq<char>, event_id: Seq<char>) -> bool {
        &&& self.events_by_id@.contains_key(event_id)
        &&& exists|k: int|
            0 <= k < self.events_by_id@[event_id].event_passes@.len() && #[trigger] self.owns(
                account,
                self.events_by_id@[event_id].event_passes@[k]@,
            )
    }

    /// `account` may receive a copy of `token`: it holds every token the
    /// token depends on, and some pass of every event it depends on.
    pub open spec fn eligible(&self, account: Seq<char>, token: &Token) -> bool {
        let deps = token.token_dependency_by_id@;
        let evs = token.event_dependency_by_id@;
        ||| deps.len() == 0 && evs.len() == 0
        ||| {
            &&& self.tokens_per_owner@.contains_key(account)
            &&& self.holds_all(account, deps)
            &&& forall|j: int| 0 <= j < evs.len() ==> #[trigger] self.holds_pass_of(account, evs[j]@)
        }
    }

    /// Everything but the ownership index and the tokens is as in `other`.
    pub open spec fn same_catalogue(&self, other: &Contract) -> bool {
        &&& self.owner_id == other.owner_id
        &&& self.token_metadata_by_id == other.token_metadata_by_id
        &&& self.events_by_id == other.events_by_id
        &&& self.approved_marketplaces == other.approved_marketplaces
        &&& self.metadata == other.metadata
    }

    pub fn owns_token(&self, account_id: &String, token_id: &String) -> (r: bool)
        requires
            self.wf(),
        ensures
            r == self.owns(account_id@, token_id@),
    {
        match self.tokens_per_owner.get(account_id) {
            Some(set) => set.contains_key(token_id),
            None => false,
        }
    }

    /// Records that `account_id` holds a copy of `token_id`.
    pub fn internal_add_token_to_owner(&mut self, account_id: &String, token_id: &String) -> (r: Result<(), Error>)
        requires
            old(self).wf(),
        ensures
            final(self).wf(),
            old(self).owns(account_id@, token_id@) ==> r == Err::<(), Error>(Error::AlreadyExists)
                && *final(self) == *old(self),
            !old(self).owns(account_id@, token_id@) ==> r is Ok && forall|a: Seq<char>, t: Seq<char>|
                #[trigger] final(self).owns(a, t) == (old(self).owns(a, t) || (a == account_id@ && t
                    == token_id@)),
            final(self).tokens_by_id == old(self).tokens_by_id,
            final(self).same_catalogue(old(self)),
    {
        if self.owns_token(account_id, token_id) {
            return Err(Error::AlreadyExists);
        }
        let mut set = match self.tokens_per_owner.remove(account_id) {
            Some(s) => s,
            None => Table::new(),
        };
        set.insert(token_id.clone(), ());
        self.tokens_per_owner.insert(account_id.clone(), set);
        Ok(())
    }

    /// Records that `account_id` no longer holds a copy of `token_id`,
    /// dropping its entry when it holds nothing else.
    pub fn internal_remove_token_from_owner(&mut self, account_id: &String, token_id: &String) -> (r: Result<(), Error>)
        requires
            old(self).wf(),
        ensures
            final(self).wf(),
            !old(self).tokens_per_owner@.contains_key(account_id@) ==> r == Err::<(), Error>(
                Error::NotOwner,
            ) && *final(self) == *old(self),
            old(self).tokens_per_owner@.contains_key(account_id@) ==> r is Ok && forall|
                a: Seq<char>,
                t: Seq<char>,
            |
                #[trigger] final(self).owns(a, t) == (old(self).owns(a, t) && !(a == account_id@ && t
                    == token_id@)),
            final(self).tokens_by_id == old(self).tokens_by_id,
            final(self).same_catalogue(old(self)),
    {
        if !self.tokens_per_owner.contains_key(account_id) {
            return Err(Error::NotOwner);
        }
        let ghost old_set = self.tokens_per_owner@[account_id@];
        let mut set = match self.tokens_per_owner.remove(account_id) {
            Some(s) => s,
            None => return Err(Error::NotOwner),
        };
        set.remove(token_id);
        if !set.is_empty() {
            self.tokens_per_owner.insert(account_id.clone(), set);
        } else {
            assert forall|t: Seq<char>| old_set@.contains_key(t) implies t == token_id@ by {
                assert(!set@.contains_key(t));
            }
        }
        Ok(())
    }

    /// Whether `account_id`, whose tokens are `set`, holds a copy of one of `passes`.
    fn owns_any(&self, account_id: &String, set: &Table<()>, passes: &Vec<String>) -> (r: bool)
        requires
            self.wf(),
            self.tokens_per_owner@.contains_key(account_id@),
            *set == self.tokens_per_owner@[account_id@],
        ensures
            r == exists|k: int| 0 <= k < passes@.len() && #[trigger] self.owns(account_id@, passes@[k]@),
    {
        let mut k: usize = 0;
        while k < passes.len()
            invariant
                self.wf(),
                self.tokens_per_owner@.contains_key(account_id@),
                *set == self.tokens_per_owner@[account_id@],
                k <= passes@.len(),
                forall|q: int| 0 <= q < k ==> !#[trigger] self.owns(account_id@, passes@[q]@),
            decreases passes@.len() - k,
        {
            if set.contains_key(&passes[k]) {
                assert(self.owns(account_id@, passes@[k as int]@));
                return true;
            }
            k = k + 1;
        }
        false
    }

    /// Whether `account_id` may receive a copy of `token`.
    pub fn internal_is_eligible_to_mint_token(&self, account_id: &String, token: &Token) -> (r: bool)
        requires
            self.wf(),
        ensures
            r == self.eligible(account_id@, token),
    {
        if token.token_dependency_by_id.len() == 0 && token.event_dependency_by_id.len() == 0 {
            return true;
        }
        let set = match self.tokens_per_owner.get(account_id) {
            Some(s) => s,
            None => return false,
        };
        let deps = &token.token_dependency_by_id;
        let mut i: usize = 0;
        while i < deps.len()
            invariant
                self.wf(),
                self.tokens_per_owner@.contains_key(account_id@),
                *set == self.tokens_per_owner@[account_id@],
                deps@ == token.token_dependency_by_id@,
                deps@.len() > 0 || token.event_dependency_by_id@.len() > 0,
                i <= deps@.len(),
                forall|k: int| 0 <= k < i ==> #[trigger] self.owns(account_id@, deps@[k]@),
            decreases deps@.len() - i,
        {
            if !set.contains_key(&deps[i]) {
                assert(!self.owns(account_id@, deps@[i as int]@));
                return false;
            }
            i = i + 1;
        }
        let evs = &token.event_dependency_by_id;
        let mut j: usize = 0;
        while j < evs.len()
            invariant
                self.wf(),
                self.tokens_per_owner@.contains_key(account_id@),
                *set == self.tokens_per_owner@[account_id@],
                deps@ == token.token_dependency_by_id@,
                evs@ == token.event_dependency_by_id@,
                deps@.len() > 0 || evs@.len() > 0,
                j <= evs@.len(),
                forall|k: int| 0 <= k < deps@.len() ==> #[trigger] self.owns(account_id@, deps@[k]@),
                forall|m: int| 0 <= m < j ==> #[trigger] self.holds_pass_of(account_id@, evs@[m]@),
            decreases evs@.len() - j,
        {
            let event = match self.events_by_id.get(&evs[j]) {
                Some(e) => e,
                None => {
                    assert(!self.holds_pass_of(account_id@, evs@[j as int]@));
                    return false;
                },
            };
            if !self.owns_any(account_id, set, &event.event_passes) {
                assert(!self.holds_pass_of(account_id@, evs@[j as int]@));
                return false;
            }
            assert(self.holds_pass_of(account_id@, evs@[j as int]@));
            j = j + 1;
        }
        true
    }
}


/// The cost in yoctoNEAR of `bytes` bytes of storage.
pub fn storage_cost(bytes: u128) -> (r: Result<u128, Error>)
    ensures
        bytes * STORAGE_PRICE_PER_BYTE <= u128::MAX ==> r == Ok::<u128, Error>(
            (bytes * STORAGE_PRICE_PER_BYTE) as u128,
        ),
        bytes * STORAGE_PRICE_PER_BYTE > u128::MAX ==> r == Err::<u128, Error>(Error::Overflow),
{
    match bytes.checked_mul(STORAGE_PRICE_PER_BYTE) {
        Some(v) => Ok(v),
        None => Err(Error::Overflow),
    }
}

/// What an issued copy asks back of the deposit, and the record of the issue.
pub struct Registration {
    pub refund: u128,
    pub log: NftMintLog,
}

impl Contract {
    /// `new` holds what `old` held with token `token_id` changed, and only that.
    pub open spec fn token_changed(new: &Contract, old: &Contract, token_id: Seq<char>) -> bool {
        &&& new.tokens_by_id@.contains_key(token_id)
        &&& new.tokens_by_id@.remove(token_id) == old.tokens_by_id@.remove(token_id)
        &&& new.same_catalogue(old)
    }

    /// `new` is `old` with the approvals on `owner`'s copy of `token_id` set
    /// to `approved`, and its next id to `next`; nothing else changed.
    pub open spec fn approvals_set(
        new: &Contract,
        old: &Contract,
        token_id: Seq<char>,
        owner: Seq<char>,
        approved: Map<Seq<char>, u64>,
        next: u64,
    ) -> bool {
        let ot = old.tokens_by_id@[token_id];
        let nt = new.tokens_by_id@[token_id];
        &&& Contract::token_changed(new, old, token_id)
        &&& new.tokens_per_owner == old.tokens_per_owner
        &&& nt.same_terms(&ot)
        &&& nt.account_approval_info_per_owner@.remove(owner)
            == ot.account_approval_info_per_owner@.remove(owner)
        &&& nt.info_of(owner) == (approved, next)
    }

    /// Why moving `owner`'s copy of `token_id` to `receiver` at the request of
    /// `sender` is refused, if it is.
    pub open spec fn transfer_error(
        &self,
        sender: Seq<char>,
        receiver: Seq<char>,
        token_id: Seq<char>,
        owner: Seq<char>,
        approval_id: Option<u64>,
        now: u64,
    ) -> Option<Error> {
        if !self.tokens_by_id@.contains_key(token_id) {
            Some(Error::UnknownAsset)
        } else {
            let token = self.tokens_by_id@[token_id];
            match token.expiry(now) {
                Err(e) => Some(e),
                Ok(true) => Some(Error::AssetExpired),
                Ok(false) => if !self.owns(owner, token_id) {
                    Some(Error::NotOwner)
                } else if !self.eligible(receiver, &token) {
                    Some(Error::DependencyNotSatisfied)
                } else if owner == receiver {
                    Some(Error::SameAccount)
                } else if sender != owner && !token.is_authorized(owner, sender, approval_id) {
                    Some(Error::Unauthorized)
                } else if self.owns(receiver, token_id) {
                    Some(Error::AlreadyExists)
                } else {
                    None
                },
            }
        }
    }

    /// `new` is `old` after `owner`'s copy of `token_id` went to `receiver`:
    /// the ownership index moved, the owner's approvals were cleared, and the
    /// receiver starts with no approvals and an id counter that does not go back.
    pub open spec fn transferred(
        new: &Contract,
        old: &Contract,
        token_id: Seq<char>,
        owner: Seq<char>,
        receiver: Seq<char>,
    ) -> bool {
        let ot = old.tokens_by_id@[token_id];
        let nt = new.tokens_by_id@[token_id];
        let carried = if ot.info_of(owner).1 > ot.info_of(receiver).1 {
            ot.info_of(owner).1
        } else {
            ot.info_of(receiver).1
        };
        &&& Contract::token_changed(new, old, token_id)
        &&& forall|a: Seq<char>, t: Seq<char>| #[trigger]
            new.owns(a, t) == ((old.owns(a, t) && !(a == owner && t == token_id)) || (a == receiver
                && t == token_id))
        &&& nt.same_terms(&ot)
        &&& nt.account_approval_info_per_owner@.remove(receiver)
            == ot.account_approval_info_per_owner@.remove(owner).remove(receiver)
        &&& nt.info_of(receiver) == (Map::<Seq<char>, u64>::empty(), carried)
    }

    /// Moves `owner_id`'s copy of `token_id` to `receiver_id` at the request
    /// of `sender_id`, who is the owner or an account it approved (under
    /// `approval_id` when one is named). Nothing changes on a refusal.
    pub fn internal_transfer(
        &mut self,
        sender_id: &String,
        receiver_id: &String,
        token_id: &String,
        owner_id: &String,
        approval_id: Option<u64>,
        memo: Option<String>,
        block_timestamp: u64,
    ) -> (r: Result<NftTransfer, Error>)
        requires
            old(self).wf(),
        ensures
            final(self).wf(),
            match old(self).transfer_error(
                sender_id@,
                receiver_id@,
                token_id@,
                owner_id@,
                approval_id,
                block_timestamp,
            ) {
                Some(e) => r == Err::<NftTransfer, Error>(e) && *final(self) == *old(self),
                None => (r matches Ok(t) && Contract::transferred(
                    final(self),
                    old(self),
                    token_id@,
                    owner_id@,
                    receiver_id@,
                ) && t.old_owner_id@ == owner_id@ && match t.old_approval_info {
                    Some(i) => old(self).tokens_by_id@[token_id@].info_of(owner_id@) == (
                        i.approved_account_ids@,
                        i.next_approval_id,
                    ) && i.wf(),
                    None => !old(self).tokens_by_id@[token_id@].account_approval_info_per_owner@.contains_key(
                        owner_id@,
                    ),
                }),
            },
    {
        let token = match self.tokens_by_id.get(token_id) {
            Some(t) => t,
            None => return Err(Error::UnknownAsset),
        };
        match internal_is_token_expired(token, block_timestamp) {
            Err(e) => return Err(e),
            Ok(true) => return Err(Error::AssetExpired),
            Ok(false) => {},
        }
        if !self.owns_token(owner_id, token_id) {
            return Err(Error::NotOwner);
        }
        if !self.internal_is_eligible_to_mint_token(receiver_id, token) {
            return Err(Error::DependencyNotSatisfied);
        }
        if *owner_id == *receiver_id {
            return Err(Error::SameAccount);
        }
        if *sender_id != *owner_id {
            let authorized = match token.account_approval_info_per_owner.get(owner_id) {
                None => false,
                Some(info) => match info.approved_account_ids.get(sender_id) {
                    None => false,
                    Some(actual) => match approval_id {
                        Some(id) => *actual == id,
                        None => true,
                    },
                },
            };
            if !authorized {
                return Err(Error::Unauthorized);
            }
        }
        if self.owns_token(receiver_id, token_id) {
            return Err(Error::AlreadyExists);
        }
        let receiver_next = match token.account_approval_info_per_owner.get(receiver_id) {
            Some(i) => i.next_approval_id,
            None => 0,
        };
        let ghost old_self = *self;
        let ghost ot = old_self.tokens_by_id@[token_id@];
        let mut token = match self.tokens_by_id.remove(token_id) {
            Some(t) => t,
            None => return Err(Error::UnknownAsset),
        };
        let old_info = token.account_approval_info_per_owner.remove(owner_id);
        let owner_next = match &old_info {
            Some(i) => i.next_approval_id,
            None => 0,
        };
        let next = if owner_next > receiver_next {
            owner_next
        } else {
            receiver_next
        };
        token.account_approval_info_per_owner.insert(receiver_id.clone(), ApprovalInfo::new(next));
        let ghost nt = token;
        self.tokens_by_id.insert(token_id.clone(), token);
        proof {
            assert(self.tokens_by_id@.remove(token_id@) =~= old_self.tokens_by_id@.remove(token_id@));
            assert(nt.account_approval_info_per_owner@.remove(receiver_id@)
                =~= ot.account_approval_info_per_owner@.remove(owner_id@).remove(receiver_id@));
        }
        let r1 = self.internal_remove_token_from_owner(owner_id, token_id);
        let r2 = self.internal_add_token_to_owner(receiver_id, token_id);
        proof {
            assert(r1 is Ok);
            assert(r2 is Ok);
        }
        let authorized_id = if approval_id.is_some() {
            Some(sender_id.clone())
        } else {
            None
        };
        let log = NftTransferLog {
            authorized_id,
            old_owner_id: owner_id.clone(),
            new_owner_id: receiver_id.clone(),
            token_ids: vec![token_id.clone()],
            memo,
        };
        Ok(NftTransfer { old_owner_id: owner_id.clone(), old_approval_info: old_info, log })
    }
}


impl Contract {
    /// Moves the copy named `token_id` (`event_id.token_id.owner_id`) to
    /// `receiver_id` at the caller's request. The call must attach exactly
    /// one yoctoNEAR.
    pub fn nft_transfer(
        &mut self,
        predecessor_id: &String,
        attached_deposit: u128,
        receiver_id: &String,
        token_id: &String,
        approval_id: Option<u64>,
        memo: Option<String>,
        block_timestamp: u64,
    ) -> (r: Result<NftTransfer, Error>)
        requires
            old(self).wf(),
        ensures
            final(self).wf(),
            attached_deposit != 1 ==> r == Err::<NftTransfer, Error>(Error::RequiresOneYocto)
                && *final(self) == *old(self),
            attached_deposit == 1 && !has_two_dots(token_id@) ==> r == Err::<NftTransfer, Error>(
                Error::InvalidId,
            ) && *final(self) == *old(self),
            attached_deposit == 1 && has_two_dots(token_id@) ==> exists|t: Seq<char>, o: Seq<char>|
                #[trigger] splits_into(token_id@, t, o) && match old(self).transfer_error(
                    predecessor_id@,
                    receiver_id@,
                    t,
                    o,
                    approval_id,
                    block_timestamp,
                ) {
                    Some(e) => r == Err::<NftTransfer, Error>(e) && *final(self) == *old(self),
                    None => (r matches Ok(tr) && tr.old_owner_id@ == o && Contract::transferred(
                        final(self),
                        old(self),
                        t,
                        o,
                        receiver_id@,
                    )),
                },
    {
        if attached_deposit != 1 {
            return Err(Error::RequiresOneYocto);
        }
        let (tid, owner) = match resolve_token_id(token_id.as_str()) {
            Ok(p) => p,
            Err(e) => return Err(e),
        };
        let r = self.internal_transfer(
            predecessor_id,
            receiver_id,
            &tid,
            &owner,
            approval_id,
            memo,
            block_timestamp,
        );
        assert(splits_into(token_id@, tid@, owner@));
        r
    }

    /// Whether `approved_account_id` may move the copy named `token_id`,
    /// under `approval_id` when one is named.
    pub fn nft_is_approved(
        &self,
        token_id: &String,
        approved_account_id: &String,
        approval_id: Option<u64>,
    ) -> (r: Result<bool, Error>)
        requires
            self.wf(),
        ensures
            !has_two_dots(token_id@) ==> r == Err::<bool, Error>(Error::InvalidId),
            has_two_dots(token_id@) ==> exists|t: Seq<char>, o: Seq<char>|
                #[trigger] splits_into(token_id@, t, o) && if self.tokens_by_id@.contains_key(t) {
                    r == Ok::<bool, Error>(
                        self.tokens_by_id@[t].is_authorized(o, approved_account_id@, approval_id),
                    )
                } else {
                    r == Err::<bool, Error>(Error::UnknownAsset)
                },
    {
        let (tid, owner) = match resolve_token_id(token_id.as_str()) {
            Ok(p) => p,
            Err(e) => return Err(e),
        };
        assert(splits_into(token_id@, tid@, owner@));
        let token = match self.tokens_by_id.get(&tid) {
            Some(t) => t,
            None => return Err(Error::UnknownAsset),
        };
        let info = match token.account_approval_info_per_owner.get(&owner) {
            Some(i) => i,
            None => return Ok(false),
        };
        match info.approved_account_ids.get(approved_account_id) {
            None => Ok(false),
            Some(actual) => match approval_id {
                Some(id) => Ok(*actual == id),
                None => Ok(true),
            },
        }
    }

    /// The bytes that approving `account` on `owner`'s copy of `token_id` adds:
    /// none when the account is approved already.
    pub open spec fn approval_storage(
        &self,
        token_id: Seq<char>,
        owner: Seq<char>,
        account: Seq<char>,
    ) -> int {
        if self.tokens_by_id@[token_id].info_of(owner).0.contains_key(account) {
            0
        } else {
            encode_utf8(account).len() + 12int
        }
    }

    /// Why the caller's approval of `account` on `owner`'s copy of `token_id`
    /// is refused, if it is.
    pub open spec fn approve_error(
        &self,
        caller: Seq<char>,
        attached_deposit: u128,
        token_id: Seq<char>,
        owner: Seq<char>,
        account: Seq<char>,
        now: u64,
    ) -> Option<Error> {
        if !self.tokens_by_id@.contains_key(token_id) {
            Some(Error::UnknownAsset)
        } else if !self.approved_marketplaces@.contains_key(account) {
            Some(Error::UnapprovedMarketplace)
        } else {
            let token = self.tokens_by_id@[token_id];
            let cost = self.approval_storage(token_id, owner, account) * STORAGE_PRICE_PER_BYTE;
            match token.expiry(now) {
                Err(e) => Some(e),
                Ok(true) => Some(Error::AssetExpired),
                Ok(false) => if !self.owns(owner, token_id) || caller != owner {
                    Some(Error::NotOwner)
                } else if token.info_of(owner).1 == u64::MAX || cost > u128::MAX {
                    Some(Error::Overflow)
                } else if attached_deposit < cost {
                    Some(Error::InsufficientDeposit)
                } else {
                    None
                },
            }
        }
    }

    /// Approves `account_id` to move the caller's copy named `token_id`,
    /// under the next id of that copy's counter. The deposit pays for the
    /// storage of a new approval; what exceeds it by more than one
    /// yoctoNEAR goes back. With a `msg`, the approved account is to be told.
    pub fn nft_approve(
        &mut self,
        predecessor_id: &String,
        attached_deposit: u128,
        token_id: &String,
        account_id: &String,
        msg: Option<String>,
        block_timestamp: u64,
    ) -> (r: Result<Approval, Error>)
        requires
            old(self).wf(),
        ensures
            final(self).wf(),
            attached_deposit < 1 ==> r == Err::<Approval, Error>(Error::InsufficientDeposit)
                && *final(self) == *old(self),
            attached_deposit >= 1 && !has_two_dots(token_id@) ==> r == Err::<Approval, Error>(
                Error::InvalidId,
            ) && *final(self) == *old(self),
            attached_deposit >= 1 && has_two_dots(token_id@) ==> exists|t: Seq<char>, o: Seq<char>|
                #[trigger] splits_into(token_id@, t, o) && match old(self).approve_error(
                    predecessor_id@,
                    attached_deposit,
                    t,
                    o,
                    account_id@,
                    block_timestamp,
                ) {
                    Some(e) => r == Err::<Approval, Error>(e) && *final(self) == *old(self),
                    None => (r matches Ok(a) && {
                        let ot = old(self).tokens_by_id@[t];
                        let (m, next) = ot.info_of(o);
                        let cost = old(self).approval_storage(t, o, account_id@)
                            * STORAGE_PRICE_PER_BYTE;
                        &&& Contract::approvals_set(
                            final(self),
                            old(self),
                            t,
                            o,
                            m.insert(account_id@, next),
                            (next + 1) as u64,
                        )
                        &&& a.approval_id == next
                        &&& a.refund == if attached_deposit - cost > 1 {
                            attached_deposit - cost
                        } else {
                            0
                        }
                        &&& (a.notice is Some <==> msg is Some)
                    }),
                },
    {
        if attached_deposit < 1 {
            return Err(Error::InsufficientDeposit);
        }
        let (tid, owner) = match resolve_token_id(token_id.as_str()) {
            Ok(p) => p,
            Err(e) => return Err(e),
        };
        assert(splits_into(token_id@, tid@, owner@));
        let token = match self.tokens_by_id.get(&tid) {
            Some(t) => t,
            None => return Err(Error::UnknownAsset),
        };
        if !self.approved_marketplaces.contains_key(account_id) {
            return Err(Error::UnapprovedMarketplace);
        }
        match internal_is_token_expired(token, block_timestamp) {
            Err(e) => return Err(e),
            Ok(true) => return Err(Error::AssetExpired),
            Ok(false) => {},
        }
        if !self.owns_token(&owner, &tid) || *predecessor_id != owner {
            return Err(Error::NotOwner);
        }
        let (is_new, next) = match token.account_approval_info_per_owner.get(&owner) {
            Some(i) => (!i.approved_account_ids.contains_key(account_id), i.next_approval_id),
            None => (true, 0),
        };
        let storage_used = if is_new {
            bytes_for_approved_account_id(account_id.as_str())
        } else {
            0
        };
        if next == u64::MAX {
            return Err(Error::Overflow);
        }
        let refund = match refund_deposit(storage_used, attached_deposit) {
            Ok(v) => v,
            Err(e) => return Err(e),
        };
        let ghost old_self = *self;
        let ghost ot = old_self.tokens_by_id@[tid@];
        let mut token = match self.tokens_by_id.remove(&tid) {
            Some(t) => t,
            None => return Err(Error::UnknownAsset),
        };
        let mut info = match token.account_approval_info_per_owner.remove(&owner) {
            Some(i) => i,
            None => ApprovalInfo::new(0),
        };
        info.approved_account_ids.insert(account_id.clone(), next);
        info.next_approval_id = next + 1;
        token.account_approval_info_per_owner.insert(owner.clone(), info);
        let ghost nt = token;
        self.tokens_by_id.insert(tid.clone(), token);
        proof {
            assert(self.tokens_by_id@.remove(tid@) =~= old_self.tokens_by_id@.remove(tid@));
            assert(nt.account_approval_info_per_owner@.remove(owner@)
                =~= ot.account_approval_info_per_owner@.remove(owner@));
        }
        let notice = match msg {
            Some(m) => Some(
                ApprovalNotice {
                    token_id: build_full_token_id(tid.clone(), owner.clone()),
                    owner_id: owner.clone(),
                    approval_id: next,
                    msg: m,
                },
            ),
            None => None,
        };
        Ok(Approval { approval_id: next, refund, notice })
    }
}


impl Contract {
    /// Why the caller may not change the approvals on `owner`'s copy of
    /// `token_id`, if it may not.
    pub open spec fn revoke_error(&self, caller: Seq<char>, token_id: Seq<char>, owner: Seq<char>) -> Option<Error> {
        if !self.tokens_by_id@.contains_key(token_id) {
            Some(Error::UnknownAsset)
        } else if !self.owns(owner, token_id) || caller != owner {
            Some(Error::NotOwner)
        } else {
            None
        }
    }

    /// Withdraws the caller's approval of `account_id` on its copy named
    /// `token_id`. The storage that the approval took is paid back. The call
    /// must attach exactly one yoctoNEAR.
    pub fn nft_revoke(
        &mut self,
        predecessor_id: &String,
        attached_deposit: u128,
        token_id: &String,
        account_id: &String,
    ) -> (r: Result<u128, Error>)
        requires
            old(self).wf(),
        ensures
            final(self).wf(),
            attached_deposit != 1 ==> r == Err::<u128, Error>(Error::RequiresOneYocto) && *final(self)
                == *old(self),
            attached_deposit == 1 && !has_two_dots(token_id@) ==> r == Err::<u128, Error>(
                Error::InvalidId,
            ) && *final(self) == *old(self),
            attached_deposit == 1 && has_two_dots(token_id@) ==> exists|t: Seq<char>, o: Seq<char>|
                #[trigger] splits_into(token_id@, t, o) && match old(self).revoke_error(
                    predecessor_id@,
                    t,
                    o,
                ) {
                    Some(e) => r == Err::<u128, Error>(e) && *final(self) == *old(self),
                    None => {
                        let ot = old(self).tokens_by_id@[t];
                        let (m, next) = ot.info_of(o);
                        let cost = (encode_utf8(account_id@).len() + 12) * STORAGE_PRICE_PER_BYTE;
                        if !m.contains_key(account_id@) {
                            r == Ok::<u128, Error>(0) && *final(self) == *old(self)
                        } else if cost > u128::MAX {
                            r == Err::<u128, Error>(Error::Overflow) && *final(self) == *old(self)
                        } else {
                            &&& r == Ok::<u128, Error>(cost as u128)
                            &&& Contract::approvals_set(
                                final(self),
                                old(self),
                                t,
                                o,
                                m.remove(account_id@),
                                next,
                            )
                        }
                    },
                },
    {
        if attached_deposit != 1 {
            return Err(Error::RequiresOneYocto);
        }
        let (tid, owner) = match resolve_token_id(token_id.as_str()) {
            Ok(p) => p,
            Err(e) => return Err(e),
        };
        assert(splits_into(token_id@, tid@, owner@));
        let token = match self.tokens_by_id.get(&tid) {
            Some(t) => t,
            None => return Err(Error::UnknownAsset),
        };
        if !self.owns_token(&owner, &tid) || *predecessor_id != owner {
            return Err(Error::NotOwner);
        }
        let approved = match token.account_approval_info_per_owner.get(&owner) {
            Some(i) => i.approved_account_ids.contains_key(account_id),
            None => false,
        };
        if !approved {
            return Ok(0);
        }
        let refund = match storage_cost(bytes_for_approved_account_id(account_id.as_str())) {
            Ok(v) => v,
            Err(e) => return Err(e),
        };
        let ghost old_self = *self;
        let ghost ot = old_self.tokens_by_id@[tid@];
        let mut token = match self.tokens_by_id.remove(&tid) {
            Some(t) => t,
            None => return Err(Error::UnknownAsset),
        };
        let mut info = match token.account_approval_info_per_owner.remove(&owner) {
            Some(i) => i,
            None => ApprovalInfo::new(0),
        };
        info.approved_account_ids.remove(account_id);
        token.account_approval_info_per_owner.insert(owner.clone(), info);
        let ghost nt = token;
        self.tokens_by_id.insert(tid.clone(), token);
        proof {
            assert(self.tokens_by_id@.remove(tid@) =~= old_self.tokens_by_id@.remove(tid@));
            assert(nt.account_approval_info_per_owner@.remove(owner@)
                =~= ot.account_approval_info_per_owner@.remove(owner@));
        }
        Ok(refund)
    }

    /// Withdraws every approval on the caller's copy named `token_id`,
    /// keeping its id counter. The storage they took is paid back. The call
    /// must attach exactly one yoctoNEAR.
    pub fn nft_revoke_all(
        &mut self,
        predecessor_id: &String,
        attached_deposit: u128,
        token_id: &String,
    ) -> (r: Result<u128, Error>)
        requires
            old(self).wf(),
        ensures
            final(self).wf(),
            attached_deposit != 1 ==> r == Err::<u128, Error>(Error::RequiresOneYocto) && *final(self)
                == *old(self),
            attached_deposit == 1 && !has_two_dots(token_id@) ==> r == Err::<u128, Error>(
                Error::InvalidId,
            ) && *final(self) == *old(self),
            attached_deposit == 1 && has_two_dots(token_id@) ==> exists|t: Seq<char>, o: Seq<char>|
                #[trigger] splits_into(token_id@, t, o) && match old(self).revoke_error(
                    predecessor_id@,
                    t,
                    o,
                ) {
                    Some(e) => r == Err::<u128, Error>(e) && *final(self) == *old(self),
                    None => {
                        let ot = old(self).tokens_by_id@[t];
                        let (m, next) = ot.info_of(o);
                        if m == Map::<Seq<char>, u64>::empty() {
                            r == Ok::<u128, Error>(0) && *final(self) == *old(self)
                        } else {
                            let cost = approvals_storage(
                                ot.account_approval_info_per_owner@[o].approved_account_ids.entries@,
                            ) * STORAGE_PRICE_PER_BYTE;
                            if cost > u128::MAX {
                                r == Err::<u128, Error>(Error::Overflow) && *final(self) == *old(self)
                            } else {
                                &&& r == Ok::<u128, Error>(cost as u128)
                                &&& Contract::approvals_set(
                                    final(self),
                                    old(self),
                                    t,
                                    o,
                                    Map::<Seq<char>, u64>::empty(),
                                    next,
                                )
                            }
                        }
                    },
                },
    {
        if attached_deposit != 1 {
            return Err(Error::RequiresOneYocto);
        }
        let (tid, owner) = match resolve_token_id(token_id.as_str()) {
            Ok(p) => p,
            Err(e) => return Err(e),
        };
        assert(splits_into(token_id@, tid@, owner@));
        let token = match self.tokens_by_id.get(&tid) {
            Some(t) => t,
            None => return Err(Error::UnknownAsset),
        };
        if !self.owns_token(&owner, &tid) || *predecessor_id != owner {
            return Err(Error::NotOwner);
        }
        let refund = match token.account_approval_info_per_owner.get(&owner) {
            None => return Ok(0),
            Some(i) => {
                if i.approved_account_ids.is_empty() {
                    return Ok(0);
                }
                match refund_approved_account_ids(&i.approved_account_ids) {
                    Ok(v) => v,
                    Err(e) => return Err(e),
                }
            },
        };
        let ghost old_self = *self;
        let ghost ot = old_self.tokens_by_id@[tid@];
        let mut token = match self.tokens_by_id.remove(&tid) {
            Some(t) => t,
            None => return Err(Error::UnknownAsset),
        };
        let next = match token.account_approval_info_per_owner.remove(&owner) {
            Some(i) => i.next_approval_id,
            None => 0,
        };
        token.account_approval_info_per_owner.insert(owner.clone(), ApprovalInfo::new(next));
        let ghost nt = token;
        self.tokens_by_id.insert(tid.clone(), token);
        proof {
            assert(self.tokens_by_id@.remove(tid@) =~= old_self.tokens_by_id@.remove(tid@));
            assert(nt.account_approval_info_per_owner@.remove(owner@)
                =~= ot.account_approval_info_per_owner@.remove(owner@));
        }
        Ok(refund)
    }

    /// Why issuing a copy of `token_id` to `receiver` is refused, if it is.
    pub open spec fn register_error(
        &self,
        receiver: Seq<char>,
        token_id: Seq<char>,
        attached_deposit: u128,
        now: u64,
    ) -> Option<Error> {
        if !self.tokens_by_id@.contains_key(token_id) {
            Some(Error::UnknownAsset)
        } else {
            let token = self.tokens_by_id@[token_id];
            let cost = self.holder_storage(receiver) * STORAGE_PRICE_PER_BYTE;
            match token.expiry(now) {
                Err(e) => Some(e),
                Ok(true) => Some(Error::AssetExpired),
                Ok(false) => if token.copies_minted >= token.max_copies {
                    Some(Error::AssetExhausted)
                } else if !self.eligible(receiver, &token) {
                    Some(Error::DependencyNotSatisfied)
                } else if self.owns(receiver, token_id) {
                    Some(Error::AlreadyExists)
                } else if cost > u128::MAX {
                    Some(Error::Overflow)
                } else if attached_deposit < cost {
                    Some(Error::InsufficientDeposit)
                } else {
                    None
                },
            }
        }
    }

    /// The bytes that a first copy adds for an account that holds none.
    pub open spec fn holder_storage(&self, account: Seq<char>) -> int {
        if self.tokens_per_owner@.contains_key(account) {
            0
        } else {
            encode_utf8(account).len() + 4int
        }
    }

    /// Issues a copy of `token_id` to `receiver_id`, if the token has not
    /// expired, has copies left, and the receiver meets its dependencies.
    /// The deposit pays for the storage of a first copy; what exceeds it by
    /// more than one yoctoNEAR goes back.
    pub fn nft_event_register(
        &mut self,
        receiver_id: &String,
        token_id: &String,
        attached_deposit: u128,
        block_timestamp: u64,
    ) -> (r: Result<Registration, Error>)
        requires
            old(self).wf(),
        ensures
            final(self).wf(),
            match old(self).register_error(receiver_id@, token_id@, attached_deposit, block_timestamp) {
                Some(e) => r == Err::<Registration, Error>(e) && *final(self) == *old(self),
                None => (r matches Ok(reg) && {
                    let ot = old(self).tokens_by_id@[token_id@];
                    let nt = final(self).tokens_by_id@[token_id@];
                    let cost = old(self).holder_storage(receiver_id@) * STORAGE_PRICE_PER_BYTE;
                    &&& Contract::token_changed(final(self), old(self), token_id@)
                    &&& forall|a: Seq<char>, t: Seq<char>| #[trigger]
                        final(self).owns(a, t) == (old(self).owns(a, t) || (a == receiver_id@ && t
                            == token_id@))
                    &&& nt.copies_minted == ot.copies_minted + 1
                    &&& nt.max_copies == ot.max_copies
                    &&& nt.expires_at == ot.expires_at
                    &&& nt.token_dependency_by_id == ot.token_dependency_by_id
                    &&& nt.event_dependency_by_id == ot.event_dependency_by_id
                    &&& nt.account_approval_info_per_owner == ot.account_approval_info_per_owner
                    &&& reg.refund == if attached_deposit - cost > 1 {
                        attached_deposit - cost
                    } else {
                        0
                    }
                    &&& reg.log.owner_id@ == receiver_id@
                }),
            },
    {
        let token = match self.tokens_by_id.get(token_id) {
            Some(t) => t,
            None => return Err(Error::UnknownAsset),
        };
        match internal_is_token_expired(token, block_timestamp) {
            Err(e) => return Err(e),
            Ok(true) => return Err(Error::AssetExpired),
            Ok(false) => {},
        }
        if let Err(e) = assert_token_availability(token) {
            return Err(e);
        }
        if !self.internal_is_eligible_to_mint_token(receiver_id, token) {
            return Err(Error::DependencyNotSatisfied);
        }
        if self.owns_token(receiver_id, token_id) {
            return Err(Error::AlreadyExists);
        }
        let storage_used = if self.tokens_per_owner.contains_key(receiver_id) {
            0
        } else {
            bytes_for_token_or_event_or_account_id(receiver_id.as_str())
        };
        let refund = match refund_deposit(storage_used, attached_deposit) {
            Ok(v) => v,
            Err(e) => return Err(e),
        };
        let ghost old_self = *self;
        let mut token = match self.tokens_by_id.remove(token_id) {
            Some(t) => t,
            None => return Err(Error::UnknownAsset),
        };
        token.copies_minted = token.copies_minted + 1;
        self.tokens_by_id.insert(token_id.clone(), token);
        proof {
            assert(self.tokens_by_id@.remove(token_id@) =~= old_self.tokens_by_id@.remove(token_id@));
        }
        let added = self.internal_add_token_to_owner(receiver_id, token_id);
        assert(added is Ok);
        let log = NftMintLog {
            owner_id: receiver_id.clone(),
            token_ids: vec![token_id.clone()],
            memo: None,
        };
        Ok(Registration { refund, log })
    }
}


pub const GAS_FOR_NFT_RESOLVE_TRANSFER: u64 = 10_000_000_000_000;

pub const GAS_FOR_NFT_TRANSFER_CALL: u64 = 25_000_000_000_000 + GAS_FOR_NFT_RESOLVE_TRANSFER;

/// What `serde_json` makes of a byte string as the JSON form of a `bool`, if
/// it reads it.
pub uninterp spec fn json_bool_of(b: Seq<u8>) -> Option<bool>;

/// Relies on `near_sdk::serde_json::from_slice::<bool>` to read whether a
/// receiver asks for the copy to be returned.
#[verifier::external_body]
fn parse_json_bool(value: &Vec<u8>) -> (r: Option<bool>)
    ensures
        r == json_bool_of(value@),
{
    match near_sdk::serde_json::from_slice::<bool>(value) {
        Ok(b) => Some(b),
        Err(_) => None,
    }
}

/// Whether the receiver's answer asks for the copy back: a readable `true`,
/// or anything that is not a readable `false`.
pub open spec fn asks_return(outcome: &PromiseOutcome) -> bool {
    match outcome {
        PromiseOutcome::Successful(v) => match json_bool_of(v@) {
            Some(b) => b,
            None => true,
        },
        PromiseOutcome::Failed => true,
    }
}

/// A copy moved to a receiver that is now to be told, with what
/// reconciliation will need: the previous holder's approvals, and the gas
/// for the notification and for the reconciliation after it.
pub struct NftTransferCall {
    pub transfer: NftTransfer,
    pub token_id: String,
    pub receiver_id: String,
    pub msg: String,
    pub notify_gas: u64,
    pub resolve_gas: u64,
}

/// How reconciliation ended: whether the receiver keeps the copy, the
/// deposit for the receiver's cleared approvals (`None` when it is too large
/// to represent), and the record of a move back.
pub struct NftResolution {
    pub kept: bool,
    pub refund: Option<u128>,
    pub log: Option<NftTransferLog>,
}

impl Contract {
    /// Moves the copy named `token_id` to `receiver_id` at once, and hands back
    /// what the receiver is to be told. Nothing changes unless exactly one
    /// yoctoNEAR is attached, the gas covers the notification and the
    /// reconciliation, and the transfer itself is admitted.
    pub fn nft_transfer_call(
        &mut self,
        predecessor_id: &String,
        attached_deposit: u128,
        prepaid_gas: u64,
        receiver_id: &String,
        token_id: &String,
        approval_id: Option<u64>,
        memo: Option<String>,
        msg: String,
        block_timestamp: u64,
    ) -> (r: Result<NftTransferCall, Error>)
        requires
            old(self).wf(),
        ensures
            final(self).wf(),
            attached_deposit != 1 ==> r == Err::<NftTransferCall, Error>(Error::RequiresOneYocto)
                && *final(self) == *old(self),
            attached_deposit == 1 && prepaid_gas <= GAS_FOR_NFT_TRANSFER_CALL
                + GAS_FOR_NFT_RESOLVE_TRANSFER ==> r == Err::<NftTransferCall, Error>(
                Error::InsufficientExecutionBudget,
            ) && *final(self) == *old(self),
            attached_deposit == 1 && prepaid_gas > GAS_FOR_NFT_TRANSFER_CALL
                + GAS_FOR_NFT_RESOLVE_TRANSFER && !has_two_dots(token_id@) ==> r == Err::<
                NftTransferCall,
                Error,
            >(Error::InvalidId) && *final(self) == *old(self),
            attached_deposit == 1 && prepaid_gas > GAS_FOR_NFT_TRANSFER_CALL
                + GAS_FOR_NFT_RESOLVE_TRANSFER && has_two_dots(token_id@) ==> exists|
                t: Seq<char>,
                o: Seq<char>,
            |
                #[trigger] splits_into(token_id@, t, o) && match old(self).transfer_error(
                    predecessor_id@,
                    receiver_id@,
                    t,
                    o,
                    approval_id,
                    block_timestamp,
                ) {
                    Some(e) => r == Err::<NftTransferCall, Error>(e) && *final(self) == *old(self),
                    None => (r matches Ok(c) && Contract::transferred(
                        final(self),
                        old(self),
                        t,
                        o,
                        receiver_id@,
                    ) && c.token_id@ == t && c.transfer.old_owner_id@ == o && c.receiver_id@
                        == receiver_id@ && c.msg == msg && c.notify_gas == prepaid_gas
                        - GAS_FOR_NFT_TRANSFER_CALL && c.resolve_gas == GAS_FOR_NFT_RESOLVE_TRANSFER
                        && (c.transfer.old_approval_info matches Some(i) ==> i.wf())),
                },
    {
        if attached_deposit != 1 {
            return Err(Error::RequiresOneYocto);
        }
        if prepaid_gas <= GAS_FOR_NFT_TRANSFER_CALL + GAS_FOR_NFT_RESOLVE_TRANSFER {
            return Err(Error::InsufficientExecutionBudget);
        }
        let (tid, owner) = match resolve_token_id(token_id.as_str()) {
            Ok(p) => p,
            Err(e) => return Err(e),
        };
        assert(splits_into(token_id@, tid@, owner@));
        let transfer = match self.internal_transfer(
            predecessor_id,
            receiver_id,
            &tid,
            &owner,
            approval_id,
            memo,
            block_timestamp,
        ) {
            Ok(t) => t,
            Err(e) => return Err(e),
        };
        Ok(NftTransferCall {
            transfer,
            token_id: tid,
            receiver_id: receiver_id.clone(),
            msg,
            notify_gas: prepaid_gas - GAS_FOR_NFT_TRANSFER_CALL,
            resolve_gas: GAS_FOR_NFT_RESOLVE_TRANSFER,
        })
    }

    /// Whether reconciliation moves the copy back: the receiver asked for
    /// it, still holds it, and the previous holder holds none of the token.
    pub open spec fn reverts(
        &self,
        owner: Seq<char>,
        receiver: Seq<char>,
        token_id: Seq<char>,
        outcome: &PromiseOutcome,
    ) -> bool {
        &&& asks_return(outcome)
        &&& self.tokens_by_id@.contains_key(token_id)
        &&& self.owns(receiver, token_id)
        &&& !self.owns(owner, token_id)
        &&& owner != receiver
    }

    /// Reconciles a transfer made by `nft_transfer_call` once its notification
    /// has ended. Only the contract itself may call it. It reads the
    /// registry as it is now: when the receiver asked for the copy back and
    /// still holds it, the copy returns to `owner_id`, the receiver's
    /// approvals on it are cleared, and the approvals that `owner_id` had
    /// before are restored; otherwise nothing changes and the receiver keeps it.
    pub fn nft_resolve_transfer(
        &mut self,
        predecessor_id: &String,
        current_account_id: &String,
        owner_id: &String,
        receiver_id: &String,
        token_id: &String,
        approved_account_ids: Option<ApprovalInfo>,
        outcome: &PromiseOutcome,
    ) -> (r: Result<NftResolution, Error>)
        requires
            old(self).wf(),
            approved_account_ids matches Some(i) ==> i.wf(),
        ensures
            final(self).wf(),
            predecessor_id@ != current_account_id@ ==> r == Err::<NftResolution, Error>(
                Error::Unauthorized,
            ) && *final(self) == *old(self),
            predecessor_id@ == current_account_id@ && !old(self).reverts(
                owner_id@,
                receiver_id@,
                token_id@,
                outcome,
            ) ==> (r matches Ok(res) && res.kept && *final(self) == *old(self)),
            predecessor_id@ == current_account_id@ && old(self).reverts(
                owner_id@,
                receiver_id@,
                token_id@,
                outcome,
            ) ==> (r matches Ok(res) && !res.kept && {
                let ot = old(self).tokens_by_id@[token_id@];
                let nt = final(self).tokens_by_id@[token_id@];
                let (snap, snap_next) = match approved_account_ids {
                    Some(i) => (i.approved_account_ids@, i.next_approval_id),
                    None => (Map::<Seq<char>, u64>::empty(), 0u64),
                };
                let recv_next = ot.info_of(receiver_id@).1;
                &&& Contract::token_changed(final(self), old(self), token_id@)
                &&& forall|a: Seq<char>, t: Seq<char>| #[trigger]
                    final(self).owns(a, t) == ((old(self).owns(a, t) && !(a == receiver_id@ && t
                        == token_id@)) || (a == owner_id@ && t == token_id@))
                &&& nt.same_terms(&ot)
                &&& nt.account_approval_info_per_owner@.remove(owner_id@)
                    == ot.account_approval_info_per_owner@.remove(receiver_id@).remove(owner_id@)
                &&& nt.info_of(owner_id@) == (snap, if snap_next > recv_next {
                    snap_next
                } else {
                    recv_next
                })
            }),
    {
        if *predecessor_id != *current_account_id {
            return Err(Error::Unauthorized);
        }
        let must_revert = match outcome {
            PromiseOutcome::Successful(value) => match parse_json_bool(value) {
                Some(b) => b,
                None => true,
            },
            PromiseOutcome::Failed => true,
        };
        if !must_revert || *owner_id == *receiver_id || !self.tokens_by_id.contains_key(token_id)
            || !self.owns_token(receiver_id, token_id) || self.owns_token(owner_id, token_id) {
            return Ok(NftResolution { kept: true, refund: None, log: None });
        }
        let ghost old_self = *self;
        let ghost ot = old_self.tokens_by_id@[token_id@];
        let mut token = match self.tokens_by_id.remove(token_id) {
            Some(t) => t,
            None => return Ok(NftResolution { kept: true, refund: None, log: None }),
        };
        let receiver_info = token.account_approval_info_per_owner.remove(receiver_id);
        let (refund, receiver_next) = match &receiver_info {
            Some(i) => (
                match refund_approved_account_ids(&i.approved_account_ids) {
                    Ok(v) => Some(v),
                    Err(_) => None,
                },
                i.next_approval_id,
            ),
            None => (Some(0), 0),
        };
        let mut restored = match approved_account_ids {
            Some(i) => i,
            None => ApprovalInfo::new(0),
        };
        if receiver_next > restored.next_approval_id {
            restored.next_approval_id = receiver_next;
        }
        token.account_approval_info_per_owner.insert(owner_id.clone(), restored);
        let ghost nt = token;
        self.tokens_by_id.insert(token_id.clone(), token);
        proof {
            assert(self.tokens_by_id@.remove(token_id@) =~= old_self.tokens_by_id@.remove(token_id@));
            assert(nt.account_approval_info_per_owner@.remove(owner_id@)
                =~= ot.account_approval_info_per_owner@.remove(receiver_id@).remove(owner_id@));
        }
        let r1 = self.internal_remove_token_from_owner(receiver_id, token_id);
        let r2 = self.internal_add_token_to_owner(owner_id, token_id);
        proof {
            assert(r1 is Ok);
            assert(r2 is Ok);
        }
        let log = NftTransferLog {
            authorized_id: None,
            old_owner_id: receiver_id.clone(),
            new_owner_id: owner_id.clone(),
            token_ids: vec![token_id.clone()],
            memo: None,
        };
        Ok(NftResolution { kept: false, refund, log: Some(log) })
    }
}


/// The marketplace that a new registry approves from the start.
pub const CATCH_MARKETPLACE_CONTRACT: &'static str = "marketplace.catchlabs.test.near";

/// A token that an event issues, as the organiser describes it.
pub struct TokenInfo {
    /// The token's identifier within the event.
    pub token_id: String,
    pub token_metadata: TokenMetadata,
    pub token_dependency_by_id: Vec<String>,
    pub event_dependency_by_id: Vec<String>,
}

/// The full identifier of the `i`-th token of an event: `event_id.token_id`.
pub open spec fn pass_id(event_id: Seq<char>, tokens: Seq<TokenInfo>, i: int) -> Seq<char> {
    event_id + seq!['.'] + tokens[i].token_id@
}

/// The storage that the copies of an event's tokens will take, in bytes.
pub open spec fn passes_storage(event_id: Seq<char>, tokens: Seq<TokenInfo>) -> int
    decreases tokens.len(),
{
    if tokens.len() == 0 {
        0
    } else {
        let i = tokens.len() - 1;
        passes_storage(event_id, tokens.drop_last()) + (encode_utf8(pass_id(event_id, tokens, i)).len()
            + 4) * copies_of(&tokens[i].token_metadata)
    }
}

/// How many copies a token may have: as its metadata says, one by default.
pub open spec fn copies_of(m: &TokenMetadata) -> u64 {
    match m.copies {
        Some(c) => c,
        None => 1,
    }
}

impl Contract {
    /// An empty registry owned by `owner_id` that approves the house marketplace.
    pub fn new(owner_id: String, metadata: NFTContractMetadata) -> (r: Result<Contract, Error>)
        ensures
            !valid_account_id(encode_utf8(owner_id@)) ==> r == Err::<Contract, Error>(Error::InvalidId),
            valid_account_id(encode_utf8(owner_id@)) && metadata.reference_hash@.len() != 32 ==> r
                == Err::<Contract, Error>(Error::InvalidMetadata),
            valid_account_id(encode_utf8(owner_id@)) && metadata.reference_hash@.len() == 32 ==> (r matches Ok(c)
                && c.wf() && c.owner_id@ == owner_id@ && c.tokens_by_id@ == Map::<Seq<char>, Token>::empty()
                && c.metadata == metadata
                && c.tokens_per_owner@ == Map::<Seq<char>, Table<()>>::empty()
                && c.events_by_id@ == Map::<Seq<char>, Event>::empty()
                && c.approved_marketplaces@.dom() == set![CATCH_MARKETPLACE_CONTRACT@]),
    {
        if !is_valid_account_id(owner_id.as_str()) {
            return Err(Error::InvalidId);
        }
        if metadata.assert_valid_metadata().is_err() {
            return Err(Error::InvalidMetadata);
        }
        let mut approved_marketplaces = Table::new();
        approved_marketplaces.push_new(CATCH_MARKETPLACE_CONTRACT.to_owned(), ());
        assert(approved_marketplaces@.dom() =~= set![CATCH_MARKETPLACE_CONTRACT@]);
        Ok(Contract {
            owner_id,
            tokens_per_owner: Table::new(),
            tokens_by_id: Table::new(),
            token_metadata_by_id: Table::new(),
            events_by_id: Table::new(),
            approved_marketplaces,
            metadata,
        })
    }

    /// Adds marketplaces that holders may approve. Only the contract's owner
    /// may call it. Says for each whether it was new.
    #[verifier::loop_isolation(false)]
    pub fn approve_marketplaces(&mut self, predecessor_id: &String, marketplaces: Vec<String>) -> (r: Result<Vec<bool>, Error>)
        requires
            old(self).wf(),
        ensures
            final(self).wf(),
            predecessor_id@ != old(self).owner_id@ ==> r == Err::<Vec<bool>, Error>(Error::NotOwner)
                && *final(self) == *old(self),
            predecessor_id@ == old(self).owner_id@ && (exists|i: int| 0 <= i < marketplaces@.len()
                && !valid_account_id(encode_utf8(#[trigger] marketplaces@[i]@))) ==> r == Err::<Vec<bool>, Error>(
                Error::InvalidId,
            ) && *final(self) == *old(self),
            predecessor_id@ == old(self).owner_id@ && (forall|i: int| 0 <= i < marketplaces@.len()
                ==> valid_account_id(encode_utf8(#[trigger] marketplaces@[i]@))) ==> (r matches Ok(added)
                && added@.len() == marketplaces@.len() && final(self).approved_marketplaces@.dom()
                =~= old(self).approved_marketplaces@.dom() + Set::new(|m: Seq<char>| exists|i: int| 0 <= i < marketplaces@.len() && #[trigger] marketplaces@[i]@ == m)
                && forall|i: int| 0 <= i < marketplaces@.len() ==> #[trigger] added@[i] == !(old(self).approved_marketplaces@.contains_key(marketplaces@[i]@) || exists|j: int| 0 <= j < i && marketplaces@[j]@ == marketplaces@[i]@)),
    {
        if *predecessor_id != self.owner_id {
            return Err(Error::NotOwner);
        }
        let n = marketplaces.len();
        let mut i: usize = 0;
        while i < n
            invariant
                n == marketplaces@.len(),
                i <= n,
                forall|k: int| 0 <= k < i ==> valid_account_id(encode_utf8(#[trigger] marketplaces@[k]@)),
            decreases n - i,
        {
            if !is_valid_account_id(marketplaces[i].as_str()) {
                return Err(Error::InvalidId);
            }
            i = i + 1;
        }
        let ghost before = self.approved_marketplaces@;
        let mut added: Vec<bool> = Vec::new();
        i = 0;
        while i < n
            invariant
                n == marketplaces@.len(),
                i <= n,
                added@.len() == i,
                self.wf(),
                self.approved_marketplaces@.dom() =~= before.dom() + Set::new(|m: Seq<char>| exists|k: int| 0 <= k < i && #[trigger] marketplaces@[k]@ == m),
                forall|k: int| 0 <= k < i ==> #[trigger] added@[k] == !(before.contains_key(marketplaces@[k]@) || exists|j: int| 0 <= j < k && marketplaces@[j]@ == marketplaces@[k]@),
            decreases n - i,
        {
            let fresh = self.approved_marketplaces.insert(marketplaces[i].clone(), ()).is_none();
            proof {
                assert(fresh == !(before.contains_key(marketplaces@[i as int]@) || exists|j: int| 0 <= j < i && marketplaces@[j]@ == marketplaces@[i as int]@)) by {
                    if exists|j: int| 0 <= j < i && marketplaces@[j]@ == marketplaces@[i as int]@ {
                        let j = choose|j: int| 0 <= j < i && marketplaces@[j]@ == marketplaces@[i as int]@;
                        assert(marketplaces@[j]@ == marketplaces@[i as int]@);
                    }
                }
            }
            added.push(fresh);
            i = i + 1;
        }
        Ok(added)
    }
}


/// `t` is the full identifier of one of an event's tokens from position `from` on.
pub open spec fn names_pass_from(event_id: Seq<char>, tokens: Seq<TokenInfo>, from: int, t: Seq<char>) -> bool {
    exists|i: int| from <= i < tokens.len() && t == pass_id(event_id, tokens, i)
}

/// `t` is the full identifier of one of an event's tokens.
pub open spec fn names_pass(event_id: Seq<char>, tokens: Seq<TokenInfo>, t: Seq<char>) -> bool {
    names_pass_from(event_id, tokens, 0, t)
}

/// `token` is the fresh token that `info` describes, under `id`.
pub open spec fn fresh_token(token: Token, info: TokenInfo, id: Seq<char>) -> bool {
    &&& token.token_id@ == id
    &&& token.copies_minted == 0
    &&& token.max_copies == copies_of(&info.token_metadata)
    &&& token.expires_at == info.token_metadata.expires_at
    &&& token.token_dependency_by_id == info.token_dependency_by_id
    &&& token.event_dependency_by_id == info.event_dependency_by_id
    &&& token.account_approval_info_per_owner@ == Map::<Seq<char>, ApprovalInfo>::empty()
}

proof fn lemma_passes_storage_prefix(event_id: Seq<char>, tokens: Seq<TokenInfo>, i: int)
    requires
        0 <= i <= tokens.len(),
    ensures
        0 <= passes_storage(event_id, tokens.take(i)) <= passes_storage(event_id, tokens),
    decreases tokens.len() - i,
{
    if i < tokens.len() {
        assert(tokens.take(i + 1).drop_last() =~= tokens.take(i));
        assert(pass_id(event_id, tokens.take(i + 1), i) == pass_id(event_id, tokens, i));
        lemma_passes_storage_prefix(event_id, tokens, i + 1);
        lemma_passes_storage_nonneg(event_id, tokens.take(i));
    } else {
        assert(tokens.take(i) =~= tokens);
        lemma_passes_storage_nonneg(event_id, tokens);
    }
}

proof fn lemma_passes_storage_nonneg(event_id: Seq<char>, tokens: Seq<TokenInfo>)
    ensures
        passes_storage(event_id, tokens) >= 0,
    decreases tokens.len(),
{
    if tokens.len() > 0 {
        lemma_passes_storage_nonneg(event_id, tokens.drop_last());
    }
}

impl Contract {
    /// Why organising event `event_id` with `tokens` is refused, if it is.
    pub open spec fn organise_error(&self, event_id: Seq<char>, tokens: Seq<TokenInfo>) -> Option<Error> {
        if !valid_id(event_id) {
            Some(Error::InvalidId)
        } else if exists|i: int| 0 <= i < tokens.len() && !valid_id(#[trigger] tokens[i].token_id@) {
            Some(Error::InvalidId)
        } else if exists|i: int|
            0 <= i < tokens.len() && (self.tokens_by_id@.contains_key(#[trigger] pass_id(event_id, tokens, i))
                || exists|j: int| 0 <= j < i && pass_id(event_id, tokens, j) == pass_id(event_id, tokens, i)) {
            Some(Error::AlreadyExists)
        } else if self.events_by_id@.contains_key(event_id) {
            Some(Error::AlreadyExists)
        } else if passes_storage(event_id, tokens) > u128::MAX {
            Some(Error::Overflow)
        } else {
            None
        }
    }

    /// Creates event `event_id`, organised by the caller, with a token of
    /// identifier `event_id.token_id` for each of `tokens`. Returns the
    /// storage in bytes that all copies of those tokens will take, for which
    /// the organiser's deposit must pay together with what the call itself
    /// stores. Nothing changes on a refusal.
    #[verifier::loop_isolation(false)]
    pub fn organise_event(
        &mut self,
        predecessor_id: &String,
        event_id: &String,
        tokens: Vec<TokenInfo>,
    ) -> (r: Result<u128, Error>)
        requires
            old(self).wf(),
        ensures
            final(self).wf(),
            match old(self).organise_error(event_id@, tokens@) {
                Some(e) => r == Err::<u128, Error>(e) && *final(self) == *old(self),
                None => {
                    &&& r == Ok::<u128, Error>(passes_storage(event_id@, tokens@) as u128)
                    &&& final(self).tokens_per_owner == old(self).tokens_per_owner
                    &&& final(self).approved_marketplaces == old(self).approved_marketplaces
                    &&& final(self).events_by_id@.contains_key(event_id@)
                    &&& final(self).events_by_id@.remove(event_id@) == old(self).events_by_id@.remove(event_id@)
                    &&& final(self).events_by_id@[event_id@].organiser@ == predecessor_id@
                    &&& final(self).events_by_id@[event_id@].event_passes@.len() == tokens@.len()
                    &&& forall|i: int| 0 <= i < tokens@.len() ==> #[trigger] final(self).events_by_id@[event_id@].event_passes@[i]@
                        == pass_id(event_id@, tokens@, i)
                    &&& forall|i: int| 0 <= i < tokens@.len() ==> final(self).tokens_by_id@.contains_key(
                        #[trigger] pass_id(event_id@, tokens@, i)) && fresh_token(
                        final(self).tokens_by_id@[pass_id(event_id@, tokens@, i)],
                        tokens@[i],
                        pass_id(event_id@, tokens@, i),
                    )
                    &&& forall|t: Seq<char>| !names_pass(event_id@, tokens@, t)
                        ==> #[trigger] final(self).tokens_by_id@.contains_key(t) == old(self).tokens_by_id@.contains_key(t)
                    &&& forall|t: Seq<char>| !names_pass(event_id@, tokens@, t)
                        && #[trigger] old(self).tokens_by_id@.contains_key(t)
                        ==> final(self).tokens_by_id@[t] == old(self).tokens_by_id@[t]
                },
            },
    {
        let ghost old_self = *self;
        if assert_valid_id(event_id.as_str()).is_err() {
            return Err(Error::InvalidId);
        }
        let n = tokens.len();
        let mut i: usize = 0;
        while i < n
            invariant
                n == tokens@.len(),
                i <= n,
                forall|k: int| 0 <= k < i ==> valid_id(#[trigger] tokens@[k].token_id@),
            decreases n - i,
        {
            if assert_valid_id(tokens[i].token_id.as_str()).is_err() {
                assert(!valid_id(tokens@[i as int].token_id@));
                return Err(Error::InvalidId);
            }
            i = i + 1;
        }
        let mut fulls: Vec<String> = Vec::new();
        i = 0;
        while i < n
            invariant
                n == tokens@.len(),
                i <= n,
                fulls@.len() == i,
                forall|k: int| 0 <= k < i ==> #[trigger] fulls@[k]@ == pass_id(event_id@, tokens@, k),
                forall|k: int|
                    0 <= k < i ==> !(self.tokens_by_id@.contains_key(#[trigger] pass_id(event_id@, tokens@, k))
                        || exists|j: int| 0 <= j < k && pass_id(event_id@, tokens@, j) == pass_id(event_id@, tokens@, k)),
            decreases n - i,
        {
            let full = build_full_token_id(event_id.clone(), tokens[i].token_id.clone());
            if self.tokens_by_id.contains_key(&full) {
                assert(self.tokens_by_id@.contains_key(pass_id(event_id@, tokens@, i as int)));
                return Err(Error::AlreadyExists);
            }
            let mut j: usize = 0;
            while j < i
                invariant
                    i < n,
                    fulls@.len() == i,
                    full@ == pass_id(event_id@, tokens@, i as int),
                    forall|k: int| 0 <= k < i ==> #[trigger] fulls@[k]@ == pass_id(event_id@, tokens@, k),
                    j <= i,
                    forall|q: int| 0 <= q < j ==> pass_id(event_id@, tokens@, q) != full@,
                decreases i - j,
            {
                if fulls[j] == full {
                    assert(pass_id(event_id@, tokens@, j as int) == pass_id(event_id@, tokens@, i as int));
                    return Err(Error::AlreadyExists);
                }
                j = j + 1;
            }
            fulls.push(full);
            i = i + 1;
        }
        if self.events_by_id.contains_key(event_id) {
            return Err(Error::AlreadyExists);
        }
        let mut storage: u128 = 0;
        i = 0;
        while i < n
            invariant
                n == tokens@.len(),
                i <= n,
                fulls@.len() == n,
                forall|k: int| 0 <= k < n ==> #[trigger] fulls@[k]@ == pass_id(event_id@, tokens@, k),
                storage == passes_storage(event_id@, tokens@.take(i as int)),
            decreases n - i,
        {
            proof {
                assert(tokens@.take(i + 1).drop_last() =~= tokens@.take(i as int));
                assert(pass_id(event_id@, tokens@.take(i + 1), i as int) == pass_id(event_id@, tokens@, i as int));
                lemma_passes_storage_prefix(event_id@, tokens@, i + 1);
            }
            let copies = match tokens[i].token_metadata.copies {
                Some(c) => c,
                None => 1,
            };
            let bytes = bytes_for_token_or_event_or_account_id(fulls[i].as_str());
            let term = match bytes.checked_mul(copies as u128) {
                Some(v) => v,
                None => return Err(Error::Overflow),
            };
            storage = match storage.checked_add(term) {
                Some(v) => v,
                None => return Err(Error::Overflow),
            };
            i = i + 1;
        }
        proof {
            assert(tokens@.take(n as int) =~= tokens@);
        }
        let ghost orig = tokens@;
        let mut rest = tokens;
        let mut k: usize = n;
        while k > 0
            invariant
                k <= n,
                n == orig.len(),
                rest@ == orig.take(k as int),
                fulls@.len() == n,
                forall|q: int| 0 <= q < n ==> #[trigger] fulls@[q]@ == pass_id(event_id@, orig, q),
                forall|q: int| 0 <= q < n ==> !old_self.tokens_by_id@.contains_key(#[trigger] pass_id(event_id@, orig, q)),
                forall|q: int, p: int| 0 <= p < q < n ==> pass_id(event_id@, orig, p) != pass_id(event_id@, orig, q),
                self.wf(),
                self.tokens_per_owner == old_self.tokens_per_owner,
                self.events_by_id == old_self.events_by_id,
                self.approved_marketplaces == old_self.approved_marketplaces,
                self.owner_id == old_self.owner_id,
                forall|q: int| k <= q < n ==> self.tokens_by_id@.contains_key(#[trigger] pass_id(event_id@, orig, q))
                    && fresh_token(self.tokens_by_id@[pass_id(event_id@, orig, q)], orig[q], pass_id(event_id@, orig, q)),
                forall|t: Seq<char>| !names_pass_from(event_id@, orig, k as int, t)
                    ==> (#[trigger] self.tokens_by_id@.contains_key(t) == old_self.tokens_by_id@.contains_key(t)
                    && (old_self.tokens_by_id@.contains_key(t) ==> self.tokens_by_id@[t] == old_self.tokens_by_id@[t])),
            decreases k,
        {
            let info = match rest.pop() {
                Some(x) => x,
                None => return Err(Error::InvalidId),
            };
            k = k - 1;
            assert(info == orig[k as int]);
            let full = fulls[k].clone();
            let copies = match info.token_metadata.copies {
                Some(c) => c,
                None => 1,
            };
            let token = Token {
                token_id: full.clone(),
                copies_minted: 0,
                max_copies: copies,
                expires_at: info.token_metadata.expires_at,
                token_dependency_by_id: info.token_dependency_by_id,
                event_dependency_by_id: info.event_dependency_by_id,
                account_approval_info_per_owner: Table::new(),
            };
            let ghost prev = self.tokens_by_id@;
            self.tokens_by_id.insert(full.clone(), token);
            self.token_metadata_by_id.insert(full, info.token_metadata);
            proof {
                assert(rest@ =~= orig.take(k as int));
                assert forall|t: Seq<char>| !names_pass_from(event_id@, orig, k as int, t) implies (
                    #[trigger] self.tokens_by_id@.contains_key(t) == old_self.tokens_by_id@.contains_key(t)
                        && (old_self.tokens_by_id@.contains_key(t) ==> self.tokens_by_id@[t]
                        == old_self.tokens_by_id@[t])) by {
                    assert(t != pass_id(event_id@, orig, k as int));
                    if names_pass_from(event_id@, orig, k + 1, t) {
                        let q = choose|q: int| k + 1 <= q < orig.len() && t == pass_id(event_id@, orig, q);
                        assert(names_pass_from(event_id@, orig, k as int, t));
                    }
                    assert(prev.contains_key(t) == old_self.tokens_by_id@.contains_key(t));
                }
            }
        }
        self.events_by_id.insert(event_id.clone(), Event { organiser: predecessor_id.clone(), event_passes: fulls });
        proof {
            assert(self.events_by_id@.remove(event_id@) =~= old_self.events_by_id@.remove(event_id@));
            assert forall|t: Seq<char>| !names_pass(event_id@, orig, t) && #[trigger] old_self.tokens_by_id@.contains_key(t)
                implies self.tokens_by_id@[t] == old_self.tokens_by_id@[t] by {
                assert(self.tokens_by_id@.contains_key(t) == old_self.tokens_by_id@.contains_key(t));
            }
        }
        Ok(storage)
    }
}


impl Contract {
    /// A registry owned by `owner_id` with the house's default metadata.
    pub fn new_default_meta(owner_id: String) -> (r: Result<Contract, Error>)
        ensures
            !valid_account_id(encode_utf8(owner_id@)) ==> r == Err::<Contract, Error>(Error::InvalidId),
            valid_account_id(encode_utf8(owner_id@)) ==> (r matches Ok(c) && c.wf() && c.owner_id@ == owner_id@
                && c.tokens_by_id@ == Map::<Seq<char>, Token>::empty()
                && c.metadata.reference_hash@.len() == 32),
    {
        let metadata = NFTContractMetadata {
            spec: "nft-1.0.0".to_owned(),
            name: "Catch".to_owned(),
            symbol: "CATCH".to_owned(),
            icon: Some("data:image/svg+xml;base64,PHN2ZyBpZD0iQ2FwYV8xIiBkYXRhLW5hbWU9IkNhcGEgMSIgeG1sbnM9Imh0dHA6Ly93d3cudzMub3JnLzIwMDAvc3ZnIiB2aWV3Qm94PSIwIDAgMTA3OC41NSAxMDgwIj48ZGVmcz48c3R5bGU+LmNscy0xe2ZpbGw6Izc4NzFmZjt9PC9zdHlsZT48L2RlZnM+PHBhdGggZD0iTTczMSwzNDcuNzJINDI2LjU3YTc4Ljg4LDc4Ljg4LDAsMCwwLTc5LDc5LjA3VjY1My4yNGE3OC44Niw3OC44NiwwLDAsMCw3OSw3OUg3MzFWNjQ5SDQzMC4zMlY0MzEuMDVINzMxWiIvPjxwYXRoIGNsYXNzPSJjbHMtMSIgZD0iTTY2Miw0ODFhNTksNTksMCwwLDAtNTksNTloMGE1OSw1OSwwLDAsMCw1OSw1OWg1LjYzYTU5LDU5LDAsMCwwLDU5LTU5aDBhNTksNTksMCwwLDAtNTktNTlaIi8+PC9zdmc+".to_owned()),
            base_uri: "ipfs".to_owned(),
            reference: "ipfs://example.com/hash".to_owned(),
            reference_hash: crate::game::filled(5, 32),
        };
        Contract::new(owner_id, metadata)
    }
}


impl Contract {
    /// Refuses a caller other than the contract's owner.
    pub fn assert_owner(&self, predecessor_id: &String) -> (r: Result<(), Error>)
        ensures
            r is Ok <==> predecessor_id@ == self.owner_id@,
            r is Err ==> r == Err::<(), Error>(Error::NotOwner),
    {
        if *predecessor_id == self.owner_id {
            Ok(())
        } else {
            Err(Error::NotOwner)
        }
    }
}


impl Contract {
    /// Moves the copy named `token_id` as `nft_transfer` does, and names who
    /// is paid what for it: its previous holder, the whole `balance`.
    pub fn nft_transfer_payout(
        &mut self,
        predecessor_id: &String,
        attached_deposit: u128,
        receiver_id: &String,
        token_id: &String,
        approval_id: Option<u64>,
        balance: u128,
        memo: Option<String>,
        block_timestamp: u64,
    ) -> (r: Result<(NftTransfer, Table<u128>), Error>)
        requires
            old(self).wf(),
        ensures
            final(self).wf(),
            r is Err ==> *final(self) == *old(self),
            r matches Ok((t, payout)) ==> payout.wf() && payout@ == Map::<Seq<char>, u128>::empty().insert(
                t.old_owner_id@,
                balance,
            ),
            attached_deposit != 1 ==> r == Err::<(NftTransfer, Table<u128>), Error>(Error::RequiresOneYocto),
            attached_deposit == 1 && !has_two_dots(token_id@) ==> r == Err::<(NftTransfer, Table<u128>), Error>(
                Error::InvalidId,
            ),
            attached_deposit == 1 && has_two_dots(token_id@) ==> exists|t: Seq<char>, o: Seq<char>|
                #[trigger] splits_into(token_id@, t, o) && match old(self).transfer_error(
                    predecessor_id@,
                    receiver_id@,
                    t,
                    o,
                    approval_id,
                    block_timestamp,
                ) {
                    Some(e) => r == Err::<(NftTransfer, Table<u128>), Error>(e),
                    None => (r matches Ok((tr, _)) && tr.old_owner_id@ == o && Contract::transferred(
                        final(self),
                        old(self),
                        t,
                        o,
                        receiver_id@,
                    )),
                },
    {
        let t = match self.nft_transfer(
            predecessor_id,
            attached_deposit,
            receiver_id,
            token_id,
            approval_id,
            memo,
            block_timestamp,
        ) {
            Ok(t) => t,
            Err(e) => return Err(e),
        };
        let mut payout = Table::new();
        payout.push_new(t.old_owner_id.clone(), balance);
        Ok((t, payout))
    }
}

} // verus!
