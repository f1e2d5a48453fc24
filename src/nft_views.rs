//! Read-only views of the registry: checks by token identifier, the JSON
//! shapes of tokens, pages over its tables, and its own metadata.
use crate::error::Error;
use crate::ids::{build_full_token_id, has_two_dots, resolve_token_id, splits_into};
use crate::nft::{internal_is_token_expired, Contract, Event, NFTContractMetadata, TokenMetadata};
use crate::table::{page_len, Table};
use vstd::prelude::*;

verus! {

impl Contract {
    /// Whether `account_id` may receive a copy of token `token_id`.
    pub fn is_eligible_to_mint_token(&self, account_id: &String, token_id: &String) -> (r: Result<bool, Error>)
        requires
            self.wf(),
        ensures
            self.tokens_by_id@.contains_key(token_id@) ==> r == Ok::<bool, Error>(
                self.eligible(account_id@, &self.tokens_by_id@[token_id@]),
            ),
            !self.tokens_by_id@.contains_key(token_id@) ==> r == Err::<bool, Error>(Error::UnknownAsset),
    {
        match self.tokens_by_id.get(token_id) {
            Some(token) => Ok(self.internal_is_eligible_to_mint_token(account_id, token)),
            None => Err(Error::UnknownAsset),
        }
    }

    /// Whether token `token_id` has expired at `block_timestamp`.
    pub fn is_token_expired(&self, token_id: &String, block_timestamp: u64) -> (r: Result<bool, Error>)
        requires
            self.wf(),
        ensures
            self.tokens_by_id@.contains_key(token_id@) ==> r == self.tokens_by_id@[token_id@].expiry(
                block_timestamp,
            ),
            !self.tokens_by_id@.contains_key(token_id@) ==> r == Err::<bool, Error>(Error::UnknownAsset),
    {
        match self.tokens_by_id.get(token_id) {
            Some(token) => internal_is_token_expired(token, block_timestamp),
            None => Err(Error::UnknownAsset),
        }
    }

    /// Whether token `token_id` has copies left to issue.
    pub fn can_token_be_minted(&self, token_id: &String) -> (r: Result<bool, Error>)
        requires
            self.wf(),
        ensures
            self.tokens_by_id@.contains_key(token_id@) ==> r == Ok::<bool, Error>(
                self.tokens_by_id@[token_id@].copies_minted < self.tokens_by_id@[token_id@].max_copies,
            ),
            !self.tokens_by_id@.contains_key(token_id@) ==> r == Err::<bool, Error>(Error::UnknownAsset),
    {
        match self.tokens_by_id.get(token_id) {
            Some(token) => Ok(token.copies_minted < token.max_copies),
            None => Err(Error::UnknownAsset),
        }
    }

    /// How many copies `account_id` holds.
    pub fn nft_supply_for_owner(&self, account_id: &String) -> (r: usize)
        requires
            self.wf(),
        ensures
            self.tokens_per_owner@.contains_key(account_id@) ==> r
                == self.tokens_per_owner@[account_id@].entries@.len(),
            !self.tokens_per_owner@.contains_key(account_id@) ==> r == 0,
    {
        match self.tokens_per_owner.get(account_id) {
            Some(set) => set.entries.len(),
            None => 0,
        }
    }

    /// How many tokens the registry describes.
    pub fn nft_total_supply(&self) -> (r: usize)
        ensures
            r == self.token_metadata_by_id.entries@.len(),
    {
        self.token_metadata_by_id.entries.len()
    }
}


pub struct JsonToken {
    pub token_id: String,
    pub owner_id: String,
    pub metadata: TokenMetadata,
    pub approved_account_ids: Table<u64>,
    pub token_dependency_by_id: Vec<String>,
    pub event_dependency_by_id: Vec<String>,
}

pub struct JsonTokenGeneral {
    pub token_id: String,
    pub metadata: TokenMetadata,
    pub token_dependency_by_id: Vec<String>,
    pub event_dependency_by_id: Vec<String>,
}

/// A copy of a list of identifiers.
pub fn copy_ids(v: &Vec<String>) -> (r: Vec<String>)
    ensures
        r@ == v@,
{
    let mut out: Vec<String> = Vec::new();
    let mut i: usize = 0;
    while i < v.len()
        invariant
            i <= v@.len(),
            out@ == v@.take(i as int),
        decreases v@.len() - i,
    {
        out.push(v[i].clone());
        i = i + 1;
        assert(out@ =~= v@.take(i as int));
    }
    assert(v@.take(i as int) =~= v@);
    out
}

fn copy_text(o: &Option<String>) -> (r: Option<String>)
    ensures
        r == *o,
{
    match o {
        Some(t) => Some(t.clone()),
        None => None,
    }
}

impl TokenMetadata {
    /// The two records say the same.
    pub open spec fn same_as(&self, other: &TokenMetadata) -> bool {
        &&& self.title == other.title
        &&& self.description == other.description
        &&& self.media == other.media
        &&& self.media_hash@ == other.media_hash@
        &&& self.copies == other.copies
        &&& self.issued_at == other.issued_at
        &&& self.expires_at == other.expires_at
        &&& self.starts_at == other.starts_at
        &&& self.updated_at == other.updated_at
        &&& self.extra == other.extra
        &&& self.reference == other.reference
        &&& match (self.reference_hash, other.reference_hash) {
            (Some(a), Some(b)) => a@ == b@,
            (None, None) => true,
            _ => false,
        }
    }

    pub fn duplicate(&self) -> (r: TokenMetadata)
        ensures
            r.same_as(self),
    {
        TokenMetadata {
            title: self.title.clone(),
            description: copy_text(&self.description),
            media: self.media.clone(),
            media_hash: crate::game::copy_bytes(&self.media_hash),
            copies: self.copies,
            issued_at: self.issued_at,
            expires_at: self.expires_at,
            starts_at: self.starts_at,
            updated_at: self.updated_at,
            extra: copy_text(&self.extra),
            reference: copy_text(&self.reference),
            reference_hash: match &self.reference_hash {
                Some(h) => Some(crate::game::copy_bytes(h)),
                None => None,
            },
        }
    }
}

/// A copy of a table of approvals.
pub fn copy_approvals(t: &Table<u64>) -> (r: Table<u64>)
    requires
        t.wf(),
    ensures
        r.wf(),
        r@ == t@,
{
    let mut entries: Vec<(String, u64)> = Vec::new();
    let mut i: usize = 0;
    while i < t.entries.len()
        invariant
            i <= t.entries@.len(),
            entries@ == t.entries@.take(i as int),
        decreases t.entries@.len() - i,
    {
        let (k, v) = &t.entries[i];
        entries.push((k.clone(), *v));
        i = i + 1;
        assert(entries@ =~= t.entries@.take(i as int));
    }
    assert(t.entries@.take(i as int) =~= t.entries@);
    Table { entries }
}

impl Contract {
    /// The view of `owner_id`'s copy of token `token_id`: `None` when the
    /// token is unknown, an error when it has no metadata.
    pub open spec fn token_view_spec(&self, token_id: Seq<char>, owner_id: Seq<char>, r: Result<Option<JsonToken>, Error>) -> bool {
        if !self.tokens_by_id@.contains_key(token_id) {
            r matches Ok(None)
        } else if !self.token_metadata_by_id@.contains_key(token_id) {
            r matches Err(e) && e == Error::UnknownAsset
        } else {
            r matches Ok(Some(j)) && {
                let token = self.tokens_by_id@[token_id];
                &&& j.token_id@ == token_id + seq!['.'] + owner_id
                &&& j.owner_id@ == owner_id
                &&& j.metadata.same_as(&self.token_metadata_by_id@[token_id])
                &&& j.approved_account_ids@ == token.info_of(owner_id).0
                &&& j.token_dependency_by_id@ == token.token_dependency_by_id@
                &&& j.event_dependency_by_id@ == token.event_dependency_by_id@
            }
        }
    }

    fn token_view(&self, token_id: &String, owner_id: &String) -> (r: Result<Option<JsonToken>, Error>)
        requires
            self.wf(),
        ensures
            self.token_view_spec(token_id@, owner_id@, r),
    {
        let token = match self.tokens_by_id.get(token_id) {
            Some(t) => t,
            None => return Ok(None),
        };
        let metadata = match self.token_metadata_by_id.get(token_id) {
            Some(m) => m.duplicate(),
            None => return Err(Error::UnknownAsset),
        };
        let approved_account_ids = match token.account_approval_info_per_owner.get(owner_id) {
            Some(i) => copy_approvals(&i.approved_account_ids),
            None => Table::new(),
        };
        Ok(
            Some(
                JsonToken {
                    token_id: build_full_token_id(token_id.clone(), owner_id.clone()),
                    owner_id: owner_id.clone(),
                    metadata,
                    approved_account_ids,
                    token_dependency_by_id: copy_ids(&token.token_dependency_by_id),
                    event_dependency_by_id: copy_ids(&token.event_dependency_by_id),
                },
            ),
        )
    }

    /// The copy named `token_id` (`event_id.token_id.owner_id`): the token's
    /// metadata and dependencies, and the approvals on that owner's copy.
    /// `None` when the token is unknown.
    pub fn nft_token(&self, token_id: &String) -> (r: Result<Option<JsonToken>, Error>)
        requires
            self.wf(),
        ensures
            !has_two_dots(token_id@) ==> (r matches Err(e) && e == Error::InvalidId),
            has_two_dots(token_id@) ==> exists|t: Seq<char>, o: Seq<char>|
                #[trigger] splits_into(token_id@, t, o) && self.token_view_spec(t, o, r),
    {
        let (tid, owner) = match resolve_token_id(token_id.as_str()) {
            Ok(p) => p,
            Err(e) => return Err(e),
        };
        assert(splits_into(token_id@, tid@, owner@));
        self.token_view(&tid, &owner)
    }

    /// Token `token_id` (`event_id.token_id`) with its metadata and
    /// dependencies, `None` when it is unknown or has no metadata.
    pub fn nft_token_general(&self, token_id: &String) -> (r: Option<JsonTokenGeneral>)
        requires
            self.wf(),
        ensures
            self.tokens_by_id@.contains_key(token_id@) && self.token_metadata_by_id@.contains_key(
                token_id@,
            ) ==> (r matches Some(j) && j.token_id@ == token_id@ && j.metadata.same_as(
                &self.token_metadata_by_id@[token_id@],
            ) && j.token_dependency_by_id@ == self.tokens_by_id@[token_id@].token_dependency_by_id@
                && j.event_dependency_by_id@ == self.tokens_by_id@[token_id@].event_dependency_by_id@),
            !(self.tokens_by_id@.contains_key(token_id@) && self.token_metadata_by_id@.contains_key(
                token_id@,
            )) ==> r is None,
    {
        let token = match self.tokens_by_id.get(token_id) {
            Some(t) => t,
            None => return None,
        };
        let metadata = match self.token_metadata_by_id.get(token_id) {
            Some(m) => m.duplicate(),
            None => return None,
        };
        Some(JsonTokenGeneral {
            token_id: token_id.clone(),
            metadata,
            token_dependency_by_id: copy_ids(&token.token_dependency_by_id),
            event_dependency_by_id: copy_ids(&token.event_dependency_by_id),
        })
    }
}


pub open spec fn start_of(from_index: Option<u128>) -> int {
    match from_index {
        Some(s) => s as int,
        None => 0,
    }
}

pub open spec fn limit_of(limit: Option<u64>) -> int {
    match limit {
        Some(l) => l as int,
        None => 50,
    }
}

/// The position and the bound of a page over `n` entries, in machine integers.
fn page_bounds(n: usize, from_index: Option<u128>, limit: Option<u64>) -> (r: Option<(usize, usize)>)
    ensures
        start_of(from_index) >= n ==> r is None,
        start_of(from_index) < n ==> (r matches Some((from, lim)) && from == start_of(from_index)
            && page_len(n as int, from as int, lim as int) == page_len(
            n as int,
            start_of(from_index),
            limit_of(limit),
        )),
{
    let start: u128 = match from_index {
        Some(s) => s,
        None => 0,
    };
    if start >= n as u128 {
        return None;
    }
    let l: u64 = match limit {
        Some(l) => l,
        None => 50,
    };
    let lim: usize = if l as u128 >= n as u128 {
        n
    } else {
        l as usize
    };
    Some((start as usize, lim))
}

impl Contract {
    /// A page of the approved marketplaces, 50 by default.
    pub fn get_approved_marketplace(&self, from_index: Option<u128>, limit: Option<u64>) -> (r: Vec<String>)
        ensures
            r@.len() == page_len(
                self.approved_marketplaces.entries@.len() as int,
                start_of(from_index),
                limit_of(limit),
            ),
            forall|k: int|
                0 <= k < r@.len() ==> #[trigger] r@[k] == self.approved_marketplaces.entries@[start_of(
                    from_index,
                ) + k].0,
    {
        match page_bounds(self.approved_marketplaces.entries.len(), from_index, limit) {
            Some((from, lim)) => self.approved_marketplaces.keys_page(from, lim),
            None => Vec::new(),
        }
    }

    /// A page of the copies that `account_id` holds, 50 by default. An
    /// error when one of them has no metadata.
    #[verifier::loop_isolation(false)]
    pub fn nft_tokens_for_owner(
        &self,
        account_id: &String,
        from_index: Option<u128>,
        limit: Option<u64>,
    ) -> (r: Result<Vec<JsonToken>, Error>)
        requires
            self.wf(),
        ensures
            !self.tokens_per_owner@.contains_key(account_id@) ==> (r matches Ok(v) && v@.len() == 0),
            self.tokens_per_owner@.contains_key(account_id@) ==> {
                let set = self.tokens_per_owner@[account_id@];
                let n = page_len(set.entries@.len() as int, start_of(from_index), limit_of(limit));
                let complete = forall|j: int| 0 <= j < n ==> {
                    let t = (#[trigger] set.entries@[start_of(from_index) + j]).0@;
                    self.tokens_by_id@.contains_key(t) && self.token_metadata_by_id@.contains_key(t)
                };
                &&& r is Ok <==> complete
                &&& r matches Ok(v) ==> {
                    &&& v@.len() == n
                    &&& forall|k: int|
                        0 <= k < v@.len() ==> self.token_view_spec(
                            set.entries@[start_of(from_index) + k].0@,
                            account_id@,
                            Ok(Some(#[trigger] v@[k])),
                        )
                }
            },
    {
        let set = match self.tokens_per_owner.get(account_id) {
            Some(s) => s,
            None => return Ok(Vec::new()),
        };
        let (from, lim) = match page_bounds(set.entries.len(), from_index, limit) {
            Some(b) => b,
            None => return Ok(Vec::new()),
        };
        let ids = set.keys_page(from, lim);
        let mut out: Vec<JsonToken> = Vec::new();
        let mut i: usize = 0;
        while i < ids.len()
            invariant
                self.wf(),
                i <= ids@.len(),
                out@.len() == i,
                forall|k: int| 0 <= k < i ==> {
                    let t = (#[trigger] ids@[k])@;
                    self.tokens_by_id@.contains_key(t) && self.token_metadata_by_id@.contains_key(t)
                },
                forall|k: int| 0 <= k < i ==> self.token_view_spec(ids@[k]@, account_id@, Ok(Some(#[trigger] out@[k]))),
            decreases ids@.len() - i,
        {
            let view = self.token_view(&ids[i], account_id);
            match view {
                Ok(Some(j)) => {
                    out.push(j);
                },
                _ => {
                    assert(ids@[i as int] == set.entries@[from + i].0);
                    return Err(Error::UnknownAsset);
                },
            }
            i = i + 1;
        }
        proof {
            let n = page_len(set.entries@.len() as int, start_of(from_index), limit_of(limit));
            assert forall|j: int| 0 <= j < n implies {
                let t = (#[trigger] set.entries@[start_of(from_index) + j]).0@;
                self.tokens_by_id@.contains_key(t) && self.token_metadata_by_id@.contains_key(t)
            } by {
                assert(ids@[j] == set.entries@[from + j].0);
            }
            assert forall|k: int| 0 <= k < out@.len() implies self.token_view_spec(
                set.entries@[start_of(from_index) + k].0@,
                account_id@,
                Ok(Some(#[trigger] out@[k])),
            ) by {
                assert(ids@[k] == set.entries@[from + k].0);
            }
        }
        Ok(out)
    }

    /// The key of the `i`-th metadata entry.
    pub open spec fn metadata_key(&self, i: int) -> Seq<char> {
        self.token_metadata_by_id.entries@[i].0@
    }

    /// A page of the tokens that the registry describes, 50 by default.
    #[verifier::loop_isolation(false)]
    pub fn nft_tokens(&self, from_index: Option<u128>, limit: Option<u64>) -> (r: Vec<JsonTokenGeneral>)
        requires
            self.wf(),
        ensures
            r@.len() <= page_len(self.token_metadata_by_id.entries@.len() as int, start_of(from_index), limit_of(limit)),
            forall|k: int| 0 <= k < r@.len() ==> exists|j: int|
                0 <= j < page_len(self.token_metadata_by_id.entries@.len() as int, start_of(from_index), limit_of(limit))
                && (#[trigger] r@[k]).token_id@ == #[trigger] self.metadata_key(start_of(from_index) + j),
            (forall|j: int|
                0 <= j < page_len(self.token_metadata_by_id.entries@.len() as int, start_of(from_index), limit_of(limit))
                ==> self.tokens_by_id@.contains_key(#[trigger] self.metadata_key(start_of(from_index) + j)))
                ==> r@.len() == page_len(self.token_metadata_by_id.entries@.len() as int, start_of(from_index), limit_of(limit)),
    {
        let (from, lim) = match page_bounds(self.token_metadata_by_id.entries.len(), from_index, limit) {
            Some(b) => b,
            None => return Vec::new(),
        };
        let ids = self.token_metadata_by_id.keys_page(from, lim);
        proof {
            crate::table::lemma_map_of_all(self.token_metadata_by_id.entries@);
            assert forall|j: int| 0 <= j < ids@.len() implies #[trigger] self.token_metadata_by_id@.contains_key(ids@[j]@) by {
                assert(ids@[j] == self.token_metadata_by_id.entries@[from + j].0);
            }
        }
        let mut out: Vec<JsonTokenGeneral> = Vec::new();
        let mut i: usize = 0;
        while i < ids.len()
            invariant
                self.wf(),
                i <= ids@.len(),
                out@.len() <= i,
                forall|k: int| 0 <= k < out@.len() ==> exists|j: int|
                    0 <= j < i && (#[trigger] out@[k]).token_id@ == (#[trigger] ids@[j])@,
                (forall|j: int| 0 <= j < i ==> #[trigger] self.tokens_by_id@.contains_key(ids@[j]@)) ==> out@.len() == i,
                forall|j: int| 0 <= j < ids@.len() ==> #[trigger] self.token_metadata_by_id@.contains_key(ids@[j]@),
            decreases ids@.len() - i,
        {
            if let Some(t) = self.nft_token_general(&ids[i]) {
                out.push(t);
            }
            i = i + 1;
        }
        proof {
            assert forall|k: int| 0 <= k < out@.len() implies exists|j: int|
                0 <= j < page_len(self.token_metadata_by_id.entries@.len() as int, start_of(from_index), limit_of(limit))
                && (#[trigger] out@[k]).token_id@ == #[trigger] self.metadata_key(start_of(from_index) + j) by {
                let j = choose|j: int| 0 <= j < i && (#[trigger] out@[k]).token_id@ == (#[trigger] ids@[j])@;
                assert(ids@[j] == self.token_metadata_by_id.entries@[from + j].0);
                assert(self.metadata_key(start_of(from_index) + j) == ids@[j]@);
            }
            if forall|j: int|
                0 <= j < page_len(self.token_metadata_by_id.entries@.len() as int, start_of(from_index), limit_of(limit))
                ==> self.tokens_by_id@.contains_key(#[trigger] self.metadata_key(start_of(from_index) + j)) {
                assert forall|j: int| 0 <= j < ids@.len() implies #[trigger] self.tokens_by_id@.contains_key(ids@[j]@) by {
                    assert(ids@[j] == self.token_metadata_by_id.entries@[from + j].0);
                    assert(self.metadata_key(start_of(from_index) + j) == ids@[j]@);
                }
            }
        }
        out
    }

}


impl Contract {
    /// A page of the events with their organisers and passes, 50 by default.
    #[verifier::loop_isolation(false)]
    pub fn get_events(&self, from_index: Option<u128>, limit: Option<u64>) -> (r: Vec<(String, Event)>)
        requires
            self.wf(),
        ensures
            r@.len() == page_len(self.events_by_id.entries@.len() as int, start_of(from_index), limit_of(limit)),
            forall|k: int|
                0 <= k < r@.len() ==> {
                    let e = self.events_by_id.entries@[start_of(from_index) + k];
                    &&& (#[trigger] r@[k]).0 == e.0
                    &&& r@[k].1.organiser == e.1.organiser
                    &&& r@[k].1.event_passes@ == e.1.event_passes@
                },
    {
        let (from, lim) = match page_bounds(self.events_by_id.entries.len(), from_index, limit) {
            Some(b) => b,
            None => return Vec::new(),
        };
        let n = self.events_by_id.entries.len();
        let end: usize = if n - from < lim {
            n
        } else {
            from + lim
        };
        let mut out: Vec<(String, Event)> = Vec::new();
        let mut i = from;
        while i < end
            invariant
                from <= i <= end <= n,
                n == self.events_by_id.entries@.len(),
                out@.len() == i - from,
                forall|k: int|
                    0 <= k < out@.len() ==> {
                        let e = self.events_by_id.entries@[from + k];
                        &&& (#[trigger] out@[k]).0 == e.0
                        &&& out@[k].1.organiser == e.1.organiser
                        &&& out@[k].1.event_passes@ == e.1.event_passes@
                    },
            decreases end - i,
        {
            let (id, event) = &self.events_by_id.entries[i];
            out.push((id.clone(), Event { organiser: event.organiser.clone(), event_passes: copy_ids(&event.event_passes) }));
            i = i + 1;
        }
        out
    }
}


/// The registry's own metadata.
pub trait NonFungibleTokenMetadata {
    fn nft_metadata(&self) -> NFTContractMetadata;
}

impl NonFungibleTokenMetadata for Contract {
    fn nft_metadata(&self) -> (r: NFTContractMetadata)
        ensures
            r.spec == self.metadata.spec,
            r.name == self.metadata.name,
            r.symbol == self.metadata.symbol,
            r.icon == self.metadata.icon,
            r.base_uri == self.metadata.base_uri,
            r.reference == self.metadata.reference,
            r.reference_hash@ == self.metadata.reference_hash@,
    {
        let m = &self.metadata;
        NFTContractMetadata {
            spec: m.spec.clone(),
            name: m.name.clone(),
            symbol: m.symbol.clone(),
            icon: copy_text(&m.icon),
            base_uri: m.base_uri.clone(),
            reference: m.reference.clone(),
            reference_hash: crate::game::copy_bytes(&m.reference_hash),
        }
    }
}

} // verus!
