//! Identifiers of event passes. A token identifier is `event_id.token_id`;
//! a copy held by an account is named `event_id.token_id.owner_id`.
use crate::error::Error;
use vstd::prelude::*;
use vstd::utf8::encode_utf8;

verus! {

pub open spec fn no_dot(s: Seq<char>) -> bool {
    forall|k: int| 0 <= k < s.len() ==> s[k] != '.'
}

/// `full` names the copy of token `token_id` held by `owner_id`.
pub open spec fn splits_into(full: Seq<char>, token_id: Seq<char>, owner_id: Seq<char>) -> bool {
    exists|e: Seq<char>, t: Seq<char>|
        #![trigger e + seq!['.'] + t]
        no_dot(e) && no_dot(t) && token_id == e + seq!['.'] + t && full == token_id + seq!['.']
            + owner_id
}

/// `full` holds at least two dots.
pub open spec fn has_two_dots(full: Seq<char>) -> bool {
    exists|i: int, j: int| 0 <= i < j < full.len() && full[i] == '.' && full[j] == '.'
}

/// A byte that an event or token identifier may hold: an ASCII letter or
/// digit, a space, `_` or `-`.
pub open spec fn is_id_byte(c: u8) -> bool {
    (65 <= c <= 90) || (97 <= c <= 122) || (48 <= c <= 57) || c == 32 || c == 95 || c == 45
}

pub open spec fn valid_id(s: Seq<char>) -> bool {
    forall|i: int| 0 <= i < encode_utf8(s).len() ==> #[trigger] is_id_byte(encode_utf8(s)[i])
}

/// Accepts an event or token identifier made of ASCII letters, digits,
/// spaces, `_` and `-` only (so never a `.`).
pub fn assert_valid_id(id: &str) -> (r: Result<(), Error>)
    ensures
        r is Ok <==> valid_id(id@),
        r is Err ==> r == Err::<(), Error>(Error::InvalidId),
{
    let bytes = id.as_bytes();
    let mut i: usize = 0;
    while i < bytes.len()
        invariant
            bytes@ == encode_utf8(id@),
            i <= bytes@.len(),
            forall|k: int| 0 <= k < i ==> #[trigger] is_id_byte(bytes@[k]),
        decreases bytes@.len() - i,
    {
        let c = bytes[i];
        if !((65 <= c && c <= 90) || (97 <= c && c <= 122) || (48 <= c && c <= 57) || c == 32 || c
            == 95 || c == 45) {
            assert(!is_id_byte(encode_utf8(id@)[i as int]));
            return Err(Error::InvalidId);
        }
        i = i + 1;
    }
    Ok(())
}

/// The position of the first `.` in `s` at or after `from`, if any.
fn find_dot(s: &str, from: usize) -> (r: Option<usize>)
    requires
        from <= s@.len(),
    ensures
        match r {
            Some(i) => from <= i < s@.len() && s@[i as int] == '.' && forall|k: int|
                from <= k < i ==> s@[k] != '.',
            None => forall|k: int| from <= k < s@.len() ==> s@[k] != '.',
        },
{
    let n = s.unicode_len();
    let mut i = from;
    while i < n
        invariant
            n == s@.len(),
            from <= i <= n,
            forall|k: int| from <= k < i ==> s@[k] != '.',
        decreases n - i,
    {
        if s.get_char(i) == '.' {
            return Some(i);
        }
        i = i + 1;
    }
    None
}

/// Splits `event_id.token_id.owner_id` into the token identifier
/// `event_id.token_id` and the owner. The owner part may hold further dots.
pub fn resolve_token_id(token_id: &str) -> (r: Result<(String, String), Error>)
    ensures
        match r {
            Ok((t, o)) => splits_into(token_id@, t@, o@),
            Err(e) => e == Error::InvalidId && !has_two_dots(token_id@),
        },
        r is Ok <==> has_two_dots(token_id@),
{
    let s = token_id;
    let ghost v = s@;
    let n = s.unicode_len();
    let i = match find_dot(s, 0) {
        Some(i) => i,
        None => return Err(Error::InvalidId),
    };
    let j = match find_dot(s, i + 1) {
        Some(j) => j,
        None => {
            assert(!has_two_dots(v)) by {
                if has_two_dots(v) {
                    let (a, b) = choose|a: int, b: int|
                        0 <= a < b < v.len() && v[a] == '.' && v[b] == '.';
                    assert(a >= i);
                }
            }
            return Err(Error::InvalidId);
        },
    };
    assert(has_two_dots(v)) by {
        assert(0 <= i < j < v.len() && v[i as int] == '.' && v[j as int] == '.');
    }
    let t = s.substring_char(0, j).to_owned();
    let o = s.substring_char(j + 1, n).to_owned();
    proof {
        let e = v.subrange(0, i as int);
        let m = v.subrange(i + 1, j as int);
        assert(no_dot(e));
        assert(no_dot(m));
        assert(t@ =~= e + seq!['.'] + m);
        assert(v =~= t@ + seq!['.'] + o@);
    }
    Ok((t, o))
}

/// Names the copy of `token_id` held by `owner_id`: `token_id.owner_id`.
pub fn build_full_token_id(token_id: String, owner_id: String) -> (r: String)
    ensures
        r@ == token_id@ + seq!['.'] + owner_id@,
{
    proof {
        reveal_strlit(".");
    }
    token_id.concat(".").concat(owner_id.as_str())
}

/// The storage that an identifier takes: its bytes and a four-byte length.
pub fn bytes_for_token_or_event_or_account_id(id: &str) -> (r: u128)
    ensures
        r == encode_utf8(id@).len() + 4,
{
    id.as_bytes().len() as u128 + 4
}

/// The storage that one approval takes: the account identifier, its length,
/// and the eight-byte approval id.
pub fn bytes_for_approved_account_id(account_id: &str) -> (r: u128)
    ensures
        r == encode_utf8(account_id@).len() + 12,
{
    account_id.as_bytes().len() as u128 + 4 + 8
}

} // verus!
