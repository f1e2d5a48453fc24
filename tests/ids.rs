use catch_contracts::error::Error;
use catch_contracts::ids::{assert_valid_id, build_full_token_id, resolve_token_id};

#[test]
fn panic_assert_valid_id() {
    let id = String::from("eventid.tokenid");
    assert_eq!(assert_valid_id(&id), Err(Error::InvalidId));
}

#[test]
fn success_assert_valid_id() {
    let id = String::from("Event_id 1 Token_id 2 - Owner_id");
    assert_eq!(assert_valid_id(&id), Ok(()));
}

#[test]
fn success_resolve_token_id() {
    let token_id = String::from("event_id.token_id.owner.near");
    let expected_output = (
        String::from("event_id.token_id"),
        String::from("owner.near"),
    );
    assert_eq!(Ok(expected_output), resolve_token_id(&token_id));
}

#[test]
fn panic_resolve_token_id() {
    let token_id = String::from("event_id_token_id");
    assert_eq!(resolve_token_id(&token_id), Err(Error::InvalidId));
}

#[test]
fn success_build_full_token_id() {
    let token_id = String::from("event_id.token_id");
    let owner_id = String::from("owner_id");

    let full_token_id = String::from("event_id.token_id.owner_id");
    assert_eq!(full_token_id, build_full_token_id(token_id, owner_id));
}

#[test]
fn resolve_token_id_with_one_dot_is_refused() {
    assert_eq!(resolve_token_id("event.token"), Err(Error::InvalidId));
}

#[test]
fn assert_valid_id_refuses_non_ascii() {
    assert_eq!(assert_valid_id("pass\u{e9}"), Err(Error::InvalidId));
    assert_eq!(assert_valid_id(""), Ok(()));
}
