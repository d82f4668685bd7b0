use cyberoracle::errors::{CyberOracleError, LedgerError};
use cyberoracle::identity::Identity;
use cyberoracle::ledger::Ledger;
use cyberoracle::ops::{
    fulfill_oracle, initialize, request_oracle, update_price, FulfillOracle, Initialize,
    RequestOracle, UpdatePrice,
};
use cyberoracle::records::UserCounter;

fn id(n: u64) -> Identity {
    Identity::from_words(n, 0, 0, 0)
}

/// A ledger with authority 1, treasury 2, the given price, and user 3
/// funded with 10_000.
fn setup(price: u64) -> Ledger {
    let mut l = Ledger::new();
    let r = initialize(
        &mut l,
        Initialize { authority: id(1), treasury: id(2), state_bump: 255 },
        price,
    );
    assert!(r.is_ok());
    l.credit(id(3), 10_000);
    l
}

fn request(l: &mut Ledger, user: Identity, hash: [u8; 32]) -> Result<(), LedgerError> {
    request_oracle(
        l,
        RequestOracle { payer: user, treasury: id(2), counter_bump: 254, request_bump: 253 },
        hash,
    )
}

fn fulfill(l: &mut Ledger, caller: Identity, owner: Identity, seq: u64, uri: &str, asset: Identity)
    -> Result<(), LedgerError> {
    fulfill_oracle(
        l,
        FulfillOracle { authority: caller, request_owner: owner, request_id: seq },
        uri.to_string(),
        asset,
        id(7),
    )
}

#[test]
fn initialize_creates_config() {
    let l = setup(1000);
    let cfg = l.get_state().unwrap();
    assert_eq!(cfg.authority, id(1));
    assert_eq!(cfg.treasury, id(2));
    assert_eq!(cfg.price_lamports, 1000);
    assert_eq!(cfg.bump, 255);
}

#[test]
fn initialize_twice_fails() {
    let mut l = setup(1000);
    let r = initialize(
        &mut l,
        Initialize { authority: id(9), treasury: id(9), state_bump: 0 },
        5,
    );
    assert_eq!(r, Err(LedgerError::AlreadyInitialized));
    let cfg = l.get_state().unwrap();
    assert_eq!(cfg.authority, id(1));
    assert_eq!(cfg.price_lamports, 1000);
}

#[test]
fn update_price_by_authority() {
    let mut l = setup(1000);
    let r = update_price(&mut l, UpdatePrice { authority: id(1) }, 2500);
    assert_eq!(r, Ok(()));
    assert_eq!(l.get_state().unwrap().price_lamports, 2500);
    // Setting the same value again is a no-op in effect.
    let r = update_price(&mut l, UpdatePrice { authority: id(1) }, 2500);
    assert_eq!(r, Ok(()));
    assert_eq!(l.get_state().unwrap().price_lamports, 2500);
}

#[test]
fn update_price_unauthorized_leaves_price() {
    let mut l = setup(1000);
    let r = update_price(&mut l, UpdatePrice { authority: id(4) }, 1);
    assert_eq!(r, Err(LedgerError::Oracle(CyberOracleError::Unauthorized)));
    assert_eq!(l.get_state().unwrap().price_lamports, 1000);
}

#[test]
fn update_price_before_initialize_fails() {
    let mut l = Ledger::new();
    let r = update_price(&mut l, UpdatePrice { authority: id(1) }, 1);
    assert_eq!(r, Err(LedgerError::NotInitialized));
}

#[test]
fn request_with_zero_price_changes_nothing() {
    let mut l = setup(0);
    let r = request(&mut l, id(3), [1; 32]);
    assert_eq!(r, Err(LedgerError::Oracle(CyberOracleError::InvalidPrice)));
    assert!(l.get_counter(id(3)).is_none());
    assert!(l.get_request(id(3), 0).is_none());
    assert_eq!(l.balance_of(id(3)), 10_000);
    assert_eq!(l.balance_of(id(2)), 0);
}

#[test]
fn price_lowered_to_zero_blocks_requests() {
    let mut l = setup(1000);
    update_price(&mut l, UpdatePrice { authority: id(1) }, 0).unwrap();
    let r = request(&mut l, id(3), [1; 32]);
    assert_eq!(r, Err(LedgerError::Oracle(CyberOracleError::InvalidPrice)));
}

#[test]
fn request_assigns_sequences_in_order() {
    let mut l = setup(1000);
    assert_eq!(request(&mut l, id(3), [1; 32]), Ok(()));
    assert_eq!(l.get_counter(id(3)), Some(UserCounter { user: id(3), next_request_id: 1, bump: 254 }));
    assert_eq!(l.balance_of(id(3)), 9000);
    assert_eq!(l.balance_of(id(2)), 1000);
    let first = l.get_request(id(3), 0).unwrap();
    assert_eq!(first.user, id(3));
    assert_eq!(first.request_id, 0);
    assert_eq!(first.prompt_hash, [1; 32]);
    assert_eq!(first.result_uri, "");
    assert_eq!(first.asset_id, Identity::null());
    assert_eq!(first.collection_mint, Identity::null());
    assert!(!first.fulfilled);

    assert_eq!(request(&mut l, id(3), [2; 32]), Ok(()));
    assert_eq!(l.get_counter(id(3)).unwrap().next_request_id, 2);
    assert_eq!(l.balance_of(id(3)), 8000);
    assert_eq!(l.balance_of(id(2)), 2000);
    let second = l.get_request(id(3), 1).unwrap();
    assert_eq!(second.request_id, 1);
    assert_eq!(second.prompt_hash, [2; 32]);
    assert!(l.get_request(id(3), 2).is_none());
}

#[test]
fn users_get_independent_sequences() {
    let mut l = setup(1000);
    l.credit(id(4), 3000);
    assert_eq!(request(&mut l, id(3), [1; 32]), Ok(()));
    assert_eq!(request(&mut l, id(4), [2; 32]), Ok(()));
    assert_eq!(request(&mut l, id(3), [3; 32]), Ok(()));
    assert_eq!(l.get_request(id(3), 0).unwrap().prompt_hash, [1; 32]);
    assert_eq!(l.get_request(id(3), 1).unwrap().prompt_hash, [3; 32]);
    assert_eq!(l.get_request(id(4), 0).unwrap().prompt_hash, [2; 32]);
    assert_eq!(l.get_counter(id(3)).unwrap().next_request_id, 2);
    assert_eq!(l.get_counter(id(4)).unwrap().next_request_id, 1);
}

#[test]
fn request_wrong_treasury_fails() {
    let mut l = setup(1000);
    let r = request_oracle(
        &mut l,
        RequestOracle { payer: id(3), treasury: id(9), counter_bump: 0, request_bump: 0 },
        [1; 32],
    );
    assert_eq!(r, Err(LedgerError::TransferFailed));
    assert_eq!(l.balance_of(id(3)), 10_000);
    assert_eq!(l.balance_of(id(9)), 0);
    assert!(l.get_counter(id(3)).is_none());
}

#[test]
fn request_insufficient_funds_fails() {
    let mut l = setup(20_000);
    let r = request(&mut l, id(3), [1; 32]);
    assert_eq!(r, Err(LedgerError::TransferFailed));
    assert_eq!(l.balance_of(id(3)), 10_000);
    assert!(l.get_request(id(3), 0).is_none());
}

#[test]
fn request_before_initialize_fails() {
    let mut l = Ledger::new();
    l.credit(id(3), 10_000);
    let r = request(&mut l, id(3), [1; 32]);
    assert_eq!(r, Err(LedgerError::NotInitialized));
}

#[test]
fn request_counter_overflow_fails() {
    // A sequencer already at the last representable number: the request is
    // rejected rather than wrapping, and nothing changes.
    let mut l = setup(1000);
    l.counters.push(UserCounter { user: id(3), next_request_id: u64::MAX, bump: 254 });
    let r = request(&mut l, id(3), [1; 32]);
    assert_eq!(r, Err(LedgerError::Oracle(CyberOracleError::RequestIdOverflow)));
    assert_eq!(l.balance_of(id(3)), 10_000);
    assert_eq!(l.get_counter(id(3)).unwrap().next_request_id, u64::MAX);
}

#[test]
fn fulfill_attaches_result_once() {
    let mut l = setup(1000);
    request(&mut l, id(3), [1; 32]).unwrap();
    request(&mut l, id(3), [2; 32]).unwrap();
    let r = fulfill(&mut l, id(1), id(3), 0, "ipfs://x", id(5));
    assert_eq!(r, Ok(()));
    let req = l.get_request(id(3), 0).unwrap();
    assert_eq!(req.result_uri, "ipfs://x");
    assert_eq!(req.asset_id, id(5));
    assert_eq!(req.collection_mint, id(7));
    assert!(req.fulfilled);
    assert_eq!(req.user, id(3));
    assert_eq!(req.request_id, 0);
    assert_eq!(req.prompt_hash, [1; 32]);
    // The sibling request is untouched.
    let other = l.get_request(id(3), 1).unwrap();
    assert!(!other.fulfilled);
    assert_eq!(other.result_uri, "");
}

#[test]
fn fulfill_twice_fails_and_changes_nothing() {
    let mut l = setup(1000);
    request(&mut l, id(3), [1; 32]).unwrap();
    fulfill(&mut l, id(1), id(3), 0, "ipfs://x", id(5)).unwrap();
    let r = fulfill(&mut l, id(1), id(3), 0, "ipfs://other", id(6));
    assert_eq!(r, Err(LedgerError::Oracle(CyberOracleError::AlreadyFulfilled)));
    let req = l.get_request(id(3), 0).unwrap();
    assert_eq!(req.result_uri, "ipfs://x");
    assert_eq!(req.asset_id, id(5));
    assert!(req.fulfilled);
}

#[test]
fn fulfill_uri_of_200_characters_succeeds() {
    let mut l = setup(1000);
    request(&mut l, id(3), [1; 32]).unwrap();
    let uri = "a".repeat(200);
    let r = fulfill(&mut l, id(1), id(3), 0, &uri, id(5));
    assert_eq!(r, Ok(()));
    assert_eq!(l.get_request(id(3), 0).unwrap().result_uri.len(), 200);
}

#[test]
fn fulfill_uri_of_201_characters_fails() {
    let mut l = setup(1000);
    request(&mut l, id(3), [1; 32]).unwrap();
    let uri = "a".repeat(201);
    let r = fulfill(&mut l, id(1), id(3), 0, &uri, id(5));
    assert_eq!(r, Err(LedgerError::Oracle(CyberOracleError::ResultUriTooLong)));
    assert!(!l.get_request(id(3), 0).unwrap().fulfilled);
}

#[test]
fn fulfill_uri_bound_counts_characters_not_bytes() {
    // 200 two-byte characters are within the bound.
    let mut l = setup(1000);
    request(&mut l, id(3), [1; 32]).unwrap();
    let uri = "\u{e9}".repeat(200);
    assert_eq!(uri.len(), 400);
    let r = fulfill(&mut l, id(1), id(3), 0, &uri, id(5));
    assert_eq!(r, Ok(()));
}

#[test]
fn fulfill_null_asset_fails_regardless_of_other_fields() {
    let mut l = setup(1000);
    request(&mut l, id(3), [1; 32]).unwrap();
    let r = fulfill(&mut l, id(1), id(3), 0, "ipfs://x", Identity::null());
    assert_eq!(r, Err(LedgerError::Oracle(CyberOracleError::InvalidAssetId)));
    let req = l.get_request(id(3), 0).unwrap();
    assert!(!req.fulfilled);
    assert_eq!(req.result_uri, "");
}

#[test]
fn fulfill_null_collection_is_allowed() {
    let mut l = setup(1000);
    request(&mut l, id(3), [1; 32]).unwrap();
    let r = fulfill_oracle(
        &mut l,
        FulfillOracle { authority: id(1), request_owner: id(3), request_id: 0 },
        "ipfs://x".to_string(),
        id(5),
        Identity::null(),
    );
    assert_eq!(r, Ok(()));
    assert_eq!(l.get_request(id(3), 0).unwrap().collection_mint, Identity::null());
}

#[test]
fn fulfill_unauthorized_fails() {
    let mut l = setup(1000);
    request(&mut l, id(3), [1; 32]).unwrap();
    let r = fulfill(&mut l, id(3), id(3), 0, "ipfs://x", id(5));
    assert_eq!(r, Err(LedgerError::Oracle(CyberOracleError::Unauthorized)));
    assert!(!l.get_request(id(3), 0).unwrap().fulfilled);
}

#[test]
fn fulfill_missing_request_fails() {
    let mut l = setup(1000);
    let r = fulfill(&mut l, id(1), id(3), 0, "ipfs://x", id(5));
    assert_eq!(r, Err(LedgerError::RequestNotFound));
}

#[test]
fn sequencer_owner_never_changes() {
    let mut l = setup(1000);
    request(&mut l, id(3), [1; 32]).unwrap();
    let owner_before = l.get_counter(id(3)).unwrap().user;
    request(&mut l, id(3), [2; 32]).unwrap();
    update_price(&mut l, UpdatePrice { authority: id(1) }, 500).unwrap();
    request(&mut l, id(3), [3; 32]).unwrap();
    fulfill(&mut l, id(1), id(3), 1, "ipfs://x", id(5)).unwrap();
    assert_eq!(l.get_counter(id(3)).unwrap().user, owner_before);
    assert_eq!(owner_before, id(3));
}
