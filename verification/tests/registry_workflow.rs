use droplinked_near::errors::DropError;
use droplinked_near::events::{
    ApproveEvent, DisapproveEvent, DroplinkedEventData, MintEvent, PublishRequestEvent,
};
use droplinked_near::state::DroplinkedStorage;
use sha2::{Digest, Sha256};

const OWNER: u64 = 1;
const PRODUCER: u64 = 10;
const PUBLISHER: u64 = 20;

fn market() -> DroplinkedStorage {
    DroplinkedStorage::new(
        OWNER,
        100,
        120,
        vec![0u8; 32],
        String::from("DropNFT"),
        String::from("DFT"),
    )
}

#[test]
fn mint_allocates_and_dedups_by_content() {
    let mut s = market();
    let id1 = s
        .mint(PRODUCER, String::from("ipfs://item"), 7, 2, 500)
        .unwrap();
    let id2 = s
        .mint(PUBLISHER, String::from("ipfs://item"), 7, 3, 500)
        .unwrap();
    assert_eq!(id1, 1);
    assert_eq!(id2, 1);
    assert_eq!(s.balance_of(1, PRODUCER), 2);
    assert_eq!(s.balance_of(1, PUBLISHER), 3);
    assert_eq!(s.get_token_supply(1), Some(5));
    assert_eq!(s.get_total_supply(), 5);
}

#[test]
fn mint_new_content_allocates_next_id() {
    let mut s = market();
    let id1 = s.mint(PRODUCER, String::from("a"), 7, 1, 500).unwrap();
    let id2 = s.mint(PRODUCER, String::from("b"), 7, 1, 500).unwrap();
    let id3 = s.mint(PRODUCER, String::from("a"), 8, 1, 500).unwrap();
    assert_eq!((id1, id2, id3), (1, 2, 3));
    assert_eq!(s.get_total_supply(), 3);
}

#[test]
fn mint_rejects_zero_amount_and_bad_commission() {
    let mut s = market();
    assert_eq!(
        s.mint(PRODUCER, String::from("a"), 7, 0, 500),
        Err(DropError::InvalidAmount)
    );
    assert_eq!(
        s.mint(PRODUCER, String::from("a"), 7, 1, 10001),
        Err(DropError::InvalidAmount)
    );
    assert_eq!(s.get_total_supply(), 0);
}

#[test]
fn supply_invariant_over_mixed_mints() {
    let mut s = market();
    s.mint(PRODUCER, String::from("a"), 7, 2, 500).unwrap();
    s.mint(PUBLISHER, String::from("a"), 7, 4, 500).unwrap();
    s.mint(OWNER, String::from("a"), 7, 1, 500).unwrap();
    s.mint(PRODUCER, String::from("b"), 9, 6, 100).unwrap();
    let sum1 = s.balance_of(1, PRODUCER) + s.balance_of(1, PUBLISHER) + s.balance_of(1, OWNER);
    assert_eq!(Some(sum1), s.get_token_supply(1));
    assert_eq!(Some(s.balance_of(2, PRODUCER)), s.get_token_supply(2));
    assert_eq!(s.get_total_supply(), 13);
}

#[test]
fn remint_by_same_account_accumulates() {
    let mut s = market();
    s.mint(PRODUCER, String::from("ipfs://item"), 7, 2, 500)
        .unwrap();
    let id = s
        .mint(PRODUCER, String::from("ipfs://item"), 7, 3, 500)
        .unwrap();
    assert_eq!(id, 1);
    assert_eq!(s.balance_of(1, PRODUCER), 5);
    assert_eq!(s.get_token_supply(1), Some(5));
}

#[test]
fn supply_getters_for_unknown_ids() {
    let s = market();
    assert_eq!(s.get_token_supply(1), None);
    assert_eq!(s.get_total_supply(), 0);
}

#[test]
fn balance_of_unknown_pair_is_zero() {
    let s = market();
    assert_eq!(s.balance_of(1, PRODUCER), 0);
    let mut s = market();
    s.mint(PRODUCER, String::from("a"), 7, 2, 500).unwrap();
    assert_eq!(s.balance_of(1, PUBLISHER), 0);
    assert_eq!(s.balance_of(2, PRODUCER), 0);
}

#[test]
fn token_hash_matches_external_digest() {
    let mut s = market();
    s.mint(PRODUCER, String::from("ipfs://item"), 7, 1, 500)
        .unwrap();
    let digest: Vec<u8> = Sha256::digest("ipfs://item5007".as_bytes()).to_vec();
    let expected = base16::encode_lower(&digest);
    assert_eq!(s.get_token_hash_by_id(1), Some(expected.clone()));
    assert_eq!(s.get_token_id_by_hash(expected), Some(1));
    assert_eq!(s.get_token_hash_by_id(2), None);
    assert_eq!(s.get_token_id_by_hash(String::from("00")), None);
}

#[test]
fn token_metadata_json_is_exact() {
    let mut s = market();
    s.mint(PRODUCER, String::from("ipfs://item"), 7, 1, 500)
        .unwrap();
    assert_eq!(
        s.get_token_metadata(1),
        Some(String::from(
            "{\"ipfs_url\":\"ipfs://item\",\"commission\":\"500\",\"price\":7}"
        ))
    );
    assert_eq!(s.get_token_metadata(2), None);
}

#[test]
fn token_metadata_json_renders_zero_and_wide_numbers() {
    let mut s = market();
    s.mint(PRODUCER, String::from("u"), 0, 1, 0).unwrap();
    assert_eq!(
        s.get_token_metadata(1),
        Some(String::from(
            "{\"ipfs_url\":\"u\",\"commission\":\"0\",\"price\":0}"
        ))
    );
    s.mint(PRODUCER, String::from("v"), 340282366920938463463374607431768211455, 1, 10000)
        .unwrap();
    assert_eq!(
        s.get_token_metadata(2),
        Some(String::from(
            "{\"ipfs_url\":\"v\",\"commission\":\"10000\",\"price\":340282366920938463463374607431768211455}"
        ))
    );
}

#[test]
fn publish_request_records_snapshot_and_indexes() {
    let mut s = market();
    s.mint(PRODUCER, String::from("a"), 7, 1, 500).unwrap();
    let rid = s.publish_request(PUBLISHER, PRODUCER, 1).unwrap();
    assert_eq!(rid, 1);
    assert_eq!(s.get_commission(1), Some(500));
    assert_eq!(
        s.get_request(1),
        Some(String::from(
            "{\"token_id\":1,\"producer\":10,\"publisher\":20,\"accepted\":false}"
        ))
    );
    assert_eq!(s.get_producer_requests(PRODUCER), vec![1]);
    assert_eq!(s.get_publisher_requests(PUBLISHER), vec![1]);
    assert_eq!(s.get_producer_requests(PUBLISHER), Vec::<u128>::new());
}

#[test]
fn publish_request_unknown_token_fails() {
    let mut s = market();
    assert_eq!(
        s.publish_request(PUBLISHER, PRODUCER, 1),
        Err(DropError::TokenNotFound)
    );
}

#[test]
fn duplicate_request_is_rejected_until_disapproved() {
    let mut s = market();
    s.mint(PRODUCER, String::from("a"), 7, 1, 500).unwrap();
    s.publish_request(PUBLISHER, PRODUCER, 1).unwrap();
    assert_eq!(
        s.publish_request(PUBLISHER, PRODUCER, 1),
        Err(DropError::DuplicateRequest)
    );
    s.approve(PRODUCER, 1).unwrap();
    assert_eq!(
        s.publish_request(PUBLISHER, PRODUCER, 1),
        Err(DropError::DuplicateRequest)
    );
    s.disapprove(PRODUCER, 1).unwrap();
    let rid = s.publish_request(PUBLISHER, PRODUCER, 1).unwrap();
    assert_eq!(rid, 2);
}

#[test]
fn distinct_triples_are_independent() {
    let mut s = market();
    s.mint(PRODUCER, String::from("a"), 7, 1, 500).unwrap();
    s.mint(PRODUCER, String::from("b"), 7, 1, 500).unwrap();
    s.publish_request(PUBLISHER, PRODUCER, 1).unwrap();
    assert_eq!(s.publish_request(PUBLISHER, PRODUCER, 2), Ok(2));
    assert_eq!(s.publish_request(OWNER, PRODUCER, 1), Ok(3));
}

#[test]
fn approve_authorization_and_lifecycle() {
    let mut s = market();
    s.mint(PRODUCER, String::from("a"), 7, 1, 500).unwrap();
    s.publish_request(PUBLISHER, PRODUCER, 1).unwrap();
    assert_eq!(s.approve(PUBLISHER, 1), Err(DropError::AccessDenied));
    assert_eq!(s.approve(OWNER, 1), Err(DropError::AccessDenied));
    assert_eq!(s.approve(PRODUCER, 2), Err(DropError::RequestNotFound));
    assert_eq!(s.approve(PRODUCER, 1), Ok(()));
    assert_eq!(
        s.get_request(1),
        Some(String::from(
            "{\"token_id\":1,\"producer\":10,\"publisher\":20,\"accepted\":true}"
        ))
    );
    // approval is terminal with respect to a second approve
    assert_eq!(s.approve(PRODUCER, 1), Err(DropError::RequestNotFound));
}

#[test]
fn disapprove_authorization_and_lifecycle() {
    let mut s = market();
    s.mint(PRODUCER, String::from("a"), 7, 1, 500).unwrap();
    s.publish_request(PUBLISHER, PRODUCER, 1).unwrap();
    // not yet approved: nothing to disapprove
    assert_eq!(s.disapprove(PRODUCER, 1), Err(DropError::RequestNotFound));
    s.approve(PRODUCER, 1).unwrap();
    assert_eq!(s.disapprove(PUBLISHER, 1), Err(DropError::AccessDenied));
    assert_eq!(s.disapprove(PRODUCER, 1), Ok(()));
    // terminal: no further status change
    assert_eq!(s.disapprove(PRODUCER, 1), Err(DropError::RequestNotFound));
    assert_eq!(s.approve(PRODUCER, 1), Err(DropError::RequestNotFound));
    // disapproved requests leave both indexes
    assert_eq!(s.get_producer_requests(PRODUCER), Vec::<u128>::new());
    assert_eq!(s.get_publisher_requests(PUBLISHER), Vec::<u128>::new());
}

#[test]
fn cancel_authorization_and_removal() {
    let mut s = market();
    s.mint(PRODUCER, String::from("a"), 7, 1, 500).unwrap();
    s.publish_request(PUBLISHER, PRODUCER, 1).unwrap();
    assert_eq!(s.cancel(PRODUCER, 1), Err(DropError::AccessDenied));
    assert_eq!(s.cancel(PUBLISHER, 2), Err(DropError::RequestNotFound));
    assert_eq!(s.cancel(PUBLISHER, 1), Ok(()));
    assert_eq!(s.get_request(1), None);
    assert_eq!(s.get_commission(1), None);
    // the triple is free again
    assert_eq!(s.publish_request(PUBLISHER, PRODUCER, 1), Ok(2));
}

#[test]
fn cancel_needs_a_pending_request() {
    let mut s = market();
    s.mint(PRODUCER, String::from("a"), 7, 1, 500).unwrap();
    s.publish_request(PUBLISHER, PRODUCER, 1).unwrap();
    s.approve(PRODUCER, 1).unwrap();
    assert_eq!(s.cancel(PUBLISHER, 1), Err(DropError::RequestNotFound));
}

#[test]
fn get_owner_reports_configuration() {
    let s = market();
    assert_eq!(s.get_owner(), OWNER);
}

#[test]
fn event_json_renderings_are_exact() {
    let mint = DroplinkedEventData::Mint(MintEvent {
        token_id: 7,
        recipient: 3,
        amount: 2,
    });
    assert_eq!(
        mint.to_json(),
        "{\"event_kind\":\"Mint\",\"token_id\":\"7\",\"recipient\":\"3\",\"amount\":\"2\"}"
    );
    let pr = DroplinkedEventData::PublishRequest(PublishRequestEvent {
        request_id: String::from("1"),
        token_id: String::from("4"),
    });
    assert_eq!(
        pr.to_json(),
        "{\"event_kind\":\"PublishRequest\",\"token_id\":\"4\",\"request_id\":\"1\"}"
    );
    let ap = DroplinkedEventData::Approve(ApproveEvent {
        request_id: String::from("12"),
    });
    assert_eq!(
        ap.to_json(),
        "{\"event_kind\":\"Approve\",\"request_id\":\"12\"}"
    );
    let dp = DroplinkedEventData::Disapprove(DisapproveEvent {
        request_id: String::from("0"),
    });
    assert_eq!(
        dp.to_json(),
        "{\"event_kind\":\"Disapprove\",\"request_id\":\"0\"}"
    );
}
