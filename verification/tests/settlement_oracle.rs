use droplinked_near::errors::DropError;
use droplinked_near::state::{DroplinkedStorage, Transfer};
use ed25519_dalek::{Signer, SigningKey};
use sha2::{Digest, Sha256};

const OWNER: u64 = 1;
const PRODUCER: u64 = 10;
const PUBLISHER: u64 = 20;
const RATE: u128 = 1_000_000_000_000_000_000;

fn market_with_key() -> (DroplinkedStorage, SigningKey) {
    let sk = SigningKey::from_bytes(&[7u8; 32]);
    let pk = sk.verifying_key().to_bytes().to_vec();
    let s = DroplinkedStorage::new(
        OWNER,
        100,
        120,
        pk,
        String::from("DropNFT"),
        String::from("DFT"),
    );
    (s, sk)
}

fn sign_attestation(sk: &SigningKey, price: u128, timestamp: u64) -> Vec<u8> {
    let msg = format!("{},{}", price, timestamp);
    let digest = Sha256::digest(msg.as_bytes());
    sk.sign(digest.as_slice()).to_bytes().to_vec()
}

fn approved_market() -> (DroplinkedStorage, SigningKey) {
    let (mut s, sk) = market_with_key();
    // unit price 1 fiat => 1_000_000 native units at RATE; commission 5%
    s.mint(PRODUCER, String::from("ipfs://item"), 1, 5, 500)
        .unwrap();
    s.publish_request(PUBLISHER, PRODUCER, 1).unwrap();
    s.approve(PRODUCER, 1).unwrap();
    (s, sk)
}

#[test]
fn verify_price_accepts_the_oracle_signature() {
    let (s, sk) = market_with_key();
    let sig = sign_attestation(&sk, 42, 1000);
    assert_eq!(s.verify_price(42, 1000, &sig), Ok(()));
}

#[test]
fn verify_price_rejects_other_messages_and_keys() {
    let (s, sk) = market_with_key();
    let sig = sign_attestation(&sk, 42, 1000);
    assert_eq!(
        s.verify_price(43, 1000, &sig),
        Err(DropError::InvalidSignature)
    );
    assert_eq!(
        s.verify_price(42, 1001, &sig),
        Err(DropError::InvalidSignature)
    );
    let other = SigningKey::from_bytes(&[9u8; 32]);
    let forged = sign_attestation(&other, 42, 1000);
    assert_eq!(
        s.verify_price(42, 1000, &forged),
        Err(DropError::InvalidSignature)
    );
}

#[test]
fn verify_price_rejects_malformed_signatures() {
    let (s, sk) = market_with_key();
    let sig = sign_attestation(&sk, 42, 1000);
    let short = sig[..63].to_vec();
    assert_eq!(
        s.verify_price(42, 1000, &short),
        Err(DropError::InvalidSignature)
    );
    let mut long = sig.clone();
    long.push(0);
    assert_eq!(
        s.verify_price(42, 1000, &long),
        Err(DropError::InvalidSignature)
    );
    assert_eq!(
        s.verify_price(42, 1000, &Vec::new()),
        Err(DropError::InvalidSignature)
    );
}

#[test]
fn every_single_bit_flip_invalidates_the_signature() {
    let (s, sk) = market_with_key();
    let sig = sign_attestation(&sk, 42, 1000);
    assert_eq!(s.verify_price(42, 1000, &sig), Ok(()));
    for byte in 0..64 {
        for bit in 0..8 {
            let mut mutated = sig.clone();
            mutated[byte] ^= 1u8 << bit;
            assert_eq!(
                s.verify_price(42, 1000, &mutated),
                Err(DropError::InvalidSignature),
                "bit {} of byte {} accepted",
                bit,
                byte
            );
        }
    }
}

#[test]
fn mutated_signature_aborts_the_purchase() {
    let (s, sk) = approved_market();
    let mut sig = sign_attestation(&sk, RATE, 1000);
    sig[0] ^= 1;
    let r = s.affiliate_buy(1, 1, 0, 0, RATE, 1000, &sig, 1_000_000, 1000);
    assert_eq!(r, Err(DropError::InvalidSignature));
    // nothing changed: balances and requests read back as before
    assert_eq!(s.balance_of(1, PRODUCER), 5);
    assert_eq!(s.get_token_supply(1), Some(5));
    assert_eq!(s.get_commission(1), Some(500));
}

#[test]
fn affiliate_split_is_exact() {
    let (s, sk) = approved_market();
    let sig = sign_attestation(&sk, RATE, 1000);
    let r = s
        .affiliate_buy(1, 1, 0, 0, RATE, 1000, &sig, 1_000_000, 1000)
        .unwrap();
    assert_eq!(
        r,
        vec![
            Transfer {
                to: OWNER,
                amount: 10_000
            },
            Transfer {
                to: PRODUCER,
                amount: 940_500
            },
            Transfer {
                to: PUBLISHER,
                amount: 49_500
            },
        ]
    );
    let total: u128 = r.iter().map(|t| t.amount).sum();
    assert_eq!(total, 1_000_000);
}

#[test]
fn affiliate_buy_validates_request_amount_payment_and_supply() {
    let (s, sk) = approved_market();
    let sig = sign_attestation(&sk, RATE, 1000);
    assert_eq!(
        s.affiliate_buy(1, 0, 0, 0, RATE, 1000, &sig, 1_000_000, 1000),
        Err(DropError::InvalidAmount)
    );
    assert_eq!(
        s.affiliate_buy(2, 1, 0, 0, RATE, 1000, &sig, 1_000_000, 1000),
        Err(DropError::RequestNotFound)
    );
    assert_eq!(
        s.affiliate_buy(1, 1, 0, 0, RATE, 1000, &sig, 999_999, 1000),
        Err(DropError::InsufficientPayment)
    );
    assert_eq!(
        s.affiliate_buy(1, 6, 0, 0, RATE, 1000, &sig, 1_000_000, 1000),
        Err(DropError::InsufficientSupply)
    );
}

#[test]
fn affiliate_buy_needs_an_approved_request() {
    let (mut s, sk) = market_with_key();
    s.mint(PRODUCER, String::from("ipfs://item"), 1, 5, 500)
        .unwrap();
    s.publish_request(PUBLISHER, PRODUCER, 1).unwrap();
    let sig = sign_attestation(&sk, RATE, 1000);
    // still pending: not usable for an affiliate purchase
    assert_eq!(
        s.affiliate_buy(1, 1, 0, 0, RATE, 1000, &sig, 1_000_000, 1000),
        Err(DropError::RequestNotFound)
    );
}

#[test]
fn recorded_split_covers_shipping_and_tax() {
    let (s, sk) = approved_market();
    let sig = sign_attestation(&sk, RATE, 1000);
    let r = s
        .recorded_buy(PRODUCER, 1, 2, 3, 1, RATE, 1000, &sig, 6_000_000, 1000)
        .unwrap();
    assert_eq!(
        r,
        vec![
            Transfer {
                to: OWNER,
                amount: 10_000
            },
            Transfer {
                to: PRODUCER,
                amount: 5_990_000
            },
        ]
    );
}

#[test]
fn recorded_buy_validates_token_and_payment() {
    let (s, sk) = approved_market();
    let sig = sign_attestation(&sk, RATE, 1000);
    assert_eq!(
        s.recorded_buy(PRODUCER, 2, 0, 0, 1, RATE, 1000, &sig, 1_000_000, 1000),
        Err(DropError::TokenNotFound)
    );
    assert_eq!(
        s.recorded_buy(PRODUCER, 1, 0, 0, 1, RATE, 1000, &sig, 999_999, 1000),
        Err(DropError::InsufficientPayment)
    );
    assert_eq!(
        s.recorded_buy(PRODUCER, 1, 0, 0, 6, RATE, 1000, &sig, 1_000_000, 1000),
        Err(DropError::InsufficientSupply)
    );
    assert_eq!(
        s.recorded_buy(PRODUCER, 1, 0, 0, 0, RATE, 1000, &sig, 1_000_000, 1000),
        Err(DropError::InvalidAmount)
    );
}

#[test]
fn direct_split_pays_recipient_then_platform() {
    let (s, sk) = market_with_key();
    let sig = sign_attestation(&sk, RATE, 1000);
    let r = s
        .direct_buy(1, PRODUCER, RATE, 1000, &sig, 1_000_000, 1000)
        .unwrap();
    assert_eq!(
        r,
        vec![
            Transfer {
                to: PRODUCER,
                amount: 990_000
            },
            Transfer {
                to: OWNER,
                amount: 10_000
            },
        ]
    );
}

#[test]
fn direct_buy_validates_payment() {
    let (s, sk) = market_with_key();
    let sig = sign_attestation(&sk, RATE, 1000);
    assert_eq!(
        s.direct_buy(1, PRODUCER, RATE, 1000, &sig, 999_999, 1000),
        Err(DropError::InsufficientPayment)
    );
}

#[test]
fn staleness_boundary_is_twice_the_heartbeat() {
    let (s, sk) = market_with_key();
    let sig = sign_attestation(&sk, RATE, 1000);
    // exactly 240 ms behind with heartbeat 120: still accepted
    assert!(s
        .direct_buy(1, PRODUCER, RATE, 1000, &sig, 1_000_000, 1240)
        .is_ok());
    // one millisecond more: rejected
    assert_eq!(
        s.direct_buy(1, PRODUCER, RATE, 1000, &sig, 1_000_000, 1241),
        Err(DropError::StalePrice)
    );
    // a timestamp ahead of the clock is not stale
    assert!(s
        .direct_buy(1, PRODUCER, RATE, 1000, &sig, 1_000_000, 999)
        .is_ok());
}

#[test]
fn stale_attestations_abort_affiliate_and_recorded_buys() {
    let (s, sk) = approved_market();
    let sig = sign_attestation(&sk, RATE, 1000);
    assert_eq!(
        s.affiliate_buy(1, 1, 0, 0, RATE, 1000, &sig, 1_000_000, 1241),
        Err(DropError::StalePrice)
    );
    assert_eq!(
        s.recorded_buy(PRODUCER, 1, 0, 0, 1, RATE, 1000, &sig, 1_000_000, 1241),
        Err(DropError::StalePrice)
    );
}
