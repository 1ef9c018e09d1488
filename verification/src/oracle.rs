use vstd::prelude::*;
use vstd::string::StringExecFns;
use ed25519_dalek::Verifier;
use crate::errors::DropError;
use crate::hashing::{sha256_of, sha256_str};
use crate::numerals::{dec_str_of, u128_to_dec, u64_to_dec};
use crate::state::DroplinkedStorage;

verus! {

/// Whether Ed25519 verification of `sig` over `msg` under the public key
/// bytes `pk` succeeds.
pub uninterp spec fn ed25519_accepts(pk: Seq<u8>, msg: Seq<u8>, sig: Seq<u8>) -> bool;

/// Relies on `ed25519_dalek::VerifyingKey::{from_bytes, verify}` and
/// `ed25519_dalek::Signature::from_slice`: whether the chain accepts is a
/// pure function of the key bytes, the message and the signature bytes
/// alone; a signature that is not exactly 64 bytes long is never accepted.
#[verifier::external_body]
fn ed25519_verify(pk: &Vec<u8>, msg: &Vec<u8>, sig: &Vec<u8>) -> (ok: bool)
    ensures
        ok == ed25519_accepts(pk@, msg@, sig@),
        sig@.len() != 64 ==> !ok,
{
    let key: [u8; 32] = match pk.as_slice().try_into() {
        Ok(k) => k,
        Err(_) => return false,
    };
    let vkey = match ed25519_dalek::VerifyingKey::from_bytes(&key) {
        Ok(v) => v,
        Err(_) => return false,
    };
    let s = match ed25519_dalek::Signature::from_slice(sig.as_slice()) {
        Ok(s) => s,
        Err(_) => return false,
    };
    vkey.verify(msg.as_slice(), &s).is_ok()
}

/// The canonical oracle message for a price attestation:
/// `"<price>,<timestamp>"`, both numbers in decimal.
pub open spec fn price_message_of(price: u128, timestamp: u64) -> Seq<char> {
    dec_str_of(price as int) + ","@ + dec_str_of(timestamp as int)
}

/// A valid attestation: the oracle signed the SHA-256 digest of the
/// canonical message under the given key.
pub open spec fn attestation_valid(pk: Seq<u8>, price: u128, timestamp: u64, sig: Seq<u8>) -> bool {
    ed25519_accepts(pk, sha256_of(price_message_of(price, timestamp)), sig)
}

/// Whether an attestation is older than the tolerated window: the ledger
/// clock is ahead of its timestamp by more than twice the heartbeat.
pub open spec fn stale(now_ms: u64, timestamp: u64, heart_beat: u64) -> bool {
    now_ms > timestamp && now_ms - timestamp > 2 * heart_beat
}

impl DroplinkedStorage {
    /// Checks the oracle's detached signature over the canonical
    /// price-and-timestamp message against the configured public key.
    pub fn verify_price(&self, latest_answer: u128, timestamp: u64, signature: &Vec<u8>) -> (r:
        Result<(), DropError>)
        ensures
            r is Ok <==> attestation_valid(self.pub_key@, latest_answer, timestamp, signature@),
            r is Err ==> r == Err::<(), DropError>(DropError::InvalidSignature),
    {
        let mut msg = u128_to_dec(latest_answer);
        msg.append(",");
        let t = u64_to_dec(timestamp);
        msg.append(t.as_str());
        let digest = sha256_str(msg.as_str());
        if ed25519_verify(&self.pub_key, &digest, signature) {
            Ok(())
        } else {
            Err(DropError::InvalidSignature)
        }
    }

    /// Whether an attestation timestamp is still within the tolerated
    /// window of the given ledger time.  A timestamp exactly at the
    /// boundary is still fresh.
    pub fn price_fresh(&self, timestamp: u64, now_ms: u64) -> (fresh: bool)
        requires
            self.heart_beat <= u64::MAX / 2,
        ensures
            fresh == !stale(now_ms, timestamp, self.heart_beat),
    {
        !(now_ms > timestamp && now_ms - timestamp > 2 * self.heart_beat)
    }
}

} // verus!
