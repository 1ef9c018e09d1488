use vstd::prelude::*;
use vstd::arithmetic::div_mod::{
    lemma_div_is_ordered, lemma_div_multiples_vanish, lemma_div_nonincreasing,
    lemma_div_pos_is_pos,
};
use vstd::arithmetic::mul::{lemma_mul_inequality, lemma_mul_nonnegative};
use crate::errors::DropError;
use crate::oracle::{attestation_valid, stale};
use crate::state::{AccountKey, DroplinkedStorage, RequestStatus, Transfer};

verus! {

/// Native-asset units per fiat unit of account, the conversion scale.
pub const ONE_NEAR: u128 = 1_000_000_000_000_000_000_000_000;

/// Native-asset value of a fiat amount at the attested exchange rate,
/// floor-truncated.
pub open spec fn native_of(fiat: int, rate: u128) -> int
    recommends
        rate > 0,
{
    fiat * ONE_NEAR / rate as int
}

/// The platform's cut of an amount, in basis points, floor-truncated.
pub open spec fn platform_share_of(amount: int, fee: u128) -> int {
    amount * fee / 10000
}

/// The publisher's cut: its commission applied to what remains of the
/// product price after the platform's cut, floor-truncated.
pub open spec fn commission_share_of(product_price: int, fee: u128, commission: u128) -> int {
    (product_price - platform_share_of(product_price, fee)) * commission / 10000
}

/// A basis-point share of a nonnegative amount is between zero and the
/// amount itself.
pub proof fn lemma_bps_share_bounds(amount: int, bps: u128)
    requires
        amount >= 0,
        bps <= 10000,
    ensures
        0 <= amount * bps / 10000 <= amount,
{
    lemma_mul_nonnegative(amount, bps as int);
    lemma_div_pos_is_pos(amount * bps, 10000);
    lemma_mul_inequality(bps as int, 10000, amount);
    assert(amount * bps == bps * amount) by (nonlinear_arith);
    assert(amount * 10000 == 10000 * amount) by (nonlinear_arith);
    lemma_div_is_ordered(amount * bps, amount * 10000, 10000);
    lemma_div_multiples_vanish(amount, 10000);
}

/// The shares of a settlement partition the converted total exactly: the
/// platform's and publisher's cuts both exist within the product price,
/// and the producer receives precisely the rest.
pub proof fn lemma_split_partitions_total(
    total: int,
    product_price: int,
    fee: u128,
    commission: u128,
)
    requires
        0 <= product_price <= total,
        fee <= 10000,
        commission <= 10000,
    ensures
        ({
            let plat = platform_share_of(product_price, fee);
            let publ = commission_share_of(product_price, fee, commission);
            &&& 0 <= plat
            &&& 0 <= publ
            &&& plat + publ <= product_price
            &&& plat + publ + (total - plat - publ) == total
        }),
{
    lemma_bps_share_bounds(product_price, fee);
    lemma_bps_share_bounds(product_price - platform_share_of(product_price, fee), commission);
}

/// Converts a fiat amount to native-asset units at the attested rate.
fn to_native(fiat: u128, rate: u128) -> (n: u128)
    requires
        rate > 0,
        fiat * ONE_NEAR <= u128::MAX,
    ensures
        n == native_of(fiat as int, rate),
        n <= fiat * ONE_NEAR,
{
    proof {
        lemma_mul_nonnegative(fiat as int, ONE_NEAR as int);
        lemma_div_pos_is_pos(fiat as int * ONE_NEAR as int, rate as int);
        lemma_div_nonincreasing(fiat as int * ONE_NEAR as int, rate as int);
    }
    (fiat * ONE_NEAR) / rate
}

impl DroplinkedStorage {
    /// Settles an affiliate purchase: the oracle attestation is checked
    /// and the converted payment is split three ways among the platform
    /// owner, the producer and the publisher of an approved request, the
    /// publisher earning the commission snapshot of that request.  Nothing
    /// is mutated; the returned transfers are dispatched by the host only
    /// on success.
    pub fn affiliate_buy(
        &self,
        request_id: u128,
        amount: u128,
        shipping: u128,
        tax: u128,
        latest_answer: u128,
        timestamp: u64,
        signature: &Vec<u8>,
        attached: u128,
        now_ms: u64,
    ) -> (r: Result<Vec<Transfer>, DropError>)
        requires
            self.wf(),
            self.has_approved_request(request_id) ==> ({
                let req = self.spec_request(request_id);
                let pp = native_of(
                    self.spec_token(req.token_id).metadata.price as int,
                    latest_answer,
                );
                &&& latest_answer > 0
                &&& self.spec_token(req.token_id).metadata.price * ONE_NEAR <= u128::MAX
                &&& (shipping + tax) * ONE_NEAR <= u128::MAX
                &&& pp + native_of(shipping + tax, latest_answer) <= u128::MAX
                &&& pp * self.fee <= u128::MAX
                &&& (pp - platform_share_of(pp, self.fee)) * req.commission <= u128::MAX
            }),
        ensures
            ({
                let e = |k: DropError| Err::<Vec<Transfer>, DropError>(k);
                if amount == 0 {
                    r == e(DropError::InvalidAmount)
                } else if !attestation_valid(self.pub_key@, latest_answer, timestamp, signature@) {
                    r == e(DropError::InvalidSignature)
                } else if !self.has_approved_request(request_id) {
                    r == e(DropError::RequestNotFound)
                } else if stale(now_ms, timestamp, self.heart_beat) {
                    r == e(DropError::StalePrice)
                } else {
                    let req = self.spec_request(request_id);
                    let tok = self.spec_token(req.token_id);
                    let pp = native_of(tok.metadata.price as int, latest_answer);
                    let total = pp + native_of(shipping + tax, latest_answer);
                    if attached < total {
                        r == e(DropError::InsufficientPayment)
                    } else if tok.supply < amount {
                        r == e(DropError::InsufficientSupply)
                    } else {
                        let plat = platform_share_of(pp, self.fee);
                        let publ = commission_share_of(pp, self.fee, req.commission);
                        &&& r is Ok
                        &&& r->Ok_0@.len() == 3
                        &&& r->Ok_0@[0] == (Transfer { to: self.owner, amount: plat as u128 })
                        &&& r->Ok_0@[1] == (Transfer {
                            to: req.producer,
                            amount: (total - plat - publ) as u128,
                        })
                        &&& r->Ok_0@[2] == (Transfer { to: req.publisher, amount: publ as u128 })
                        &&& plat + publ + (total - plat - publ) == total
                    }
                }
            }),
    {
        if amount == 0 {
            return Err(DropError::InvalidAmount);
        }
        match self.verify_price(latest_answer, timestamp, signature) {
            Err(err) => {
                return Err(err);
            },
            Ok(()) => {},
        }
        if !(1 <= request_id && request_id <= self.requests.len() as u128) {
            return Err(DropError::RequestNotFound);
        }
        let idx: usize = (request_id - 1) as usize;
        let req = match self.requests[idx] {
            None => {
                return Err(DropError::RequestNotFound);
            },
            Some(rq) => rq,
        };
        if req.status != RequestStatus::Approved {
            return Err(DropError::RequestNotFound);
        }
        if !self.price_fresh(timestamp, now_ms) {
            return Err(DropError::StalePrice);
        }
        proof {
            assert(self.requests@[idx as int] == Some(req));
            assert(self.req_live(idx as int));
            assert(self.req_at(idx as int) == req);
            assert(self.has_request(request_id));
            assert(self.spec_request(request_id) == req);
            assert(self.has_approved_request(request_id));
            assert(self.has_token(req.token_id));
            assert(req.commission <= 10000);
        }
        let tok_idx: usize = (req.token_id - 1) as usize;
        proof {
            vstd::std_specs::vec::axiom_spec_len(&self.tokens);
            assert(tok_idx as int == req.token_id - 1);
            assert(self.tokens@[tok_idx as int] == self.spec_token(req.token_id));
        }
        let product_price = to_native(self.tokens[tok_idx].metadata.price, latest_answer);
        proof {
            assert((shipping + tax) * ONE_NEAR <= u128::MAX);
            assert(shipping + tax <= (shipping + tax) * ONE_NEAR) by (nonlinear_arith)
                requires
                    shipping + tax >= 0,
            ;
        }
        let extra = to_native(shipping + tax, latest_answer);
        let total_amount = product_price + extra;
        if attached < total_amount {
            return Err(DropError::InsufficientPayment);
        }
        if self.tokens[tok_idx].supply < amount {
            return Err(DropError::InsufficientSupply);
        }
        proof {
            lemma_bps_share_bounds(product_price as int, self.fee);
        }
        let platform_share = (product_price * self.fee) / 10000;
        let rem = product_price - platform_share;
        proof {
            lemma_bps_share_bounds(rem as int, req.commission);
        }
        let publisher_share = (rem * req.commission) / 10000;
        let producer_share = total_amount - platform_share - publisher_share;
        let mut out: Vec<Transfer> = Vec::new();
        out.push(Transfer { to: self.owner, amount: platform_share });
        out.push(Transfer { to: req.producer, amount: producer_share });
        out.push(Transfer { to: req.publisher, amount: publisher_share });
        Ok(out)
    }

    /// Settles a recorded purchase: like an affiliate purchase but with no
    /// publisher involved, so the converted payment is split two ways
    /// between the platform owner and the named producer.
    pub fn recorded_buy(
        &self,
        producer: AccountKey,
        token_id: u128,
        shipping: u128,
        tax: u128,
        amount: u128,
        latest_answer: u128,
        timestamp: u64,
        signature: &Vec<u8>,
        attached: u128,
        now_ms: u64,
    ) -> (r: Result<Vec<Transfer>, DropError>)
        requires
            self.wf(),
            self.has_token(token_id) ==> ({
                let pp = native_of(self.spec_token(token_id).metadata.price as int, latest_answer);
                &&& latest_answer > 0
                &&& self.spec_token(token_id).metadata.price * ONE_NEAR <= u128::MAX
                &&& (shipping + tax) * ONE_NEAR <= u128::MAX
                &&& pp + native_of(shipping + tax, latest_answer) <= u128::MAX
                &&& pp * self.fee <= u128::MAX
            }),
        ensures
            ({
                let e = |k: DropError| Err::<Vec<Transfer>, DropError>(k);
                if amount == 0 {
                    r == e(DropError::InvalidAmount)
                } else if !attestation_valid(self.pub_key@, latest_answer, timestamp, signature@) {
                    r == e(DropError::InvalidSignature)
                } else if !self.has_token(token_id) {
                    r == e(DropError::TokenNotFound)
                } else if stale(now_ms, timestamp, self.heart_beat) {
                    r == e(DropError::StalePrice)
                } else {
                    let tok = self.spec_token(token_id);
                    let pp = native_of(tok.metadata.price as int, latest_answer);
                    let total = pp + native_of(shipping + tax, latest_answer);
                    if attached < total {
                        r == e(DropError::InsufficientPayment)
                    } else if tok.supply < amount {
                        r == e(DropError::InsufficientSupply)
                    } else {
                        let plat = platform_share_of(pp, self.fee);
                        &&& r is Ok
                        &&& r->Ok_0@.len() == 2
                        &&& r->Ok_0@[0] == (Transfer { to: self.owner, amount: plat as u128 })
                        &&& r->Ok_0@[1] == (Transfer {
                            to: producer,
                            amount: (total - plat) as u128,
                        })
                        &&& plat + (total - plat) == total
                    }
                }
            }),
    {
        if amount == 0 {
            return Err(DropError::InvalidAmount);
        }
        match self.verify_price(latest_answer, timestamp, signature) {
            Err(err) => {
                return Err(err);
            },
            Ok(()) => {},
        }
        if !(1 <= token_id && token_id <= self.tokens.len() as u128) {
            return Err(DropError::TokenNotFound);
        }
        if !self.price_fresh(timestamp, now_ms) {
            return Err(DropError::StalePrice);
        }
        let tok_idx: usize = (token_id - 1) as usize;
        let product_price = to_native(self.tokens[tok_idx].metadata.price, latest_answer);
        proof {
            assert(shipping + tax <= (shipping + tax) * ONE_NEAR) by (nonlinear_arith)
                requires
                    shipping + tax >= 0,
            ;
        }
        let extra = to_native(shipping + tax, latest_answer);
        let total_amount = product_price + extra;
        if attached < total_amount {
            return Err(DropError::InsufficientPayment);
        }
        if self.tokens[tok_idx].supply < amount {
            return Err(DropError::InsufficientSupply);
        }
        proof {
            lemma_bps_share_bounds(product_price as int, self.fee);
        }
        let droplinked_share = (product_price * self.fee) / 10000;
        let producer_share = total_amount - droplinked_share;
        let mut out: Vec<Transfer> = Vec::new();
        out.push(Transfer { to: self.owner, amount: droplinked_share });
        out.push(Transfer { to: producer, amount: producer_share });
        Ok(out)
    }

    /// Settles a direct purchase: the converted price alone, split two
    /// ways between the named recipient and the platform owner.
    pub fn direct_buy(
        &self,
        price: u128,
        recipient: AccountKey,
        latest_answer: u128,
        timestamp: u64,
        signature: &Vec<u8>,
        attached: u128,
        now_ms: u64,
    ) -> (r: Result<Vec<Transfer>, DropError>)
        requires
            self.wf(),
            latest_answer > 0,
            price * ONE_NEAR <= u128::MAX,
            native_of(price as int, latest_answer) * self.fee <= u128::MAX,
        ensures
            ({
                let e = |k: DropError| Err::<Vec<Transfer>, DropError>(k);
                if !attestation_valid(self.pub_key@, latest_answer, timestamp, signature@) {
                    r == e(DropError::InvalidSignature)
                } else if stale(now_ms, timestamp, self.heart_beat) {
                    r == e(DropError::StalePrice)
                } else {
                    let total = native_of(price as int, latest_answer);
                    let plat = platform_share_of(total, self.fee);
                    if attached < total {
                        r == e(DropError::InsufficientPayment)
                    } else {
                        &&& r is Ok
                        &&& r->Ok_0@.len() == 2
                        &&& r->Ok_0@[0] == (Transfer {
                            to: recipient,
                            amount: (total - plat) as u128,
                        })
                        &&& r->Ok_0@[1] == (Transfer { to: self.owner, amount: plat as u128 })
                        &&& plat + (total - plat) == total
                    }
                }
            }),
    {
        match self.verify_price(latest_answer, timestamp, signature) {
            Err(err) => {
                return Err(err);
            },
            Ok(()) => {},
        }
        if !self.price_fresh(timestamp, now_ms) {
            return Err(DropError::StalePrice);
        }
        let total_amount = to_native(price, latest_answer);
        proof {
            lemma_bps_share_bounds(total_amount as int, self.fee);
        }
        let droplinked_share = (total_amount * self.fee) / 10000;
        if attached < total_amount {
            return Err(DropError::InsufficientPayment);
        }
        let mut out: Vec<Transfer> = Vec::new();
        out.push(Transfer { to: recipient, amount: total_amount - droplinked_share });
        out.push(Transfer { to: self.owner, amount: droplinked_share });
        Ok(out)
    }
}

} // verus!
