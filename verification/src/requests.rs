use vstd::prelude::*;
use vstd::string::StringExecFns;
use crate::errors::DropError;
use crate::numerals::{dec_str_of, u128_to_dec, u64_to_dec};
use crate::state::{AccountKey, DroplinkedStorage, Request, RequestStatus, engaged, same_triple};

verus! {

/// A step that keeps the tokens, holdings and total supply keeps the token
/// registry well-formed.
pub proof fn lemma_registry_wf_preserved(pre: &DroplinkedStorage, post: &DroplinkedStorage)
    requires
        pre.tokens_wf(),
        pre.holdings_wf(),
        post.tokens@ == pre.tokens@,
        post.holdings@ == pre.holdings@,
        post.total_supply == pre.total_supply,
    ensures
        post.tokens_wf(),
        post.holdings_wf(),
{
    assert forall|t: u128| post.has_token(t) implies #[trigger] post.spec_token_balance_total(t)
        == post.spec_token(t).supply by {
        assert(pre.has_token(t));
        assert(pre.spec_token_balance_total(t) == pre.spec_token(t).supply);
    };
}

/// The JSON rendering of a live request, as served to read-only consumers.
/// `accepted` reports whether the producer's approval currently stands.
pub open spec fn request_json_of(r: Request) -> Seq<char> {
    "{\"token_id\":"@ + dec_str_of(r.token_id as int) + ",\"producer\":"@ + dec_str_of(
        r.producer as int,
    ) + ",\"publisher\":"@ + dec_str_of(r.publisher as int) + ",\"accepted\":"@ + (if r.status
        is Approved {
        "true"@
    } else {
        "false"@
    }) + "}"@
}

impl DroplinkedStorage {
    /// Files the caller's request for commission rights over a token of
    /// `producer_account`.  The request starts pending, with the token's
    /// current commission rate as its immutable snapshot.  While a pending
    /// or approved request occupies the same (producer, publisher, token)
    /// triple, a new one is refused.
    pub fn publish_request(
        &mut self,
        caller: AccountKey,
        producer_account: AccountKey,
        token_id: u128,
    ) -> (r: Result<u128, DropError>)
        requires
            old(self).wf(),
            old(self).requests@.len() < usize::MAX,
        ensures
            final(self).wf(),
            ({
                let pre = *old(self);
                let post = *final(self);
                if pre.spec_triple_engaged(producer_account, caller, token_id) {
                    r == Err::<u128, DropError>(DropError::DuplicateRequest) && post == pre
                } else if !pre.has_token(token_id) {
                    r == Err::<u128, DropError>(DropError::TokenNotFound) && post == pre
                } else {
                    &&& r == Ok::<u128, DropError>((pre.requests@.len() + 1) as u128)
                    &&& post.requests@ == pre.requests@.push(
                        Some(
                            (Request {
                                token_id,
                                producer: producer_account,
                                publisher: caller,
                                commission: pre.spec_token(token_id).metadata.commission,
                                status: RequestStatus::Pending,
                            }),
                        ),
                    )
                    &&& post.tokens == pre.tokens
                    &&& post.holdings == pre.holdings
                    &&& post.total_supply == pre.total_supply
                    &&& post.owner == pre.owner
                    &&& post.fee == pre.fee
                    &&& post.heart_beat == pre.heart_beat
                    &&& post.pub_key == pre.pub_key
                    &&& post.name == pre.name
                    &&& post.symbol == pre.symbol
                }
            }),
    {
        let n = self.requests.len();
        let mut i: usize = 0;
        while i < n
            invariant
                old(self).wf(),
                *self == *old(self),
                n == self.requests@.len(),
                i <= n,
                forall|j: int|
                    0 <= j < i ==> !(self.req_live(j) && engaged(#[trigger] self.req_at(j))
                        && self.req_at(j).producer == producer_account && self.req_at(j).publisher
                        == caller && self.req_at(j).token_id == token_id),
            decreases n - i,
        {
            match &self.requests[i] {
                Some(req) => {
                    if (req.status == RequestStatus::Pending || req.status
                        == RequestStatus::Approved) && req.producer == producer_account
                        && req.publisher == caller && req.token_id == token_id {
                        proof {
                            assert(self.req_live(i as int) && engaged(self.req_at(i as int)));
                        }
                        return Err(DropError::DuplicateRequest);
                    }
                },
                None => {},
            }
            i += 1;
        }
        proof {
            assert(!old(self).spec_triple_engaged(producer_account, caller, token_id));
        }
        if !(1 <= token_id && token_id <= self.tokens.len() as u128) {
            return Err(DropError::TokenNotFound);
        }
        let idx: usize = (token_id - 1) as usize;
        let commission = self.tokens[idx].metadata.commission;
        let req = Request {
            token_id,
            producer: producer_account,
            publisher: caller,
            commission,
            status: RequestStatus::Pending,
        };
        self.requests.push(Some(req));
        proof {
            lemma_registry_wf_preserved(old(self), self);
            assert forall|a: int, b: int|
                self.req_live(a) && self.req_live(b) && a != b && engaged(#[trigger] self.req_at(a))
                    && engaged(#[trigger] self.req_at(b)) implies !same_triple(
                self.req_at(a),
                self.req_at(b),
            ) by {
                if a < n && b < n {
                    assert(old(self).req_live(a) && old(self).req_live(b));
                    assert(self.req_at(a) == old(self).req_at(a));
                    assert(self.req_at(b) == old(self).req_at(b));
                } else if a == n {
                    assert(self.req_at(a) == req);
                    assert(old(self).req_live(b) && self.req_at(b) == old(self).req_at(b));
                } else {
                    assert(self.req_at(b) == req);
                    assert(old(self).req_live(a) && self.req_at(a) == old(self).req_at(a));
                }
            };
            assert forall|a: int| self.req_live(a) implies self.has_token(
                (#[trigger] self.req_at(a)).token_id,
            ) && self.req_at(a).commission <= 10000 by {
                if a < n {
                    assert(old(self).req_live(a));
                    assert(self.req_at(a) == old(self).req_at(a));
                } else {
                    assert(self.req_at(a) == req);
                }
            };
        }
        Ok((n as u128) + 1)
    }

    /// Grants a pending request: only the named producer may, and only
    /// while the request is pending.
    pub fn approve(&mut self, caller: AccountKey, request_id: u128) -> (r: Result<(), DropError>)
        requires
            old(self).wf(),
        ensures
            final(self).wf(),
            ({
                let pre = *old(self);
                let post = *final(self);
                if !pre.has_request(request_id) {
                    r == Err::<(), DropError>(DropError::RequestNotFound) && post == pre
                } else if caller != pre.spec_request(request_id).producer {
                    r == Err::<(), DropError>(DropError::AccessDenied) && post == pre
                } else if !(pre.spec_request(request_id).status is Pending) {
                    r == Err::<(), DropError>(DropError::RequestNotFound) && post == pre
                } else {
                    &&& r == Ok::<(), DropError>(())
                    &&& post.requests@ == pre.requests@.update(
                        request_id - 1,
                        Some(
                            (Request {
                                status: RequestStatus::Approved,
                                ..pre.spec_request(request_id)
                            }),
                        ),
                    )
                    &&& post.tokens == pre.tokens
                    &&& post.holdings == pre.holdings
                    &&& post.total_supply == pre.total_supply
                    &&& post.owner == pre.owner
                    &&& post.fee == pre.fee
                    &&& post.heart_beat == pre.heart_beat
                    &&& post.pub_key == pre.pub_key
                    &&& post.name == pre.name
                    &&& post.symbol == pre.symbol
                }
            }),
    {
        self.set_status(caller, request_id, RequestStatus::Approved)
    }

    /// Withdraws an approval: only the named producer may, and only while
    /// the approval stands.  The request becomes terminal and its
    /// (producer, publisher, token) triple is free again.
    pub fn disapprove(&mut self, caller: AccountKey, request_id: u128) -> (r: Result<
        (),
        DropError,
    >)
        requires
            old(self).wf(),
        ensures
            final(self).wf(),
            ({
                let pre = *old(self);
                let post = *final(self);
                if !pre.has_request(request_id) {
                    r == Err::<(), DropError>(DropError::RequestNotFound) && post == pre
                } else if caller != pre.spec_request(request_id).producer {
                    r == Err::<(), DropError>(DropError::AccessDenied) && post == pre
                } else if !(pre.spec_request(request_id).status is Approved) {
                    r == Err::<(), DropError>(DropError::RequestNotFound) && post == pre
                } else {
                    &&& r == Ok::<(), DropError>(())
                    &&& post.requests@ == pre.requests@.update(
                        request_id - 1,
                        Some(
                            (Request {
                                status: RequestStatus::Disapproved,
                                ..pre.spec_request(request_id)
                            }),
                        ),
                    )
                    &&& post.tokens == pre.tokens
                    &&& post.holdings == pre.holdings
                    &&& post.total_supply == pre.total_supply
                    &&& post.owner == pre.owner
                    &&& post.fee == pre.fee
                    &&& post.heart_beat == pre.heart_beat
                    &&& post.pub_key == pre.pub_key
                    &&& post.name == pre.name
                    &&& post.symbol == pre.symbol
                }
            }),
    {
        self.set_status(caller, request_id, RequestStatus::Disapproved)
    }

    /// The shared body of `approve` and `disapprove`: a producer-only
    /// status step from the status's predecessor.
    fn set_status(&mut self, caller: AccountKey, request_id: u128, target: RequestStatus) -> (r:
        Result<(), DropError>)
        requires
            old(self).wf(),
            target is Approved || target is Disapproved,
        ensures
            final(self).wf(),
            ({
                let pre = *old(self);
                let post = *final(self);
                let from_ok = if target is Approved {
                    pre.has_request(request_id) && pre.spec_request(request_id).status is Pending
                } else {
                    pre.has_request(request_id) && pre.spec_request(request_id).status is Approved
                };
                if !pre.has_request(request_id) {
                    r == Err::<(), DropError>(DropError::RequestNotFound) && post == pre
                } else if caller != pre.spec_request(request_id).producer {
                    r == Err::<(), DropError>(DropError::AccessDenied) && post == pre
                } else if !from_ok {
                    r == Err::<(), DropError>(DropError::RequestNotFound) && post == pre
                } else {
                    &&& r == Ok::<(), DropError>(())
                    &&& post.requests@ == pre.requests@.update(
                        request_id - 1,
                        Some((Request { status: target, ..pre.spec_request(request_id) })),
                    )
                    &&& post.tokens == pre.tokens
                    &&& post.holdings == pre.holdings
                    &&& post.total_supply == pre.total_supply
                    &&& post.owner == pre.owner
                    &&& post.fee == pre.fee
                    &&& post.heart_beat == pre.heart_beat
                    &&& post.pub_key == pre.pub_key
                    &&& post.name == pre.name
                    &&& post.symbol == pre.symbol
                }
            }),
    {
        if !(1 <= request_id && request_id <= self.requests.len() as u128) {
            return Err(DropError::RequestNotFound);
        }
        let idx: usize = (request_id - 1) as usize;
        let slot = self.requests[idx];
        match slot {
            None => Err(DropError::RequestNotFound),
            Some(req) => {
                if caller != req.producer {
                    return Err(DropError::AccessDenied);
                }
                let expected = if matches!(target, RequestStatus::Approved) {
                    RequestStatus::Pending
                } else {
                    RequestStatus::Approved
                };
                if req.status != expected {
                    return Err(DropError::RequestNotFound);
                }
                let updated = Request {
                    token_id: req.token_id,
                    producer: req.producer,
                    publisher: req.publisher,
                    commission: req.commission,
                    status: target,
                };
                self.requests[idx] = Some(updated);
                proof {
                    lemma_registry_wf_preserved(old(self), self);
                    let n = old(self).requests@.len() as int;
                    assert forall|a: int|
                        self.req_live(a) implies self.has_token(
                        (#[trigger] self.req_at(a)).token_id,
                    ) && self.req_at(a).commission <= 10000 by {
                        assert(old(self).req_live(a));
                        if a != idx as int {
                            assert(self.req_at(a) == old(self).req_at(a));
                        }
                    };
                    assert forall|a: int, b: int|
                        self.req_live(a) && self.req_live(b) && a != b && engaged(
                            #[trigger] self.req_at(a),
                        ) && engaged(#[trigger] self.req_at(b)) implies !same_triple(
                        self.req_at(a),
                        self.req_at(b),
                    ) by {
                        assert(old(self).req_live(a) && old(self).req_live(b));
                        assert(a != idx as int ==> self.req_at(a) == old(self).req_at(a));
                        assert(b != idx as int ==> self.req_at(b) == old(self).req_at(b));
                        assert(same_triple(self.req_at(a), self.req_at(b)) == same_triple(
                            old(self).req_at(a),
                            old(self).req_at(b),
                        ));
                        assert(engaged(old(self).req_at(a)) && engaged(old(self).req_at(b)));
                    };
                }
                Ok(())
            },
        }
    }

    /// Withdraws a pending request: only the named publisher may, and only
    /// while the request is pending.  The request is removed entirely and
    /// its (producer, publisher, token) triple is free again.
    pub fn cancel(&mut self, caller: AccountKey, request_id: u128) -> (r: Result<(), DropError>)
        requires
            old(self).wf(),
        ensures
            final(self).wf(),
            ({
                let pre = *old(self);
                let post = *final(self);
                if !pre.has_request(request_id) {
                    r == Err::<(), DropError>(DropError::RequestNotFound) && post == pre
                } else if caller != pre.spec_request(request_id).publisher {
                    r == Err::<(), DropError>(DropError::AccessDenied) && post == pre
                } else if !(pre.spec_request(request_id).status is Pending) {
                    r == Err::<(), DropError>(DropError::RequestNotFound) && post == pre
                } else {
                    &&& r == Ok::<(), DropError>(())
                    &&& post.requests@ == pre.requests@.update(
                        request_id - 1,
                        None::<Request>,
                    )
                    &&& post.tokens == pre.tokens
                    &&& post.holdings == pre.holdings
                    &&& post.total_supply == pre.total_supply
                    &&& post.owner == pre.owner
                    &&& post.fee == pre.fee
                    &&& post.heart_beat == pre.heart_beat
                    &&& post.pub_key == pre.pub_key
                    &&& post.name == pre.name
                    &&& post.symbol == pre.symbol
                }
            }),
    {
        if !(1 <= request_id && request_id <= self.requests.len() as u128) {
            return Err(DropError::RequestNotFound);
        }
        let idx: usize = (request_id - 1) as usize;
        let slot = self.requests[idx];
        match slot {
            None => Err(DropError::RequestNotFound),
            Some(req) => {
                if caller != req.publisher {
                    return Err(DropError::AccessDenied);
                }
                if req.status != RequestStatus::Pending {
                    return Err(DropError::RequestNotFound);
                }
                self.requests[idx] = None;
                proof {
                    lemma_registry_wf_preserved(old(self), self);
                    assert forall|a: int|
                        self.req_live(a) implies self.has_token(
                        (#[trigger] self.req_at(a)).token_id,
                    ) && self.req_at(a).commission <= 10000 by {
                        assert(old(self).req_live(a));
                        assert(self.req_at(a) == old(self).req_at(a));
                    };
                    assert forall|a: int, b: int|
                        self.req_live(a) && self.req_live(b) && a != b && engaged(
                            #[trigger] self.req_at(a),
                        ) && engaged(#[trigger] self.req_at(b)) implies !same_triple(
                        self.req_at(a),
                        self.req_at(b),
                    ) by {
                        assert(old(self).req_live(a) && old(self).req_live(b));
                        assert(self.req_at(a) == old(self).req_at(a));
                        assert(self.req_at(b) == old(self).req_at(b));
                    };
                }
                Ok(())
            },
        }
    }

    /// The JSON rendering of a live request, when the id names one.
    pub fn get_request(&self, request_id: u128) -> (r: Option<String>)
        ensures
            r is Some <==> self.has_request(request_id),
            r is Some ==> r.unwrap()@ == request_json_of(self.spec_request(request_id)),
    {
        if !(1 <= request_id && request_id <= self.requests.len() as u128) {
            return None;
        }
        let idx: usize = (request_id - 1) as usize;
        match &self.requests[idx] {
            None => None,
            Some(req) => {
                let mut s = String::from_str("{\"token_id\":");
                let t = u128_to_dec(req.token_id);
                s.append(t.as_str());
                s.append(",\"producer\":");
                let p = u64_to_dec(req.producer);
                s.append(p.as_str());
                s.append(",\"publisher\":");
                let q = u64_to_dec(req.publisher);
                s.append(q.as_str());
                s.append(",\"accepted\":");
                if req.status == RequestStatus::Approved {
                    s.append("true");
                } else {
                    s.append("false");
                }
                s.append("}");
                Some(s)
            },
        }
    }

    /// The ids of the live pending-or-approved requests that name
    /// `account` as producer, in ascending order.
    pub fn get_producer_requests(&self, account: AccountKey) -> (r: Vec<u128>)
        ensures
            forall|k: int|
                0 <= k < r@.len() ==> self.has_request(#[trigger] r@[k]) && engaged(
                    self.spec_request(r@[k]),
                ) && self.spec_request(r@[k]).producer == account,
            forall|i: int|
                self.req_live(i) && engaged(#[trigger] self.req_at(i)) && self.req_at(i).producer
                    == account ==> r@.contains((i + 1) as u128),
            forall|k1: int, k2: int| 0 <= k1 < k2 < r@.len() ==> r@[k1] < r@[k2],
    {
        let n = self.requests.len();
        let mut out: Vec<u128> = Vec::new();
        let mut i: usize = 0;
        while i < n
            invariant
                n == self.requests@.len(),
                i <= n,
                forall|k: int|
                    0 <= k < out@.len() ==> self.has_request(#[trigger] out@[k]) && engaged(
                        self.spec_request(out@[k]),
                    ) && self.spec_request(out@[k]).producer == account,
                forall|j: int|
                    0 <= j < i && self.req_live(j) && engaged(#[trigger] self.req_at(j))
                        && self.req_at(j).producer == account ==> out@.contains((j + 1) as u128),
                forall|k: int| 0 <= k < out@.len() ==> (#[trigger] out@[k]) <= i as u128,
                forall|k1: int, k2: int| 0 <= k1 < k2 < out@.len() ==> out@[k1] < out@[k2],
            decreases n - i,
        {
            let ghost prev = out@;
            match &self.requests[i] {
                Some(req) => {
                    if (req.status == RequestStatus::Pending || req.status
                        == RequestStatus::Approved) && req.producer == account {
                        out.push((i as u128) + 1);
                    }
                },
                None => {},
            }
            proof {
                assert forall|j: int|
                    0 <= j < i + 1 && self.req_live(j) && engaged(#[trigger] self.req_at(j))
                        && self.req_at(j).producer == account implies out@.contains(
                    (j + 1) as u128,
                ) by {
                    if j < i {
                        let k = choose|k: int| 0 <= k < prev.len() && prev[k] == (j + 1) as u128;
                        assert(out@[k] == (j + 1) as u128);
                    } else {
                        assert(out@[out@.len() - 1] == (j + 1) as u128);
                    }
                };
            }
            i += 1;
        }
        out
    }

    /// The ids of the live pending-or-approved requests that name
    /// `account` as publisher, in ascending order.
    pub fn get_publisher_requests(&self, account: AccountKey) -> (r: Vec<u128>)
        ensures
            forall|k: int|
                0 <= k < r@.len() ==> self.has_request(#[trigger] r@[k]) && engaged(
                    self.spec_request(r@[k]),
                ) && self.spec_request(r@[k]).publisher == account,
            forall|i: int|
                self.req_live(i) && engaged(#[trigger] self.req_at(i)) && self.req_at(i).publisher
                    == account ==> r@.contains((i + 1) as u128),
            forall|k1: int, k2: int| 0 <= k1 < k2 < r@.len() ==> r@[k1] < r@[k2],
    {
        let n = self.requests.len();
        let mut out: Vec<u128> = Vec::new();
        let mut i: usize = 0;
        while i < n
            invariant
                n == self.requests@.len(),
                i <= n,
                forall|k: int|
                    0 <= k < out@.len() ==> self.has_request(#[trigger] out@[k]) && engaged(
                        self.spec_request(out@[k]),
                    ) && self.spec_request(out@[k]).publisher == account,
                forall|j: int|
                    0 <= j < i && self.req_live(j) && engaged(#[trigger] self.req_at(j))
                        && self.req_at(j).publisher == account ==> out@.contains((j + 1) as u128),
                forall|k: int| 0 <= k < out@.len() ==> (#[trigger] out@[k]) <= i as u128,
                forall|k1: int, k2: int| 0 <= k1 < k2 < out@.len() ==> out@[k1] < out@[k2],
            decreases n - i,
        {
            let ghost prev = out@;
            match &self.requests[i] {
                Some(req) => {
                    if (req.status == RequestStatus::Pending || req.status
                        == RequestStatus::Approved) && req.publisher == account {
                        out.push((i as u128) + 1);
                    }
                },
                None => {},
            }
            proof {
                assert forall|j: int|
                    0 <= j < i + 1 && self.req_live(j) && engaged(#[trigger] self.req_at(j))
                        && self.req_at(j).publisher == account implies out@.contains(
                    (j + 1) as u128,
                ) by {
                    if j < i {
                        let k = choose|k: int| 0 <= k < prev.len() && prev[k] == (j + 1) as u128;
                        assert(out@[k] == (j + 1) as u128);
                    } else {
                        assert(out@[out@.len() - 1] == (j + 1) as u128);
                    }
                };
            }
            i += 1;
        }
        out
    }

    /// The commission snapshot a request was created with, when the id
    /// names a live request.  Settlement reads this, never the token's
    /// current rate.
    pub fn get_commission(&self, request_id: u128) -> (r: Option<u128>)
        ensures
            r == if self.has_request(request_id) {
                Some(self.spec_request(request_id).commission)
            } else {
                None::<u128>
            },
    {
        if !(1 <= request_id && request_id <= self.requests.len() as u128) {
            return None;
        }
        let idx: usize = (request_id - 1) as usize;
        match &self.requests[idx] {
            None => None,
            Some(req) => Some(req.commission),
        }
    }
}

} // verus!
