use vstd::prelude::*;
use crate::registry::{lemma_id_by_hash, mint_ok_transition};
use crate::state::{AccountKey, DroplinkedStorage, Request, RequestStatus, engaged, same_triple};

verus! {

/// Dedup idempotence: two mints of the same (URI, commission, price)
/// triple, from two different accounts, resolve to the same token id, and
/// the two accounts' balances of that token both grow by what they minted.
pub proof fn lemma_mint_dedup(
    s0: DroplinkedStorage,
    s1: DroplinkedStorage,
    s2: DroplinkedStorage,
    acct1: AccountKey,
    acct2: AccountKey,
    uri: Seq<char>,
    price: u128,
    commission: u128,
    amt1: u128,
    amt2: u128,
    id1: u128,
    id2: u128,
)
    requires
        s0.wf(),
        s1.wf(),
        acct1 != acct2,
        mint_ok_transition(s0, s1, acct1, uri, price, amt1, commission, id1),
        mint_ok_transition(s1, s2, acct2, uri, price, amt2, commission, id2),
    ensures
        id1 == id2,
        s2.spec_balance_of(id1, acct1) == s0.spec_balance_of(id1, acct1) + amt1,
        s2.spec_balance_of(id1, acct2) == s0.spec_balance_of(id1, acct2) + amt2,
{
    vstd::std_specs::vec::axiom_spec_len(&s1.tokens);
    assert(s1.tokens@[id1 as int - 1].hash@ == crate::hashing::content_digest_of(
        uri,
        commission,
        price,
    ));
    assert(s1.has_token_with_hash(s1.tokens@[id1 as int - 1].hash@));
    lemma_id_by_hash(&s1, id1 as int - 1);
    assert(id2 == id1);
    assert(s1.spec_balance_of(id1, acct1) == s0.spec_balance_of(id1, acct1) + amt1);
    assert(s1.spec_balance_of(id1, acct2) == s0.spec_balance_of(id1, acct2));
    assert(s2.spec_balance_of(id1, acct1) == s1.spec_balance_of(id1, acct1));
    assert(s2.spec_balance_of(id1, acct2) == s1.spec_balance_of(id1, acct2) + amt2);
}

/// Supply invariant: the balances of a token over all accounts sum to its
/// cumulative minted supply.  The equation is part of well-formedness,
/// which every operation establishes anew, so it holds after any sequence
/// of operations.
pub proof fn lemma_supply_invariant(s: DroplinkedStorage, token_id: u128)
    requires
        s.wf(),
        s.has_token(token_id),
    ensures
        s.spec_token_balance_total(token_id) == s.spec_token(token_id).supply,
{
}

/// A disapproval frees its triple: once the approved request for a
/// (producer, publisher, token) triple is turned to disapproved — the step
/// `disapprove` takes — no pending-or-approved request occupies that
/// triple any more, so a fresh `publish_request` for it succeeds.
pub proof fn lemma_disapprove_frees_triple(
    pre: DroplinkedStorage,
    post: DroplinkedStorage,
    request_id: u128,
)
    requires
        pre.wf(),
        pre.has_request(request_id),
        pre.spec_request(request_id).status is Approved,
        post.requests@ == pre.requests@.update(
            request_id - 1,
            Some((Request { status: RequestStatus::Disapproved, ..pre.spec_request(request_id) })),
        ),
    ensures
        !post.spec_triple_engaged(
            pre.spec_request(request_id).producer,
            pre.spec_request(request_id).publisher,
            pre.spec_request(request_id).token_id,
        ),
{
    let req = pre.spec_request(request_id);
    if post.spec_triple_engaged(req.producer, req.publisher, req.token_id) {
        let i = choose|i: int|
            post.req_live(i) && engaged(#[trigger] post.req_at(i)) && post.req_at(i).producer
                == req.producer && post.req_at(i).publisher == req.publisher && post.req_at(
                i,
            ).token_id == req.token_id;
        assert(i != request_id - 1);
        assert(pre.req_live(i) && pre.req_at(i) == post.req_at(i));
        assert(pre.req_live(request_id - 1) && engaged(pre.req_at(request_id - 1)));
        assert(same_triple(pre.req_at(i), pre.req_at(request_id - 1)));
        assert(false);
    }
}

/// Request uniqueness: at most one pending-or-approved request occupies a
/// (producer, publisher, token) triple in any well-formed state.
pub proof fn lemma_request_uniqueness(s: DroplinkedStorage, i: int, j: int)
    requires
        s.wf(),
        s.req_live(i),
        s.req_live(j),
        engaged(s.req_at(i)),
        engaged(s.req_at(j)),
        same_triple(s.req_at(i), s.req_at(j)),
    ensures
        i == j,
{
    if i != j {
        assert(!same_triple(s.req_at(i), s.req_at(j)));
    }
}

} // verus!
