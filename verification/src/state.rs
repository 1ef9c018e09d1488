use vstd::prelude::*;
use crate::hashing::content_digest_of;
use crate::sums::{sum_where, supply_sum};

verus! {

/// An account of the host ledger, identified by number.  The host resolves
/// its own account names to these keys at the boundary.
pub type AccountKey = u64;

/// The immutable metadata of a token: the content triple whose digest
/// identifies it.  Commission is in basis points, `0..=10000`.
pub struct NFTMetadata {
    pub ipfs_url: String,
    pub commission: u128,
    pub price: u128,
}

/// One registered token: its metadata, its content digest (lowercase hex of
/// the SHA-256 of the canonical text) and its cumulative minted supply.
pub struct TokenRecord {
    pub metadata: NFTMetadata,
    pub hash: String,
    pub supply: u128,
}

/// One (token, account) holding: how many units of the token the account
/// owns.
#[derive(Clone, Copy)]
pub struct Holding {
    pub token_id: u128,
    pub account: AccountKey,
    pub amount: u128,
}

/// Where a publish request stands.  A cancelled request is removed rather
/// than kept under a status.
#[derive(Clone, Copy, Debug, PartialEq, Eq, Structural)]
pub enum RequestStatus {
    Pending,
    Approved,
    Disapproved,
}

/// A publisher's request for commission rights over a token.  The
/// commission is a snapshot of the token's rate at creation time and is
/// never re-read from the token.
#[derive(Clone, Copy, Debug, PartialEq, Eq, Structural)]
pub struct Request {
    pub token_id: u128,
    pub producer: AccountKey,
    pub publisher: AccountKey,
    pub commission: u128,
    pub status: RequestStatus,
}

/// One native-asset disbursement that the host must dispatch after a
/// successful purchase.
#[derive(Clone, Copy, Debug, PartialEq, Eq, Structural)]
pub struct Transfer {
    pub to: AccountKey,
    pub amount: u128,
}

/// The whole marketplace ledger: token registry, holding balances, request
/// workflow and configuration.  Token and request ids are one-based; id `i`
/// lives at index `i - 1` of its vector.
pub struct DroplinkedStorage {
    pub tokens: Vec<TokenRecord>,
    pub holdings: Vec<Holding>,
    pub requests: Vec<Option<Request>>,
    pub total_supply: u128,
    pub owner: AccountKey,
    pub fee: u128,
    pub name: String,
    pub symbol: String,
    pub heart_beat: u64,
    pub pub_key: Vec<u8>,
}

/// Selects the holdings of one (token, account) pair.
pub open spec fn is_pair(token_id: u128, account: AccountKey) -> spec_fn(Holding) -> bool {
    |h: Holding| h.token_id == token_id && h.account == account
}

/// Selects the holdings of one token, over all accounts.
pub open spec fn is_token(token_id: u128) -> spec_fn(Holding) -> bool {
    |h: Holding| h.token_id == token_id
}

/// A request that still occupies its (producer, publisher, token) triple:
/// pending or approved.  Only disapproval or cancellation frees the triple.
pub open spec fn engaged(r: Request) -> bool {
    r.status is Pending || r.status is Approved
}

/// Whether two requests name the same (producer, publisher, token) triple.
pub open spec fn same_triple(a: Request, b: Request) -> bool {
    a.producer == b.producer && a.publisher == b.publisher && a.token_id == b.token_id
}

impl DroplinkedStorage {
    /// A token id is valid when some token has been minted under it.
    pub open spec fn has_token(&self, token_id: u128) -> bool {
        1 <= token_id <= self.tokens@.len()
    }

    /// The token registered under a valid id.
    pub open spec fn spec_token(&self, token_id: u128) -> TokenRecord
        recommends
            self.has_token(token_id),
    {
        self.tokens@[token_id as int - 1]
    }

    /// Whether some token carries the given content digest.
    pub open spec fn has_token_with_hash(&self, h: Seq<char>) -> bool {
        exists|i: int| 0 <= i < self.tokens@.len() && (#[trigger] self.tokens@[i]).hash@ == h
    }

    /// The id of the token carrying the given content digest.
    pub open spec fn spec_token_id_by_hash(&self, h: Seq<char>) -> u128
        recommends
            self.has_token_with_hash(h),
    {
        ((choose|i: int| 0 <= i < self.tokens@.len() && (#[trigger] self.tokens@[i]).hash@ == h)
            + 1) as u128
    }

    /// The units of `token_id` held by `account`; zero when no holding is
    /// recorded.
    pub open spec fn spec_balance_of(&self, token_id: u128, account: AccountKey) -> int {
        sum_where(self.holdings@, is_pair(token_id, account))
    }

    /// The units of `token_id` held over all accounts.
    pub open spec fn spec_token_balance_total(&self, token_id: u128) -> int {
        sum_where(self.holdings@, is_token(token_id))
    }

    /// A request id is valid when a live (not cancelled) request exists
    /// under it.
    pub open spec fn has_request(&self, request_id: u128) -> bool {
        1 <= request_id <= self.requests@.len() && self.requests@[request_id as int - 1] is Some
    }

    /// The live request registered under a valid id.
    pub open spec fn spec_request(&self, request_id: u128) -> Request
        recommends
            self.has_request(request_id),
    {
        self.requests@[request_id as int - 1].unwrap()
    }

    /// A valid id whose request the producer has approved and not yet
    /// disapproved.
    pub open spec fn has_approved_request(&self, request_id: u128) -> bool {
        self.has_request(request_id) && self.spec_request(request_id).status is Approved
    }

    /// The live request at vector index `i`, zero-based.
    pub open spec fn req_at(&self, i: int) -> Request
        recommends
            0 <= i < self.requests@.len(),
    {
        self.requests@[i].unwrap()
    }

    /// Whether index `i` holds a live request.
    pub open spec fn req_live(&self, i: int) -> bool {
        0 <= i < self.requests@.len() && self.requests@[i] is Some
    }

    /// Whether a pending or approved request occupies the triple.
    pub open spec fn spec_triple_engaged(
        &self,
        producer: AccountKey,
        publisher: AccountKey,
        token_id: u128,
    ) -> bool {
        exists|i: int|
            self.req_live(i) && engaged(#[trigger] self.req_at(i)) && self.req_at(i).producer
                == producer && self.req_at(i).publisher == publisher && self.req_at(i).token_id
                == token_id
    }

    /// Well-formedness of the token registry: commissions in range, digests
    /// correct and pairwise distinct, supplies summing to the total.
    pub open spec fn tokens_wf(&self) -> bool {
        &&& forall|i: int|
            0 <= i < self.tokens@.len() ==> (#[trigger] self.tokens@[i]).metadata.commission
                <= 10000
        &&& forall|i: int|
            0 <= i < self.tokens@.len() ==> (#[trigger] self.tokens@[i]).hash@
                == content_digest_of(
                self.tokens@[i].metadata.ipfs_url@,
                self.tokens@[i].metadata.commission,
                self.tokens@[i].metadata.price,
            )
        &&& forall|i: int, j: int|
            0 <= i < j < self.tokens@.len() ==> (#[trigger] self.tokens@[i]).hash@ != (
            #[trigger] self.tokens@[j]).hash@
        &&& supply_sum(self.tokens@) == self.total_supply
    }

    /// Well-formedness of the holdings: every entry names a registered
    /// token, pairs are unique, and each token's balances sum to its
    /// cumulative supply.
    pub open spec fn holdings_wf(&self) -> bool {
        &&& forall|i: int|
            0 <= i < self.holdings@.len() ==> self.has_token(
                (#[trigger] self.holdings@[i]).token_id,
            )
        &&& forall|i: int, j: int|
            0 <= i < j < self.holdings@.len() ==> !((#[trigger] self.holdings@[i]).token_id == (
            #[trigger] self.holdings@[j]).token_id && self.holdings@[i].account
                == self.holdings@[j].account)
        &&& forall|t: u128|
            self.has_token(t) ==> #[trigger] self.spec_token_balance_total(t) == self.spec_token(
                t,
            ).supply
    }

    /// Well-formedness of the request workflow: live requests name a
    /// registered token, carry an in-range commission snapshot, and at most
    /// one pending-or-approved request occupies any triple.
    pub open spec fn requests_wf(&self) -> bool {
        &&& forall|i: int|
            self.req_live(i) ==> self.has_token((#[trigger] self.req_at(i)).token_id) && self.req_at(
                i,
            ).commission <= 10000
        &&& forall|i: int, j: int|
            self.req_live(i) && self.req_live(j) && i != j && engaged(#[trigger] self.req_at(i))
                && engaged(#[trigger] self.req_at(j)) ==> !same_triple(
                self.req_at(i),
                self.req_at(j),
            )
    }

    /// Well-formedness of the configuration: fee in basis points, a
    /// heartbeat whose doubling cannot overflow, a 32-byte oracle key.
    pub open spec fn config_wf(&self) -> bool {
        &&& self.fee <= 10000
        &&& self.heart_beat <= u64::MAX / 2
        &&& self.pub_key@.len() == 32
    }

    /// The invariant every operation preserves.
    pub open spec fn wf(&self) -> bool {
        &&& self.tokens_wf()
        &&& self.holdings_wf()
        &&& self.requests_wf()
        &&& self.config_wf()
    }

    /// Creates an empty marketplace under the given configuration.
    pub fn new(
        owner: AccountKey,
        fee: u128,
        heart_beat: u64,
        pub_key: Vec<u8>,
        name: String,
        symbol: String,
    ) -> (s: Self)
        requires
            fee <= 10000,
            heart_beat <= u64::MAX / 2,
            pub_key@.len() == 32,
        ensures
            s.wf(),
            s.tokens@.len() == 0,
            s.holdings@.len() == 0,
            s.requests@.len() == 0,
            s.total_supply == 0,
            s.owner == owner,
            s.fee == fee,
            s.heart_beat == heart_beat,
            s.pub_key == pub_key,
            s.name == name,
            s.symbol == symbol,
    {
        DroplinkedStorage {
            tokens: Vec::new(),
            holdings: Vec::new(),
            requests: Vec::new(),
            total_supply: 0,
            owner,
            fee,
            name,
            symbol,
            heart_beat,
            pub_key,
        }
    }

    /// The platform owner account.
    pub fn get_owner(&self) -> (a: AccountKey)
        ensures
            a == self.owner,
    {
        self.owner
    }
}

} // verus!
