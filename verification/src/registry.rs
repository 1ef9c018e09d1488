use vstd::prelude::*;
use vstd::string::StringExecFns;
use crate::errors::DropError;
use crate::hashing::{content_digest, content_digest_of};
use crate::numerals::{dec_str_of, u128_to_dec};
use crate::state::{
    AccountKey, DroplinkedStorage, Holding, NFTMetadata, TokenRecord, engaged, is_pair, is_token,
    same_triple,
};
use crate::sums::{
    lemma_sum_where_elem_le, lemma_sum_where_none, lemma_sum_where_push, lemma_sum_where_subset,
    lemma_sum_where_unique, lemma_sum_where_update, lemma_supply_le_sum, lemma_supply_sum_push,
    lemma_supply_sum_update, sum_where,
};

verus! {

/// What a successful mint does to the ledger: the caller's balance of the
/// resolved token grows by `amount`, so does that token's supply and the
/// total supply, and everything else is untouched.  When the content
/// triple's digest is already registered the existing id is reused;
/// otherwise the next id is allocated.
pub open spec fn mint_ok_transition(
    pre: DroplinkedStorage,
    post: DroplinkedStorage,
    caller: AccountKey,
    uri: Seq<char>,
    price: u128,
    amount: u128,
    commission: u128,
    id: u128,
) -> bool {
    let h = content_digest_of(uri, commission, price);
    &&& post.total_supply == pre.total_supply + amount
    &&& post.owner == pre.owner
    &&& post.fee == pre.fee
    &&& post.heart_beat == pre.heart_beat
    &&& post.pub_key == pre.pub_key
    &&& post.name == pre.name
    &&& post.symbol == pre.symbol
    &&& post.requests == pre.requests
    &&& post.has_token(id)
    &&& post.spec_token(id).hash@ == h
    &&& if pre.has_token_with_hash(h) {
        &&& id == pre.spec_token_id_by_hash(h)
        &&& post.tokens@.len() == pre.tokens@.len()
        &&& forall|k: int|
            0 <= k < pre.tokens@.len() && k != id - 1 ==> post.tokens@[k] == pre.tokens@[k]
        &&& post.spec_token(id).metadata == pre.spec_token(id).metadata
        &&& post.spec_token(id).supply == pre.spec_token(id).supply + amount
    } else {
        &&& id == pre.tokens@.len() + 1
        &&& post.tokens@.len() == pre.tokens@.len() + 1
        &&& forall|k: int| 0 <= k < pre.tokens@.len() ==> post.tokens@[k] == pre.tokens@[k]
        &&& post.spec_token(id).metadata.ipfs_url@ == uri
        &&& post.spec_token(id).metadata.commission == commission
        &&& post.spec_token(id).metadata.price == price
        &&& post.spec_token(id).supply == amount
    }
    &&& forall|t: u128, a: AccountKey|
        #[trigger] post.spec_balance_of(t, a) == pre.spec_balance_of(t, a) + if t == id && a
            == caller {
            amount as int
        } else {
            0
        }
}

/// In a well-formed registry the digest of token `i + 1` resolves back to
/// `i + 1`.
pub proof fn lemma_id_by_hash(s: &DroplinkedStorage, i: int)
    requires
        s.tokens_wf(),
        0 <= i < s.tokens@.len(),
        s.tokens@.len() <= usize::MAX,
    ensures
        s.has_token_with_hash(s.tokens@[i].hash@),
        s.spec_token_id_by_hash(s.tokens@[i].hash@) == i + 1,
{
    let h = s.tokens@[i].hash@;
    assert(s.has_token_with_hash(h));
    let j = choose|j: int| 0 <= j < s.tokens@.len() && (#[trigger] s.tokens@[j]).hash@ == h;
    assert(s.tokens@[j].hash@ == h);
    if j < i {
        assert(s.tokens@[j].hash@ != s.tokens@[i].hash@);
    } else if j > i {
        assert(s.tokens@[i].hash@ != s.tokens@[j].hash@);
    }
    assert(j == i);
}

/// A step that keeps the requests and only grows the token list keeps the
/// request workflow well-formed.
pub proof fn lemma_requests_wf_preserved(pre: &DroplinkedStorage, post: &DroplinkedStorage)
    requires
        pre.requests_wf(),
        post.requests@ == pre.requests@,
        post.tokens@.len() >= pre.tokens@.len(),
    ensures
        post.requests_wf(),
{
    assert forall|i: int| post.req_live(i) implies post.has_token(
        (#[trigger] post.req_at(i)).token_id,
    ) && post.req_at(i).commission <= 10000 by {
        assert(pre.req_live(i));
        assert(post.req_at(i) == pre.req_at(i));
        assert(pre.has_token(pre.req_at(i).token_id));
    };
    assert forall|i: int, j: int|
        post.req_live(i) && post.req_live(j) && i != j && engaged(#[trigger] post.req_at(i))
            && engaged(#[trigger] post.req_at(j)) implies !same_triple(
        post.req_at(i),
        post.req_at(j),
    ) by {
        assert(pre.req_live(i) && pre.req_live(j));
        assert(post.req_at(i) == pre.req_at(i) && post.req_at(j) == pre.req_at(j));
    };
}

/// Adds `amount` to the holding of one (token, account) pair, creating the
/// entry when none exists.  Entry pairs stay unique; exactly that pair's
/// balance (and that token's balance total) grows by `amount`.
fn bump_holding(hs: &mut Vec<Holding>, token_id: u128, account: AccountKey, amount: u128)
    requires
        old(hs)@.len() < usize::MAX,
        forall|i: int, j: int|
            0 <= i < j < old(hs)@.len() ==> !((#[trigger] old(hs)@[i]).token_id == (
            #[trigger] old(hs)@[j]).token_id && old(hs)@[i].account == old(hs)@[j].account),
        sum_where(old(hs)@, is_pair(token_id, account)) + amount <= u128::MAX,
    ensures
        forall|i: int, j: int|
            0 <= i < j < final(hs)@.len() ==> !((#[trigger] final(hs)@[i]).token_id == (
            #[trigger] final(hs)@[j]).token_id && final(hs)@[i].account
                == final(hs)@[j].account),
        forall|t: u128, a: AccountKey|
            #[trigger] sum_where(final(hs)@, is_pair(t, a)) == sum_where(
                old(hs)@,
                is_pair(t, a),
            ) + if t == token_id && a == account {
                amount as int
            } else {
                0
            },
        forall|t: u128|
            #[trigger] sum_where(final(hs)@, is_token(t)) == sum_where(old(hs)@, is_token(t))
                + if t == token_id {
                amount as int
            } else {
                0
            },
        forall|i: int|
            0 <= i < final(hs)@.len() ==> ((#[trigger] final(hs)@[i]).token_id == token_id
                && final(hs)@[i].account == account) || (0 <= i < old(hs)@.len() && final(hs)@[i]
                == old(hs)@[i]),
{
    let n = hs.len();
    let mut i: usize = 0;
    let mut found: Option<usize> = None;
    while i < n
        invariant
            hs@ == old(hs)@,
            n == hs@.len(),
            i <= n,
            match found {
                Some(k) => k < n && hs@[k as int].token_id == token_id && hs@[k as int].account
                    == account,
                None => forall|j: int|
                    0 <= j < i ==> !((#[trigger] hs@[j]).token_id == token_id && hs@[j].account
                        == account),
            },
        decreases n - i,
    {
        if hs[i].token_id == token_id && hs[i].account == account {
            found = Some(i);
        }
        i += 1;
    }
    match found {
        Some(k) => {
            proof {
                assert(is_pair(token_id, account)(hs@[k as int]));
                lemma_sum_where_elem_le(hs@, is_pair(token_id, account), k as int);
            }
            let prev = hs[k].amount;
            let entry = &mut hs[k];
            entry.amount = prev + amount;
            proof {
                let updated = Holding { token_id, account, amount: (prev + amount) as u128 };
                assert(hs@ =~= old(hs)@.update(k as int, updated));
                assert forall|t: u128, a: AccountKey|
                    #[trigger] sum_where(hs@, is_pair(t, a)) == sum_where(
                        old(hs)@,
                        is_pair(t, a),
                    ) + if t == token_id && a == account {
                        amount as int
                    } else {
                        0
                    } by {
                    lemma_sum_where_update(old(hs)@, is_pair(t, a), k as int, updated);
                };
                assert forall|t: u128|
                    #[trigger] sum_where(hs@, is_token(t)) == sum_where(old(hs)@, is_token(t))
                        + if t == token_id {
                        amount as int
                    } else {
                        0
                    } by {
                    lemma_sum_where_update(old(hs)@, is_token(t), k as int, updated);
                };
            }
        },
        None => {
            let entry = Holding { token_id, account, amount };
            hs.push(entry);
            proof {
                assert forall|t: u128, a: AccountKey|
                    #[trigger] sum_where(hs@, is_pair(t, a)) == sum_where(
                        old(hs)@,
                        is_pair(t, a),
                    ) + if t == token_id && a == account {
                        amount as int
                    } else {
                        0
                    } by {
                    lemma_sum_where_push(old(hs)@, is_pair(t, a), entry);
                };
                assert forall|t: u128|
                    #[trigger] sum_where(hs@, is_token(t)) == sum_where(old(hs)@, is_token(t))
                        + if t == token_id {
                        amount as int
                    } else {
                        0
                    } by {
                    lemma_sum_where_push(old(hs)@, is_token(t), entry);
                };
            }
        },
    }
}

/// The JSON rendering of a token's metadata, as served to read-only
/// consumers.
pub open spec fn metadata_json_of(m: NFTMetadata) -> Seq<char> {
    "{\"ipfs_url\":\""@ + m.ipfs_url@ + "\",\"commission\":\""@ + dec_str_of(m.commission as int)
        + "\",\"price\":"@ + dec_str_of(m.price as int) + "}"@
}

impl DroplinkedStorage {
    /// Registers `amount` units of the content triple for the caller.  A
    /// triple whose digest is already known resolves to its existing token
    /// id and only adds supply; a new triple allocates the next id.  A zero
    /// amount or an out-of-range commission is rejected and changes
    /// nothing.
    pub fn mint(
        &mut self,
        caller: AccountKey,
        ipfs_url: String,
        price: u128,
        amount: u128,
        commission: u128,
    ) -> (r: Result<u128, DropError>)
        requires
            old(self).wf(),
            old(self).total_supply + amount <= u128::MAX,
            old(self).tokens@.len() < usize::MAX,
            old(self).holdings@.len() < usize::MAX,
        ensures
            final(self).wf(),
            r is Ok <==> (amount != 0 && commission <= 10000),
            r is Err ==> r == Err::<u128, DropError>(DropError::InvalidAmount) && *final(self)
                == *old(self),
            r is Ok ==> mint_ok_transition(
                *old(self),
                *final(self),
                caller,
                ipfs_url@,
                price,
                amount,
                commission,
                r->Ok_0,
            ),
    {
        if amount == 0 || commission > 10000 {
            return Err(DropError::InvalidAmount);
        }
        let h = content_digest(&ipfs_url, commission, price);
        let n = self.tokens.len();
        let mut i: usize = 0;
        let mut found: Option<usize> = None;
        while i < n
            invariant
                *self == *old(self),
                n == self.tokens@.len(),
                i <= n,
                h@ == content_digest_of(ipfs_url@, commission, price),
                match found {
                    Some(k) => k < n && self.tokens@[k as int].hash@ == h@,
                    None => forall|j: int| 0 <= j < i ==> (#[trigger] self.tokens@[j]).hash@ != h@,
                },
            decreases n - i,
        {
            if self.tokens[i].hash.eq(&h) {
                found = Some(i);
            }
            i += 1;
        }
        match found {
            Some(k) => {
                let token_id: u128 = (k as u128) + 1;
                proof {
                    lemma_id_by_hash(self, k as int);
                    lemma_supply_le_sum(self.tokens@, k as int);
                    lemma_sum_where_subset(self.holdings@, is_pair(token_id, caller), is_token(token_id));
                    assert(self.spec_token_balance_total(token_id) == self.spec_token(
                        token_id,
                    ).supply);
                }
                let prev_supply = self.tokens[k].supply;
                let entry = &mut self.tokens[k];
                entry.supply = prev_supply + amount;
                proof {
                    let updated = TokenRecord {
                        metadata: old(self).tokens@[k as int].metadata,
                        hash: old(self).tokens@[k as int].hash,
                        supply: (prev_supply + amount) as u128,
                    };
                    assert(self.tokens@ =~= old(self).tokens@.update(k as int, updated));
                    lemma_supply_sum_update(old(self).tokens@, k as int, updated);
                }
                bump_holding(&mut self.holdings, token_id, caller, amount);
                self.total_supply = self.total_supply + amount;
                proof {
                    assert(self.tokens_wf());
                    assert forall|t: u128| self.has_token(t) implies #[trigger] self
                        .spec_token_balance_total(t) == self.spec_token(t).supply by {
                        assert(old(self).has_token(t));
                        assert(old(self).spec_token_balance_total(t) == old(self).spec_token(
                            t,
                        ).supply);
                    };
                    assert(self.holdings_wf());
                    lemma_requests_wf_preserved(old(self), self);
                    assert(mint_ok_transition(
                        *old(self),
                        *self,
                        caller,
                        ipfs_url@,
                        price,
                        amount,
                        commission,
                        token_id,
                    ));
                }
                Ok(token_id)
            },
            None => {
                let token_id: u128 = (n as u128) + 1;
                proof {
                    assert(!old(self).has_token_with_hash(h@));
                    assert forall|j: int|
                        0 <= j < self.holdings@.len() implies !(is_pair(token_id, caller)(
                        #[trigger] self.holdings@[j])) by {
                        assert(self.has_token(self.holdings@[j].token_id));
                    };
                    lemma_sum_where_none(self.holdings@, is_pair(token_id, caller));
                    assert forall|j: int|
                        0 <= j < self.holdings@.len() implies !(is_token(token_id)(
                        #[trigger] self.holdings@[j])) by {
                        assert(self.has_token(self.holdings@[j].token_id));
                    };
                    lemma_sum_where_none(self.holdings@, is_token(token_id));
                }
                let record = TokenRecord {
                    metadata: NFTMetadata { ipfs_url, commission, price },
                    hash: h,
                    supply: amount,
                };
                self.tokens.push(record);
                proof {
                    lemma_supply_sum_push(old(self).tokens@, self.tokens@.last());
                }
                bump_holding(&mut self.holdings, token_id, caller, amount);
                self.total_supply = self.total_supply + amount;
                proof {
                    assert(self.tokens_wf());
                    assert forall|t: u128| self.has_token(t) implies #[trigger] self
                        .spec_token_balance_total(t) == self.spec_token(t).supply by {
                        if t == token_id {
                        } else {
                            assert(old(self).has_token(t));
                            assert(old(self).spec_token_balance_total(t) == old(self).spec_token(
                                t,
                            ).supply);
                        }
                    };
                    assert(self.holdings_wf());
                    lemma_requests_wf_preserved(old(self), self);
                    assert(mint_ok_transition(
                        *old(self),
                        *self,
                        caller,
                        ipfs_url@,
                        price,
                        amount,
                        commission,
                        token_id,
                    ));
                }
                Ok(token_id)
            },
        }
    }

    /// Looks a token id up by its content digest, given in lowercase hex.
    pub fn get_token_id_by_hash(&self, hash: String) -> (r: Option<u128>)
        requires
            self.wf(),
        ensures
            r == if self.has_token_with_hash(hash@) {
                Some(self.spec_token_id_by_hash(hash@))
            } else {
                None::<u128>
            },
    {
        let n = self.tokens.len();
        let mut i: usize = 0;
        while i < n
            invariant
                self.wf(),
                n == self.tokens@.len(),
                i <= n,
                forall|j: int| 0 <= j < i ==> (#[trigger] self.tokens@[j]).hash@ != hash@,
            decreases n - i,
        {
            if self.tokens[i].hash.eq(&hash) {
                proof {
                    lemma_id_by_hash(self, i as int);
                }
                return Some((i as u128) + 1);
            }
            i += 1;
        }
        proof {
            assert(!self.has_token_with_hash(hash@));
        }
        None
    }

    /// The content digest of a token, in lowercase hex, when the id is
    /// registered.
    pub fn get_token_hash_by_id(&self, token_id: u128) -> (r: Option<String>)
        requires
            self.wf(),
        ensures
            r is Some <==> self.has_token(token_id),
            r is Some ==> r.unwrap()@ == self.spec_token(token_id).hash@ && r.unwrap()@
                == content_digest_of(
                self.spec_token(token_id).metadata.ipfs_url@,
                self.spec_token(token_id).metadata.commission,
                self.spec_token(token_id).metadata.price,
            ),
    {
        if 1 <= token_id && token_id <= self.tokens.len() as u128 {
            let idx: usize = (token_id - 1) as usize;
            Some(self.tokens[idx].hash.clone())
        } else {
            None
        }
    }

    /// The JSON rendering of a token's metadata, when the id is registered.
    pub fn get_token_metadata(&self, token_id: u128) -> (r: Option<String>)
        ensures
            r is Some <==> self.has_token(token_id),
            r is Some ==> r.unwrap()@ == metadata_json_of(self.spec_token(token_id).metadata),
    {
        if 1 <= token_id && token_id <= self.tokens.len() as u128 {
            let idx: usize = (token_id - 1) as usize;
            let mut s = String::from_str("{\"ipfs_url\":\"");
            s.append(self.tokens[idx].metadata.ipfs_url.as_str());
            s.append("\",\"commission\":\"");
            let c = u128_to_dec(self.tokens[idx].metadata.commission);
            s.append(c.as_str());
            s.append("\",\"price\":");
            let p = u128_to_dec(self.tokens[idx].metadata.price);
            s.append(p.as_str());
            s.append("}");
            Some(s)
        } else {
            None
        }
    }

    /// A token's cumulative minted supply, when the id is registered.
    pub fn get_token_supply(&self, token_id: u128) -> (r: Option<u128>)
        ensures
            r == if self.has_token(token_id) {
                Some(self.spec_token(token_id).supply)
            } else {
                None::<u128>
            },
    {
        if 1 <= token_id && token_id <= self.tokens.len() as u128 {
            let idx: usize = (token_id - 1) as usize;
            Some(self.tokens[idx].supply)
        } else {
            None
        }
    }

    /// The cumulative minted supply over all tokens.
    pub fn get_total_supply(&self) -> (r: u128)
        ensures
            r == self.total_supply,
    {
        self.total_supply
    }

    /// The units of `token_id` held by `account`; zero when no holding is
    /// recorded.
    pub fn balance_of(&self, token_id: u128, account: AccountKey) -> (b: u128)
        requires
            self.wf(),
        ensures
            b == self.spec_balance_of(token_id, account),
    {
        let n = self.holdings.len();
        let mut i: usize = 0;
        while i < n
            invariant
                self.wf(),
                n == self.holdings@.len(),
                i <= n,
                forall|j: int|
                    0 <= j < i ==> !((#[trigger] self.holdings@[j]).token_id == token_id
                        && self.holdings@[j].account == account),
            decreases n - i,
        {
            if self.holdings[i].token_id == token_id && self.holdings[i].account == account {
                proof {
                    assert(is_pair(token_id, account)(self.holdings@[i as int]));
                    assert forall|j: int| 0 <= j < n && j != i implies !(is_pair(token_id, account)(
                    #[trigger] self.holdings@[j])) by {
                        if j < i as int {
                        } else {
                            assert(!(self.holdings@[i as int].token_id == self.holdings@[j].token_id
                                && self.holdings@[i as int].account
                                == self.holdings@[j].account));
                        }
                    };
                    lemma_sum_where_unique(self.holdings@, is_pair(token_id, account), i as int);
                }
                return self.holdings[i].amount;
            }
            i += 1;
        }
        proof {
            assert forall|j: int| 0 <= j < n implies !(is_pair(token_id, account)(
            #[trigger] self.holdings@[j])) by {};
            lemma_sum_where_none(self.holdings@, is_pair(token_id, account));
        }
        0
    }
}

} // verus!
