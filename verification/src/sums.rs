use vstd::prelude::*;
use crate::state::{Holding, TokenRecord};

verus! {

/// Sum of the amounts of the holdings selected by `p`.
pub open spec fn sum_where(hs: Seq<Holding>, p: spec_fn(Holding) -> bool) -> int
    decreases hs.len(),
{
    if hs.len() == 0 {
        0
    } else {
        sum_where(hs.drop_last(), p) + if p(hs.last()) {
            hs.last().amount as int
        } else {
            0
        }
    }
}

pub proof fn lemma_sum_where_nonneg(hs: Seq<Holding>, p: spec_fn(Holding) -> bool)
    ensures
        sum_where(hs, p) >= 0,
    decreases hs.len(),
{
    if hs.len() > 0 {
        lemma_sum_where_nonneg(hs.drop_last(), p);
    }
}

pub proof fn lemma_sum_where_push(hs: Seq<Holding>, p: spec_fn(Holding) -> bool, x: Holding)
    ensures
        sum_where(hs.push(x), p) == sum_where(hs, p) + if p(x) {
            x.amount as int
        } else {
            0
        },
{
    assert(hs.push(x).drop_last() =~= hs);
}

pub proof fn lemma_sum_where_update(
    hs: Seq<Holding>,
    p: spec_fn(Holding) -> bool,
    i: int,
    x: Holding,
)
    requires
        0 <= i < hs.len(),
    ensures
        sum_where(hs.update(i, x), p) == sum_where(hs, p) - (if p(hs[i]) {
            hs[i].amount as int
        } else {
            0
        }) + (if p(x) {
            x.amount as int
        } else {
            0
        }),
    decreases hs.len(),
{
    let hs2 = hs.update(i, x);
    if i == hs.len() - 1 {
        assert(hs2.drop_last() =~= hs.drop_last());
        assert(hs2.last() == x);
    } else {
        assert(hs2.drop_last() =~= hs.drop_last().update(i, x));
        assert(hs2.last() == hs.last());
        lemma_sum_where_update(hs.drop_last(), p, i, x);
    }
}

/// An element selected by `p` is bounded by the selected sum.
pub proof fn lemma_sum_where_elem_le(hs: Seq<Holding>, p: spec_fn(Holding) -> bool, i: int)
    requires
        0 <= i < hs.len(),
        p(hs[i]),
    ensures
        hs[i].amount as int <= sum_where(hs, p),
    decreases hs.len(),
{
    if i == hs.len() - 1 {
        lemma_sum_where_nonneg(hs.drop_last(), p);
    } else {
        lemma_sum_where_elem_le(hs.drop_last(), p, i);
        assert(hs.drop_last()[i] == hs[i]);
    }
}

/// When exactly one element is selected by `p`, the sum is its amount.
pub proof fn lemma_sum_where_unique(hs: Seq<Holding>, p: spec_fn(Holding) -> bool, i: int)
    requires
        0 <= i < hs.len(),
        p(hs[i]),
        forall|j: int| 0 <= j < hs.len() && j != i ==> !p(#[trigger] hs[j]),
    ensures
        sum_where(hs, p) == hs[i].amount as int,
    decreases hs.len(),
{
    if i == hs.len() - 1 {
        lemma_sum_where_none(hs.drop_last(), p);
    } else {
        assert(forall|j: int|
            0 <= j < hs.drop_last().len() && j != i ==> !p(#[trigger] hs.drop_last()[j]));
        lemma_sum_where_unique(hs.drop_last(), p, i);
        assert(!p(hs.last()));
    }
}

/// When no element is selected by `p`, the sum is zero.
pub proof fn lemma_sum_where_none(hs: Seq<Holding>, p: spec_fn(Holding) -> bool)
    requires
        forall|j: int| 0 <= j < hs.len() ==> !p(#[trigger] hs[j]),
    ensures
        sum_where(hs, p) == 0,
    decreases hs.len(),
{
    if hs.len() > 0 {
        assert(forall|j: int|
            0 <= j < hs.drop_last().len() ==> !p(#[trigger] hs.drop_last()[j]));
        lemma_sum_where_none(hs.drop_last(), p);
    }
}

/// A sum over a narrower selection is bounded by one over a wider.
pub proof fn lemma_sum_where_subset(
    hs: Seq<Holding>,
    p: spec_fn(Holding) -> bool,
    q: spec_fn(Holding) -> bool,
)
    requires
        forall|j: int| 0 <= j < hs.len() && p(#[trigger] hs[j]) ==> q(hs[j]),
    ensures
        sum_where(hs, p) <= sum_where(hs, q),
    decreases hs.len(),
{
    if hs.len() > 0 {
        assert(forall|j: int|
            0 <= j < hs.drop_last().len() && p(#[trigger] hs.drop_last()[j]) ==> q(
                hs.drop_last()[j],
            ));
        lemma_sum_where_subset(hs.drop_last(), p, q);
    }
}

/// Sum of the cumulative supplies of a token list.
pub open spec fn supply_sum(ts: Seq<TokenRecord>) -> int
    decreases ts.len(),
{
    if ts.len() == 0 {
        0
    } else {
        supply_sum(ts.drop_last()) + ts.last().supply as int
    }
}

pub proof fn lemma_supply_sum_nonneg(ts: Seq<TokenRecord>)
    ensures
        supply_sum(ts) >= 0,
    decreases ts.len(),
{
    if ts.len() > 0 {
        lemma_supply_sum_nonneg(ts.drop_last());
    }
}

pub proof fn lemma_supply_sum_push(ts: Seq<TokenRecord>, x: TokenRecord)
    ensures
        supply_sum(ts.push(x)) == supply_sum(ts) + x.supply as int,
{
    assert(ts.push(x).drop_last() =~= ts);
}

pub proof fn lemma_supply_sum_update(ts: Seq<TokenRecord>, i: int, x: TokenRecord)
    requires
        0 <= i < ts.len(),
    ensures
        supply_sum(ts.update(i, x)) == supply_sum(ts) - ts[i].supply as int + x.supply as int,
    decreases ts.len(),
{
    let ts2 = ts.update(i, x);
    if i == ts.len() - 1 {
        assert(ts2.drop_last() =~= ts.drop_last());
    } else {
        assert(ts2.drop_last() =~= ts.drop_last().update(i, x));
        assert(ts2.last() == ts.last());
        lemma_supply_sum_update(ts.drop_last(), i, x);
    }
}

/// A token's supply is bounded by the total over all tokens.
pub proof fn lemma_supply_le_sum(ts: Seq<TokenRecord>, i: int)
    requires
        0 <= i < ts.len(),
    ensures
        ts[i].supply as int <= supply_sum(ts),
    decreases ts.len(),
{
    if i == ts.len() - 1 {
        lemma_supply_sum_nonneg(ts.drop_last());
    } else {
        lemma_supply_le_sum(ts.drop_last(), i);
        assert(ts.drop_last()[i] == ts[i]);
    }
}

} // verus!
