//! What a selector's answer satisfies, stated over the recorded state and the
//! request rather than over the selection procedure.
use vstd::prelude::*;

use crate::errors::ErrorModel;
use crate::operation::SpecModel;
use crate::outpoint::OutPointModel;
use crate::selector::{
    candidate_outcome, candidates_in, cover, existing_scopes, first_refusal, first_selectable, is_candidate,
    outcome_for, outpoints_of, preferred, refusal, sort_keys, target_outcome, value_order, values_of,
};
use crate::sorting::{asymmetric, lemma_sort_members, lemma_sort_multiset, lemma_sort_weak, sort_by_insertion, transitive, Ordered};
use crate::store::{lookup, StoreModel};
use crate::utxo::UtxoModel;

verus! {

/// The sum of the values.
pub open spec fn total(v: Seq<u64>) -> int
    decreases v.len(),
{
    if v.len() == 0 {
        0
    } else {
        v[0] + total(v.drop_first())
    }
}

/// Scope `eligible[i]` is recorded, has the lowest priority of every recorded
/// scope among `eligible`, and every recorded scope before it has a higher one.
pub open spec fn first_lowest_priority(m: StoreModel, eligible: Seq<Seq<char>>, i: int) -> bool {
    &&& 0 <= i < eligible.len()
    &&& m.scopes.contains_key(eligible[i])
    &&& forall|j: int|
        0 <= j < eligible.len() && #[trigger] m.scopes.contains_key(eligible[j]) ==> m.scopes[eligible[i]].priority
            <= m.scopes[eligible[j]].priority
    &&& forall|j: int|
        0 <= j < i && #[trigger] m.scopes.contains_key(eligible[j]) ==> m.scopes[eligible[i]].priority
            < m.scopes[eligible[j]].priority
}

proof fn lemma_preferred_is_first_lowest(m: StoreModel, ids: Seq<Seq<char>>)
    ensures
        preferred(existing_scopes(m, ids)) is None <==> forall|i: int|
            0 <= i < ids.len() ==> !#[trigger] m.scopes.contains_key(ids[i]),
        preferred(existing_scopes(m, ids)) matches Some(s) ==> exists|i: int|
            first_lowest_priority(m, ids, i) && m.scopes[ids[i]] == s,
    decreases ids.len(),
{
    if ids.len() > 0 {
        let init = ids.drop_last();
        let x = ids.last();
        let n = ids.len() - 1;
        lemma_preferred_is_first_lowest(m, init);
        assert(ids[n] == x);
        assert forall|j: int| 0 <= j < n implies #[trigger] ids[j] == init[j] by {}
        let e0 = existing_scopes(m, init);
        if !m.scopes.contains_key(x) {
            assert(existing_scopes(m, ids) == e0);
            if let Some(s) = preferred(e0) {
                let i = choose|i: int| first_lowest_priority(m, init, i) && m.scopes[init[i]] == s;
                assert(ids[i] == init[i]);
                assert forall|j: int|
                    0 <= j < ids.len() && #[trigger] m.scopes.contains_key(ids[j]) implies m.scopes[ids[i]].priority
                        <= m.scopes[ids[j]].priority by {
                    assert(j < n);
                    assert(m.scopes.contains_key(init[j]));
                }
                assert forall|j: int|
                    0 <= j < i && #[trigger] m.scopes.contains_key(ids[j]) implies m.scopes[ids[i]].priority
                        < m.scopes[ids[j]].priority by {
                    assert(m.scopes.contains_key(init[j]));
                }
                assert(first_lowest_priority(m, ids, i));
            } else {
                assert forall|i: int| 0 <= i < ids.len() implies !#[trigger] m.scopes.contains_key(ids[i]) by {
                    if i < n {
                        assert(!m.scopes.contains_key(init[i]));
                    }
                }
            }
        } else {
            let sx = m.scopes[x];
            let e = existing_scopes(m, ids);
            assert(e == e0.push(sx));
            assert(e.drop_last() =~= e0);
            assert(e.last() == sx);
            match preferred(e0) {
                None => {
                    assert(preferred(e) == Some(sx));
                    assert forall|j: int| 0 <= j < n implies !#[trigger] m.scopes.contains_key(ids[j]) by {
                        assert(!m.scopes.contains_key(init[j]));
                    }
                    assert(first_lowest_priority(m, ids, n));
                },
                Some(b) => {
                    let i = choose|i: int| first_lowest_priority(m, init, i) && m.scopes[init[i]] == b;
                    if sx.priority < b.priority {
                        assert(preferred(e) == Some(sx));
                        assert forall|j: int|
                            0 <= j < ids.len() && #[trigger] m.scopes.contains_key(ids[j]) implies sx.priority
                                <= m.scopes[ids[j]].priority by {
                            if j < n {
                                assert(m.scopes.contains_key(init[j]));
                            }
                        }
                        assert forall|j: int|
                            0 <= j < n && #[trigger] m.scopes.contains_key(ids[j]) implies sx.priority
                                < m.scopes[ids[j]].priority by {
                            assert(m.scopes.contains_key(init[j]));
                        }
                        assert(first_lowest_priority(m, ids, n));
                    } else {
                        assert(preferred(e) == Some(b));
                        assert(ids[i] == init[i]);
                        assert forall|j: int|
                            0 <= j < ids.len() && #[trigger] m.scopes.contains_key(ids[j]) implies m.scopes[ids[i]].priority
                                <= m.scopes[ids[j]].priority by {
                            if j < n {
                                assert(m.scopes.contains_key(init[j]));
                            }
                        }
                        assert forall|j: int|
                            0 <= j < i && #[trigger] m.scopes.contains_key(ids[j]) implies m.scopes[ids[i]].priority
                                < m.scopes[ids[j]].priority by {
                            assert(m.scopes.contains_key(init[j]));
                        }
                        assert(first_lowest_priority(m, ids, i));
                    }
                },
            }
        }
    }
}

/// Target-value selection sends change to the scope of lowest priority among
/// the account's recorded eligible scopes, the first of them in eligible order
/// on a tie; with no recorded eligible scope it is refused as having none.
pub proof fn lemma_target_change_scope_has_lowest_priority(
    m: StoreModel,
    account: Seq<char>,
    account_scopes: Seq<Seq<char>>,
    eligible: Seq<Seq<char>>,
    amount: u64,
    l: Seq<UtxoModel>,
)
    ensures
        outcome_for(m, account, account_scopes, eligible, SpecModel::TargetValue { amount_sats: amount }, l) matches Ok(
            r,
        ) ==> exists|i: int| first_lowest_priority(m, eligible, i) && m.scopes[eligible[i]].id == r.1,
        (forall|i: int| 0 <= i < eligible.len() ==> !#[trigger] m.scopes.contains_key(eligible[i])) ==> outcome_for(
            m,
            account,
            account_scopes,
            eligible,
            SpecModel::TargetValue { amount_sats: amount },
            l,
        ) == Err::<(Seq<OutPointModel>, Seq<char>), ErrorModel>(ErrorModel::NoEligibleScope { account_id: account }),
{
    lemma_preferred_is_first_lowest(m, eligible);
}

proof fn lemma_cover_minimal(vals: Seq<u64>, target: u64, acc: u64)
    requires
        cover(vals, target, acc) is Some,
    ensures
        ({
            let n = cover(vals, target, acc)->Some_0 as int;
            &&& 1 <= n <= vals.len()
            &&& acc + total(vals.take(n)) >= target
            &&& n == 1 || acc + total(vals.take(n - 1)) < target
        }),
    decreases vals.len(),
{
    let a: u64 = if acc + vals[0] > u64::MAX {
        u64::MAX
    } else {
        (acc + vals[0]) as u64
    };
    let n = cover(vals, target, acc)->Some_0 as int;
    assert(total(vals.take(1)) == vals[0]) by {
        let t = vals.take(1);
        assert(t.drop_first().len() == 0);
        assert(total(t.drop_first()) == 0);
        assert(t[0] == vals[0]);
    }
    if a < target {
        let rest = vals.drop_first();
        lemma_cover_minimal(rest, target, a);
        let k = n - 1;
        assert(vals.take(n).drop_first() =~= rest.take(k));
        assert(total(vals.take(n)) == vals[0] + total(rest.take(k)));
        if k > 1 {
            assert(vals.take(n - 1).drop_first() =~= rest.take(k - 1));
            assert(total(vals.take(n - 1)) == vals[0] + total(rest.take(k - 1)));
        }
    }
}

proof fn lemma_candidates_in(m: StoreModel, account: Seq<char>, eligible: Seq<Seq<char>>, l: Seq<UtxoModel>)
    ensures
        forall|k: int|
            0 <= k < candidates_in(m, account, eligible, l).len() ==> l.contains(
                #[trigger] candidates_in(m, account, eligible, l)[k],
            ) && is_candidate(m, account, eligible, candidates_in(m, account, eligible, l)[k]),
    decreases l.len(),
{
    if l.len() > 0 {
        lemma_candidates_in(m, account, eligible, l.drop_last());
        let c0 = candidates_in(m, account, eligible, l.drop_last());
        let c = candidates_in(m, account, eligible, l);
        assert forall|k: int| 0 <= k < c.len() implies l.contains(#[trigger] c[k]) && is_candidate(
            m,
            account,
            eligible,
            c[k],
        ) by {
            if k < c0.len() {
                assert(c[k] == c0[k]);
                let j = choose|j: int| 0 <= j < l.drop_last().len() && l.drop_last()[j] == c0[k];
                assert(l[j] == c0[k]);
            } else {
                assert(c[k] == l.last());
                assert(l[l.len() - 1] == l.last());
            }
        }
    }
}

proof fn lemma_value_order_members(c: Seq<UtxoModel>)
    ensures
        value_order(c).len() == c.len(),
        forall|k: int| 0 <= k < value_order(c).len() ==> c.contains(#[trigger] value_order(c)[k]),
{
    let keys = sort_keys(c);
    let sorted = sort_by_insertion(keys);
    lemma_sort_members(keys);
    assert forall|k: int| 0 <= k < value_order(c).len() implies c.contains(#[trigger] value_order(c)[k]) by {
        assert(sorted.contains(sorted[k]));
        let j = choose|j: int| 0 <= j < keys.len() && keys[j] == sorted[k];
        assert(keys[j].2 == j as usize);
        assert(0 <= sorted[k].2 < c.len());
        assert(value_order(c)[k] == c[sorted[k].2 as int]);
    }
}

/// Target-value selection takes only inputs the account may spend now, listed
/// in the state, that together cover the amount, and no more of them than
/// needed in the order taken: without the last one the amount is not covered
/// (unless a single input was taken).
pub proof fn lemma_target_selection_is_minimal(
    m: StoreModel,
    account: Seq<char>,
    account_scopes: Seq<Seq<char>>,
    eligible: Seq<Seq<char>>,
    amount: u64,
    l: Seq<UtxoModel>,
)
    requires
        outcome_for(m, account, account_scopes, eligible, SpecModel::TargetValue { amount_sats: amount }, l) is Ok,
    ensures
        exists|sel: Seq<UtxoModel>|
            #![trigger outpoints_of(sel)]
            {
                &&& outcome_for(
                    m,
                    account,
                    account_scopes,
                    eligible,
                    SpecModel::TargetValue { amount_sats: amount },
                    l,
                )->Ok_0.0 == outpoints_of(sel)
                &&& sel.len() > 0
                &&& total(values_of(sel)) >= amount
                &&& sel.len() == 1 || total(values_of(sel.drop_last())) < amount
                &&& forall|k: int| 0 <= k < sel.len() ==> l.contains(#[trigger] sel[k]) && is_candidate(m, account, eligible, sel[k])
            },
{
    let c = candidates_in(m, account, eligible, l);
    let order = value_order(c);
    let vals = values_of(order);
    lemma_cover_minimal(vals, amount, 0);
    let n = cover(vals, amount, 0)->Some_0 as int;
    let sel = order.take(n);
    assert(values_of(sel) =~= vals.take(n));
    assert(values_of(sel.drop_last()) =~= vals.take(n - 1));
    lemma_candidates_in(m, account, eligible, l);
    lemma_value_order_members(c);
    assert forall|k: int| 0 <= k < sel.len() implies l.contains(#[trigger] sel[k]) && is_candidate(
        m,
        account,
        eligible,
        sel[k],
    ) by {
        assert(sel[k] == order[k]);
        assert(c.contains(order[k]));
        let j = choose|j: int| 0 <= j < c.len() && c[j] == order[k];
        assert(l.contains(c[j]) && is_candidate(m, account, eligible, c[j]));
    }
    assert(target_outcome(m, account, eligible, l, amount)->Ok_0.0 == outpoints_of(sel));
}

proof fn lemma_first_refusal_none(
    m: StoreModel,
    account: Seq<char>,
    account_scopes: Seq<Seq<char>>,
    eligible: Seq<Seq<char>>,
    outs: Seq<OutPointModel>,
)
    requires
        first_refusal(m, account, account_scopes, eligible, outs) is None,
    ensures
        forall|k: int|
            0 <= k < outs.len() ==> m.utxos.contains_key(#[trigger] outs[k]) && is_candidate(
                m,
                account,
                eligible,
                m.utxos[outs[k]],
            ),
    decreases outs.len(),
{
    if outs.len() > 0 {
        lemma_first_refusal_none(m, account, account_scopes, eligible, outs.drop_first());
        assert(refusal(m, account, account_scopes, eligible, outs[0]) is None);
        assert forall|k: int| 0 <= k < outs.len() implies m.utxos.contains_key(#[trigger] outs[k]) && is_candidate(
            m,
            account,
            eligible,
            m.utxos[outs[k]],
        ) by {
            if k > 0 {
                assert(outs[k] == outs.drop_first()[k - 1]);
            }
        }
    }
}

proof fn lemma_first_selectable(m: StoreModel, account: Seq<char>, eligible: Seq<Seq<char>>, outs: Seq<OutPointModel>)
    ensures
        first_selectable(m, account, eligible, outs) matches Some(o) ==> exists|i: int|
            0 <= i < outs.len() && outs[i] == o && m.utxos.contains_key(o) && is_candidate(
                m,
                account,
                eligible,
                m.utxos[o],
            ) && forall|j: int|
                0 <= j < i ==> !(m.utxos.contains_key(#[trigger] outs[j]) && is_candidate(
                    m,
                    account,
                    eligible,
                    m.utxos[outs[j]],
                )),
    decreases outs.len(),
{
    if outs.len() > 0 {
        lemma_first_selectable(m, account, eligible, outs.drop_first());
        if !(lookup(m.utxos, outs[0]) matches Some(u) && is_candidate(m, account, eligible, u)) {
            if let Some(o) = first_selectable(m, account, eligible, outs) {
                let rest = outs.drop_first();
                let i = choose|i: int|
                    0 <= i < rest.len() && rest[i] == o && m.utxos.contains_key(o) && is_candidate(
                        m,
                        account,
                        eligible,
                        m.utxos[o],
                    ) && forall|j: int|
                        0 <= j < i ==> !(m.utxos.contains_key(#[trigger] rest[j]) && is_candidate(
                            m,
                            account,
                            eligible,
                            m.utxos[rest[j]],
                        ));
                assert(outs[i + 1] == o);
                assert forall|j: int| 0 <= j < i + 1 implies !(m.utxos.contains_key(#[trigger] outs[j]) && is_candidate(
                    m,
                    account,
                    eligible,
                    m.utxos[outs[j]],
                )) by {
                    if j > 0 {
                        assert(outs[j] == rest[j - 1]);
                    }
                }
            }
        }
    }
}

/// Exact and first-selectable selection send change to the recorded scope of
/// the first selected input. Every selected input is recorded and spendable by
/// the account now; exact selection takes exactly the requested inputs, in
/// order, and first-selectable selection the first candidate that qualifies.
pub proof fn lemma_candidate_change_scope_is_first_input(
    m: StoreModel,
    account: Seq<char>,
    account_scopes: Seq<Seq<char>>,
    eligible: Seq<Seq<char>>,
    spec: SpecModel,
    l: Seq<UtxoModel>,
)
    requires
        !(spec is TargetValue),
        outcome_for(m, account, account_scopes, eligible, spec, l) is Ok,
    ensures
        ({
            let (outs, change) = outcome_for(m, account, account_scopes, eligible, spec, l)->Ok_0;
            &&& outs.len() > 0
            &&& m.utxos.contains_key(outs[0])
            &&& change == m.utxos[outs[0]].scope_id
            &&& forall|k: int|
                0 <= k < outs.len() ==> m.utxos.contains_key(#[trigger] outs[k]) && is_candidate(
                    m,
                    account,
                    eligible,
                    m.utxos[outs[k]],
                )
            &&& spec matches SpecModel::ExactOutpoints { outpoints } ==> outs == outpoints
            &&& spec matches SpecModel::FirstSelectable { candidates } ==> outs.len() == 1 && exists|i: int|
                0 <= i < candidates.len() && candidates[i] == outs[0] && forall|j: int|
                    0 <= j < i ==> !(m.utxos.contains_key(#[trigger] candidates[j]) && is_candidate(
                        m,
                        account,
                        eligible,
                        m.utxos[candidates[j]],
                    ))
        }),
{
    assert(outcome_for(m, account, account_scopes, eligible, spec, l) == candidate_outcome(
        m,
        account,
        account_scopes,
        eligible,
        spec,
    ));
    match spec {
        SpecModel::ExactOutpoints { outpoints } => {
            lemma_first_refusal_none(m, account, account_scopes, eligible, outpoints);
        },
        SpecModel::FirstSelectable { candidates } => {
            lemma_first_selectable(m, account, eligible, candidates);
        },
        SpecModel::TargetValue { .. } => {},
    }
}


proof fn lemma_candidates_in_complete(
    m: StoreModel,
    account: Seq<char>,
    eligible: Seq<Seq<char>>,
    l: Seq<UtxoModel>,
    u: UtxoModel,
)
    requires
        l.contains(u),
        is_candidate(m, account, eligible, u),
    ensures
        candidates_in(m, account, eligible, l).contains(u),
    decreases l.len(),
{
    let c = candidates_in(m, account, eligible, l);
    if l.last() == u {
        assert(c.last() == u);
        assert(c[c.len() - 1] == u);
    } else {
        let i = choose|i: int| 0 <= i < l.len() && l[i] == u;
        assert(i < l.len() - 1);
        assert(l.drop_last()[i] == u);
        lemma_candidates_in_complete(m, account, eligible, l.drop_last(), u);
        let c0 = candidates_in(m, account, eligible, l.drop_last());
        let j = choose|j: int| 0 <= j < c0.len() && c0[j] == u;
        assert(c[j] == u);
    }
}

/// The value order lists the candidates by non-decreasing value, and holds every candidate.
proof fn lemma_value_order_sorted(c: Seq<UtxoModel>)
    requires
        c.len() <= usize::MAX,
    ensures
        value_order(c).len() == c.len(),
        forall|i: int, j: int|
            0 <= i < j < c.len() ==> (#[trigger] value_order(c)[i]).value_sats <= (#[trigger] value_order(
                c,
            )[j]).value_sats,
        forall|i: int| 0 <= i < c.len() ==> value_order(c).contains(#[trigger] c[i]),
{
    let keys = sort_keys(c);
    let sorted = sort_by_insertion(keys);
    let order = value_order(c);
    lemma_sort_members(keys);
    lemma_sort_multiset(keys);
    assert(asymmetric::<(u64, u8, usize)>());
    assert(transitive::<(u64, u8, usize)>());
    lemma_sort_weak(keys);
    assert forall|p: int| 0 <= p < sorted.len() implies #[trigger] order[p] == c[sorted[p].2 as int] && sorted[p].0
        == c[sorted[p].2 as int].value_sats by {
        assert(sorted.contains(sorted[p]));
        let j = choose|j: int| 0 <= j < keys.len() && keys[j] == sorted[p];
        assert(keys[j].2 == j as usize);
    }
    assert forall|i: int, j: int| 0 <= i < j < c.len() implies (#[trigger] order[i]).value_sats <= (
    #[trigger] order[j]).value_sats by {
        assert(!<(u64, u8, usize) as Ordered>::before(sorted[j], sorted[i]));
    }
    assert forall|i: int| 0 <= i < c.len() implies order.contains(#[trigger] c[i]) by {
        assert(keys[i] == (c[i].value_sats, crate::selector::role_weight(c[i].role), i as usize));
        vstd::seq_lib::to_multiset_contains(keys, keys[i]);
        vstd::seq_lib::to_multiset_contains(sorted, keys[i]);
        let p = choose|p: int| 0 <= p < sorted.len() && sorted[p] == keys[i];
        assert(order[p] == c[i]);
    }
}

/// Target-value selection takes the smallest candidates first: the inputs it
/// takes come in non-decreasing value, and every spendable output of the
/// account that it leaves out is worth at least as much as each one it takes.
pub proof fn lemma_target_selection_takes_smallest_first(
    m: StoreModel,
    account: Seq<char>,
    account_scopes: Seq<Seq<char>>,
    eligible: Seq<Seq<char>>,
    amount: u64,
    l: Seq<UtxoModel>,
)
    requires
        outcome_for(m, account, account_scopes, eligible, SpecModel::TargetValue { amount_sats: amount }, l) is Ok,
        l.len() <= usize::MAX,
    ensures
        exists|sel: Seq<UtxoModel>|
            #![trigger outpoints_of(sel)]
            {
                let outs = outcome_for(
                    m,
                    account,
                    account_scopes,
                    eligible,
                    SpecModel::TargetValue { amount_sats: amount },
                    l,
                )->Ok_0.0;
                &&& outs == outpoints_of(sel)
                &&& forall|i: int, j: int|
                    0 <= i < j < sel.len() ==> (#[trigger] sel[i]).value_sats <= (#[trigger] sel[j]).value_sats
                &&& forall|u: UtxoModel|
                    #[trigger] l.contains(u) && is_candidate(m, account, eligible, u) ==> outs.contains(u.outpoint)
                        || forall|k: int| 0 <= k < sel.len() ==> (#[trigger] sel[k]).value_sats <= u.value_sats
            },
{
    let c = candidates_in(m, account, eligible, l);
    let order = value_order(c);
    let vals = values_of(order);
    lemma_cover_minimal(vals, amount, 0);
    let n = cover(vals, amount, 0)->Some_0 as int;
    let sel = order.take(n);
    let outs = outpoints_of(sel);
    assert(target_outcome(m, account, eligible, l, amount)->Ok_0.0 == outs);
    assert(c.len() <= l.len()) by {
        lemma_candidates_len(m, account, eligible, l);
    }
    lemma_value_order_sorted(c);
    assert forall|i: int, j: int| 0 <= i < j < sel.len() implies (#[trigger] sel[i]).value_sats <= (
    #[trigger] sel[j]).value_sats by {
        assert(sel[i] == order[i] && sel[j] == order[j]);
    }
    assert forall|u: UtxoModel|
        #[trigger] l.contains(u) && is_candidate(m, account, eligible, u) implies outs.contains(u.outpoint) || forall|
        k: int,
    | 0 <= k < sel.len() ==> (#[trigger] sel[k]).value_sats <= u.value_sats by {
        lemma_candidates_in_complete(m, account, eligible, l, u);
        let i = choose|i: int| 0 <= i < c.len() && c[i] == u;
        assert(order.contains(c[i]));
        let p = choose|p: int| 0 <= p < order.len() && order[p] == u;
        if p < n {
            assert(outs[p] == u.outpoint);
        } else {
            assert forall|k: int| 0 <= k < sel.len() implies (#[trigger] sel[k]).value_sats <= u.value_sats by {
                assert(sel[k] == order[k]);
                assert(order[k].value_sats <= order[p].value_sats);
            }
        }
    }
}

proof fn lemma_candidates_len(m: StoreModel, account: Seq<char>, eligible: Seq<Seq<char>>, l: Seq<UtxoModel>)
    ensures
        candidates_in(m, account, eligible, l).len() <= l.len(),
    decreases l.len(),
{
    if l.len() > 0 {
        lemma_candidates_len(m, account, eligible, l.drop_last());
    }
}

} // verus!
