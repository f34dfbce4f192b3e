//! Properties of asset selection that hold for every input: the result does
//! not depend on the order candidates are given in, and a selection always
//! covers both targets and respects the merge and fee-support constraints.
use vstd::prelude::*;

use crate::asset_selection::{
    asset_pass, auto_selection, candidate_outpoints, candidates_model, fee_pass, find_candidate,
    first_blocked_fee_input, first_not_candidate, select_spec, selected_totals, validate_spec, AssetCandidate,
    CandidateModel, ConstraintsModel,
};
use crate::outpoint::{lemma_outpoint_text_round_trip, outpoint_text, OutPointModel};
use crate::sorting::{
    asymmetric, comparable_within, lemma_sort_multiset, lemma_sort_strict, lemma_strictly_sorted_unique,
    sort_by_insertion, transitive, Ordered,
};
use crate::text::{lemma_lex_irreflexive, lemma_lex_total, lemma_lex_transitive};

verus! {

/// Selection order is a strict order: asymmetric and transitive.
proof fn lemma_candidate_order()
    ensures
        asymmetric::<AssetCandidate>(),
        transitive::<AssetCandidate>(),
{
    assert forall|a: AssetCandidate, b: AssetCandidate| AssetCandidate::before(a, b) implies !AssetCandidate::before(
        b,
        a,
    ) by {
        let ta = outpoint_text(a.outpoint@);
        let tb = outpoint_text(b.outpoint@);
        if AssetCandidate::before(b, a) && a.value_sats == b.value_sats {
            lemma_lex_transitive(ta, tb, ta);
            lemma_lex_irreflexive(ta);
        }
    }
    assert forall|a: AssetCandidate, b: AssetCandidate, c: AssetCandidate| #[trigger]
        AssetCandidate::before(a, b) && #[trigger] AssetCandidate::before(b, c) implies AssetCandidate::before(
        a,
        c,
    ) by {
        if a.value_sats == b.value_sats && b.value_sats == c.value_sats {
            lemma_lex_transitive(
                outpoint_text(a.outpoint@),
                outpoint_text(b.outpoint@),
                outpoint_text(c.outpoint@),
            );
        }
    }
}

/// Candidates with distinct outpoints are ordered one way or the other.
proof fn lemma_candidates_comparable(s: Seq<AssetCandidate>)
    requires
        candidate_outpoints(candidates_model(s)).no_duplicates(),
    ensures
        comparable_within(s),
{
    assert forall|i: int, j: int| 0 <= i < s.len() && 0 <= j < s.len() && i != j implies AssetCandidate::before(
        #[trigger] s[i],
        #[trigger] s[j],
    ) || AssetCandidate::before(s[j], s[i]) by {
        let os = candidate_outpoints(candidates_model(s));
        assert(os[i] == s[i].outpoint@ && os[j] == s[j].outpoint@);
        let ta = outpoint_text(s[i].outpoint@);
        let tb = outpoint_text(s[j].outpoint@);
        lemma_outpoint_text_round_trip(s[i].outpoint@);
        lemma_outpoint_text_round_trip(s[j].outpoint@);
        if ta != tb {
            lemma_lex_total(ta, tb);
        }
    }
}

/// Mapping two arrangements of the same elements gives two arrangements of the same values.
proof fn lemma_map_multiset<A, B>(p: Seq<A>, q: Seq<A>, f: spec_fn(A) -> B)
    requires
        p.to_multiset() == q.to_multiset(),
    ensures
        p.map_values(f).to_multiset() == q.map_values(f).to_multiset(),
    decreases p.len(),
{
    vstd::seq_lib::to_multiset_len(p);
    vstd::seq_lib::to_multiset_len(q);
    if p.len() == 0 {
        assert(p.map_values(f) =~= q.map_values(f));
    } else {
        let x = p.last();
        let init = p.drop_last();
        vstd::seq_lib::to_multiset_build(init, x);
        assert(init.push(x) =~= p);
        vstd::seq_lib::to_multiset_contains(p, x);
        vstd::seq_lib::to_multiset_contains(q, x);
        assert(p.contains(x)) by {
            assert(p[p.len() - 1] == x);
        }
        let i = choose|i: int| 0 <= i < q.len() && q[i] == x;
        let rest = q.remove(i);
        vstd::seq_lib::to_multiset_remove(q, i);
        assert(init.to_multiset() =~= rest.to_multiset());
        lemma_map_multiset(init, rest, f);
        vstd::seq_lib::to_multiset_build(init.map_values(f), f(x));
        assert(p.map_values(f) =~= init.map_values(f).push(f(x)));
        vstd::seq_lib::to_multiset_insert(rest.map_values(f), i, f(x));
        assert(q.map_values(f) =~= rest.map_values(f).insert(i, f(x)));
    }
}

/// Whether a sequence repeats a value depends only on its elements, not their order.
proof fn lemma_no_duplicates_multiset<A>(p: Seq<A>, q: Seq<A>)
    requires
        p.to_multiset() == q.to_multiset(),
        p.no_duplicates(),
    ensures
        q.no_duplicates(),
{
    p.lemma_multiset_has_no_duplicates();
    q.lemma_multiset_has_no_duplicates_conv();
}

/// The outpoints of two arrangements of the same candidates are arrangements of the same outpoints.
proof fn lemma_outpoints_multiset(p: Seq<AssetCandidate>, q: Seq<AssetCandidate>)
    requires
        p.to_multiset() == q.to_multiset(),
    ensures
        candidate_outpoints(candidates_model(p)).to_multiset() == candidate_outpoints(
            candidates_model(q),
        ).to_multiset(),
        candidate_outpoints(candidates_model(p)).no_duplicates() == candidate_outpoints(
            candidates_model(q),
        ).no_duplicates(),
{
    lemma_map_multiset(p, q, |c: AssetCandidate| c@);
    lemma_map_multiset(candidates_model(p), candidates_model(q), |c: CandidateModel| c.outpoint);
    let op = candidate_outpoints(candidates_model(p));
    let oq = candidate_outpoints(candidates_model(q));
    if op.no_duplicates() {
        lemma_no_duplicates_multiset(op, oq);
    }
    if oq.no_duplicates() {
        lemma_no_duplicates_multiset(oq, op);
    }
}

/// Automatic selection does not depend on the order the candidates are given
/// in: any rearrangement of the same candidates gives the same result.
pub proof fn lemma_automatic_selection_order_independent(
    p: Seq<AssetCandidate>,
    q: Seq<AssetCandidate>,
    target_asset: u64,
    target_value: u64,
    c: ConstraintsModel,
)
    requires
        p.to_multiset() == q.to_multiset(),
        c.exact_outpoints is None,
    ensures
        select_spec(p, target_asset, target_value, c) == select_spec(q, target_asset, target_value, c),
{
    lemma_outpoints_multiset(p, q);
    let op = candidate_outpoints(candidates_model(p));
    if validate_spec(op, target_asset, c) is Ok {
        lemma_candidate_order();
        lemma_candidates_comparable(p);
        lemma_candidates_comparable(q);
        lemma_sort_strict(p);
        lemma_sort_strict(q);
        lemma_sort_multiset(p);
        lemma_sort_multiset(q);
        lemma_strictly_sorted_unique(sort_by_insertion(p), sort_by_insertion(q));
    }
}


/// `find_candidate` answers a candidate of `s` with the outpoint, or says no candidate has it.
proof fn lemma_find_candidate_shape(s: Seq<CandidateModel>, o: OutPointModel)
    ensures
        match find_candidate(s, o) {
            Some(x) => s.contains(x) && x.outpoint == o,
            None => forall|k: int| 0 <= k < s.len() ==> (#[trigger] s[k]).outpoint != o,
        },
    decreases s.len(),
{
    if s.len() > 0 && s[0].outpoint != o {
        lemma_find_candidate_shape(s.drop_first(), o);
        match find_candidate(s.drop_first(), o) {
            Some(x) => {
                let k = choose|k: int| 0 <= k < s.drop_first().len() && s.drop_first()[k] == x;
                assert(s[k + 1] == x);
            },
            None => {
                assert forall|k: int| 0 <= k < s.len() implies (#[trigger] s[k]).outpoint != o by {
                    if k > 0 {
                        assert(s[k] == s.drop_first()[k - 1]);
                    }
                }
            },
        }
    } else if s.len() > 0 {
        assert(s[0] == s[0]);
    }
}

/// Among candidates with distinct outpoints, the candidate with an outpoint is the one found.
proof fn lemma_find_candidate_unique(s: Seq<CandidateModel>, i: int)
    requires
        candidate_outpoints(s).no_duplicates(),
        0 <= i < s.len(),
    ensures
        find_candidate(s, s[i].outpoint) == Some(s[i]),
{
    lemma_find_candidate_shape(s, s[i].outpoint);
    let os = candidate_outpoints(s);
    match find_candidate(s, s[i].outpoint) {
        Some(x) => {
            let k = choose|k: int| 0 <= k < s.len() && s[k] == x;
            assert(os[k] == os[i]);
        },
        None => {
            assert(s[i].outpoint != s[i].outpoint);
        },
    }
}

/// Two arrangements of the same candidates, with distinct outpoints, find the same candidate.
proof fn lemma_find_candidate_same(s1: Seq<CandidateModel>, s2: Seq<CandidateModel>, o: OutPointModel)
    requires
        s1.to_multiset() == s2.to_multiset(),
        candidate_outpoints(s1).no_duplicates(),
    ensures
        find_candidate(s1, o) == find_candidate(s2, o),
{
    lemma_map_multiset(s1, s2, |c: CandidateModel| c.outpoint);
    lemma_no_duplicates_multiset(candidate_outpoints(s1), candidate_outpoints(s2));
    lemma_find_candidate_shape(s1, o);
    lemma_find_candidate_shape(s2, o);
    match find_candidate(s1, o) {
        Some(x) => {
            vstd::seq_lib::to_multiset_contains(s1, x);
            vstd::seq_lib::to_multiset_contains(s2, x);
            let k = choose|k: int| 0 <= k < s2.len() && s2[k] == x;
            lemma_find_candidate_unique(s2, k);
        },
        None => {
            match find_candidate(s2, o) {
                Some(y) => {
                    vstd::seq_lib::to_multiset_contains(s1, y);
                    vstd::seq_lib::to_multiset_contains(s2, y);
                    let k = choose|k: int| 0 <= k < s1.len() && s1[k] == y;
                    assert(s1[k].outpoint != o);
                },
                None => {},
            }
        },
    }
}

/// Totals over two arrangements of the same candidates, with distinct outpoints, agree.
proof fn lemma_totals_same(sel: Seq<OutPointModel>, s1: Seq<CandidateModel>, s2: Seq<CandidateModel>)
    requires
        s1.to_multiset() == s2.to_multiset(),
        candidate_outpoints(s1).no_duplicates(),
    ensures
        selected_totals(sel, s1) == selected_totals(sel, s2),
    decreases sel.len(),
{
    if sel.len() > 0 {
        lemma_totals_same(sel.drop_last(), s1, s2);
        lemma_find_candidate_same(s1, s2, sel.last());
    }
}

/// The candidates in selection order are an arrangement of the candidates, with the same outpoints.
proof fn lemma_sorted_model(cands: Seq<AssetCandidate>)
    requires
        candidate_outpoints(candidates_model(cands)).no_duplicates(),
    ensures
        candidates_model(sort_by_insertion(cands)).to_multiset() == candidates_model(cands).to_multiset(),
        candidate_outpoints(candidates_model(sort_by_insertion(cands))).no_duplicates(),
{
    lemma_sort_multiset(cands);
    lemma_map_multiset(sort_by_insertion(cands), cands, |c: AssetCandidate| c@);
    lemma_outpoints_multiset(cands, sort_by_insertion(cands));
}

/// A successful selection covers both targets: the asset and bitcoin totals of
/// the selected candidates reach the requested amounts.
pub proof fn lemma_selection_covers_targets(
    cands: Seq<AssetCandidate>,
    target_asset: u64,
    target_value: u64,
    c: ConstraintsModel,
)
    requires
        select_spec(cands, target_asset, target_value, c) is Ok,
    ensures
        selected_totals(select_spec(cands, target_asset, target_value, c)->Ok_0, candidates_model(cands)) matches Some(
            t,
        ) && t.0 >= target_asset && t.1 >= target_value,
{
    if c.exact_outpoints is None {
        let sorted = candidates_model(sort_by_insertion(cands));
        let sel = auto_selection(sorted, target_asset, target_value, c);
        lemma_sorted_model(cands);
        lemma_totals_same(sel, sorted, candidates_model(cands));
    }
}


/// `o` is the outpoint of a candidate of `s` that carries assets.
pub open spec fn carrier_outpoint(s: Seq<CandidateModel>, o: OutPointModel) -> bool {
    exists|i: int| 0 <= i < s.len() && s[i].asset_amount > 0 && #[trigger] s[i].outpoint == o
}

/// `o` is the outpoint of an allocation-free candidate of `s`.
pub open spec fn free_outpoint(s: Seq<CandidateModel>, o: OutPointModel) -> bool {
    exists|i: int| 0 <= i < s.len() && s[i].asset_amount == 0 && #[trigger] s[i].outpoint == o
}

/// The asset pass keeps what was chosen before and adds, without repeats,
/// outpoints of carriers; without merging it adds at most one, and when it
/// adds none the totals are unchanged.
proof fn lemma_asset_pass_picks(
    s: Seq<CandidateModel>,
    target_asset: u64,
    target_value: u64,
    merge: bool,
    acc: Seq<OutPointModel>,
    assets: int,
    sats: int,
)
    requires
        candidate_outpoints(s).no_duplicates(),
        acc.no_duplicates(),
        forall|k: int| 0 <= k < acc.len() ==> !candidate_outpoints(s).contains(#[trigger] acc[k]),
    ensures
        ({
            let r = asset_pass(s, target_asset, target_value, merge, acc, assets, sats);
            &&& r.0.len() >= acc.len()
            &&& r.0.take(acc.len() as int) == acc
            &&& r.0.no_duplicates()
            &&& forall|k: int| acc.len() <= k < r.0.len() ==> carrier_outpoint(s, #[trigger] r.0[k])
            &&& !merge ==> r.0.len() <= acc.len() + 1
            &&& r.0.len() == acc.len() ==> r.1 == assets
        }),
    decreases s.len(),
{
    let r = asset_pass(s, target_asset, target_value, merge, acc, assets, sats);
    if s.len() == 0 {
        assert(acc.take(acc.len() as int) =~= acc);
    } else {
        let c = s[0];
        let t = s.drop_first();
        let os = candidate_outpoints(s);
        let ot = candidate_outpoints(t);
        assert forall|x: OutPointModel| ot.contains(x) implies os.contains(x) by {
            let j = choose|j: int| 0 <= j < ot.len() && ot[j] == x;
            assert(os[j + 1] == x);
        }
        assert(ot.no_duplicates()) by {
            assert forall|i: int, j: int| 0 <= i < ot.len() && 0 <= j < ot.len() && i != j implies ot[i] != ot[j] by {
                assert(ot[i] == os[i + 1] && ot[j] == os[j + 1]);
            }
        }
        if c.asset_amount == 0 || (!merge && c.asset_amount < target_asset) {
            lemma_asset_pass_picks(t, target_asset, target_value, merge, acc, assets, sats);
            let rt = asset_pass(t, target_asset, target_value, merge, acc, assets, sats);
            assert forall|k: int| acc.len() <= k < rt.0.len() implies carrier_outpoint(s, #[trigger] rt.0[k]) by {
                assert(carrier_outpoint(t, rt.0[k]));
                let i = choose|i: int| 0 <= i < t.len() && t[i].asset_amount > 0 && #[trigger] t[i].outpoint == rt.0[k];
                assert(s[i + 1] == t[i]);
            }
        } else {
            let acc2 = acc.push(c.outpoint);
            assert(os[0] == c.outpoint);
            assert(acc2.no_duplicates()) by {
                assert forall|i: int, j: int| 0 <= i < acc2.len() && 0 <= j < acc2.len() && i != j implies acc2[i]
                    != acc2[j] by {
                    if i == acc.len() as int {
                        assert(!os.contains(acc[j]));
                    } else if j == acc.len() as int {
                        assert(!os.contains(acc[i]));
                    }
                }
            }
            assert(carrier_outpoint(s, c.outpoint)) by {
                assert(s[0].outpoint == c.outpoint);
            }
            let a2 = assets + c.asset_amount;
            let v2 = sats + c.value_sats;
            if !merge || (a2 >= target_asset && v2 >= target_value) {
                assert(acc2.take(acc.len() as int) =~= acc);
            } else {
                assert forall|k: int| 0 <= k < acc2.len() implies !ot.contains(#[trigger] acc2[k]) by {
                    if k == acc.len() as int {
                        if ot.contains(c.outpoint) {
                            let j = choose|j: int| 0 <= j < ot.len() && ot[j] == c.outpoint;
                            assert(os[j + 1] == os[0]);
                        }
                    } else {
                        assert(acc2[k] == acc[k]);
                    }
                }
                lemma_asset_pass_picks(t, target_asset, target_value, merge, acc2, a2, v2);
                let rt = asset_pass(t, target_asset, target_value, merge, acc2, a2, v2);
                assert(rt.0.take(acc.len() as int) =~= acc2.take(acc.len() as int));
                assert(acc2.take(acc.len() as int) =~= acc);
                assert forall|k: int| acc.len() <= k < rt.0.len() implies carrier_outpoint(s, #[trigger] rt.0[k]) by {
                    if k == acc.len() as int {
                        assert(rt.0[k] == rt.0.take(acc2.len() as int)[k]);
                    } else {
                        assert(carrier_outpoint(t, rt.0[k]));
                        let i = choose|i: int| 0 <= i < t.len() && t[i].asset_amount > 0 && #[trigger] t[i].outpoint == rt.0[k];
                        assert(s[i + 1] == t[i]);
                    }
                }
            }
        }
    }
}


/// The fee pass keeps what was chosen before and adds, without repeats,
/// outpoints of allocation-free candidates.
proof fn lemma_fee_pass_picks(s: Seq<CandidateModel>, target_value: u64, acc: Seq<OutPointModel>, sats: int)
    requires
        candidate_outpoints(s).no_duplicates(),
        acc.no_duplicates(),
        forall|k: int| 0 <= k < acc.len() ==> !free_outpoint(s, #[trigger] acc[k]),
    ensures
        ({
            let r = fee_pass(s, target_value, acc, sats);
            &&& r.len() >= acc.len()
            &&& r.take(acc.len() as int) == acc
            &&& r.no_duplicates()
            &&& forall|k: int| acc.len() <= k < r.len() ==> free_outpoint(s, #[trigger] r[k])
        }),
    decreases s.len(),
{
    if s.len() == 0 || (s[0].asset_amount == 0 && sats >= target_value) {
        assert(acc.take(acc.len() as int) =~= acc);
    } else {
        let t = s.drop_first();
        let os = candidate_outpoints(s);
        let ot = candidate_outpoints(t);
        assert(ot.no_duplicates()) by {
            assert forall|i: int, j: int| 0 <= i < ot.len() && 0 <= j < ot.len() && i != j implies ot[i] != ot[j] by {
                assert(ot[i] == os[i + 1] && ot[j] == os[j + 1]);
            }
        }
        let next = if s[0].asset_amount != 0 {
            acc
        } else {
            acc.push(s[0].outpoint)
        };
        let next_sats = if s[0].asset_amount != 0 {
            sats
        } else {
            sats + s[0].value_sats
        };
        if s[0].asset_amount == 0 {
            assert(free_outpoint(s, s[0].outpoint)) by {
                assert(s[0].outpoint == s[0].outpoint);
            }
            assert(next.no_duplicates()) by {
                assert forall|i: int, j: int| 0 <= i < next.len() && 0 <= j < next.len() && i != j implies next[i]
                    != next[j] by {
                    if i == acc.len() as int {
                        assert(!free_outpoint(s, acc[j]));
                    } else if j == acc.len() as int {
                        assert(!free_outpoint(s, acc[i]));
                    }
                }
            }
        }
        assert forall|k: int| 0 <= k < next.len() implies !free_outpoint(t, #[trigger] next[k]) by {
            if free_outpoint(t, next[k]) {
                let i = choose|i: int| 0 <= i < t.len() && t[i].asset_amount == 0 && #[trigger] t[i].outpoint == next[k];
                assert(s[i + 1] == t[i]);
                if k < acc.len() {
                    assert(next[k] == acc[k]);
                    assert(free_outpoint(s, acc[k]));
                } else {
                    assert(os[i + 1] == os[0]);
                }
            }
        }
        lemma_fee_pass_picks(t, target_value, next, next_sats);
        let r = fee_pass(t, target_value, next, next_sats);
        assert(r.take(acc.len() as int) =~= next.take(acc.len() as int));
        assert(next.take(acc.len() as int) =~= acc);
        assert forall|k: int| acc.len() <= k < r.len() implies free_outpoint(s, #[trigger] r[k]) by {
            if k < next.len() {
                assert(r[k] == r.take(next.len() as int)[k]);
                assert(r[k] == s[0].outpoint);
            } else {
                assert(free_outpoint(t, r[k]));
                let i = choose|i: int| 0 <= i < t.len() && t[i].asset_amount == 0 && #[trigger] t[i].outpoint == r[k];
                assert(s[i + 1] == t[i]);
            }
        }
    }
}

/// No outpoint is both a carrier's and an allocation-free candidate's.
proof fn lemma_carrier_not_free(s: Seq<CandidateModel>, o: OutPointModel)
    requires
        candidate_outpoints(s).no_duplicates(),
        carrier_outpoint(s, o),
    ensures
        !free_outpoint(s, o),
{
    let os = candidate_outpoints(s);
    let i = choose|i: int| 0 <= i < s.len() && s[i].asset_amount > 0 && #[trigger] s[i].outpoint == o;
    if free_outpoint(s, o) {
        let j = choose|j: int| 0 <= j < s.len() && s[j].asset_amount == 0 && #[trigger] s[j].outpoint == o;
        assert(os[i] == os[j]);
    }
}

/// The automatic selection over candidates with distinct outpoints: its
/// carrier part and its allocation-free part, without repeats.
proof fn lemma_auto_selection_shape(sorted: Seq<CandidateModel>, target_asset: u64, target_value: u64, c: ConstraintsModel)
    requires
        candidate_outpoints(sorted).no_duplicates(),
    ensures
        ({
            let p = asset_pass(sorted, target_asset, target_value, c.allow_asset_merge, Seq::empty(), 0, 0);
            let sel = auto_selection(sorted, target_asset, target_value, c);
            &&& sel.no_duplicates()
            &&& sel.len() >= p.0.len()
            &&& sel.take(p.0.len() as int) == p.0
            &&& forall|k: int| 0 <= k < p.0.len() ==> carrier_outpoint(sorted, #[trigger] sel[k])
            &&& forall|k: int| p.0.len() <= k < sel.len() ==> free_outpoint(sorted, #[trigger] sel[k])
            &&& !c.allow_fee_support ==> sel == p.0
            &&& p.1 < target_asset ==> sel == p.0
            &&& !c.allow_asset_merge ==> p.0.len() <= 1
            &&& p.0.len() == 0 ==> p.1 == 0
        }),
{
    let p = asset_pass(sorted, target_asset, target_value, c.allow_asset_merge, Seq::empty(), 0, 0);
    lemma_asset_pass_picks(sorted, target_asset, target_value, c.allow_asset_merge, Seq::empty(), 0, 0);
    assert(p.0.take(0) =~= Seq::<OutPointModel>::empty());
    if p.1 >= target_asset && c.allow_fee_support {
        assert forall|k: int| 0 <= k < p.0.len() implies !free_outpoint(sorted, #[trigger] p.0[k]) by {
            lemma_carrier_not_free(sorted, p.0[k]);
        }
        lemma_fee_pass_picks(sorted, target_value, p.0, p.2);
        let sel = fee_pass(sorted, target_value, p.0, p.2);
        assert forall|k: int| 0 <= k < p.0.len() implies carrier_outpoint(sorted, #[trigger] sel[k]) by {
            assert(sel[k] == sel.take(p.0.len() as int)[k]);
        }
    } else {
        assert(p.0.take(p.0.len() as int) =~= p.0);
    }
}


/// `o` finds a candidate of `s` that carries assets.
pub open spec fn found_carrier(s: Seq<CandidateModel>, o: OutPointModel) -> bool {
    find_candidate(s, o) matches Some(x) && x.asset_amount > 0
}

/// `o` finds an allocation-free candidate of `s`.
pub open spec fn found_free(s: Seq<CandidateModel>, o: OutPointModel) -> bool {
    find_candidate(s, o) matches Some(x) && x.asset_amount == 0
}

/// Every exact input is a candidate when none is missing.
proof fn lemma_no_missing_candidate(exact: Seq<OutPointModel>, cands: Seq<CandidateModel>, k: int)
    requires
        first_not_candidate(exact, cands) is None,
        0 <= k < exact.len(),
    ensures
        candidate_outpoints(cands).contains(exact[k]),
    decreases k,
{
    if k > 0 {
        lemma_no_missing_candidate(exact.drop_first(), cands, k - 1);
        assert(exact.drop_first()[k - 1] == exact[k]);
    }
}

/// No candidate is a blocked allocation-free exact input when none was found.
proof fn lemma_no_blocked_fee_input(cands: Seq<CandidateModel>, exact: Seq<OutPointModel>, fee: bool, j: int)
    requires
        first_blocked_fee_input(cands, exact, fee) is None,
        0 <= j < cands.len(),
    ensures
        !(exact.contains(cands[j].outpoint) && cands[j].asset_amount == 0 && !fee),
    decreases j,
{
    if j > 0 {
        lemma_no_blocked_fee_input(cands.drop_first(), exact, fee, j - 1);
        assert(cands.drop_first()[j - 1] == cands[j]);
    }
}

/// A carrier's outpoint finds, among any arrangement of the candidates, a candidate with assets.
proof fn lemma_carrier_found(sorted: Seq<CandidateModel>, model: Seq<CandidateModel>, o: OutPointModel)
    requires
        sorted.to_multiset() == model.to_multiset(),
        candidate_outpoints(sorted).no_duplicates(),
        carrier_outpoint(sorted, o),
    ensures
        found_carrier(model, o),
{
    let i = choose|i: int| 0 <= i < sorted.len() && sorted[i].asset_amount > 0 && #[trigger] sorted[i].outpoint == o;
    lemma_find_candidate_unique(sorted, i);
    lemma_find_candidate_same(sorted, model, o);
}

/// An allocation-free candidate's outpoint finds, among any arrangement of the
/// candidates, a candidate without assets.
proof fn lemma_free_found(sorted: Seq<CandidateModel>, model: Seq<CandidateModel>, o: OutPointModel)
    requires
        sorted.to_multiset() == model.to_multiset(),
        candidate_outpoints(sorted).no_duplicates(),
        free_outpoint(sorted, o),
    ensures
        found_free(model, o),
{
    let i = choose|i: int| 0 <= i < sorted.len() && sorted[i].asset_amount == 0 && #[trigger] sorted[i].outpoint == o;
    lemma_find_candidate_unique(sorted, i);
    lemma_find_candidate_same(sorted, model, o);
}

/// A selection never names an input twice.
pub proof fn lemma_selection_has_no_repeats(
    cands: Seq<AssetCandidate>,
    target_asset: u64,
    target_value: u64,
    c: ConstraintsModel,
)
    requires
        select_spec(cands, target_asset, target_value, c) is Ok,
    ensures
        select_spec(cands, target_asset, target_value, c)->Ok_0.no_duplicates(),
{
    if c.exact_outpoints is None {
        lemma_sorted_model(cands);
        lemma_auto_selection_shape(candidates_model(sort_by_insertion(cands)), target_asset, target_value, c);
    }
}

/// Without fee support, every selected input is a candidate that carries assets.
pub proof fn lemma_no_fee_inputs_without_fee_support(
    cands: Seq<AssetCandidate>,
    target_asset: u64,
    target_value: u64,
    c: ConstraintsModel,
)
    requires
        select_spec(cands, target_asset, target_value, c) is Ok,
        !c.allow_fee_support,
    ensures
        ({
            let sel = select_spec(cands, target_asset, target_value, c)->Ok_0;
            forall|k: int| 0 <= k < sel.len() ==> found_carrier(candidates_model(cands), #[trigger] sel[k])
        }),
{
    let model = candidates_model(cands);
    let sel = select_spec(cands, target_asset, target_value, c)->Ok_0;
    match c.exact_outpoints {
        None => {
            let sorted = candidates_model(sort_by_insertion(cands));
            lemma_sorted_model(cands);
            lemma_auto_selection_shape(sorted, target_asset, target_value, c);
            assert forall|k: int| 0 <= k < sel.len() implies found_carrier(model, #[trigger] sel[k]) by {
                lemma_carrier_found(sorted, model, sel[k]);
            }
        },
        Some(exact) => {
            assert forall|k: int| 0 <= k < sel.len() implies found_carrier(model, #[trigger] sel[k]) by {
                lemma_no_missing_candidate(exact, model, k);
                let os = candidate_outpoints(model);
                let j = choose|j: int| 0 <= j < os.len() && os[j] == exact[k];
                lemma_find_candidate_unique(model, j);
                lemma_no_blocked_fee_input(model, exact, false, j);
                assert(exact.contains(exact[k]));
            }
        },
    }
}

/// Without merging, automatic selection takes exactly one asset carrier, first,
/// and any further inputs are allocation-free.
pub proof fn lemma_single_carrier_without_merge(
    cands: Seq<AssetCandidate>,
    target_asset: u64,
    target_value: u64,
    c: ConstraintsModel,
)
    requires
        select_spec(cands, target_asset, target_value, c) is Ok,
        c.exact_outpoints is None,
        !c.allow_asset_merge,
    ensures
        ({
            let sel = select_spec(cands, target_asset, target_value, c)->Ok_0;
            &&& sel.len() >= 1
            &&& found_carrier(candidates_model(cands), sel[0])
            &&& forall|k: int| 1 <= k < sel.len() ==> found_free(candidates_model(cands), #[trigger] sel[k])
        }),
{
    let model = candidates_model(cands);
    let sorted = candidates_model(sort_by_insertion(cands));
    let sel = select_spec(cands, target_asset, target_value, c)->Ok_0;
    lemma_sorted_model(cands);
    lemma_auto_selection_shape(sorted, target_asset, target_value, c);
    let p = asset_pass(sorted, target_asset, target_value, false, Seq::empty(), 0, 0);
    if p.0.len() == 0 {
        assert(sel.len() == 0);
        assert(false);
    }
    lemma_carrier_found(sorted, model, sel[0]);
    assert forall|k: int| 1 <= k < sel.len() implies found_free(model, #[trigger] sel[k]) by {
        lemma_free_found(sorted, model, sel[k]);
    }
}


/// Exact selection answers the caller's inputs in the caller's order.
pub proof fn lemma_exact_selection_preserves_order(
    cands: Seq<AssetCandidate>,
    target_asset: u64,
    target_value: u64,
    c: ConstraintsModel,
)
    requires
        select_spec(cands, target_asset, target_value, c) is Ok,
        c.exact_outpoints is Some,
    ensures
        select_spec(cands, target_asset, target_value, c)->Ok_0 == c.exact_outpoints->Some_0,
{
}

} // verus!
