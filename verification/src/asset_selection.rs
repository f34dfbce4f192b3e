//! Pure asset selection policy over eligible, caller-supplied facts.
use vstd::prelude::*;
use vstd::string::StringExecFns;

use crate::errors::{DomainError, DomainResult, ErrorModel};
use crate::operation::{clone_outpoints, outpoints_model};
use crate::outpoint::{OutPoint, OutPointModel, outpoint_text};
use crate::sorting::{insertion_sort, sort_by_insertion, Ordered};
use crate::text::{chars_lt, chars_of, lex_lt};

verus! {

/// An input whose ownership, capabilities and availability were checked by the caller.
#[derive(Clone, Debug, PartialEq, Eq)]
pub struct AssetCandidate {
    pub outpoint: OutPoint,
    /// Zero denotes an allocation-free fee-support input.
    pub asset_amount: u64,
    pub value_sats: u64,
}

pub struct CandidateModel {
    pub outpoint: OutPointModel,
    pub asset_amount: u64,
    pub value_sats: u64,
}

impl View for AssetCandidate {
    type V = CandidateModel;

    open spec fn view(&self) -> CandidateModel {
        CandidateModel {
            outpoint: self.outpoint@,
            asset_amount: self.asset_amount,
            value_sats: self.value_sats,
        }
    }
}

impl AssetCandidate {
    pub fn dup(&self) -> (r: Self)
        ensures
            r == *self,
    {
        AssetCandidate {
            outpoint: self.outpoint.dup(),
            asset_amount: self.asset_amount,
            value_sats: self.value_sats,
        }
    }
}

#[derive(Clone, Debug, PartialEq, Eq)]
pub struct AssetSelectionConstraints {
    pub exact_outpoints: Option<Vec<OutPoint>>,
    pub allow_asset_merge: bool,
    /// Allows allocation-free inputs; their account and scope must grant `FeeSupport`.
    pub allow_fee_support: bool,
}

pub struct ConstraintsModel {
    pub exact_outpoints: Option<Seq<OutPointModel>>,
    pub allow_asset_merge: bool,
    pub allow_fee_support: bool,
}

impl View for AssetSelectionConstraints {
    type V = ConstraintsModel;

    open spec fn view(&self) -> ConstraintsModel {
        ConstraintsModel {
            exact_outpoints: match self.exact_outpoints {
                Some(v) => Some(outpoints_model(v@)),
                None => None,
            },
            allow_asset_merge: self.allow_asset_merge,
            allow_fee_support: self.allow_fee_support,
        }
    }
}

/// Automatic selection order: larger bitcoin carriers first, then lexical outpoint text.
impl Ordered for AssetCandidate {
    open spec fn before(a: AssetCandidate, b: AssetCandidate) -> bool {
        a.value_sats > b.value_sats || (a.value_sats == b.value_sats && lex_lt(
            outpoint_text(a.outpoint@),
            outpoint_text(b.outpoint@),
        ))
    }

    fn is_before(&self, other: &Self) -> (r: bool) {
        if self.value_sats != other.value_sats {
            return self.value_sats > other.value_sats;
        }
        let a = chars_of(self.outpoint.to_string().as_str());
        let b = chars_of(other.outpoint.to_string().as_str());
        chars_lt(&a, &b)
    }
}

pub open spec fn candidates_model(s: Seq<AssetCandidate>) -> Seq<CandidateModel> {
    s.map_values(|c: AssetCandidate| c@)
}

pub open spec fn candidate_outpoints(s: Seq<CandidateModel>) -> Seq<OutPointModel> {
    s.map_values(|c: CandidateModel| c.outpoint)
}

/// The checks made on caller inputs before any eligibility query.
pub open spec fn validate_spec(
    outpoints: Seq<OutPointModel>,
    target_asset: u64,
    c: ConstraintsModel,
) -> Result<(), ErrorModel> {
    if target_asset == 0 {
        Err(ErrorModel::InsufficientFunds)
    } else if !outpoints.no_duplicates() {
        Err(ErrorModel::InvalidRequest { reason: "duplicate asset candidate"@ })
    } else {
        match c.exact_outpoints {
            Some(exact) => if exact.len() == 0 {
                Err(
                    ErrorModel::InvalidRequest {
                        reason: "exact asset selection requires at least one outpoint"@,
                    },
                )
            } else if !exact.no_duplicates() {
                Err(ErrorModel::InvalidRequest { reason: "duplicate exact input"@ })
            } else {
                Ok(())
            },
            None => Ok(()),
        }
    }
}

/// The asset pass of automatic selection over sorted candidates: take asset
/// carriers (only ones covering the target alone unless merging), stopping after
/// one carrier without merging, or once both targets are met when merging.
/// Returns the chosen outpoints and the asset and bitcoin totals so far.
pub open spec fn asset_pass(
    s: Seq<CandidateModel>,
    target_asset: u64,
    target_value: u64,
    merge: bool,
    acc: Seq<OutPointModel>,
    assets: int,
    sats: int,
) -> (Seq<OutPointModel>, int, int)
    decreases s.len(),
{
    if s.len() == 0 {
        (acc, assets, sats)
    } else {
        let c = s[0];
        if c.asset_amount == 0 || (!merge && c.asset_amount < target_asset) {
            asset_pass(s.drop_first(), target_asset, target_value, merge, acc, assets, sats)
        } else {
            let acc2 = acc.push(c.outpoint);
            let a2 = assets + c.asset_amount;
            let v2 = sats + c.value_sats;
            if !merge || (a2 >= target_asset && v2 >= target_value) {
                (acc2, a2, v2)
            } else {
                asset_pass(s.drop_first(), target_asset, target_value, merge, acc2, a2, v2)
            }
        }
    }
}

/// The fee pass: add allocation-free inputs, in order, until the bitcoin target is met.
pub open spec fn fee_pass(
    s: Seq<CandidateModel>,
    target_value: u64,
    acc: Seq<OutPointModel>,
    sats: int,
) -> Seq<OutPointModel>
    decreases s.len(),
{
    if s.len() == 0 {
        acc
    } else if s[0].asset_amount != 0 {
        fee_pass(s.drop_first(), target_value, acc, sats)
    } else if sats >= target_value {
        acc
    } else {
        fee_pass(s.drop_first(), target_value, acc.push(s[0].outpoint), sats + s[0].value_sats)
    }
}

/// Automatic selection over candidates in selection order.
pub open spec fn auto_selection(
    sorted: Seq<CandidateModel>,
    target_asset: u64,
    target_value: u64,
    c: ConstraintsModel,
) -> Seq<OutPointModel> {
    let (sel, assets, sats) = asset_pass(
        sorted,
        target_asset,
        target_value,
        c.allow_asset_merge,
        Seq::empty(),
        0,
        0,
    );
    if assets >= target_asset && c.allow_fee_support {
        fee_pass(sorted, target_value, sel, sats)
    } else {
        sel
    }
}

/// The first exact input that is not a candidate.
pub open spec fn first_not_candidate(exact: Seq<OutPointModel>, cands: Seq<CandidateModel>) -> Option<
    OutPointModel,
>
    decreases exact.len(),
{
    if exact.len() == 0 {
        None
    } else if !candidate_outpoints(cands).contains(exact[0]) {
        Some(exact[0])
    } else {
        first_not_candidate(exact.drop_first(), cands)
    }
}

/// The first candidate, in candidate order, that is an exact input without
/// assets while fee support is disabled.
pub open spec fn first_blocked_fee_input(
    cands: Seq<CandidateModel>,
    exact: Seq<OutPointModel>,
    fee: bool,
) -> Option<OutPointModel>
    decreases cands.len(),
{
    if cands.len() == 0 {
        None
    } else if exact.contains(cands[0].outpoint) && cands[0].asset_amount == 0 && !fee {
        Some(cands[0].outpoint)
    } else {
        first_blocked_fee_input(cands.drop_first(), exact, fee)
    }
}

/// The first candidate with outpoint `o`.
pub open spec fn find_candidate(cands: Seq<CandidateModel>, o: OutPointModel) -> Option<CandidateModel>
    decreases cands.len(),
{
    if cands.len() == 0 {
        None
    } else if cands[0].outpoint == o {
        Some(cands[0])
    } else {
        find_candidate(cands.drop_first(), o)
    }
}

/// Asset and bitcoin totals of the selected inputs, when each is a candidate.
pub open spec fn selected_totals(sel: Seq<OutPointModel>, cands: Seq<CandidateModel>) -> Option<
    (int, int),
>
    decreases sel.len(),
{
    if sel.len() == 0 {
        Some((0, 0))
    } else {
        match selected_totals(sel.drop_last(), cands) {
            None => None,
            Some((a, v)) => match find_candidate(cands, sel.last()) {
                None => None,
                Some(c) => Some((a + c.asset_amount, v + c.value_sats)),
            },
        }
    }
}

/// The first selected input that is not a candidate.
pub open spec fn first_unselectable(sel: Seq<OutPointModel>, cands: Seq<CandidateModel>) -> Option<
    OutPointModel,
>
    decreases sel.len(),
{
    if sel.len() == 0 {
        None
    } else if find_candidate(cands, sel[0]) is None {
        Some(sel[0])
    } else {
        first_unselectable(sel.drop_first(), cands)
    }
}

/// Checks the totals of a selection against both targets.
pub open spec fn check_totals(
    sel: Seq<OutPointModel>,
    cands: Seq<CandidateModel>,
    target_asset: u64,
    target_value: u64,
) -> Result<Seq<OutPointModel>, ErrorModel> {
    match selected_totals(sel, cands) {
        None => Err(
            ErrorModel::CorruptedState(
                "selected asset candidate disappeared: "@ + outpoint_text(
                    first_unselectable(sel, cands)->Some_0,
                ),
            ),
        ),
        Some((assets, sats)) => if assets < target_asset {
            Err(ErrorModel::InsufficientAsset { needed: target_asset as u128, have: assets as u128 })
        } else if sats < target_value {
            Err(ErrorModel::InsufficientValue { needed: target_value as u128, have: sats as u128 })
        } else {
            Ok(sel)
        },
    }
}

/// The outcome of selecting from `cands`: exact selection keeps the caller's
/// order once every input is an allowed candidate; automatic selection takes
/// candidates in selection order. Either way both targets must be covered.
pub open spec fn select_spec(
    cands: Seq<AssetCandidate>,
    target_asset: u64,
    target_value: u64,
    c: ConstraintsModel,
) -> Result<Seq<OutPointModel>, ErrorModel> {
    let model = candidates_model(cands);
    match validate_spec(candidate_outpoints(model), target_asset, c) {
        Err(e) => Err(e),
        Ok(_) => match c.exact_outpoints {
            Some(exact) => match first_not_candidate(exact, model) {
                Some(o) => Err(
                    ErrorModel::UtxoPolicyBlocked {
                        outpoint: o,
                        reason: "input is not an available asset or fee-support candidate"@,
                    },
                ),
                None => match first_blocked_fee_input(model, exact, c.allow_fee_support) {
                    Some(o) => Err(
                        ErrorModel::UtxoPolicyBlocked {
                            outpoint: o,
                            reason: "fee-support inputs are disabled"@,
                        },
                    ),
                    None => check_totals(exact, model, target_asset, target_value),
                },
            },
            None => {
                let sorted = candidates_model(sort_by_insertion(cands));
                check_totals(
                    auto_selection(sorted, target_asset, target_value, c),
                    sorted,
                    target_asset,
                    target_value,
                )
            },
        },
    }
}

/// Deterministic selection without stores, clocks, reservations or side effects.
///
/// Automatic selection prefers larger bitcoin carriers, then lexical outpoints.
/// Exact selection preserves caller order and overrides automatic merge preference.
pub struct AssetSelectionPolicy;

/// Whether a list of output references repeats one.
pub fn has_duplicate_outpoints(v: &[OutPoint]) -> (r: bool)
    ensures
        r == !outpoints_model(v@).no_duplicates(),
{
    let ghost m = outpoints_model(v@);
    let mut i: usize = 0;
    while i < v.len()
        invariant
            i <= v@.len(),
            m == outpoints_model(v@),
            forall|a: int, b: int| 0 <= a < b < v@.len() && a < i ==> m[a] != m[b],
        decreases v@.len() - i,
    {
        let mut j: usize = i + 1;
        while j < v.len()
            invariant
                i < j <= v@.len(),
                m == outpoints_model(v@),
                forall|a: int, b: int| 0 <= a < b < v@.len() && a < i ==> m[a] != m[b],
                forall|b: int| i < b < j ==> m[i as int] != m[b],
            decreases v@.len() - j,
        {
            if v[i].same(&v[j]) {
                assert(m[i as int] == m[j as int]);
                return true;
            }
            j = j + 1;
        }
        i = i + 1;
    }
    false
}

/// Whether `o` is in the list.
pub fn contains_outpoint(v: &[OutPoint], o: &OutPoint) -> (r: bool)
    ensures
        r == outpoints_model(v@).contains(o@),
{
    let mut i: usize = 0;
    while i < v.len()
        invariant
            i <= v@.len(),
            forall|k: int| 0 <= k < i ==> v@[k]@ != o@,
        decreases v@.len() - i,
    {
        if v[i].same(o) {
            assert(outpoints_model(v@)[i as int] == o@);
            return true;
        }
        i = i + 1;
    }
    proof {
        if outpoints_model(v@).contains(o@) {
            let k = choose|k: int| 0 <= k < outpoints_model(v@).len() && outpoints_model(v@)[k] == o@;
            assert(v@[k]@ == o@);
        }
    }
    false
}

proof fn lemma_find_candidate(cands: Seq<CandidateModel>, o: OutPointModel, i: int)
    requires
        0 <= i <= cands.len(),
        forall|k: int| 0 <= k < i ==> cands[k].outpoint != o,
    ensures
        find_candidate(cands, o) == find_candidate(cands.skip(i), o),
    decreases i,
{
    if i > 0 {
        lemma_find_candidate(cands, o, i - 1);
        assert(cands.skip(i - 1).drop_first() =~= cands.skip(i));
    } else {
        assert(cands.skip(0) =~= cands);
    }
}

/// The first candidate with the given outpoint.
fn find_candidate_exec(cands: &Vec<AssetCandidate>, o: &OutPoint) -> (r: Option<usize>)
    ensures
        match find_candidate(candidates_model(cands@), o@) {
            Some(c) => r is Some && r->Some_0 < cands@.len() && cands@[r->Some_0 as int]@ == c,
            None => r is None,
        },
{
    let ghost m = candidates_model(cands@);
    let mut i: usize = 0;
    while i < cands.len()
        invariant
            i <= cands@.len(),
            m == candidates_model(cands@),
            forall|k: int| 0 <= k < i ==> m[k].outpoint != o@,
        decreases cands@.len() - i,
    {
        if cands[i].outpoint.same(o) {
            proof {
                lemma_find_candidate(m, o@, i as int);
            }
            return Some(i);
        }
        i = i + 1;
    }
    proof {
        lemma_find_candidate(m, o@, i as int);
    }
    None
}

proof fn lemma_totals_push(sel: Seq<OutPointModel>, o: OutPointModel, cands: Seq<CandidateModel>)
    ensures
        selected_totals(sel.push(o), cands) == (match selected_totals(sel, cands) {
            None => None,
            Some((a, v)) => match find_candidate(cands, o) {
                None => None,
                Some(c) => Some((a + c.asset_amount, v + c.value_sats)),
            },
        }),
{
    assert(sel.push(o).drop_last() =~= sel);
}

proof fn lemma_first_unselectable(sel: Seq<OutPointModel>, cands: Seq<CandidateModel>, i: int)
    requires
        0 <= i < sel.len(),
        forall|k: int| 0 <= k < i ==> find_candidate(cands, #[trigger] sel[k]) is Some,
        find_candidate(cands, sel[i]) is None,
    ensures
        first_unselectable(sel, cands) == Some(sel[i]),
        selected_totals(sel, cands) is None,
    decreases i,
{
    if i > 0 {
        lemma_first_unselectable(sel.drop_first(), cands, i - 1);
    }
    lemma_totals_none(sel, cands, i);
}

proof fn lemma_totals_none(sel: Seq<OutPointModel>, cands: Seq<CandidateModel>, i: int)
    requires
        0 <= i < sel.len(),
        find_candidate(cands, sel[i]) is None,
    ensures
        selected_totals(sel, cands) is None,
    decreases sel.len(),
{
    if i == sel.len() - 1 {
    } else {
        lemma_totals_none(sel.drop_last(), cands, i);
    }
}

/// Checks totals of the selected inputs, looking each up among `cands`.
fn check_totals_exec(
    sel: Vec<OutPoint>,
    cands: &Vec<AssetCandidate>,
    target_asset: u64,
    target_value: u64,
) -> (r: DomainResult<Vec<OutPoint>>)
    ensures
        match check_totals(outpoints_model(sel@), candidates_model(cands@), target_asset, target_value) {
            Ok(s) => r is Ok && outpoints_model(r->Ok_0@) == s,
            Err(e) => r is Err && r->Err_0@ == e,
        },
{
    let ghost m = candidates_model(cands@);
    let ghost sm = outpoints_model(sel@);
    let mut assets: u128 = 0;
    let mut sats: u128 = 0;
    let mut i: usize = 0;
    assert(sm.take(0) =~= Seq::<OutPointModel>::empty());
    while i < sel.len()
        invariant
            i <= sel@.len(),
            m == candidates_model(cands@),
            sm == outpoints_model(sel@),
            selected_totals(sm.take(i as int), m) == Some((assets as int, sats as int)),
            forall|k: int| 0 <= k < i ==> find_candidate(m, #[trigger] sm[k]) is Some,
            assets <= i * 0xffff_ffff_ffff_ffff,
            sats <= i * 0xffff_ffff_ffff_ffff,
        decreases sel@.len() - i,
    {
        match find_candidate_exec(cands, &sel[i]) {
            None => {
                proof {
                    lemma_first_unselectable(sm, m, i as int);
                }
                let mut reason = String::from_str("selected asset candidate disappeared: ");
                let text = sel[i].to_string();
                reason.append(text.as_str());
                return Err(DomainError::CorruptedState(reason));
            },
            Some(j) => {
                proof {
                    assert(sm.take(i + 1) =~= sm.take(i as int).push(sm[i as int]));
                    lemma_totals_push(sm.take(i as int), sm[i as int], m);
                    assert((i + 1) * 0xffff_ffff_ffff_ffffu128 == i * 0xffff_ffff_ffff_ffffu128
                        + 0xffff_ffff_ffff_ffffu128) by (nonlinear_arith);
                    assert(i * 0xffff_ffff_ffff_ffff <= 0xffff_ffff_ffff_ffff * 0xffff_ffff_ffff_ffff)
                        by (nonlinear_arith)
                        requires
                            i <= 0xffff_ffff_ffff_ffffu64,
                    ;
                }
                assets = assets + cands[j].asset_amount as u128;
                sats = sats + cands[j].value_sats as u128;
                i = i + 1;
            },
        }
    }
    assert(sm.take(i as int) =~= sm);
    if assets < target_asset as u128 {
        return Err(DomainError::InsufficientAsset { needed: target_asset as u128, have: assets });
    }
    if sats < target_value as u128 {
        return Err(DomainError::InsufficientValue { needed: target_value as u128, have: sats });
    }
    Ok(sel)
}

impl AssetSelectionPolicy {
    /// Validate caller inputs before querying eligibility or changing expired reservations.
    /// An empty eligible set is valid input and selection reports insufficient assets.
    pub fn validate_inputs(
        outpoints: &[OutPoint],
        target_asset: u64,
        constraints: &AssetSelectionConstraints,
    ) -> (r: DomainResult<()>)
        ensures
            match validate_spec(outpoints_model(outpoints@), target_asset, constraints@) {
                Ok(_) => r is Ok,
                Err(e) => r is Err && r->Err_0@ == e,
            },
    {
        if target_asset == 0 {
            return Err(DomainError::InsufficientFunds);
        }
        if has_duplicate_outpoints(outpoints) {
            return Err(
                DomainError::InvalidRequest { reason: String::from_str("duplicate asset candidate") },
            );
        }
        match &constraints.exact_outpoints {
            Some(exact) => {
                if exact.len() == 0 {
                    return Err(
                        DomainError::InvalidRequest {
                            reason: String::from_str(
                                "exact asset selection requires at least one outpoint",
                            ),
                        },
                    );
                }
                if has_duplicate_outpoints(exact.as_slice()) {
                    return Err(
                        DomainError::InvalidRequest {
                            reason: String::from_str("duplicate exact input"),
                        },
                    );
                }
            },
            None => {},
        }
        Ok(())
    }

    /// Select eligible inputs, enforcing exact-input and automatic-selection constraints.
    pub fn select(
        candidates: &[AssetCandidate],
        target_asset: u64,
        target_value: u64,
        constraints: &AssetSelectionConstraints,
    ) -> (r: DomainResult<Vec<OutPoint>>)
        ensures
            match select_spec(candidates@, target_asset, target_value, constraints@) {
                Ok(s) => r is Ok && outpoints_model(r->Ok_0@) == s,
                Err(e) => r is Err && r->Err_0@ == e,
            },
    {
        let ghost model = candidates_model(candidates@);
        let mut cands: Vec<AssetCandidate> = Vec::new();
        let mut outpoints: Vec<OutPoint> = Vec::new();
        let mut i: usize = 0;
        while i < candidates.len()
            invariant
                i <= candidates@.len(),
                cands@ == candidates@.take(i as int),
                outpoints@.len() == i,
                forall|k: int| 0 <= k < i ==> #[trigger] outpoints@[k]@ == candidates@[k].outpoint@,
            decreases candidates@.len() - i,
        {
            cands.push(candidates[i].dup());
            outpoints.push(candidates[i].outpoint.dup());
            i = i + 1;
            assert(cands@ =~= candidates@.take(i as int));
        }
        assert(cands@ =~= candidates@);
        assert(outpoints_model(outpoints@) =~= candidate_outpoints(model));
        match Self::validate_inputs(outpoints.as_slice(), target_asset, constraints) {
            Err(e) => return Err(e),
            Ok(()) => {},
        }
        match &constraints.exact_outpoints {
            Some(exact) => {
                let ghost em = outpoints_model(exact@);
                let mut k: usize = 0;
                assert(em.skip(0) =~= em);
                while k < exact.len()
                    invariant
                        k <= exact@.len(),
                        em == outpoints_model(exact@),
                        model == candidates_model(cands@),
                        outpoints_model(outpoints@) == candidate_outpoints(model),
                        first_not_candidate(em, model) == first_not_candidate(em.skip(k as int), model),
                        model == candidates_model(candidates@),
                        constraints@.exact_outpoints == Some(em),
                        validate_spec(candidate_outpoints(model), target_asset, constraints@) is Ok,
                    decreases exact@.len() - k,
                {
                    assert(em.skip(k as int).drop_first() =~= em.skip(k + 1));
                    assert(em.skip(k as int)[0] == em[k as int]);
                    if !contains_outpoint(outpoints.as_slice(), &exact[k]) {
                        assert(first_not_candidate(em.skip(k as int), model) == Some(em[k as int]));
                        return Err(
                            DomainError::UtxoPolicyBlocked {
                                outpoint: exact[k].dup(),
                                reason: String::from_str(
                                    "input is not an available asset or fee-support candidate",
                                ),
                            },
                        );
                    }
                    k = k + 1;
                }
                assert(em.skip(k as int) =~= Seq::<OutPointModel>::empty());
                let mut j: usize = 0;
                assert(model.skip(0) =~= model);
                while j < cands.len()
                    invariant
                        j <= cands@.len(),
                        em == outpoints_model(exact@),
                        model == candidates_model(cands@),
                        first_blocked_fee_input(model, em, constraints.allow_fee_support)
                            == first_blocked_fee_input(model.skip(j as int), em, constraints.allow_fee_support),
                        model == candidates_model(candidates@),
                        constraints@.exact_outpoints == Some(em),
                        validate_spec(candidate_outpoints(model), target_asset, constraints@) is Ok,
                        first_not_candidate(em, model) is None,
                    decreases cands@.len() - j,
                {
                    assert(model.skip(j as int).drop_first() =~= model.skip(j + 1));
                    assert(model.skip(j as int)[0] == model[j as int]);
                    if contains_outpoint(exact.as_slice(), &cands[j].outpoint) && cands[j].asset_amount
                        == 0 && !constraints.allow_fee_support {
                        return Err(
                            DomainError::UtxoPolicyBlocked {
                                outpoint: cands[j].outpoint.dup(),
                                reason: String::from_str("fee-support inputs are disabled"),
                            },
                        );
                    }
                    j = j + 1;
                }
                assert(model.skip(j as int) =~= Seq::<CandidateModel>::empty());
                check_totals_exec(clone_outpoints(exact), &cands, target_asset, target_value)
            },
            None => {
                let sorted = insertion_sort(cands);
                let selected = auto_select_exec(&sorted, target_asset, target_value, constraints);
                check_totals_exec(selected, &sorted, target_asset, target_value)
            },
        }
    }
}

proof fn lemma_asset_pass_step(
    s: Seq<CandidateModel>,
    i: int,
    target_asset: u64,
    target_value: u64,
    merge: bool,
    acc: Seq<OutPointModel>,
    assets: int,
    sats: int,
)
    requires
        0 <= i < s.len(),
    ensures
        asset_pass(s.skip(i), target_asset, target_value, merge, acc, assets, sats) == ({
            let c = s[i];
            if c.asset_amount == 0 || (!merge && c.asset_amount < target_asset) {
                asset_pass(s.skip(i + 1), target_asset, target_value, merge, acc, assets, sats)
            } else {
                let acc2 = acc.push(c.outpoint);
                let a2 = assets + c.asset_amount;
                let v2 = sats + c.value_sats;
                if !merge || (a2 >= target_asset && v2 >= target_value) {
                    (acc2, a2, v2)
                } else {
                    asset_pass(s.skip(i + 1), target_asset, target_value, merge, acc2, a2, v2)
                }
            }
        }),
{
    assert(s.skip(i).drop_first() =~= s.skip(i + 1));
    assert(s.skip(i)[0] == s[i]);
}

proof fn lemma_fee_pass_step(
    s: Seq<CandidateModel>,
    i: int,
    target_value: u64,
    acc: Seq<OutPointModel>,
    sats: int,
)
    requires
        0 <= i < s.len(),
    ensures
        fee_pass(s.skip(i), target_value, acc, sats) == (if s[i].asset_amount != 0 {
            fee_pass(s.skip(i + 1), target_value, acc, sats)
        } else if sats >= target_value {
            acc
        } else {
            fee_pass(s.skip(i + 1), target_value, acc.push(s[i].outpoint), sats + s[i].value_sats)
        }),
{
    assert(s.skip(i).drop_first() =~= s.skip(i + 1));
    assert(s.skip(i)[0] == s[i]);
}

/// Automatic selection over candidates already in selection order.
fn auto_select_exec(
    sorted: &Vec<AssetCandidate>,
    target_asset: u64,
    target_value: u64,
    constraints: &AssetSelectionConstraints,
) -> (r: Vec<OutPoint>)
    ensures
        outpoints_model(r@) == auto_selection(
            candidates_model(sorted@),
            target_asset,
            target_value,
            constraints@,
        ),
{
    let ghost m = candidates_model(sorted@);
    let merge = constraints.allow_asset_merge;
    let mut selected: Vec<OutPoint> = Vec::new();
    let mut assets: u128 = 0;
    let mut sats: u128 = 0;
    let mut i: usize = 0;
    let ghost full = asset_pass(m, target_asset, target_value, merge, Seq::empty(), 0, 0);
    assert(m.skip(0) =~= m);
    assert(outpoints_model(selected@) =~= Seq::<OutPointModel>::empty());
    let mut done = false;
    while i < sorted.len() && !done
        invariant
            i <= sorted@.len(),
            m == candidates_model(sorted@),
            merge == constraints.allow_asset_merge,
            assets <= i * 0xffff_ffff_ffff_ffff,
            sats <= i * 0xffff_ffff_ffff_ffff,
            done ==> full == (outpoints_model(selected@), assets as int, sats as int),
            !done ==> full == asset_pass(
                m.skip(i as int),
                target_asset,
                target_value,
                merge,
                outpoints_model(selected@),
                assets as int,
                sats as int,
            ),
        decreases sorted@.len() - i,
    {
        proof {
            lemma_asset_pass_step(m, i as int, target_asset, target_value, merge,
                outpoints_model(selected@), assets as int, sats as int);
            assert((i + 1) * 0xffff_ffff_ffff_ffffu128 == i * 0xffff_ffff_ffff_ffffu128
                + 0xffff_ffff_ffff_ffffu128) by (nonlinear_arith);
            assert(i * 0xffff_ffff_ffff_ffff <= 0xffff_ffff_ffff_ffff * 0xffff_ffff_ffff_ffff)
                by (nonlinear_arith)
                requires
                    i <= 0xffff_ffff_ffff_ffffu64,
            ;
        }
        let c = &sorted[i];
        if !(c.asset_amount == 0 || (!merge && c.asset_amount < target_asset)) {
            let ghost before = selected@;
            selected.push(c.outpoint.dup());
            assert(outpoints_model(selected@) =~= outpoints_model(before).push(c.outpoint@));
            assets = assets + c.asset_amount as u128;
            sats = sats + c.value_sats as u128;
            if !merge || (assets >= target_asset as u128 && sats >= target_value as u128) {
                done = true;
            }
        }
        i = i + 1;
    }
    proof {
        if !done {
            assert(m.skip(i as int) =~= Seq::<CandidateModel>::empty());
        }
    }
    if assets >= target_asset as u128 && constraints.allow_fee_support {
        let ghost fee_full = fee_pass(m, target_value, outpoints_model(selected@), sats as int);
        let mut k: usize = 0;
        let mut stop = false;
        let mut fee_sats: u128 = sats;
        let ghost bound = i;
        while k < sorted.len() && !stop
            invariant
                k <= sorted@.len(),
                bound <= sorted@.len(),
                m == candidates_model(sorted@),
                fee_sats <= (bound + k) * 0xffff_ffff_ffff_ffff,
                stop ==> fee_full == outpoints_model(selected@),
                !stop ==> fee_full == fee_pass(
                    m.skip(k as int),
                    target_value,
                    outpoints_model(selected@),
                    fee_sats as int,
                ),
            decreases sorted@.len() - k,
        {
            proof {
                lemma_fee_pass_step(m, k as int, target_value, outpoints_model(selected@), fee_sats as int);
                assert((bound + k + 1) * 0xffff_ffff_ffff_ffffu128 == (bound + k)
                    * 0xffff_ffff_ffff_ffffu128 + 0xffff_ffff_ffff_ffffu128) by (nonlinear_arith);
                assert((bound + k) * 0xffff_ffff_ffff_ffff <= 0x1_ffff_ffff_ffff_fffe * 0xffff_ffff_ffff_ffff)
                    by (nonlinear_arith)
                    requires
                        bound + k <= 0x1_ffff_ffff_ffff_fffe,
                ;
            }
            let c = &sorted[k];
            if c.asset_amount == 0 {
                if fee_sats >= target_value as u128 {
                    stop = true;
                } else {
                    let ghost before = selected@;
                    selected.push(c.outpoint.dup());
                    assert(outpoints_model(selected@) =~= outpoints_model(before).push(c.outpoint@));
                    fee_sats = fee_sats + c.value_sats as u128;
                }
            }
            k = k + 1;
        }
        proof {
            if !stop {
                assert(m.skip(k as int) =~= Seq::<CandidateModel>::empty());
            }
        }
    }
    selected
}

} // verus!
