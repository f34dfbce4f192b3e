//! Asset input selection through the service: eligibility from recorded
//! accounts, scopes and outputs, then the pure selection policy, and planning
//! that binds the chosen inputs to a caller-owned operation.
use vstd::prelude::*;
use vstd::string::StringExecFns;

use crate::account::{scope_ids_model, Account, AccountModel};
use crate::asset_selection::{select_spec, AssetCandidate, AssetSelectionPolicy};
use crate::capability::Capability;
use crate::errors::{
    lemma_rejections_push, rejections_model, AssetCandidateRejection, DomainError, DomainResult,
    ErrorModel, RejectionModel,
};
use crate::ids::{AccountId, OperationId, WalletScopeId};
use crate::lock::LockPurpose;
use crate::operation::{effects_model, outpoints_model, EffectModel, OperationSelection, SelectionEffect, SelectionModel};
use crate::outpoint::{OutPoint, OutPointModel};
use crate::selector::contains_scope;
use crate::service::{expire_all, planned_of, planned_res, PlannedModel, PlannedSelection, TxoscopeService};
use crate::sorting::{insertion_sort, sort_by_insertion};
use crate::store::{lookup, StateStore, StoreModel};
use crate::utxo_status::{status_of, StatusModel, UtxoStatus};
use crate::clock::{Clock, ReservationIdGenerator};
use crate::orchestrator::{commit_selection_spec, commit_spec, steps_ok};
use crate::operation::{IntentStatus, OperationPhase};
use crate::replay::{lemma_lock_all_keeps, locked_as};

pub use crate::asset_selection::AssetSelectionConstraints as SelectionConstraints;

verus! {

/// Asset facts supplied by the asset runtime. Values and availability come from the ledger.
#[derive(Clone, Debug, PartialEq, Eq)]
pub struct AssetInputCandidate {
    pub outpoint: OutPoint,
    /// Zero denotes an allocation-free fee-support input.
    pub asset_amount: u64,
}

impl AssetInputCandidate {
    /// A copy equal to this one.
    pub fn dup(&self) -> (r: Self)
        ensures
            r == *self,
    {
        AssetInputCandidate { outpoint: self.outpoint.dup(), asset_amount: self.asset_amount }
    }
}

/// Select a single asset and the bitcoin value needed to carry it.
#[derive(Clone, Debug, PartialEq, Eq)]
pub struct AssetSelectionRequest {
    pub target_account_id: AccountId,
    pub candidates: Vec<AssetInputCandidate>,
    pub asset_amount: u64,
    /// Includes the transaction builder's fee budget.
    pub required_value_sats: u64,
    pub constraints: SelectionConstraints,
}

/// Select asset inputs and bind them to a caller-owned operation.
///
/// Preview and planning share the selection request. The account, scopes, and
/// candidate observations must already be registered with the service.
#[derive(Clone, Debug, PartialEq, Eq)]
pub struct PlanAssetSelectionRequest {
    pub operation_id: OperationId,
    pub selection: AssetSelectionRequest,
}

/// The outpoints of the candidates, in order.
pub open spec fn input_outpoints(s: Seq<AssetInputCandidate>) -> Seq<OutPoint> {
    s.map_values(|c: AssetInputCandidate| c.outpoint)
}

/// The checks made on the request before anything is read or expired.
pub open spec fn preview_pre(req: AssetSelectionRequest) -> Result<(), ErrorModel> {
    if req.asset_amount == 0 || req.candidates@.len() == 0 {
        Err(ErrorModel::InsufficientFunds)
    } else {
        crate::asset_selection::validate_spec(
            outpoints_model(input_outpoints(req.candidates@)),
            req.asset_amount,
            req.constraints@,
        )
    }
}

/// The candidates' outpoints in the order their stale reservations are expired: by text.
pub open spec fn expiry_order(req: AssetSelectionRequest) -> Seq<OutPointModel> {
    outpoints_model(sort_by_insertion(input_outpoints(req.candidates@)))
}

/// The account's scopes that exist and belong to it (`.0`), those of them
/// granting `ReserveSupport` (`.1`), and those of these also granting
/// `FeeSupport` (`.2`), each by the scope's recorded id, in the account's order.
pub open spec fn scope_classes(m: StoreModel, account_id: Seq<char>, ids: Seq<Seq<char>>) -> (
    Seq<Seq<char>>,
    Seq<Seq<char>>,
    Seq<Seq<char>>,
)
    decreases ids.len(),
{
    if ids.len() == 0 {
        (Seq::empty(), Seq::empty(), Seq::empty())
    } else {
        let (reg, elig, fee) = scope_classes(m, account_id, ids.drop_last());
        match lookup(m.scopes, ids.last()) {
            Some(s) => if s.account_id != account_id {
                (reg, elig, fee)
            } else if !s.capabilities.contains(Capability::ReserveSupport) {
                (reg.push(s.id), elig, fee)
            } else if s.capabilities.contains(Capability::FeeSupport) {
                (reg.push(s.id), elig.push(s.id), fee.push(s.id))
            } else {
                (reg.push(s.id), elig.push(s.id), fee)
            },
            None => (reg, elig, fee),
        }
    }
}

/// What the service makes of one candidate given its recorded status: an
/// eligible asset candidate, or the reason it is rejected.
pub open spec fn status_verdict(
    req: AssetSelectionRequest,
    a: AccountModel,
    classes: (Seq<Seq<char>>, Seq<Seq<char>>, Seq<Seq<char>>),
    c: AssetInputCandidate,
    st: StatusModel,
) -> Result<AssetCandidate, ErrorModel> {
    let o = c.outpoint@;
    if st.account_id != req.target_account_id@ {
        Err(
            ErrorModel::UtxoPolicyBlocked {
                outpoint: o,
                reason: "input belongs to account "@ + st.account_id + ", not requested account "@
                    + req.target_account_id@,
            },
        )
    } else if !classes.1.contains(st.scope_id) {
        if classes.0.contains(st.scope_id) {
            Err(ErrorModel::MissingCapabilities { scope_id: st.scope_id })
        } else {
            Err(ErrorModel::ScopeNotFound(st.scope_id))
        }
    } else if c.asset_amount == 0 && !req.constraints.allow_fee_support {
        Err(ErrorModel::UtxoPolicyBlocked { outpoint: o, reason: "fee-support inputs are disabled"@ })
    } else if c.asset_amount == 0 && !a.capabilities.contains(Capability::FeeSupport) {
        Err(ErrorModel::MissingAccountCapabilities { account_id: a.id })
    } else if c.asset_amount == 0 && !classes.2.contains(st.scope_id) {
        Err(ErrorModel::MissingCapabilities { scope_id: st.scope_id })
    } else {
        match st.unavailable_reason {
            Some(e) => Err(e),
            None => Ok(AssetCandidate { outpoint: c.outpoint, asset_amount: c.asset_amount, value_sats: st.value_sats }),
        }
    }
}

/// What the service makes of one candidate: an unknown output is rejected,
/// a known one is judged by its status.
pub open spec fn input_verdict(
    m: StoreModel,
    req: AssetSelectionRequest,
    a: AccountModel,
    classes: (Seq<Seq<char>>, Seq<Seq<char>>, Seq<Seq<char>>),
    c: AssetInputCandidate,
) -> Result<AssetCandidate, ErrorModel> {
    match lookup(m.utxos, c.outpoint@) {
        None => Err(ErrorModel::UtxoNotFound(c.outpoint@)),
        Some(u) => status_verdict(req, a, classes, c, status_of(u, lookup(m.locks, c.outpoint@))),
    }
}

/// The eligible candidates and the rejections, each in candidate order.
pub open spec fn sort_inputs(
    m: StoreModel,
    req: AssetSelectionRequest,
    a: AccountModel,
    classes: (Seq<Seq<char>>, Seq<Seq<char>>, Seq<Seq<char>>),
    cs: Seq<AssetInputCandidate>,
) -> (Seq<AssetCandidate>, Seq<RejectionModel>)
    decreases cs.len(),
{
    if cs.len() == 0 {
        (Seq::empty(), Seq::empty())
    } else {
        let (e, r) = sort_inputs(m, req, a, classes, cs.drop_last());
        match input_verdict(m, req, a, classes, cs.last()) {
            Ok(c) => (e.push(c), r),
            Err(x) => (e, r.push(RejectionModel { outpoint: cs.last().outpoint@, reason: x })),
        }
    }
}

/// The reason of the first rejection of `o`.
pub open spec fn find_rejection(rs: Seq<RejectionModel>, o: OutPointModel) -> Option<ErrorModel>
    decreases rs.len(),
{
    if rs.len() == 0 {
        None
    } else if rs[0].outpoint == o {
        Some(rs[0].reason)
    } else {
        find_rejection(rs.drop_first(), o)
    }
}

/// The rejection reason of the first exact input that was rejected.
pub open spec fn first_rejected(exact: Seq<OutPointModel>, rs: Seq<RejectionModel>) -> Option<ErrorModel>
    decreases exact.len(),
{
    if exact.len() == 0 {
        None
    } else {
        match find_rejection(rs, exact[0]) {
            Some(e) => Some(e),
            None => first_rejected(exact.drop_first(), rs),
        }
    }
}

/// The selection made once stale reservations are expired: the account must
/// exist and grant `ReserveSupport`, and have an eligible scope unless exact
/// inputs are given; a rejected exact input fails with its reason, no eligible
/// candidate at all fails with every rejection; otherwise the policy selects
/// among the eligible candidates.
pub open spec fn preview_after(m: StoreModel, req: AssetSelectionRequest) -> Result<Seq<OutPointModel>, ErrorModel> {
    match lookup(m.accounts, req.target_account_id@) {
        None => Err(ErrorModel::AccountNotFound(req.target_account_id@)),
        Some(a) => if !a.capabilities.contains(Capability::ReserveSupport) {
            Err(ErrorModel::MissingAccountCapabilities { account_id: a.id })
        } else {
            let classes = scope_classes(m, a.id, a.scopes);
            if classes.1.len() == 0 && !(req.constraints@.exact_outpoints matches Some(x) && x.len() > 0) {
                Err(ErrorModel::NoEligibleScope { account_id: a.id })
            } else {
                let (eligible, rejections) = sort_inputs(m, req, a, classes, req.candidates@);
                match req.constraints@.exact_outpoints {
                    Some(exact) => match first_rejected(exact, rejections) {
                        Some(e) => Err(e),
                        None => select_spec(eligible, req.asset_amount, req.required_value_sats, req.constraints@),
                    },
                    None => if eligible.len() == 0 {
                        Err(ErrorModel::NoEligibleAssetCandidates { rejections })
                    } else {
                        select_spec(eligible, req.asset_amount, req.required_value_sats, req.constraints@)
                    },
                }
            }
        },
    }
}

/// Preview from state `m`, with the clock readings `nows` taken while
/// expiring: the result and the state after.
pub open spec fn preview_steps(m: StoreModel, req: AssetSelectionRequest, nows: Seq<u64>) -> (
    Result<Seq<OutPointModel>, ErrorModel>,
    StoreModel,
) {
    match preview_pre(req) {
        Err(e) => (Err(e), m),
        Ok(_) => match expire_all(m, expiry_order(req), nows) {
            (Err(e), m1) => (Err(e), m1),
            (Ok(_), m1) => (preview_after(m1, req), m1),
        },
    }
}

/// Whether `o` is the outpoint of an allocation-free candidate.
pub open spec fn is_fee_input(cands: Seq<AssetInputCandidate>, o: OutPointModel) -> bool {
    exists|i: int| 0 <= i < cands.len() && cands[i].asset_amount == 0 && #[trigger] cands[i].outpoint@ == o
}

/// The locks a plan takes: fee-support locks on allocation-free candidates,
/// planned-selection locks on the rest.
pub open spec fn plan_effects(sel: Seq<OutPointModel>, cands: Seq<AssetInputCandidate>) -> Seq<EffectModel> {
    sel.map_values(
        |o: OutPointModel|
            EffectModel {
                outpoint: o,
                purpose: if is_fee_input(cands, o) {
                    LockPurpose::FeeSupport
                } else {
                    LockPurpose::PlannedSelection
                },
            },
    )
}

/// Recording a previewed selection for operation `id`: change goes to the
/// scope of the first selected input, no expiry; the selection is persisted and committed.
pub open spec fn plan_commit(
    m: StoreModel,
    owner: Seq<char>,
    id: Seq<char>,
    req: AssetSelectionRequest,
    sel: Seq<OutPointModel>,
) -> (Result<PlannedModel, ErrorModel>, StoreModel) {
    if sel.len() == 0 {
        (Err(ErrorModel::InsufficientFunds), m)
    } else {
        match lookup(m.utxos, sel[0]) {
            None => (Err(ErrorModel::UtxoNotFound(sel[0])), m),
            Some(u) => {
                let s = SelectionModel {
                    operation_id: id,
                    selected_outpoints: sel,
                    change_scope_id: u.scope_id,
                    effects: plan_effects(sel, req.candidates@),
                    expires_at: None,
                };
                match m.persist_intent(s) {
                    Err(e) => (Err(e), m),
                    Ok((_, m2)) => match commit_spec(m2, id, owner) {
                        (Err(e), m3) => (Err(e), m3),
                        (Ok(_), m3) => (Ok(planned_of(s)), m3),
                    },
                }
            },
        }
    }
}

/// Planning from state `m` with the clock readings `nows`: preview, then record.
pub open spec fn plan_steps(m: StoreModel, owner: Seq<char>, req: PlanAssetSelectionRequest, nows: Seq<u64>) -> (
    Result<PlannedModel, ErrorModel>,
    StoreModel,
) {
    match preview_steps(m, req.selection, nows) {
        (Err(e), m1) => (Err(e), m1),
        (Ok(sel), m1) => plan_commit(m1, owner, req.operation_id@, req.selection, sel),
    }
}

/// Whether `o` is the outpoint of an allocation-free candidate.
fn fee_input(cands: &Vec<AssetInputCandidate>, o: &OutPoint) -> (r: bool)
    ensures
        r == is_fee_input(cands@, o@),
{
    let mut i: usize = 0;
    while i < cands.len()
        invariant
            i <= cands@.len(),
            forall|k: int| 0 <= k < i ==> !(cands@[k].asset_amount == 0 && #[trigger] cands@[k].outpoint@ == o@),
        decreases cands@.len() - i,
    {
        if cands[i].asset_amount == 0 && cands[i].outpoint.same(o) {
            return true;
        }
        i = i + 1;
    }
    false
}

/// Lock effects for the selected outputs, by whether each is allocation-free.
fn plan_lock_effects(selected: &Vec<OutPoint>, cands: &Vec<AssetInputCandidate>) -> (r: Vec<SelectionEffect>)
    ensures
        effects_model(r@) == plan_effects(outpoints_model(selected@), cands@),
{
    let mut effects: Vec<SelectionEffect> = Vec::new();
    let mut i: usize = 0;
    while i < selected.len()
        invariant
            i <= selected@.len(),
            effects_model(effects@) == plan_effects(outpoints_model(selected@), cands@).take(i as int),
        decreases selected@.len() - i,
    {
        let purpose = if fee_input(cands, &selected[i]) {
            LockPurpose::FeeSupport
        } else {
            LockPurpose::PlannedSelection
        };
        let effect = SelectionEffect::LockUtxo { outpoint: selected[i].dup(), purpose };
        assert(effect@ == plan_effects(outpoints_model(selected@), cands@)[i as int]);
        let ghost prev = effects@;
        effects.push(effect);
        assert(effects@ =~= prev.push(effect));
        assert(effects_model(effects@) =~= effects_model(prev).push(effect@));
        i = i + 1;
        assert(effects_model(effects@) =~= plan_effects(outpoints_model(selected@), cands@).take(i as int));
    }
    assert(plan_effects(outpoints_model(selected@), cands@).take(i as int) =~= plan_effects(
        outpoints_model(selected@),
        cands@,
    ));
    effects
}

/// Planning selects exactly the inputs preview selects from the same state
/// with the same clock readings.
pub proof fn lemma_plan_selects_preview(
    m: StoreModel,
    owner: Seq<char>,
    req: PlanAssetSelectionRequest,
    nows: Seq<u64>,
)
    requires
        plan_steps(m, owner, req, nows).0 is Ok,
    ensures
        preview_steps(m, req.selection, nows).0 == Ok::<Seq<OutPointModel>, ErrorModel>(
            plan_steps(m, owner, req, nows).0->Ok_0.selected_outpoints,
        ),
{
}

proof fn lemma_expire_all_keeps_intents(m: StoreModel, outs: Seq<OutPointModel>, nows: Seq<u64>)
    ensures
        expire_all(m, outs, nows).1.intents == m.intents,
    decreases outs.len(),
{
    if outs.len() > 0 {
        lemma_expire_all_keeps_intents(m, outs.drop_last(), nows.drop_last());
    }
}

/// Planning a new operation records what it previewed: the plan names the
/// operation, the previewed inputs in order, the first input's scope for change
/// and no expiry; every input is then held by the operation as selected and
/// locked for fee support when an allocation-free candidate names it, for the
/// planned selection otherwise, with no expiry; the intent is committed and the
/// operation selected.
pub proof fn lemma_plan_locks_by_allocation(
    m: StoreModel,
    owner: Seq<char>,
    req: PlanAssetSelectionRequest,
    nows: Seq<u64>,
)
    requires
        plan_steps(m, owner, req, nows).0 is Ok,
        !m.intents.contains_key(req.operation_id@),
    ensures
        ({
            let (r, m3) = plan_steps(m, owner, req, nows);
            let p = r->Ok_0;
            let (pr, m1) = preview_steps(m, req.selection, nows);
            let sel = pr->Ok_0;
            let id = req.operation_id@;
            &&& pr is Ok
            &&& sel.len() > 0
            &&& p.operation_id == id
            &&& p.selected_outpoints == sel
            &&& m1.utxos.contains_key(sel[0]) && p.change_scope_id == m1.utxos[sel[0]].scope_id
            &&& p.expires_at is None
            &&& forall|k: int| 0 <= k < sel.len() ==> locked_as(
                m3.utxos,
                m3.locks,
                #[trigger] sel[k],
                id,
                OperationPhase::Selected,
                if is_fee_input(req.selection.candidates@, sel[k]) {
                    LockPurpose::FeeSupport
                } else {
                    LockPurpose::PlannedSelection
                },
                None,
            )
            &&& m3.intents.contains_key(id) && m3.intents[id].status == IntentStatus::Committed
            &&& m3.operations.contains_key(id) && m3.operations[id].phase == OperationPhase::Selected
        }),
{
    let id = req.operation_id@;
    let (pr, m1) = preview_steps(m, req.selection, nows);
    if preview_pre(req.selection) is Ok {
        lemma_expire_all_keeps_intents(m, expiry_order(req.selection), nows);
    }
    assert(m1.intents == m.intents);
    let sel = pr->Ok_0;
    let u = m1.utxos[sel[0]];
    let s = SelectionModel {
        operation_id: id,
        selected_outpoints: sel,
        change_scope_id: u.scope_id,
        effects: plan_effects(sel, req.selection.candidates@),
        expires_at: None,
    };
    let m2 = m1.persist_intent(s)->Ok_0.1;
    assert(lookup(m2.intents, id) matches Some(i) && i.status == IntentStatus::Pending);
    let mb = commit_selection_spec(m2, s, owner)->Ok_0;
    assert(mb == m2.apply_batch(s, OperationPhase::Selected, owner)->Ok_0);
    lemma_lock_all_keeps(
        m2.utxos,
        m2.locks,
        s,
        OperationPhase::Selected,
        owner,
        crate::store::bump(m2.tick),
        s.effects,
    );
    let m3 = plan_steps(m, owner, req, nows).1;
    assert(m3 == mb.mark_intent_committed(id)->Ok_0);
    assert forall|k: int| 0 <= k < sel.len() implies locked_as(
        m3.utxos,
        m3.locks,
        #[trigger] sel[k],
        id,
        OperationPhase::Selected,
        if is_fee_input(req.selection.candidates@, sel[k]) {
            LockPurpose::FeeSupport
        } else {
            LockPurpose::PlannedSelection
        },
        None,
    ) by {
        assert(s.effects[k].outpoint == sel[k]);
    }
}

/// Preview records no operation, intent or lock: its only effect on the state
/// is expiring the candidates' stale manual reservations, once the request is valid.
pub proof fn lemma_preview_only_expires(m: StoreModel, req: AssetSelectionRequest, nows: Seq<u64>)
    ensures
        preview_steps(m, req, nows).1 == (if preview_pre(req) is Ok {
            expire_all(m, expiry_order(req), nows).1
        } else {
            m
        }),
{
}

pub open spec fn outpoints_res(r: DomainResult<Vec<OutPoint>>) -> Result<Seq<OutPointModel>, ErrorModel> {
    match r {
        Ok(v) => Ok(outpoints_model(v@)),
        Err(e) => Err(e@),
    }
}

/// The first rejection of `o`, by index.
fn find_rejection_index(rejections: &Vec<AssetCandidateRejection>, o: &OutPoint) -> (r: Option<usize>)
    ensures
        match find_rejection(rejections_model(rejections@, rejections@.len()), o@) {
            None => r is None,
            Some(e) => r matches Some(k) && k < rejections@.len() && rejections@[k as int].reason@ == e,
        },
{
    let ghost rs = rejections_model(rejections@, rejections@.len());
    proof {
        lemma_rejections_index(rejections@);
    }
    let mut k: usize = 0;
    assert(rs.skip(0) =~= rs);
    while k < rejections.len()
        invariant
            k <= rejections@.len(),
            rs == rejections_model(rejections@, rejections@.len()),
            rs.len() == rejections@.len(),
            forall|i: int| 0 <= i < rs.len() ==> #[trigger] rs[i] == rejections@[i]@,
            find_rejection(rs.skip(k as int), o@) == find_rejection(rs, o@),
        decreases rejections@.len() - k,
    {
        assert(rs.skip(k as int).drop_first() =~= rs.skip(k + 1));
        if rejections[k].outpoint.same(o) {
            assert(rs.skip(k as int)[0] == rs[k as int]);
            return Some(k);
        }
        k = k + 1;
    }
    assert(rs.skip(k as int) =~= Seq::<RejectionModel>::empty());
    None
}

/// The values of all rejections, index by index.
proof fn lemma_rejections_index(s: Seq<AssetCandidateRejection>)
    ensures
        rejections_model(s, s.len()).len() == s.len(),
        forall|i: int| 0 <= i < s.len() ==> #[trigger] rejections_model(s, s.len())[i] == s[i]@,
    decreases s.len(),
{
    if s.len() > 0 {
        let t = s.drop_last();
        lemma_rejections_index(t);
        lemma_rejections_push(t, s.last());
        assert(t.push(s.last()) =~= s);
    }
}

/// The reason of the first exact input that was rejected.
fn exact_rejection(exact: &Vec<OutPoint>, rejections: &Vec<AssetCandidateRejection>) -> (r: Option<DomainError>)
    ensures
        match first_rejected(outpoints_model(exact@), rejections_model(rejections@, rejections@.len())) {
            None => r is None,
            Some(e) => r matches Some(x) && x@ == e,
        },
{
    let ghost rs = rejections_model(rejections@, rejections@.len());
    let ghost ex = outpoints_model(exact@);
    let mut j: usize = 0;
    assert(ex.skip(0) =~= ex);
    while j < exact.len()
        invariant
            j <= exact@.len(),
            rs == rejections_model(rejections@, rejections@.len()),
            ex == outpoints_model(exact@),
            first_rejected(ex.skip(j as int), rs) == first_rejected(ex, rs),
        decreases exact@.len() - j,
    {
        assert(ex.skip(j as int).drop_first() =~= ex.skip(j + 1));
        assert(ex.skip(j as int)[0] == exact@[j as int]@);
        match find_rejection_index(rejections, &exact[j]) {
            Some(k) => {
                return Some(rejections[k].reason.dup());
            },
            None => {},
        }
        j = j + 1;
    }
    assert(ex.skip(j as int) =~= Seq::<OutPointModel>::empty());
    None
}


pub open spec fn verdict_res(r: Result<AssetCandidate, DomainError>) -> Result<AssetCandidate, ErrorModel> {
    match r {
        Ok(c) => Ok(c),
        Err(e) => Err(e@),
    }
}

/// Judges one known candidate by its recorded status.
fn judge_input(
    req: &AssetSelectionRequest,
    account: &Account,
    registered: &Vec<WalletScopeId>,
    eligible: &Vec<WalletScopeId>,
    fee: &Vec<WalletScopeId>,
    candidate: &AssetInputCandidate,
    status: UtxoStatus,
) -> (r: Result<AssetCandidate, DomainError>)
    ensures
        verdict_res(r) == status_verdict(
            *req,
            account@,
            (scope_ids_model(registered@), scope_ids_model(eligible@), scope_ids_model(fee@)),
            *candidate,
            status@,
        ),
{
    if !status.account_id.same(&req.target_account_id) {
        let mut reason = String::from_str("input belongs to account ");
        reason.append(status.account_id.as_str());
        reason.append(", not requested account ");
        reason.append(req.target_account_id.as_str());
        return Err(DomainError::UtxoPolicyBlocked { outpoint: candidate.outpoint.dup(), reason });
    }
    if !contains_scope(eligible.as_slice(), &status.scope_id) {
        if contains_scope(registered.as_slice(), &status.scope_id) {
            return Err(DomainError::MissingCapabilities { scope_id: status.scope_id });
        } else {
            return Err(DomainError::ScopeNotFound(status.scope_id));
        }
    }
    if candidate.asset_amount == 0 {
        if !req.constraints.allow_fee_support {
            return Err(
                DomainError::UtxoPolicyBlocked {
                    outpoint: candidate.outpoint.dup(),
                    reason: String::from_str("fee-support inputs are disabled"),
                },
            );
        }
        if !account.capabilities.contains(&Capability::FeeSupport) {
            return Err(DomainError::MissingAccountCapabilities { account_id: account.id.dup() });
        }
        if !contains_scope(fee.as_slice(), &status.scope_id) {
            return Err(DomainError::MissingCapabilities { scope_id: status.scope_id });
        }
    }
    match status.unavailable_reason {
        Some(e) => Err(e),
        None => Ok(
            AssetCandidate {
                outpoint: candidate.outpoint.dup(),
                asset_amount: candidate.asset_amount,
                value_sats: status.value_sats,
            },
        ),
    }
}

impl<S: StateStore, C: Clock, G: ReservationIdGenerator> TxoscopeService<S, C, G> {
    /// The account's registered scopes, those granting `ReserveSupport`, and
    /// those of these also granting `FeeSupport`.
    fn account_scope_classes(&self, account: &Account) -> (r: DomainResult<
        (Vec<WalletScopeId>, Vec<WalletScopeId>, Vec<WalletScopeId>),
    >)
        ensures
            match r {
                Ok((a, b, c)) => (scope_ids_model(a@), scope_ids_model(b@), scope_ids_model(c@)) == scope_classes(
                    self.model(),
                    account@.id,
                    account@.scopes,
                ),
                Err(e) => !self.healthy() && e@ is Storage,
            },
    {
        let mut registered: Vec<WalletScopeId> = Vec::new();
        let mut eligible: Vec<WalletScopeId> = Vec::new();
        let mut fee: Vec<WalletScopeId> = Vec::new();
        let ghost ids = account@.scopes;
        let mut i: usize = 0;
        assert(ids.take(0) =~= Seq::<Seq<char>>::empty());
        assert(scope_ids_model(registered@) =~= Seq::<Seq<char>>::empty());
        while i < account.scopes.len()
            invariant
                i <= account.scopes@.len(),
                ids == account@.scopes,
                ids.len() == account.scopes@.len(),
                (scope_ids_model(registered@), scope_ids_model(eligible@), scope_ids_model(fee@)) == scope_classes(
                    self.model(),
                    account@.id,
                    ids.take(i as int),
                ),
            decreases account.scopes@.len() - i,
        {
            proof {
                assert(ids.take(i + 1).drop_last() =~= ids.take(i as int));
                assert(ids.take(i + 1).last() == account.scopes@[i as int]@);
            }
            match self.orchestrator.get_scope(&account.scopes[i]) {
                Err(e) => return Err(e),
                Ok(None) => {},
                Ok(Some(scope)) => {
                    if scope.account_id.same(&account.id) {
                        proof {
                            assert(scope_ids_model(registered@.push(scope.id)) =~= scope_ids_model(registered@).push(scope.id@));
                            assert(scope_ids_model(eligible@.push(scope.id)) =~= scope_ids_model(eligible@).push(scope.id@));
                            assert(scope_ids_model(fee@.push(scope.id)) =~= scope_ids_model(fee@).push(scope.id@));
                        }
                        registered.push(scope.id.dup());
                        if scope.capabilities.contains(&Capability::ReserveSupport) {
                            if scope.capabilities.contains(&Capability::FeeSupport) {
                                fee.push(scope.id.dup());
                            }
                            eligible.push(scope.id);
                        }
                    }
                },
            }
            i = i + 1;
        }
        assert(ids.take(i as int) =~= ids);
        Ok((registered, eligible, fee))
    }

    /// Sorts the request's candidates into eligible ones and rejections.
    fn classify_inputs(
        &self,
        req: &AssetSelectionRequest,
        account: &Account,
        registered: &Vec<WalletScopeId>,
        eligible_scopes: &Vec<WalletScopeId>,
        fee: &Vec<WalletScopeId>,
    ) -> (r: DomainResult<(Vec<AssetCandidate>, Vec<AssetCandidateRejection>)>)
        ensures
            match r {
                Ok((e, j)) => (e@, rejections_model(j@, j@.len())) == sort_inputs(
                    self.model(),
                    *req,
                    account@,
                    (scope_ids_model(registered@), scope_ids_model(eligible_scopes@), scope_ids_model(fee@)),
                    req.candidates@,
                ),
                Err(e) => !self.healthy() && e@ is Storage,
            },
    {
        let ghost classes = (scope_ids_model(registered@), scope_ids_model(eligible_scopes@), scope_ids_model(fee@));
        let ghost cs = req.candidates@;
        let mut eligible: Vec<AssetCandidate> = Vec::new();
        let mut rejections: Vec<AssetCandidateRejection> = Vec::new();
        let mut i: usize = 0;
        assert(cs.take(0) =~= Seq::<AssetInputCandidate>::empty());
        while i < req.candidates.len()
            invariant
                i <= cs.len(),
                cs == req.candidates@,
                classes == (scope_ids_model(registered@), scope_ids_model(eligible_scopes@), scope_ids_model(fee@)),
                (eligible@, rejections_model(rejections@, rejections@.len())) == sort_inputs(
                    self.model(),
                    *req,
                    account@,
                    classes,
                    cs.take(i as int),
                ),
            decreases cs.len() - i,
        {
            proof {
                assert(cs.take(i + 1).drop_last() =~= cs.take(i as int));
                assert(cs.take(i + 1).last() == cs[i as int]);
            }
            let candidate = &req.candidates[i];
            let verdict = match self.orchestrator.utxo_status(&candidate.outpoint) {
                Err(e) => return Err(e),
                Ok(None) => Err(DomainError::UtxoNotFound(candidate.outpoint.dup())),
                Ok(Some(status)) => judge_input(req, account, registered, eligible_scopes, fee, candidate, status),
            };
            match verdict {
                Ok(c) => {
                    eligible.push(c);
                },
                Err(reason) => {
                    let rejection = AssetCandidateRejection { outpoint: candidate.outpoint.dup(), reason };
                    proof {
                        lemma_rejections_push(rejections@, rejection);
                    }
                    rejections.push(rejection);
                },
            }
            i = i + 1;
        }
        assert(cs.take(i as int) =~= cs);
        Ok((eligible, rejections))
    }
}


impl<S: StateStore, C: Clock, G: ReservationIdGenerator> TxoscopeService<S, C, G> {
    /// The selection over the current state, with stale reservations already expired.
    fn preview_after_expiry(&self, req: &AssetSelectionRequest) -> (r: DomainResult<Vec<OutPoint>>)
        ensures
            crate::store::agrees(outpoints_res(r), preview_after(self.model(), *req), self.healthy()),
    {
        let account = match self.orchestrator.get_account(&req.target_account_id) {
            Err(e) => return Err(e),
            Ok(None) => return Err(DomainError::AccountNotFound(req.target_account_id.dup())),
            Ok(Some(a)) => a,
        };
        if !account.capabilities.contains(&Capability::ReserveSupport) {
            return Err(DomainError::MissingAccountCapabilities { account_id: account.id.dup() });
        }
        let (registered, eligible_scopes, fee_scopes) = match self.account_scope_classes(&account) {
            Err(e) => return Err(e),
            Ok(t) => t,
        };
        let exact_given = match &req.constraints.exact_outpoints {
            Some(x) => x.len() > 0,
            None => false,
        };
        if eligible_scopes.len() == 0 && !exact_given {
            return Err(DomainError::NoEligibleScope { account_id: account.id.dup() });
        }
        let (eligible, rejections) = match self.classify_inputs(
            req,
            &account,
            &registered,
            &eligible_scopes,
            &fee_scopes,
        ) {
            Err(e) => return Err(e),
            Ok(t) => t,
        };
        match &req.constraints.exact_outpoints {
            Some(exact) => match exact_rejection(exact, &rejections) {
                Some(e) => return Err(e),
                None => {},
            },
            None => if eligible.len() == 0 {
                return Err(DomainError::NoEligibleAssetCandidates { rejections });
            },
        }
        AssetSelectionPolicy::select(eligible.as_slice(), req.asset_amount, req.required_value_sats, &req.constraints)
    }

    /// Preview, answering also the clock readings taken while expiring.
    fn preview_reading(&mut self, req: &AssetSelectionRequest) -> (r: (DomainResult<Vec<OutPoint>>, Ghost<Seq<u64>>))
        ensures
            final(self).clock == old(self).clock,
            final(self).reservation_ids == old(self).reservation_ids,
            final(self).healthy() == old(self).healthy(),
            final(self).orchestrator.owner() == old(self).orchestrator.owner(),
            r.1@.len() == req.candidates@.len(),
            steps_ok(
                outpoints_res(r.0),
                final(self).model(),
                preview_steps(old(self).model(), *req, r.1@),
                old(self).healthy(),
            ),
    {
        let ghost zeros = Seq::new(req.candidates@.len(), |k: int| 0u64);
        if req.asset_amount == 0 || req.candidates.len() == 0 {
            return (Err(DomainError::InsufficientFunds), Ghost(zeros));
        }
        let mut outpoints: Vec<OutPoint> = Vec::new();
        let mut i: usize = 0;
        while i < req.candidates.len()
            invariant
                i <= req.candidates@.len(),
                outpoints@ == input_outpoints(req.candidates@).take(i as int),
            decreases req.candidates@.len() - i,
        {
            outpoints.push(req.candidates[i].outpoint.dup());
            i = i + 1;
            assert(outpoints@ =~= input_outpoints(req.candidates@).take(i as int));
        }
        assert(outpoints@ =~= input_outpoints(req.candidates@));
        match AssetSelectionPolicy::validate_inputs(outpoints.as_slice(), req.asset_amount, &req.constraints) {
            Err(e) => return (Err(e), Ghost(zeros)),
            Ok(()) => {},
        }
        let sorted = insertion_sort(outpoints);
        proof {
            crate::sorting::lemma_sort_members(input_outpoints(req.candidates@));
        }
        let (expired, nows) = self.expire_stale_candidate_reservations(&sorted);
        match expired {
            Err(e) => return (Err(e), nows),
            Ok(()) => {},
        }
        (self.preview_after_expiry(req), nows)
    }

    /// Preview uses the same selector as planning, without creating an operation or locks.
    /// Expired manual reservations are cleaned up using the service clock.
    pub fn preview_asset_selection(&mut self, req: &AssetSelectionRequest) -> (r: DomainResult<Vec<OutPoint>>)
        ensures
            final(self).clock == old(self).clock,
            final(self).reservation_ids == old(self).reservation_ids,
            final(self).healthy() == old(self).healthy(),
            final(self).orchestrator.owner() == old(self).orchestrator.owner(),
            exists|nows: Seq<u64>|
                #![trigger preview_steps(old(self).model(), *req, nows)]
                nows.len() == req.candidates@.len() && steps_ok(
                    outpoints_res(r),
                    final(self).model(),
                    preview_steps(old(self).model(), *req, nows),
                    old(self).healthy(),
                ),
    {
        let (r, nows) = self.preview_reading(req);
        assert(steps_ok(outpoints_res(r), self.model(), preview_steps(old(self).model(), *req, nows@), old(self).healthy()));
        r
    }
}


impl<S: StateStore, C: Clock, G: ReservationIdGenerator> TxoscopeService<S, C, G> {
    /// Select and persist the operation before returning any inputs to a transaction builder.
    pub fn plan_asset_selection(&mut self, req: PlanAssetSelectionRequest) -> (r: DomainResult<PlannedSelection>)
        ensures
            final(self).clock == old(self).clock,
            final(self).reservation_ids == old(self).reservation_ids,
            final(self).healthy() == old(self).healthy(),
            final(self).orchestrator.owner() == old(self).orchestrator.owner(),
            exists|nows: Seq<u64>|
                #![trigger plan_steps(old(self).model(), old(self).orchestrator.owner(), req, nows)]
                nows.len() == req.selection.candidates@.len() && steps_ok(
                    planned_res(r),
                    final(self).model(),
                    plan_steps(old(self).model(), old(self).orchestrator.owner(), req, nows),
                    old(self).healthy(),
                ),
    {
        let ghost owner = self.orchestrator.owner();
        let ghost whole = req;
        let PlanAssetSelectionRequest { operation_id, selection } = req;
        let (res, nows) = self.preview_reading(&selection);
        let selected = match res {
            Err(e) => {
                assert(steps_ok(planned_res(Err(e)), self.model(), plan_steps(old(self).model(), owner, whole, nows@), old(self).healthy()));
                return Err(e);
            },
            Ok(s) => s,
        };
        let ghost m1 = self.model();
        let ghost sel = outpoints_model(selected@);
        if selected.len() == 0 {
            assert(steps_ok(planned_res(Err(DomainError::InsufficientFunds)), self.model(), plan_steps(old(self).model(), owner, whole, nows@), old(self).healthy()));
            return Err(DomainError::InsufficientFunds);
        }
        let change_scope_id = match self.orchestrator.get_utxo(&selected[0]) {
            Err(e) => {
                assert(steps_ok(planned_res(Err(e)), self.model(), plan_steps(old(self).model(), owner, whole, nows@), old(self).healthy()));
                return Err(e);
            },
            Ok(None) => {
                let out = Err(DomainError::UtxoNotFound(selected[0].dup()));
                assert(steps_ok(planned_res(out), self.model(), plan_steps(old(self).model(), owner, whole, nows@), old(self).healthy()));
                return out;
            },
            Ok(Some(u)) => u.scope_id,
        };
        let effects = plan_lock_effects(&selected, &selection.candidates);
        let operation = OperationSelection {
            operation_id,
            selected_outpoints: selected,
            change_scope_id,
            effects,
            expires_at: None,
        };
        match self.orchestrator.apply_selection(&operation) {
            Err(e) => {
                assert(steps_ok(planned_res(Err(e)), self.model(), plan_steps(old(self).model(), owner, whole, nows@), old(self).healthy()));
                return Err(e);
            },
            Ok(()) => {},
        }
        let out = PlannedSelection::from(operation);
        assert(steps_ok(planned_res(Ok(out)), self.model(), plan_steps(old(self).model(), owner, whole, nows@), old(self).healthy()));
        Ok(out)
    }
}

} // verus!
