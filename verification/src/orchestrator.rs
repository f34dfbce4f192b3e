//! Operation lifecycle over a store: proposing, recording, committing,
//! recovering, advancing and releasing selections.
use vstd::prelude::*;
use vstd::string::StringExecFns;

use crate::account::{scope_ids_model, Account, WalletScope};
use crate::capability::Capability;
use crate::errors::{DomainError, DomainResult, ErrorModel};
use crate::ids::{AccountId, OperationId, Text, WalletScopeId};
use crate::lock::OperationLock;
use crate::observation::ObservationSnapshot;
use crate::operation::{
    advance_check, lock_effects, outpoints_model, EffectModel, OperationModel, InputSelectionSpec, IntentModel, IntentStatus,
    OperationIntent, OperationPhase, OperationSelection, PersistedOperation, SelectionModel, SpecModel,
};
use crate::outpoint::{outpoint_text, OutPoint, OutPointModel};
use crate::selection_request::{request_view, IntoSelectionRequest, RequestModel};
use crate::selector::{result_for, SelectionContext, SelectorRegistry};
use crate::reconciliation::{actions_model, plan_spec, ReconcilePlan, ReconciliationPlanner};
use crate::state::Availability;
use crate::store::{
    agrees, capability_check, lists_utxos, lock_effect_check, lookup, opt_res, read_ok, unit_res,
    utxos_model, write_ok, StateBatch, StateStore, StoreModel,
};
use crate::utxo::{ManagedUtxo, UtxoModel};
use crate::utxo_status::{status_of, UtxoStatus};

verus! {

/// Which pending intents a recovery pass replayed and which it rejected.
#[derive(Debug, Clone, PartialEq, Eq)]
pub struct RecoveryReport {
    pub replayed_operations: Vec<OperationId>,
    pub failed_operations: Vec<OperationId>,
}

/// Which stale reservations a cleanup released, and their inputs.
#[derive(Debug, Clone, PartialEq, Eq)]
pub struct CleanupReport {
    pub released_operations: Vec<OperationId>,
    pub released_outpoints: Vec<OutPoint>,
}

/// Drives operations over a store, labelling the locks it takes with `owner`.
pub struct Orchestrator<S: StateStore> {
    store: S,
    owner: String,
}

/// Every input is free to lock for operation `id`, or already held by it while selected.
pub open spec fn inputs_check(m: StoreModel, id: Seq<char>, effects: Seq<EffectModel>) -> Result<(), ErrorModel>
    decreases effects.len(),
{
    if effects.len() == 0 {
        Ok(())
    } else {
        match lock_effect_check(m.utxos, m.locks, id, OperationPhase::Selected, effects[0].outpoint) {
            Err(e) => Err(e),
            Ok(_) => inputs_check(m, id, effects.drop_first()),
        }
    }
}

/// The checks made before a selection is applied: capabilities, then each input.
pub open spec fn selection_check(m: StoreModel, sel: SelectionModel) -> Result<(), ErrorModel> {
    match capability_check(m, sel) {
        Err(e) => Err(e),
        Ok(_) => inputs_check(m, sel.operation_id, sel.effects),
    }
}

/// Applying a selection in the Selected phase, after the checks; an operation
/// already past Selected cannot be selected again.
pub open spec fn commit_selection_spec(m: StoreModel, sel: SelectionModel, owner: Seq<char>) -> Result<
    StoreModel,
    ErrorModel,
> {
    let id = sel.operation_id;
    if m.operations.contains_key(id) && m.operations[id].phase != OperationPhase::Selected {
        Err(
            ErrorModel::InvalidOperationTransition {
                operation_id: id,
                from: m.operations[id].phase,
                to: OperationPhase::Selected,
            },
        )
    } else {
        match selection_check(m, sel) {
            Err(e) => Err(e),
            Ok(_) => m.apply_batch(sel, OperationPhase::Selected, owner),
        }
    }
}

/// The output an availability or policy refusal is about.
pub open spec fn refused_outpoint(e: ErrorModel) -> Option<OutPointModel> {
    match e {
        ErrorModel::UtxoUnavailable { outpoint, .. } => Some(outpoint),
        ErrorModel::UtxoPolicyBlocked { outpoint, .. } => Some(outpoint),
        _ => None,
    }
}

/// The refusal is only contention: the input is locked by another operation
/// whose intent is still pending, so the intent should wait rather than fail.
pub open spec fn pending_lock_conflict(m: StoreModel, id: Seq<char>, e: ErrorModel) -> bool {
    match refused_outpoint(e) {
        None => false,
        Some(o) => match lookup(m.locks, o) {
            None => false,
            Some(l) => l.operation_id != id && (lookup(m.intents, l.operation_id) matches Some(i)
                && i.status == IntentStatus::Pending),
        },
    }
}

/// Committing a recorded intent: a committed one stays committed, a failed one
/// cannot be committed, and a pending one is applied and marked committed, or
/// rejected unless it only waits on another pending intent.
pub open spec fn commit_spec(m: StoreModel, id: Seq<char>, owner: Seq<char>) -> (Result<(), ErrorModel>, StoreModel) {
    match lookup(m.intents, id) {
        None => (Err(ErrorModel::IntentNotFound(id)), m),
        Some(i) => if i.status == IntentStatus::Committed {
            (Ok(()), m)
        } else if i.status == IntentStatus::Failed {
            (Err(ErrorModel::IntentNotPending(id)), m)
        } else {
            match commit_selection_spec(m, i.selection, owner) {
                Ok(m2) => match m2.mark_intent_committed(id) {
                    Ok(m3) => (Ok(()), m3),
                    Err(e) => (Err(e), m2),
                },
                Err(e) => if e is Storage || pending_lock_conflict(m, id, e) {
                    (Err(e), m)
                } else {
                    match m.mark_intent_failed(id) {
                        Ok(m3) => (Err(e), m3),
                        Err(e2) => (Err(e2), m),
                    }
                },
            }
        },
    }
}

/// Applying a selection: recording its intent, then committing it.
pub open spec fn apply_spec(m: StoreModel, sel: SelectionModel, owner: Seq<char>) -> (Result<(), ErrorModel>, StoreModel) {
    match m.persist_intent(sel) {
        Err(e) => (Err(e), m),
        Ok((_, m1)) => commit_spec(m1, sel.operation_id, owner),
    }
}

/// Applying a selection is idempotent: once applied, applying the same
/// selection again succeeds and changes nothing.
pub proof fn lemma_apply_selection_idempotent(m: StoreModel, sel: SelectionModel, owner: Seq<char>)
    requires
        apply_spec(m, sel, owner).0 is Ok,
    ensures
        apply_spec(apply_spec(m, sel, owner).1, sel, owner) == apply_spec(m, sel, owner),
{
    let id = sel.operation_id;
    let m1 = m.persist_intent(sel)->Ok_0.1;
    let i = m1.intents[id];
    assert(lookup(m1.intents, id) == Some(i));
    assert(i.selection == sel);
    if i.status != IntentStatus::Committed {
        let m2 = commit_selection_spec(m1, sel, owner)->Ok_0;
        assert(m2.intents == m1.intents);
        let m3 = m2.mark_intent_committed(id)->Ok_0;
        assert(lookup(m3.intents, id) == Some(IntentModel { status: IntentStatus::Committed, ..i }));
    }
}

/// Applying a selection for a new operation reserves its inputs: once it
/// succeeds, every output its effects name is bound to the operation as
/// Selected and locked by it.
pub proof fn lemma_apply_selection_holds_inputs(m: StoreModel, sel: SelectionModel, owner: Seq<char>)
    requires
        apply_spec(m, sel, owner).0 is Ok,
        !m.intents.contains_key(sel.operation_id),
    ensures
        forall|k: int|
            0 <= k < sel.effects.len() ==> crate::store::held_by(
                apply_spec(m, sel, owner).1.utxos,
                apply_spec(m, sel, owner).1.locks,
                #[trigger] sel.effects[k].outpoint,
                sel.operation_id,
                OperationPhase::Selected,
            ),
{
    let id = sel.operation_id;
    let m1 = m.persist_intent(sel)->Ok_0.1;
    assert(lookup(m1.intents, id) matches Some(i) && i.status == IntentStatus::Pending && i.selection == sel);
    let m2 = commit_selection_spec(m1, sel, owner)->Ok_0;
    crate::store::lemma_lock_all_holds(
        m1.utxos,
        m1.locks,
        sel,
        OperationPhase::Selected,
        owner,
        crate::store::bump(m1.tick),
        sel.effects,
    );
}

/// Rejecting a recorded intent: pending ones fail, failed ones stay failed,
/// committed ones cannot be rejected.
pub open spec fn fail_spec(m: StoreModel, id: Seq<char>) -> Result<StoreModel, ErrorModel> {
    match lookup(m.intents, id) {
        None => Err(ErrorModel::IntentNotFound(id)),
        Some(i) => if i.status == IntentStatus::Committed {
            Err(ErrorModel::IntentNotPending(id))
        } else if i.status == IntentStatus::Failed {
            Ok(m)
        } else {
            m.mark_intent_failed(id)
        },
    }
}

/// A multi-step outcome: the expected result and state, unless a faulty store
/// reported a storage error part way.
pub open spec fn steps_ok<T>(
    r: Result<T, ErrorModel>,
    after: StoreModel,
    expected: (Result<T, ErrorModel>, StoreModel),
    healthy: bool,
) -> bool {
    (r == expected.0 && after == expected.1) || (!healthy && r is Err && r->Err_0 is Storage)
}

/// The first output that repeats an earlier one (`seen` holds those before).
pub open spec fn first_repeat(outs: Seq<OutPointModel>, seen: Seq<OutPointModel>) -> Option<OutPointModel>
    decreases outs.len(),
{
    if outs.len() == 0 {
        None
    } else if seen.contains(outs[0]) {
        Some(outs[0])
    } else {
        first_repeat(outs.drop_first(), seen.push(outs[0]))
    }
}

/// The account's scopes, in order, that exist, belong to it and grant `required`.
pub open spec fn eligible_scopes(
    m: StoreModel,
    account: Seq<char>,
    ids: Seq<Seq<char>>,
    required: Set<Capability>,
) -> Seq<Seq<char>>
    decreases ids.len(),
{
    if ids.len() == 0 {
        Seq::empty()
    } else {
        let rest = eligible_scopes(m, account, ids.drop_last(), required);
        if (lookup(m.scopes, ids.last()) matches Some(s) && s.account_id == account && required.subset_of(
            s.capabilities,
        )) {
            rest.push(ids.last())
        } else {
            rest
        }
    }
}

/// The checks before selecting inputs: exact inputs are non-empty and distinct,
/// the account exists and grants the request's capabilities, and some scope is
/// eligible unless exact inputs are given. Answers the account's scopes and the eligible ones.
pub open spec fn proposal_pre(m: StoreModel, rv: RequestModel) -> Result<(Seq<Seq<char>>, Seq<Seq<char>>), ErrorModel> {
    let required = rv.purpose.spec_lock_purpose().required_set();
    let exact_err: Option<ErrorModel> = match rv.spec {
        SpecModel::ExactOutpoints { outpoints } => if outpoints.len() == 0 {
            Some(ErrorModel::InvalidRequest { reason: "exact selection requires at least one outpoint"@ })
        } else {
            match first_repeat(outpoints, Seq::empty()) {
                Some(o) => Some(
                    ErrorModel::InvalidRequest {
                        reason: "exact selection includes duplicate outpoint: "@ + outpoint_text(o),
                    },
                ),
                None => None,
            }
        },
        _ => None,
    };
    match exact_err {
        Some(e) => Err(e),
        None => match lookup(m.accounts, rv.account_id) {
            None => Err(ErrorModel::AccountNotFound(rv.account_id)),
            Some(a) => if !required.subset_of(a.capabilities) {
                Err(ErrorModel::MissingAccountCapabilities { account_id: rv.account_id })
            } else {
                let el = eligible_scopes(m, rv.account_id, a.scopes, required);
                if el.len() == 0 && !(rv.spec is ExactOutpoints) {
                    Err(ErrorModel::NoEligibleScope { account_id: rv.account_id })
                } else {
                    Ok((a.scopes, el))
                }
            },
        },
    }
}

/// The selection a request makes of chosen inputs.
pub open spec fn assemble(rv: RequestModel, outs: Seq<OutPointModel>, change: Seq<char>) -> SelectionModel {
    SelectionModel {
        operation_id: rv.operation_id,
        selected_outpoints: outs,
        change_scope_id: change,
        effects: lock_effects(outs, rv.purpose.spec_lock_purpose()),
        expires_at: rv.expires_at,
    }
}

pub open spec fn chosen(r: Result<SelectionModel, ErrorModel>) -> Result<(Seq<OutPointModel>, Seq<char>), ErrorModel> {
    match r {
        Ok(s) => Ok((s.selected_outpoints, s.change_scope_id)),
        Err(e) => Err(e),
    }
}

/// What proposing answers for a request: the checks, then the selector's
/// answer made into a selection; a faulty store may report a storage error instead.
pub open spec fn proposal_result(m: StoreModel, healthy: bool, rv: RequestModel, r: Result<SelectionModel, ErrorModel>) -> bool {
    (!healthy && r is Err && r->Err_0 is Storage) || match proposal_pre(m, rv) {
        Err(e) => r == Err::<SelectionModel, ErrorModel>(e),
        Ok((scopes, el)) => result_for(m, healthy, rv.account_id, scopes, el, rv.spec, chosen(r)) && (r matches Ok(
            sel,
        ) ==> sel == assemble(rv, sel.selected_outpoints, sel.change_scope_id)),
    }
}

/// Recording a proposal as an intent and, when `commit`, committing it.
pub open spec fn prepare_steps(
    m: StoreModel,
    owner: Seq<char>,
    p: Result<SelectionModel, ErrorModel>,
    commit: bool,
) -> (Result<SelectionModel, ErrorModel>, StoreModel) {
    match p {
        Err(e) => (Err(e), m),
        Ok(sel) => match m.persist_intent(sel) {
            Err(e) => (Err(e), m),
            Ok((_, m2)) => if !commit {
                (Ok(sel), m2)
            } else {
                match commit_spec(m2, sel.operation_id, owner) {
                    (Ok(_), m3) => (Ok(sel), m3),
                    (Err(e), m3) => (Err(e), m3),
                }
            },
        },
    }
}

pub open spec fn selection_res(r: DomainResult<OperationSelection>) -> Result<SelectionModel, ErrorModel> {
    match r {
        Ok(s) => Ok(s@),
        Err(e) => Err(e@),
    }
}

/// How one pending intent fares in a recovery pass.
pub enum RecoveryStep {
    Replayed,
    Deferred,
    Failed,
}

/// Replaying one pending intent: applied and committed, deferred while it
/// waits on another pending intent's lock, or rejected.
pub open spec fn recover_step(m: StoreModel, i: IntentModel, owner: Seq<char>) -> (Result<RecoveryStep, ErrorModel>, StoreModel) {
    let id = i.selection.operation_id;
    match commit_selection_spec(m, i.selection, owner) {
        Ok(m2) => match m2.mark_intent_committed(id) {
            Ok(m3) => (Ok(RecoveryStep::Replayed), m3),
            Err(e) => (Err(e), m2),
        },
        Err(e) => if e is Storage {
            (Err(e), m)
        } else if pending_lock_conflict(m, id, e) {
            (Ok(RecoveryStep::Deferred), m)
        } else {
            match m.mark_intent_failed(id) {
                Ok(m3) => (Ok(RecoveryStep::Failed), m3),
                Err(e2) => (Err(e2), m),
            }
        },
    }
}

/// The state of a recovery pass over some intents.
pub struct RecoveryPass {
    pub m: StoreModel,
    pub replayed: Seq<Seq<char>>,
    pub failed: Seq<Seq<char>>,
    pub deferred: Seq<IntentModel>,
    pub progressed: bool,
    pub err: Option<ErrorModel>,
}

/// One pass over the pending intents in order, stopping at the first error.
pub open spec fn recover_pass(m: StoreModel, pending: Seq<IntentModel>, owner: Seq<char>) -> RecoveryPass
    decreases pending.len(),
{
    if pending.len() == 0 {
        RecoveryPass {
            m,
            replayed: Seq::empty(),
            failed: Seq::empty(),
            deferred: Seq::empty(),
            progressed: false,
            err: None,
        }
    } else {
        let p = recover_pass(m, pending.drop_last(), owner);
        if p.err is Some {
            p
        } else {
            let i = pending.last();
            let id = i.selection.operation_id;
            match recover_step(p.m, i, owner) {
                (Err(e), m2) => RecoveryPass { m: m2, err: Some(e), ..p },
                (Ok(RecoveryStep::Replayed), m2) => RecoveryPass {
                    m: m2,
                    replayed: p.replayed.push(id),
                    progressed: true,
                    ..p
                },
                (Ok(RecoveryStep::Deferred), m2) => RecoveryPass { m: m2, deferred: p.deferred.push(i), ..p },
                (Ok(RecoveryStep::Failed), m2) => RecoveryPass {
                    m: m2,
                    failed: p.failed.push(id),
                    progressed: true,
                    ..p
                },
            }
        }
    }
}

/// A pass defers at most every intent, and fewer when it made progress.
pub proof fn lemma_pass_sizes(m: StoreModel, pending: Seq<IntentModel>, owner: Seq<char>)
    ensures
        recover_pass(m, pending, owner).deferred.len() + (if recover_pass(m, pending, owner).progressed {
            1int
        } else {
            0int
        }) <= pending.len(),
    decreases pending.len(),
{
    if pending.len() > 0 {
        lemma_pass_sizes(m, pending.drop_last(), owner);
    }
}

/// Recovery: passes over the still-deferred intents while some pass makes
/// progress; answers the replayed and the rejected operations.
pub open spec fn recover_all(
    m: StoreModel,
    pending: Seq<IntentModel>,
    owner: Seq<char>,
    replayed: Seq<Seq<char>>,
    failed: Seq<Seq<char>>,
) -> (Result<(Seq<Seq<char>>, Seq<Seq<char>>), ErrorModel>, StoreModel)
    decreases pending.len(),
{
    if pending.len() == 0 {
        (Ok((replayed, failed)), m)
    } else {
        let p = recover_pass(m, pending, owner);
        match p.err {
            Some(e) => (Err(e), p.m),
            None => if !p.progressed {
                (Ok((replayed + p.replayed, failed + p.failed)), p.m)
            } else {
                proof {
                    lemma_pass_sizes(m, pending, owner);
                }
                recover_all(p.m, p.deferred, owner, replayed + p.replayed, failed + p.failed)
            },
        }
    }
}

/// The values of a list of operation identities.
pub open spec fn operation_ids_model(s: Seq<OperationId>) -> Seq<Seq<char>> {
    s.map_values(|id: OperationId| id@)
}

pub open spec fn report_res(r: DomainResult<RecoveryReport>) -> Result<(Seq<Seq<char>>, Seq<Seq<char>>), ErrorModel> {
    match r {
        Ok(rep) => Ok((operation_ids_model(rep.replayed_operations@), operation_ids_model(rep.failed_operations@))),
        Err(e) => Err(e@),
    }
}

/// Once a pass stops on an error, processing more intents changes nothing.
proof fn lemma_pass_prefix_err(m: StoreModel, pending: Seq<IntentModel>, owner: Seq<char>, k: int)
    requires
        0 <= k <= pending.len(),
        recover_pass(m, pending.take(k), owner).err is Some,
    ensures
        recover_pass(m, pending, owner) == recover_pass(m, pending.take(k), owner),
    decreases pending.len() - k,
{
    if k < pending.len() {
        assert(pending.take(k + 1).drop_last() =~= pending.take(k));
        lemma_pass_prefix_err(m, pending, owner, k + 1);
    } else {
        assert(pending.take(k) =~= pending);
    }
}

proof fn lemma_pass_prefix_err_state(m: StoreModel, pending: Seq<IntentModel>, owner: Seq<char>, k: int)
    requires
        0 <= k <= pending.len(),
        recover_pass(m, pending.take(k), owner).err is Some,
    ensures
        recover_pass(m, pending, owner).m == recover_pass(m, pending.take(k), owner).m,
{
    lemma_pass_prefix_err(m, pending, owner, k);
}

/// `a - b`, saturating at zero.
pub open spec fn sat_sub(a: u64, b: u64) -> u64 {
    if a >= b {
        (a - b) as u64
    } else {
        0
    }
}

/// The operations, in order, still selected and more than `max_age` ticks old at tick `now`.
pub open spec fn stale_ids(ops: Seq<OperationModel>, now: u64, max_age: u64) -> Seq<Seq<char>>
    decreases ops.len(),
{
    if ops.len() == 0 {
        Seq::empty()
    } else {
        let rest = stale_ids(ops.drop_last(), now, max_age);
        let o = ops.last();
        if o.phase == OperationPhase::Selected && sat_sub(now, o.updated_at) > max_age {
            rest.push(o.operation_id)
        } else {
            rest
        }
    }
}

pub open spec fn is_selected(m: StoreModel, id: Seq<char>) -> bool {
    m.operations.contains_key(id) && m.operations[id].phase == OperationPhase::Selected
}

/// Releasing, in order, those of the operations still selected when their turn comes.
pub open spec fn release_all(m: StoreModel, ids: Seq<Seq<char>>) -> StoreModel
    decreases ids.len(),
{
    if ids.len() == 0 {
        m
    } else {
        let mm = release_all(m, ids.drop_last());
        if is_selected(mm, ids.last()) {
            mm.release(ids.last(), OperationPhase::RollingBack)
        } else {
            mm
        }
    }
}

/// The operations `release_all` releases, in order.
pub open spec fn released_ids(m: StoreModel, ids: Seq<Seq<char>>) -> Seq<Seq<char>>
    decreases ids.len(),
{
    if ids.len() == 0 {
        Seq::empty()
    } else {
        let rest = released_ids(m, ids.drop_last());
        if is_selected(release_all(m, ids.drop_last()), ids.last()) {
            rest.push(ids.last())
        } else {
            rest
        }
    }
}

/// The inputs `release_all` frees.
pub open spec fn released_set(m: StoreModel, ids: Seq<Seq<char>>) -> Set<OutPointModel>
    decreases ids.len(),
{
    if ids.len() == 0 {
        Set::empty()
    } else {
        let mm = release_all(m, ids.drop_last());
        let rest = released_set(m, ids.drop_last());
        if is_selected(mm, ids.last()) {
            rest.union(mm.bound_outpoints(ids.last()))
        } else {
            rest
        }
    }
}

/// `outs` lists, operation by operation in release order, the inputs each
/// operation `release_all` releases held just before its release, each once.
pub open spec fn released_in_groups(m: StoreModel, ids: Seq<Seq<char>>, outs: Seq<OutPointModel>) -> bool
    decreases ids.len(),
{
    if ids.len() == 0 {
        outs.len() == 0
    } else {
        let mm = release_all(m, ids.drop_last());
        if is_selected(mm, ids.last()) {
            let k = outs.len() - mm.bound_outpoints(ids.last()).len();
            &&& 0 <= k
            &&& released_in_groups(m, ids.drop_last(), outs.take(k))
            &&& crate::store::enumerates(outs.skip(k), mm.bound_outpoints(ids.last()))
        } else {
            released_in_groups(m, ids.drop_last(), outs)
        }
    }
}

proof fn lemma_groups_step(m: StoreModel, ids: Seq<Seq<char>>, outs: Seq<OutPointModel>, k: int)
    requires
        ids.len() > 0,
        is_selected(release_all(m, ids.drop_last()), ids.last()),
        0 <= k <= outs.len(),
        released_in_groups(m, ids.drop_last(), outs.take(k)),
        crate::store::enumerates(outs.skip(k), release_all(m, ids.drop_last()).bound_outpoints(ids.last())),
    ensures
        released_in_groups(m, ids, outs),
{
    let chunk = outs.skip(k);
    let b = release_all(m, ids.drop_last()).bound_outpoints(ids.last());
    chunk.unique_seq_to_set();
    assert(chunk.to_set() =~= b);
    assert(outs.len() - b.len() == k);
}

proof fn lemma_released_unbound(m: StoreModel, ids: Seq<Seq<char>>, k: OutPointModel)
    requires
        released_set(m, ids).contains(k),
    ensures
        release_all(m, ids).utxos.contains_key(k),
        release_all(m, ids).utxos[k].operation_binding is None,
    decreases ids.len(),
{
    if ids.len() > 0 {
        let mm = release_all(m, ids.drop_last());
        if released_set(m, ids.drop_last()).contains(k) {
            lemma_released_unbound(m, ids.drop_last(), k);
        }
    }
}

proof fn lemma_concat_no_dup<A>(a: Seq<A>, b: Seq<A>)
    requires
        a.no_duplicates(),
        b.no_duplicates(),
        forall|x: A| a.contains(x) ==> !b.contains(x),
    ensures
        (a + b).no_duplicates(),
{
    let c = a + b;
    assert forall|i: int, j: int| 0 <= i < c.len() && 0 <= j < c.len() && i != j implies c[i] != c[j] by {
        if i < a.len() && j < a.len() {
        } else if i >= a.len() && j >= a.len() {
            assert(c[i] == b[i - a.len()]);
            assert(c[j] == b[j - a.len()]);
        } else if i < a.len() {
            assert(a.contains(c[i]));
            assert(b.contains(c[j]));
        } else {
            assert(a.contains(c[j]));
            assert(b.contains(c[i]));
        }
    }
}

pub open spec fn cleanup_res(r: DomainResult<CleanupReport>) -> Option<(Seq<Seq<char>>, Seq<OutPointModel>)> {
    match r {
        Ok(rep) => Some((operation_ids_model(rep.released_operations@), outpoints_model(rep.released_outpoints@))),
        Err(_) => None,
    }
}

/// Checks before advancing an operation: it exists, its intent is committed,
/// the move is forward (`Ok(false)` when already there), and leaving Selected
/// uses exactly the planned inputs.
pub open spec fn complete_pre(m: StoreModel, id: Seq<char>, phase: OperationPhase, actual: Seq<OutPointModel>) -> Result<
    bool,
    ErrorModel,
> {
    if !m.operations.contains_key(id) {
        Err(ErrorModel::OperationNotFound(id))
    } else if !m.intents.contains_key(id) {
        Err(ErrorModel::IntentNotFound(id))
    } else if m.intents[id].status != IntentStatus::Committed {
        Err(ErrorModel::IntentNotCommitted(id))
    } else {
        match advance_check(m.operations[id], phase) {
            Err(e) => Err(e),
            Ok(false) => Ok(false),
            Ok(true) => if m.operations[id].phase == OperationPhase::Selected
                && m.intents[id].selection.selected_outpoints.to_set() != actual.to_set() {
                Err(ErrorModel::PlannedInputsMismatch { operation_id: id })
            } else {
                Ok(true)
            },
        }
    }
}

/// Whether two lists name the same outputs, ignoring order and repeats.
pub fn same_outpoint_sets(a: &Vec<OutPoint>, b: &Vec<OutPoint>) -> (r: bool)
    ensures
        r == (outpoints_model(a@).to_set() == outpoints_model(b@).to_set()),
{
    let ghost am = outpoints_model(a@);
    let ghost bm = outpoints_model(b@);
    let mut i: usize = 0;
    while i < a.len()
        invariant
            i <= a@.len(),
            am == outpoints_model(a@),
            bm == outpoints_model(b@),
            forall|k: int| 0 <= k < i ==> bm.contains(#[trigger] am[k]),
        decreases a@.len() - i,
    {
        assert(am[i as int] == a@[i as int]@);
        if !crate::asset_selection::contains_outpoint(b.as_slice(), &a[i]) {
            assert(am.to_set().contains(am[i as int]));
            assert(!bm.to_set().contains(am[i as int]));
            return false;
        }
        i = i + 1;
    }
    let mut j: usize = 0;
    while j < b.len()
        invariant
            j <= b@.len(),
            am == outpoints_model(a@),
            bm == outpoints_model(b@),
            forall|k: int| 0 <= k < am.len() ==> bm.contains(#[trigger] am[k]),
            forall|k: int| 0 <= k < j ==> am.contains(#[trigger] bm[k]),
        decreases b@.len() - j,
    {
        assert(bm[j as int] == b@[j as int]@);
        if !crate::asset_selection::contains_outpoint(a.as_slice(), &b[j]) {
            assert(bm.to_set().contains(bm[j as int]));
            assert(!am.to_set().contains(bm[j as int]));
            return false;
        }
        j = j + 1;
    }
    assert forall|x: OutPointModel| am.to_set().contains(x) == bm.to_set().contains(x) by {
        if am.contains(x) {
            let k = choose|k: int| 0 <= k < am.len() && am[k] == x;
            assert(bm.contains(am[k]));
        }
        if bm.contains(x) {
            let k = choose|k: int| 0 <= k < bm.len() && bm[k] == x;
            assert(am.contains(bm[k]));
        }
    }
    assert(am.to_set() =~= bm.to_set());
    true
}

/// The position of the first output that repeats an earlier one.
pub fn first_repeated(v: &Vec<OutPoint>) -> (r: Option<usize>)
    ensures
        match first_repeat(outpoints_model(v@), Seq::empty()) {
            Some(o) => r is Some && r->Some_0 < v@.len() && v@[r->Some_0 as int]@ == o,
            None => r is None,
        },
{
    let ghost outs = outpoints_model(v@);
    let mut j: usize = 0;
    assert(outs.skip(0) =~= outs);
    assert(outs.take(0) =~= Seq::<OutPointModel>::empty());
    while j < v.len()
        invariant
            j <= v@.len(),
            outs == outpoints_model(v@),
            first_repeat(outs, Seq::empty()) == first_repeat(outs.skip(j as int), outs.take(j as int)),
        decreases v@.len() - j,
    {
        proof {
            assert(outs.skip(j as int).drop_first() =~= outs.skip(j + 1));
            assert(outs.skip(j as int)[0] == outs[j as int]);
            assert(outs.take(j as int).push(outs[j as int]) =~= outs.take(j + 1));
        }
        let mut k: usize = 0;
        let mut seen = false;
        while k < j
            invariant
                k <= j < v@.len(),
                outs == outpoints_model(v@),
                seen ==> (exists|t: int| 0 <= t < k && outs[t] == outs[j as int]),
                !seen ==> (forall|t: int| 0 <= t < k ==> outs[t] != outs[j as int]),
            decreases j - k,
        {
            assert(outs[k as int] == v@[k as int]@);
            assert(outs[j as int] == v@[j as int]@);
            if v[k].same(&v[j]) {
                seen = true;
            }
            k = k + 1;
        }
        proof {
            if seen {
                let t = choose|t: int| 0 <= t < k && outs[t] == outs[j as int];
                assert(outs.take(j as int)[t] == outs[j as int]);
            }
            if outs.take(j as int).contains(outs[j as int]) {
                let t = choose|t: int| 0 <= t < j && outs.take(j as int)[t] == outs[j as int];
                assert(outs[t] == outs[j as int]);
            }
        }
        if seen {
            return Some(j);
        }
        j = j + 1;
    }
    assert(outs.skip(j as int) =~= Seq::<OutPointModel>::empty());
    None
}

impl<S: StateStore> Orchestrator<S> {
    /// The state the store records.
    pub closed spec fn store_model(&self) -> StoreModel {
        self.store.model()
    }

    /// The recorded outputs in the order the store lists them.
    pub closed spec fn utxo_listing(&self) -> Seq<UtxoModel> {
        self.store.utxo_listing()
    }

    /// Whether the store answers without storage faults.
    pub closed spec fn healthy(&self) -> bool {
        self.store.healthy()
    }

    /// The owner label put on new locks.
    pub closed spec fn owner(&self) -> Seq<char> {
        self.owner@
    }

    /// The store keeps its health and the owner label is unchanged.
    pub open spec fn kept(&self, before: &Self) -> bool {
        self.healthy() == before.healthy() && self.owner() == before.owner()
    }

    /// Wraps `store` with default owner label `"txoscope"`.
    pub fn with_store(store: S) -> (r: Self)
        ensures
            r.store_model() == store.model(),
            r.healthy() == store.healthy(),
            r.owner() == "txoscope"@,
    {
        Orchestrator { store, owner: String::from_str("txoscope") }
    }

    pub fn with_owner<T: Text>(self, owner: T) -> (r: Self)
        ensures
            r.store_model() == self.store_model(),
            r.healthy() == self.healthy(),
            r.owner() == owner.text(),
    {
        let mut s = self;
        s.owner = owner.into_text();
        s
    }

    pub fn set_owner<T: Text>(&mut self, owner: T)
        ensures
            final(self).store_model() == old(self).store_model(),
            final(self).healthy() == old(self).healthy(),
            final(self).owner() == owner.text(),
    {
        self.owner = owner.into_text();
    }

    pub fn add_account(&mut self, account: Account) -> (r: DomainResult<()>)
        ensures
            final(self).kept(&*old(self)),
            write_ok(
                unit_res(r),
                old(self).store_model(),
                final(self).store_model(),
                Ok(old(self).store_model().put_account(account@)),
                old(self).healthy(),
            ),
    {
        self.store.put_account(account)
    }

    pub fn get_account(&self, account_id: &AccountId) -> (r: DomainResult<Option<Account>>)
        ensures
            read_ok(opt_res(r), lookup(self.store_model().accounts, account_id@), self.healthy()),
    {
        self.store.get_account(account_id)
    }

    pub fn add_scope(&mut self, scope: WalletScope) -> (r: DomainResult<()>)
        ensures
            final(self).kept(&*old(self)),
            write_ok(
                unit_res(r),
                old(self).store_model(),
                final(self).store_model(),
                old(self).store_model().put_scope(scope@),
                old(self).healthy(),
            ),
    {
        self.store.put_scope(scope)
    }

    pub fn get_scope(&self, scope_id: &WalletScopeId) -> (r: DomainResult<Option<WalletScope>>)
        ensures
            read_ok(opt_res(r), lookup(self.store_model().scopes, scope_id@), self.healthy()),
    {
        self.store.get_scope(scope_id)
    }

    pub fn add_utxo(&mut self, utxo: ManagedUtxo) -> (r: DomainResult<()>)
        ensures
            final(self).kept(&*old(self)),
            write_ok(
                unit_res(r),
                old(self).store_model(),
                final(self).store_model(),
                Ok(old(self).store_model().put_utxo(utxo@)),
                old(self).healthy(),
            ),
    {
        self.store.put_utxo(utxo)
    }

    pub fn get_utxo(&self, outpoint: &OutPoint) -> (r: DomainResult<Option<ManagedUtxo>>)
        ensures
            read_ok(opt_res(r), lookup(self.store_model().utxos, outpoint@), self.healthy()),
    {
        self.store.get_utxo(outpoint)
    }

    /// Every recorded output once, in the order the store lists them.
    pub fn list_utxos(&self) -> (r: DomainResult<Vec<ManagedUtxo>>)
        ensures
            match r {
                Ok(v) => lists_utxos(utxos_model(v@), self.store_model().utxos) && utxos_model(v@)
                    == self.utxo_listing(),
                Err(e) => !self.healthy() && e@ is Storage,
            },
    {
        self.store.list_utxos()
    }

    pub fn get_lock(&self, outpoint: &OutPoint) -> (r: DomainResult<Option<OperationLock>>)
        ensures
            read_ok(opt_res(r), lookup(self.store_model().locks, outpoint@), self.healthy()),
    {
        self.store.get_lock(outpoint)
    }

    /// Read the managed output and its lock without mutation or expiry cleanup.
    pub fn utxo_status(&self, outpoint: &OutPoint) -> (r: DomainResult<Option<UtxoStatus>>)
        ensures
            read_ok(
                opt_res(r),
                match lookup(self.store_model().utxos, outpoint@) {
                    None => None,
                    Some(u) => Some(status_of(u, lookup(self.store_model().locks, outpoint@))),
                },
                self.healthy(),
            ),
    {
        let utxo = match self.store.get_utxo(outpoint) {
            Err(e) => return Err(e),
            Ok(None) => return Ok(None),
            Ok(Some(u)) => u,
        };
        let lock = match self.store.get_lock(outpoint) {
            Err(e) => return Err(e),
            Ok(l) => l,
        };
        Ok(Some(UtxoStatus::from_records(utxo, lock)))
    }

    /// Whether a known output can currently be locked for selection.
    pub fn is_outpoint_selectable(&self, outpoint: &OutPoint) -> (r: DomainResult<bool>)
        ensures
            read_ok(
                match r {
                    Ok(b) => Ok::<bool, ErrorModel>(b),
                    Err(e) => Err(e@),
                },
                lookup(self.store_model().utxos, outpoint@) matches Some(u) && status_of(
                    u,
                    lookup(self.store_model().locks, outpoint@),
                ).unavailable_reason is None,
                self.healthy(),
            ),
    {
        match self.utxo_status(outpoint) {
            Err(e) => Err(e),
            Ok(None) => Ok(false),
            Ok(Some(status)) => Ok(status.is_selectable()),
        }
    }

    pub fn get_operation(&self, operation_id: &OperationId) -> (r: DomainResult<Option<PersistedOperation>>)
        ensures
            read_ok(opt_res(r), lookup(self.store_model().operations, operation_id@), self.healthy()),
    {
        self.store.get_operation(operation_id)
    }

    pub fn get_intent(&self, operation_id: &OperationId) -> (r: DomainResult<Option<OperationIntent>>)
        ensures
            read_ok(opt_res(r), lookup(self.store_model().intents, operation_id@), self.healthy()),
    {
        self.store.get_intent(operation_id)
    }

    /// Every recorded operation once, in the order the store lists them.
    pub fn list_operations(&self) -> (r: DomainResult<Vec<PersistedOperation>>)
        ensures
            match r {
                Ok(v) => crate::store::lists_operations(
                    crate::store::operations_model(v@),
                    self.store_model().operations,
                ),
                Err(e) => !self.healthy() && e@ is Storage,
            },
    {
        self.store.list_operations()
    }

    /// Every pending intent once, in the order the store lists them.
    pub fn pending_intents(&self) -> (r: DomainResult<Vec<OperationIntent>>)
        ensures
            match r {
                Ok(v) => crate::store::lists_intents(
                    crate::store::intents_model(v@),
                    self.store_model().pending_intents(),
                ),
                Err(e) => !self.healthy() && e@ is Storage,
            },
    {
        self.store.list_pending_intents()
    }

    pub fn current_tick(&self) -> (r: DomainResult<u64>)
        ensures
            match r {
                Ok(t) => t == self.store_model().tick,
                Err(e) => !self.healthy() && e@ is Storage,
            },
    {
        self.store.current_tick()
    }

    pub fn advance_tick(&mut self, delta: u64) -> (r: DomainResult<()>)
        ensures
            final(self).kept(&*old(self)),
            write_ok(
                unit_res(r),
                old(self).store_model(),
                final(self).store_model(),
                Ok(old(self).store_model().advance_tick(delta)),
                old(self).healthy(),
            ),
    {
        self.store.advance_tick(delta)
    }

    /// Plans reconciliation of `snapshot` against the recorded outputs and applies the plan.
    pub fn reconcile_snapshot(&mut self, snapshot: ObservationSnapshot) -> (r: DomainResult<ReconcilePlan>)
        ensures
            final(self).kept(&*old(self)),
            match r {
                Ok(p) => (exists|l: Seq<UtxoModel>|
                    lists_utxos(l, old(self).store_model().utxos) && actions_model(p.actions@)
                        == plan_spec(l, snapshot@)) && final(self).store_model()
                    == old(self).store_model().apply_reconciliation(actions_model(p.actions@)),
                Err(e) => !old(self).healthy() && e@ is Storage && final(self).store_model()
                    == old(self).store_model(),
            },
    {
        let plan = match ReconciliationPlanner::new(&self.store).plan(&snapshot) {
            Err(e) => return Err(e),
            Ok(p) => p,
        };
        match self.store.apply_reconciliation(plan.dup()) {
            Err(e) => Err(e),
            Ok(()) => Ok(plan),
        }
    }

    /// Checks capabilities and that every input is free or already held by the operation.
    fn validate_selection(&self, selection: &OperationSelection) -> (r: DomainResult<()>)
        ensures
            agrees(unit_res(r), selection_check(self.store_model(), selection@), self.healthy()),
    {
        match selection.validate_capabilities(&self.store) {
            Err(e) => return Err(e),
            Ok(()) => {},
        }
        let ghost m = self.store_model();
        let ghost id = selection@.operation_id;
        let ghost effects = selection@.effects;
        let mut i: usize = 0;
        assert(effects.skip(0) =~= effects);
        while i < selection.effects.len()
            invariant
                i <= selection.effects@.len(),
                m == self.store_model(),
                id == selection@.operation_id,
                effects == selection@.effects,
                capability_check(m, selection@) is Ok,
                inputs_check(m, id, effects) == inputs_check(m, id, effects.skip(i as int)),
            decreases selection.effects@.len() - i,
        {
            proof {
                assert(effects.skip(i as int).drop_first() =~= effects.skip(i + 1));
                assert(effects.skip(i as int)[0] == selection.effects@[i as int]@);
            }
            let outpoint = selection.effects[i].outpoint();
            let utxo = match self.store.get_utxo(outpoint) {
                Err(e) => return Err(e),
                Ok(None) => return Err(DomainError::UtxoNotFound(outpoint.dup())),
                Ok(Some(u)) => u,
            };
            let lock = match self.store.get_lock(outpoint) {
                Err(e) => return Err(e),
                Ok(l) => l,
            };
            let lock_present = lock.is_some();
            if !utxo.can_be_locked(lock_present) {
                let own_binding = match &utxo.operation_binding {
                    Some(b) => b.operation_id.same(&selection.operation_id) && b.phase
                        == OperationPhase::Selected,
                    None => false,
                };
                let own_lock = match &lock {
                    Some(l) => l.operation_id.same(&selection.operation_id),
                    None => false,
                };
                if !(own_binding && own_lock) {
                    if utxo.availability != Availability::Selectable {
                        return Err(
                            DomainError::UtxoUnavailable {
                                outpoint: outpoint.dup(),
                                availability: utxo.availability,
                            },
                        );
                    }
                    if utxo.observation_conflict.is_some() {
                        return Err(
                            DomainError::ObservationConflict {
                                outpoint: outpoint.dup(),
                                onchain_state: utxo.onchain_state,
                            },
                        );
                    }
                    let mut reason = String::from_str("utxo is not safely spendable: onchain_state=");
                    reason.append(utxo.onchain_state.debug_name());
                    reason.append(", lock_present=");
                    reason.append(if lock_present { "true" } else { "false" });
                    return Err(DomainError::UtxoPolicyBlocked { outpoint: outpoint.dup(), reason });
                }
            }
            i = i + 1;
        }
        assert(effects.skip(i as int) =~= Seq::<EffectModel>::empty());
        Ok(())
    }

    /// Applies the selection in the Selected phase after checking it.
    fn commit_selection(&mut self, selection: &OperationSelection) -> (r: DomainResult<()>)
        ensures
            final(self).kept(&*old(self)),
            match r {
                Ok(_) => commit_selection_spec(old(self).store_model(), selection@, old(self).owner())
                    == Ok::<StoreModel, ErrorModel>(final(self).store_model()),
                Err(e) => final(self).store_model() == old(self).store_model() && (commit_selection_spec(
                    old(self).store_model(),
                    selection@,
                    old(self).owner(),
                ) == Err::<StoreModel, ErrorModel>(e@) || (!old(self).healthy() && e@ is Storage)),
            },
    {
        match self.store.get_operation(&selection.operation_id) {
            Err(e) => return Err(e),
            Ok(Some(op)) => {
                if op.phase != OperationPhase::Selected {
                    return Err(
                        DomainError::InvalidOperationTransition {
                            operation_id: selection.operation_id.dup(),
                            from: op.phase,
                            to: OperationPhase::Selected,
                        },
                    );
                }
            },
            Ok(None) => {},
        }
        match self.validate_selection(selection) {
            Err(e) => return Err(e),
            Ok(()) => {},
        }
        self.store.apply_batch(
            StateBatch {
                selection: selection.dup(),
                phase: OperationPhase::Selected,
                owner: self.owner.clone(),
            },
        )
    }

    /// Whether the refusal only waits on another pending intent's lock.
    fn is_pending_lock_conflict(&self, operation_id: &OperationId, error: &DomainError) -> (r: DomainResult<
        bool,
    >)
        ensures
            agrees(
                match r {
                    Ok(b) => Ok::<bool, ErrorModel>(b),
                    Err(e) => Err(e@),
                },
                Ok(pending_lock_conflict(self.store_model(), operation_id@, error@)),
                self.healthy(),
            ),
    {
        let outpoint = match error {
            DomainError::UtxoUnavailable { outpoint, .. } => outpoint,
            DomainError::UtxoPolicyBlocked { outpoint, .. } => outpoint,
            _ => return Ok(false),
        };
        let lock = match self.store.get_lock(outpoint) {
            Err(e) => return Err(e),
            Ok(None) => return Ok(false),
            Ok(Some(l)) => l,
        };
        if lock.operation_id.same(operation_id) {
            return Ok(false);
        }
        match self.store.get_intent(&lock.operation_id) {
            Err(e) => Err(e),
            Ok(None) => Ok(false),
            Ok(Some(intent)) => Ok(intent.status == IntentStatus::Pending),
        }
    }

    /// Records the selection as a pending intent.
    pub fn persist_selection_intent(&mut self, selection: OperationSelection) -> (r: DomainResult<OperationIntent>)
        ensures
            final(self).kept(&*old(self)),
            match r {
                Ok(i) => old(self).store_model().persist_intent(selection@) == Ok::<
                    (IntentModel, StoreModel),
                    ErrorModel,
                >((i@, final(self).store_model())),
                Err(e) => final(self).store_model() == old(self).store_model() && (old(self).store_model().persist_intent(
                    selection@,
                ) == Err::<(IntentModel, StoreModel), ErrorModel>(e@) || (!old(self).healthy()
                    && e@ is Storage)),
            },
    {
        self.store.persist_intent(selection)
    }

    /// Applies a recorded intent and marks it committed; an intent that cannot
    /// be applied is rejected unless it only waits on another pending intent.
    pub fn commit_recorded_intent(&mut self, operation_id: &OperationId) -> (r: DomainResult<()>)
        ensures
            final(self).kept(&*old(self)),
            steps_ok(
                unit_res(r),
                final(self).store_model(),
                commit_spec(old(self).store_model(), operation_id@, old(self).owner()),
                old(self).healthy(),
            ),
    {
        let ghost m = self.store_model();
        let intent = match self.store.get_intent(operation_id) {
            Err(e) => return Err(e),
            Ok(None) => return Err(DomainError::IntentNotFound(operation_id.dup())),
            Ok(Some(i)) => i,
        };
        match intent.status {
            IntentStatus::Committed => return Ok(()),
            IntentStatus::Failed => return Err(DomainError::IntentNotPending(operation_id.dup())),
            IntentStatus::Pending => {},
        }
        match self.commit_selection(&intent.selection) {
            Ok(()) => {
                match self.store.mark_intent_committed(operation_id) {
                    Err(e) => Err(e),
                    Ok(()) => Ok(()),
                }
            },
            Err(err) => {
                if let DomainError::Storage(_) = err {
                    return Err(err);
                }
                let conflict = match self.is_pending_lock_conflict(operation_id, &err) {
                    Err(e) => return Err(e),
                    Ok(b) => b,
                };
                if !conflict {
                    match self.store.mark_intent_failed(operation_id) {
                        Err(e) => return Err(e),
                        Ok(()) => {},
                    }
                }
                Err(err)
            },
        }
    }

    /// Rejects a recorded intent that is still pending.
    pub fn fail_recorded_intent(&mut self, operation_id: &OperationId) -> (r: DomainResult<()>)
        ensures
            final(self).kept(&*old(self)),
            match r {
                Ok(_) => fail_spec(old(self).store_model(), operation_id@) == Ok::<StoreModel, ErrorModel>(
                    final(self).store_model(),
                ),
                Err(e) => final(self).store_model() == old(self).store_model() && (fail_spec(
                    old(self).store_model(),
                    operation_id@,
                ) == Err::<StoreModel, ErrorModel>(e@) || (!old(self).healthy() && e@ is Storage)),
            },
    {
        let intent = match self.store.get_intent(operation_id) {
            Err(e) => return Err(e),
            Ok(None) => return Err(DomainError::IntentNotFound(operation_id.dup())),
            Ok(Some(i)) => i,
        };
        match intent.status {
            IntentStatus::Committed => Err(DomainError::IntentNotPending(operation_id.dup())),
            IntentStatus::Failed => Ok(()),
            IntentStatus::Pending => self.store.mark_intent_failed(operation_id),
        }
    }

    /// Records the selection as an intent and commits it.
    pub fn apply_selection(&mut self, selection: &OperationSelection) -> (r: DomainResult<()>)
        ensures
            final(self).kept(&*old(self)),
            steps_ok(
                unit_res(r),
                final(self).store_model(),
                apply_spec(old(self).store_model(), selection@, old(self).owner()),
                old(self).healthy(),
            ),
    {
        match self.persist_selection_intent(selection.dup()) {
            Err(e) => return Err(e),
            Ok(_) => {},
        }
        self.commit_recorded_intent(&selection.operation_id)
    }

    /// Proposes a selection for a request without recording anything.
    pub fn propose_operation<R: IntoSelectionRequest>(&self, req: R) -> (r: DomainResult<OperationSelection>)
        ensures
            proposal_result(
                self.store_model(),
                self.healthy(),
                request_view(req.selection_request()),
                selection_res(r),
            ),
    {
        let sr = req.into_selection_request();
        let ghost rv = request_view(sr);
        let oreq = sr.into_operation_request();
        let ghost m = self.store_model();
        let ghost required = rv.purpose.spec_lock_purpose().required_set();
        let is_exact = match &oreq.selection.spec {
            InputSelectionSpec::ExactOutpoints { outpoints } => {
                if outpoints.len() == 0 {
                    return Err(
                        DomainError::InvalidRequest {
                            reason: String::from_str("exact selection requires at least one outpoint"),
                        },
                    );
                }
                match first_repeated(outpoints) {
                    Some(j) => {
                        let mut reason = String::from_str("exact selection includes duplicate outpoint: ");
                        let text = outpoints[j].to_string();
                        reason.append(text.as_str());
                        return Err(DomainError::InvalidRequest { reason });
                    },
                    None => {},
                }
                true
            },
            _ => false,
        };
        let account_id = &oreq.selection.account_id;
        let account = match self.store.get_account(account_id) {
            Err(e) => return Err(e),
            Ok(None) => return Err(DomainError::AccountNotFound(account_id.dup())),
            Ok(Some(a)) => a,
        };
        if !account.capabilities.contains_all(&oreq.selection.required_capabilities) {
            return Err(DomainError::MissingAccountCapabilities { account_id: account_id.dup() });
        }
        let ghost ids = account@.scopes;
        let mut eligible: Vec<WalletScopeId> = Vec::new();
        let mut i: usize = 0;
        assert(ids.take(0) =~= Seq::<Seq<char>>::empty());
        assert(scope_ids_model(eligible@) =~= Seq::<Seq<char>>::empty());
        while i < account.scopes.len()
            invariant
                i <= account.scopes@.len(),
                ids == account@.scopes,
                ids == scope_ids_model(account.scopes@),
                m == self.store_model(),
                account_id@ == rv.account_id,
                oreq.selection.required_capabilities@ == required,
                scope_ids_model(eligible@) == eligible_scopes(m, rv.account_id, ids.take(i as int), required),
            decreases account.scopes@.len() - i,
        {
            let scope_id = &account.scopes[i];
            let scope = match self.store.get_scope(scope_id) {
                Err(e) => return Err(e),
                Ok(s) => s,
            };
            proof {
                assert(ids.take(i + 1).drop_last() =~= ids.take(i as int));
                assert(ids.take(i + 1).last() == scope_id@);
            }
            let take = match &scope {
                Some(s) => s.account_id.same(account_id) && s.capabilities.contains_all(
                    &oreq.selection.required_capabilities,
                ),
                None => false,
            };
            if take {
                let ghost before = scope_ids_model(eligible@);
                eligible.push(scope_id.dup());
                assert(scope_ids_model(eligible@) =~= before.push(scope_id@));
            }
            i = i + 1;
        }
        assert(ids.take(i as int) =~= ids);
        if eligible.len() == 0 && !is_exact {
            return Err(DomainError::NoEligibleScope { account_id: account_id.dup() });
        }
        let ctx = SelectionContext {
            state: &self.store,
            account_id,
            account_scope_ids: account.scopes.as_slice(),
            eligible_scope_ids: eligible.as_slice(),
        };
        let selected = match SelectorRegistry.select(&ctx, &oreq.selection) {
            Err(e) => return Err(e),
            Ok(s) => s,
        };
        let selection = OperationSelection::from_request(&oreq, selected);
        Ok(selection)
    }

    /// Proposes a selection and records it as a pending intent.
    pub fn prepare_pending_operation<R: IntoSelectionRequest>(&mut self, req: R) -> (r: DomainResult<OperationSelection>)
        ensures
            final(self).kept(&*old(self)),
            (!old(self).healthy() && r is Err && r->Err_0@ is Storage) || exists|
                p: Result<SelectionModel, ErrorModel>,
            |
                proposal_result(
                    old(self).store_model(),
                    old(self).healthy(),
                    request_view(req.selection_request()),
                    p,
                ) && (selection_res(r), final(self).store_model()) == prepare_steps(
                    old(self).store_model(),
                    old(self).owner(),
                    p,
                    false,
                ),
    {
        let ghost rv = request_view(req.selection_request());
        let proposed = self.propose_operation(req);
        let ghost p = selection_res(proposed);
        let selection = match proposed {
            Err(e) => {
                assert(prepare_steps(old(self).store_model(), old(self).owner(), p, false) == (
                selection_res(Err::<OperationSelection, DomainError>(e)), self.store_model()));
                return Err(e);
            },
            Ok(s) => s,
        };
        match self.persist_selection_intent(selection.dup()) {
            Err(e) => {
                assert(prepare_steps(old(self).store_model(), old(self).owner(), p, false) == (
                selection_res(Err::<OperationSelection, DomainError>(e)), self.store_model())
                    || (!old(self).healthy() && e@ is Storage));
                return Err(e);
            },
            Ok(_) => {},
        }
        assert(prepare_steps(old(self).store_model(), old(self).owner(), p, false) == (
        selection_res(Ok::<OperationSelection, DomainError>(selection)), self.store_model()));
        Ok(selection)
    }

    /// Proposes a selection, records it as an intent and commits it.
    pub fn prepare_operation<R: IntoSelectionRequest>(&mut self, req: R) -> (r: DomainResult<OperationSelection>)
        ensures
            final(self).kept(&*old(self)),
            (!old(self).healthy() && r is Err && r->Err_0@ is Storage) || exists|
                p: Result<SelectionModel, ErrorModel>,
            |
                proposal_result(
                    old(self).store_model(),
                    old(self).healthy(),
                    request_view(req.selection_request()),
                    p,
                ) && (selection_res(r), final(self).store_model()) == prepare_steps(
                    old(self).store_model(),
                    old(self).owner(),
                    p,
                    true,
                ),
    {
        let ghost rv = request_view(req.selection_request());
        let proposed = self.propose_operation(req);
        let ghost p = selection_res(proposed);
        let selection = match proposed {
            Err(e) => {
                assert(prepare_steps(old(self).store_model(), old(self).owner(), p, true) == (
                selection_res(Err::<OperationSelection, DomainError>(e)), self.store_model()));
                return Err(e);
            },
            Ok(s) => s,
        };
        match self.persist_selection_intent(selection.dup()) {
            Err(e) => {
                assert(prepare_steps(old(self).store_model(), old(self).owner(), p, true) == (
                selection_res(Err::<OperationSelection, DomainError>(e)), self.store_model())
                    || (!old(self).healthy() && e@ is Storage));
                return Err(e);
            },
            Ok(_) => {},
        }
        let ghost m2 = self.store_model();
        match self.commit_recorded_intent(&selection.operation_id) {
            Err(e) => {
                assert(prepare_steps(old(self).store_model(), old(self).owner(), p, true) == (
                selection_res(Err::<OperationSelection, DomainError>(e)), self.store_model())
                    || (!old(self).healthy() && e@ is Storage));
                return Err(e);
            },
            Ok(()) => {},
        }
        assert(prepare_steps(old(self).store_model(), old(self).owner(), p, true) == (
        selection_res(Ok::<OperationSelection, DomainError>(selection)), self.store_model()));
        Ok(selection)
    }

    /// Replays one pending intent.
    fn recover_one(&mut self, intent: &OperationIntent) -> (r: DomainResult<RecoveryStep>)
        ensures
            final(self).kept(&*old(self)),
            steps_ok(
                match r {
                    Ok(s) => Ok::<RecoveryStep, ErrorModel>(s),
                    Err(e) => Err(e@),
                },
                final(self).store_model(),
                recover_step(old(self).store_model(), intent@, old(self).owner()),
                old(self).healthy(),
            ),
    {
        let id = &intent.selection.operation_id;
        match self.commit_selection(&intent.selection) {
            Ok(()) => {
                match self.store.mark_intent_committed(id) {
                    Err(e) => Err(e),
                    Ok(()) => Ok(RecoveryStep::Replayed),
                }
            },
            Err(err) => {
                if let DomainError::Storage(_) = err {
                    return Err(err);
                }
                let conflict = match self.is_pending_lock_conflict(id, &err) {
                    Err(e) => return Err(e),
                    Ok(b) => b,
                };
                if conflict {
                    return Ok(RecoveryStep::Deferred);
                }
                match self.store.mark_intent_failed(id) {
                    Err(e) => Err(e),
                    Ok(()) => Ok(RecoveryStep::Failed),
                }
            },
        }
    }

    /// Replays the pending intents in passes: each pass commits or rejects what
    /// it can and defers intents waiting on another pending intent's lock; a
    /// pass that makes no progress leaves the rest pending.
    pub fn recover_pending_intents(&mut self) -> (r: DomainResult<RecoveryReport>)
        ensures
            final(self).kept(&*old(self)),
            (!old(self).healthy() && r is Err && r->Err_0@ is Storage) || exists|l: Seq<IntentModel>|
                crate::store::lists_intents(l, old(self).store_model().pending_intents()) && (report_res(r), final(self).store_model()) == recover_all(
                    old(self).store_model(),
                    l,
                    old(self).owner(),
                    Seq::empty(),
                    Seq::empty(),
                ),
    {
        let mut pending = match self.store.list_pending_intents() {
            Err(e) => return Err(e),
            Ok(p) => p,
        };
        let ghost l = crate::store::intents_model(pending@);
        let ghost m0 = self.store_model();
        let ghost owner = self.owner();
        let mut replayed: Vec<OperationId> = Vec::new();
        let mut failed: Vec<OperationId> = Vec::new();
        assert(operation_ids_model(replayed@) =~= Seq::<Seq<char>>::empty());
        assert(operation_ids_model(failed@) =~= Seq::<Seq<char>>::empty());
        while pending.len() > 0
            invariant_except_break
                recover_all(m0, l, owner, Seq::empty(), Seq::empty()) == recover_all(
                    self.store_model(),
                    crate::store::intents_model(pending@),
                    owner,
                    operation_ids_model(replayed@),
                    operation_ids_model(failed@),
                ),
            invariant
                self.kept(&*old(self)),
                owner == self.owner(),
                m0 == old(self).store_model(),
                crate::store::lists_intents(l, m0.pending_intents()),
            ensures
                recover_all(m0, l, owner, Seq::empty(), Seq::empty()) == (
                    Ok::<(Seq<Seq<char>>, Seq<Seq<char>>), ErrorModel>(
                        (operation_ids_model(replayed@), operation_ids_model(failed@)),
                    ),
                    self.store_model(),
                ),
            decreases pending@.len(),
        {
            let ghost pm = crate::store::intents_model(pending@);
            let ghost m1 = self.store_model();
            let ghost rep1 = operation_ids_model(replayed@);
            let ghost fail1 = operation_ids_model(failed@);
            assert(recover_all(m0, l, owner, Seq::empty(), Seq::empty()) == recover_all(m1, pm, owner, rep1, fail1));
            let mut deferred: Vec<OperationIntent> = Vec::new();
            let mut progressed = false;
            let mut k: usize = 0;
            assert(pm.take(0) =~= Seq::<IntentModel>::empty());
            assert(crate::store::intents_model(deferred@) =~= Seq::<IntentModel>::empty());
            assert(rep1 + Seq::<Seq<char>>::empty() =~= rep1);
            assert(fail1 + Seq::<Seq<char>>::empty() =~= fail1);
            while k < pending.len()
                invariant
                    k <= pending@.len(),
                    pm == crate::store::intents_model(pending@),
                    self.kept(&*old(self)),
                    owner == self.owner(),
                    recover_pass(m1, pm.take(k as int), owner).err is None,
                    m0 == old(self).store_model(),
                    crate::store::lists_intents(l, m0.pending_intents()),
                    pm.len() > 0,
                    recover_all(m0, l, owner, Seq::empty(), Seq::empty()) == recover_all(m1, pm, owner, rep1, fail1),
                    recover_pass(m1, pm.take(k as int), owner).m == self.store_model(),
                    operation_ids_model(replayed@) == rep1 + recover_pass(m1, pm.take(k as int), owner).replayed,
                    operation_ids_model(failed@) == fail1 + recover_pass(m1, pm.take(k as int), owner).failed,
                    crate::store::intents_model(deferred@) == recover_pass(m1, pm.take(k as int), owner).deferred,
                    progressed == recover_pass(m1, pm.take(k as int), owner).progressed,
                decreases pending@.len() - k,
            {
                let intent = &pending[k];
                proof {
                    assert(pm.take(k + 1).drop_last() =~= pm.take(k as int));
                    assert(pm.take(k + 1).last() == intent@);
                }
                let step = match self.recover_one(intent) {
                    Err(e) => {
                        proof {
                            if !(!old(self).healthy() && e@ is Storage) {
                                assert(recover_pass(m1, pm.take(k + 1), owner).err == Some(e@));
                                lemma_pass_prefix_err(m1, pm, owner, k + 1);
                                assert(recover_pass(m1, pm, owner).err == Some(e@));
                                assert(recover_pass(m1, pm.take(k + 1), owner).m == self.store_model());
                                lemma_pass_prefix_err_state(m1, pm, owner, k + 1);
                                assert((report_res(Err::<RecoveryReport, DomainError>(e)), self.store_model())
                                    == recover_all(m0, l, owner, Seq::empty(), Seq::empty()));
                            }
                        }
                        return Err(e);
                    },
                    Ok(s) => s,
                };
                let ghost r_before = replayed@;
                let ghost f_before = failed@;
                let ghost d_before = deferred@;
                match step {
                    RecoveryStep::Replayed => {
                        replayed.push(intent.selection.operation_id.dup());
                        progressed = true;
                        assert(operation_ids_model(replayed@) =~= operation_ids_model(r_before).push(
                            intent@.selection.operation_id,
                        ));
                    },
                    RecoveryStep::Deferred => {
                        deferred.push(intent.dup());
                        assert(crate::store::intents_model(deferred@) =~= crate::store::intents_model(d_before).push(
                            intent@,
                        ));
                    },
                    RecoveryStep::Failed => {
                        failed.push(intent.selection.operation_id.dup());
                        progressed = true;
                        assert(operation_ids_model(failed@) =~= operation_ids_model(f_before).push(
                            intent@.selection.operation_id,
                        ));
                    },
                }
                k = k + 1;
            }
            assert(pm.take(k as int) =~= pm);
            proof {
                lemma_pass_sizes(m1, pm, owner);
            }
            if !progressed {
                break;
            }
            pending = deferred;
        }
        let report = RecoveryReport { replayed_operations: replayed, failed_operations: failed };
        assert((report_res(Ok::<RecoveryReport, DomainError>(report)), self.store_model()) == recover_all(
            m0,
            l,
            owner,
            Seq::empty(),
            Seq::empty(),
        ));
        Ok(report)
    }

    /// Releases selected operations whose age exceeds `max_age` ticks.
    pub fn cleanup_stale_reservations(&mut self, max_age: u64) -> (r: DomainResult<CleanupReport>)
        ensures
            final(self).kept(&*old(self)),
            (!old(self).healthy() && r is Err && r->Err_0@ is Storage) || exists|l: Seq<OperationModel>|
                crate::store::lists_operations(l, old(self).store_model().operations) && ({
                    let ids = stale_ids(l, old(self).store_model().tick, max_age);
                    match cleanup_res(r) {
                        Some((ops, outs)) => final(self).store_model() == release_all(old(self).store_model(), ids)
                            && ops == released_ids(old(self).store_model(), ids) && crate::store::enumerates(
                            outs,
                            released_set(old(self).store_model(), ids),
                        ) && released_in_groups(old(self).store_model(), ids, outs),
                        None => false,
                    }
                }),
    {
        let now = match self.store.current_tick() {
            Err(e) => return Err(e),
            Ok(t) => t,
        };
        let operations = match self.store.list_operations() {
            Err(e) => return Err(e),
            Ok(v) => v,
        };
        let ghost m0 = self.store_model();
        let ghost l = crate::store::operations_model(operations@);
        let mut stale: Vec<OperationId> = Vec::new();
        let mut i: usize = 0;
        assert(l.take(0) =~= Seq::<OperationModel>::empty());
        assert(operation_ids_model(stale@) =~= Seq::<Seq<char>>::empty());
        while i < operations.len()
            invariant
                i <= operations@.len(),
                l == crate::store::operations_model(operations@),
                operation_ids_model(stale@) == stale_ids(l.take(i as int), now, max_age),
            decreases operations@.len() - i,
        {
            let op = &operations[i];
            proof {
                assert(l.take(i + 1).drop_last() =~= l.take(i as int));
                assert(l.take(i + 1).last() == op@);
            }
            let age = if now >= op.updated_at {
                now - op.updated_at
            } else {
                0
            };
            if op.phase == OperationPhase::Selected && age > max_age {
                let ghost before = operation_ids_model(stale@);
                stale.push(op.operation_id.dup());
                assert(operation_ids_model(stale@) =~= before.push(op@.operation_id));
            }
            i = i + 1;
        }
        assert(l.take(i as int) =~= l);
        let ghost ids = operation_ids_model(stale@);
        let mut released_operations: Vec<OperationId> = Vec::new();
        let mut released_outpoints: Vec<OutPoint> = Vec::new();
        let mut j: usize = 0;
        assert(ids.take(0) =~= Seq::<Seq<char>>::empty());
        assert(operation_ids_model(released_operations@) =~= Seq::<Seq<char>>::empty());
        assert(released_in_groups(m0, ids.take(0), Seq::<OutPointModel>::empty()));
        assert(outpoints_model(released_outpoints@) =~= Seq::<OutPointModel>::empty());
        while j < stale.len()
            invariant
                j <= stale@.len(),
                ids == operation_ids_model(stale@),
                m0 == old(self).store_model(),
                self.kept(&*old(self)),
                crate::store::lists_operations(l, m0.operations),
                ids == stale_ids(l, now, max_age),
                now == m0.tick,
                self.store_model() == release_all(m0, ids.take(j as int)),
                operation_ids_model(released_operations@) == released_ids(m0, ids.take(j as int)),
                crate::store::enumerates(outpoints_model(released_outpoints@), released_set(m0, ids.take(j as int))),
                released_in_groups(m0, ids.take(j as int), outpoints_model(released_outpoints@)),
            decreases stale@.len() - j,
        {
            let id = &stale[j];
            proof {
                assert(ids.take(j + 1).drop_last() =~= ids.take(j as int));
                assert(ids.take(j + 1).last() == id@);
            }
            let ghost mm = self.store_model();
            match self.store.release_selected_operation(id) {
                Err(e) => return Err(e),
                Ok(None) => {
                    assert(release_all(m0, ids.take(j + 1).drop_last()) == mm);
                    assert(released_in_groups(m0, ids.take(j + 1), outpoints_model(released_outpoints@)));
                },
                Ok(Some(released)) => {
                    let ghost before_ops = operation_ids_model(released_operations@);
                    let ghost before_outs = outpoints_model(released_outpoints@);
                    released_operations.push(id.dup());
                    assert(operation_ids_model(released_operations@) =~= before_ops.push(id@));
                    let mut k: usize = 0;
                    while k < released.len()
                        invariant
                            k <= released@.len(),
                            outpoints_model(released_outpoints@) == before_outs + outpoints_model(released@).take(k as int),
                        decreases released@.len() - k,
                    {
                        let ghost b = outpoints_model(released_outpoints@);
                        released_outpoints.push(released[k].dup());
                        assert(outpoints_model(released_outpoints@) =~= b.push(released@[k as int]@));
                        assert(outpoints_model(released@).take(k + 1) =~= outpoints_model(released@).take(k as int).push(
                            released@[k as int]@,
                        ));
                        assert(before_outs + outpoints_model(released@).take(k + 1) =~= (before_outs
                            + outpoints_model(released@).take(k as int)).push(released@[k as int]@));
                        k = k + 1;
                    }
                    assert(outpoints_model(released@).take(k as int) =~= outpoints_model(released@));
                    proof {
                        let chunk = outpoints_model(released@);
                        let now_outs = before_outs + chunk;
                        assert(now_outs.take(before_outs.len() as int) =~= before_outs);
                        assert(now_outs.skip(before_outs.len() as int) =~= chunk);
                        assert(released_in_groups(m0, ids.take(j + 1).drop_last(), now_outs.take(before_outs.len() as int)));
                        assert(release_all(m0, ids.take(j + 1).drop_last()) == mm);
                        assert(is_selected(mm, ids.take(j + 1).last()));
                        assert(crate::store::enumerates(now_outs.skip(before_outs.len() as int), mm.bound_outpoints(id@)));
                        let idj = ids.take(j + 1);
                        let kk = before_outs.len() as int;
                        assert(idj.len() > 0);
                        assert(0 <= kk <= now_outs.len() && released_in_groups(m0, idj.drop_last(), now_outs.take(kk))
                            && crate::store::enumerates(now_outs.skip(kk), mm.bound_outpoints(idj.last())));
                        lemma_groups_step(m0, idj, now_outs, kk);
                        assert forall|x: OutPointModel| before_outs.contains(x) implies !chunk.contains(x) by {
                            lemma_released_unbound(m0, ids.take(j as int), x);
                        }
                        lemma_concat_no_dup(before_outs, chunk);
                        assert forall|x: OutPointModel| #[trigger] (before_outs + chunk).contains(x)
                            <==> released_set(m0, ids.take(j + 1)).contains(x) by {
                            if (before_outs + chunk).contains(x) {
                                let t = choose|t: int| 0 <= t < (before_outs + chunk).len() && (before_outs
                                    + chunk)[t] == x;
                                if t < before_outs.len() {
                                    assert(before_outs.contains(x));
                                } else {
                                    assert(chunk[t - before_outs.len()] == x);
                                    assert(chunk.contains(x));
                                }
                            }
                            if before_outs.contains(x) {
                                let t = choose|t: int| 0 <= t < before_outs.len() && before_outs[t] == x;
                                assert((before_outs + chunk)[t] == x);
                            }
                            if chunk.contains(x) {
                                let t = choose|t: int| 0 <= t < chunk.len() && chunk[t] == x;
                                assert((before_outs + chunk)[before_outs.len() + t] == x);
                            }
                        }
                    }
                },
            }
            j = j + 1;
        }
        assert(ids.take(j as int) =~= ids);
        let report = CleanupReport { released_operations, released_outpoints };
        assert(crate::store::lists_operations(l, old(self).store_model().operations));
        Ok(report)
    }

    /// Atomically releases a reservation only if it is still Selected. Automatic
    /// expiry must use this path so it cannot cancel a concurrently advanced operation.
    pub fn release_selected_operation(&mut self, operation_id: &OperationId) -> (r: DomainResult<
        Option<Vec<OutPoint>>,
    >)
        ensures
            final(self).kept(&*old(self)),
            match r {
                Ok(None) => final(self).store_model() == old(self).store_model() && !is_selected(
                    old(self).store_model(),
                    operation_id@,
                ),
                Ok(Some(v)) => is_selected(old(self).store_model(), operation_id@) && final(self).store_model()
                    == old(self).store_model().release(operation_id@, OperationPhase::RollingBack)
                    && crate::store::enumerates(outpoints_model(v@), old(self).store_model().bound_outpoints(operation_id@)),
                Err(e) => final(self).store_model() == old(self).store_model() && !old(self).healthy()
                    && e@ is Storage,
            },
    {
        self.store.release_selected_operation(operation_id)
    }

    fn current_operation(&self, operation_id: &OperationId) -> (r: DomainResult<PersistedOperation>)
        ensures
            match r {
                Ok(op) => self.store_model().operations.contains_key(operation_id@) && op@
                    == self.store_model().operations[operation_id@],
                Err(e) => (!self.store_model().operations.contains_key(operation_id@) && e@
                    == ErrorModel::OperationNotFound(operation_id@)) || (!self.healthy() && e@ is Storage),
            },
    {
        match self.store.get_operation(operation_id) {
            Err(e) => Err(e),
            Ok(None) => Err(DomainError::OperationNotFound(operation_id.dup())),
            Ok(Some(op)) => Ok(op),
        }
    }

    /// Cancels an operation in any phase, releasing its locks and bindings;
    /// an operation already rolling back is left alone.
    pub fn release_operation(&mut self, operation_id: &OperationId) -> (r: DomainResult<Vec<OutPoint>>)
        ensures
            final(self).kept(&*old(self)),
            match r {
                Ok(v) => old(self).store_model().operations.contains_key(operation_id@) && if old(
                    self,
                ).store_model().operations[operation_id@].phase == OperationPhase::RollingBack {
                    v@.len() == 0 && final(self).store_model() == old(self).store_model()
                } else {
                    final(self).store_model() == old(self).store_model().release(
                        operation_id@,
                        OperationPhase::RollingBack,
                    ) && crate::store::enumerates(
                        outpoints_model(v@),
                        old(self).store_model().bound_outpoints(operation_id@),
                    )
                },
                Err(e) => final(self).store_model() == old(self).store_model() && ((
                !old(self).store_model().operations.contains_key(operation_id@) && e@
                    == ErrorModel::OperationNotFound(operation_id@)) || (!old(self).healthy() && e@ is Storage)),
            },
    {
        let operation = match self.current_operation(operation_id) {
            Err(e) => return Err(e),
            Ok(op) => op,
        };
        if operation.phase == OperationPhase::RollingBack {
            return Ok(Vec::new());
        }
        self.store.release_operation(operation_id, OperationPhase::RollingBack)
    }

    /// Checks that the actual inputs are exactly the planned ones, in any order.
    pub fn verify_planned_inputs(&self, operation_id: &OperationId, actual_outpoints: Vec<OutPoint>) -> (r: DomainResult<()>)
        ensures
            agrees(
                unit_res(r),
                match lookup(self.store_model().intents, operation_id@) {
                    None => Err(ErrorModel::IntentNotFound(operation_id@)),
                    Some(i) => if i.selection.selected_outpoints.to_set() == outpoints_model(actual_outpoints@).to_set() {
                        Ok(())
                    } else {
                        Err(ErrorModel::PlannedInputsMismatch { operation_id: operation_id@ })
                    },
                },
                self.healthy(),
            ),
    {
        let planned = match self.store.get_intent(operation_id) {
            Err(e) => return Err(e),
            Ok(None) => return Err(DomainError::IntentNotFound(operation_id.dup())),
            Ok(Some(i)) => i,
        };
        if same_outpoint_sets(&planned.selection.selected_outpoints, &actual_outpoints) {
            Ok(())
        } else {
            Err(DomainError::PlannedInputsMismatch { operation_id: operation_id.dup() })
        }
    }

    /// Advances a committed operation while retaining its input ownership.
    /// Leaving Selected requires the actual inputs to match the planned ones.
    /// Returns the outpoints whose bindings advanced; repeating the current phase returns none.
    pub fn complete_operation(
        &mut self,
        operation_id: &OperationId,
        completed_phase: OperationPhase,
        actual_outpoints: Vec<OutPoint>,
    ) -> (r: DomainResult<Vec<OutPoint>>)
        ensures
            final(self).kept(&*old(self)),
            match r {
                Ok(v) => match complete_pre(
                    old(self).store_model(),
                    operation_id@,
                    completed_phase,
                    outpoints_model(actual_outpoints@),
                ) {
                    Ok(false) => v@.len() == 0 && final(self).store_model() == old(self).store_model(),
                    Ok(true) => old(self).store_model().complete(operation_id@, completed_phase) == Ok::<
                        (bool, StoreModel),
                        ErrorModel,
                    >((true, final(self).store_model())) && crate::store::enumerates(
                        outpoints_model(v@),
                        old(self).store_model().bound_outpoints(operation_id@),
                    ),
                    Err(_) => false,
                },
                Err(e) => final(self).store_model() == old(self).store_model() && (complete_pre(
                    old(self).store_model(),
                    operation_id@,
                    completed_phase,
                    outpoints_model(actual_outpoints@),
                ) == Err::<bool, ErrorModel>(e@) || (!old(self).healthy() && e@ is Storage)),
            },
    {
        let operation = match self.current_operation(operation_id) {
            Err(e) => return Err(e),
            Ok(op) => op,
        };
        let intent = match self.store.get_intent(operation_id) {
            Err(e) => return Err(e),
            Ok(None) => return Err(DomainError::IntentNotFound(operation_id.dup())),
            Ok(Some(i)) => i,
        };
        if intent.status != IntentStatus::Committed {
            return Err(DomainError::IntentNotCommitted(operation_id.dup()));
        }
        match operation.validate_advance(completed_phase) {
            Err(e) => return Err(e),
            Ok(false) => return Ok(Vec::new()),
            Ok(true) => {},
        }
        if operation.phase == OperationPhase::Selected {
            match self.verify_planned_inputs(operation_id, actual_outpoints) {
                Err(e) => return Err(e),
                Ok(()) => {},
            }
        }
        self.store.complete_operation(operation_id, completed_phase)
    }
}

} // verus!
