//! Simulation helpers: state invariant checks over an orchestrator's store,
//! and step metrics.
use vstd::prelude::*;
use vstd::string::StringExecFns;

use crate::errors::DomainResult;
use crate::ids::OperationId;
use crate::lock::LockModel;
use crate::memory::InMemoryStateStore;
use crate::operation::OperationPhase;
use crate::orchestrator::Orchestrator;
use crate::outpoint::outpoint_text;
use crate::state::{Availability, OnchainState};
use crate::store::{lists_utxos, lookup, utxos_model, StateStore, StoreModel};
use crate::utxo::{ManagedUtxo, UtxoModel};

verus! {

#[derive(Debug, Clone, PartialEq, Eq, Structural)]
pub enum InvariantViolationKind {
    ReservedWithoutLock,
    ReservedWithoutBinding,
    SelectableWithLock,
    SelectableWithBinding,
    SelectableWithConflict,
    SelectableWhileUnconfirmed,
    ReleasedOperationStillBound,
    LifecycleStateMismatch,
}

#[derive(Debug, Clone, PartialEq, Eq)]
pub struct InvariantViolation {
    pub step: usize,
    pub kind: InvariantViolationKind,
    pub detail: String,
}

pub struct ViolationModel {
    pub step: usize,
    pub kind: InvariantViolationKind,
    pub detail: Seq<char>,
}

impl View for InvariantViolation {
    type V = ViolationModel;

    open spec fn view(&self) -> ViolationModel {
        ViolationModel { step: self.step, kind: self.kind, detail: self.detail@ }
    }
}

pub open spec fn violations_model(s: Seq<InvariantViolation>) -> Seq<ViolationModel> {
    s.map_values(|v: InvariantViolation| v@)
}

pub open spec fn one(step: usize, kind: InvariantViolationKind, detail: Seq<char>) -> Seq<ViolationModel> {
    seq![ViolationModel { step, kind, detail }]
}

pub open spec fn when(c: bool, s: Seq<ViolationModel>) -> Seq<ViolationModel> {
    if c {
        s
    } else {
        Seq::empty()
    }
}

/// The violations one recorded output shows, given its lock: a reserved
/// output must be bound and locked; a selectable one must be unlocked,
/// unbound, free of conflicts and confirmed.
pub open spec fn output_violations(step: usize, u: UtxoModel, lock: Option<LockModel>) -> Seq<ViolationModel> {
    let text = outpoint_text(u.outpoint);
    match u.availability {
        Availability::Reserved => when(
            u.operation_binding is None,
            one(step, InvariantViolationKind::ReservedWithoutBinding, text),
        ) + when(lock is None, one(step, InvariantViolationKind::ReservedWithoutLock, text)),
        Availability::Selectable => when(lock is Some, one(step, InvariantViolationKind::SelectableWithLock, text))
            + when(
            u.operation_binding is Some,
            one(step, InvariantViolationKind::SelectableWithBinding, text),
        ) + when(
            u.observation_conflict is Some,
            one(step, InvariantViolationKind::SelectableWithConflict, text),
        ) + when(
            u.onchain_state != OnchainState::Confirmed,
            one(
                step,
                InvariantViolationKind::SelectableWhileUnconfirmed,
                text + ":"@ + u.onchain_state.debug_text(),
            ),
        ),
        _ => Seq::empty(),
    }
}

/// The violations of the listed outputs, in listing order.
pub open spec fn state_violations(step: usize, m: StoreModel, l: Seq<UtxoModel>) -> Seq<ViolationModel>
    decreases l.len(),
{
    if l.len() == 0 {
        Seq::empty()
    } else {
        state_violations(step, m, l.drop_last()) + output_violations(
            step,
            l.last(),
            lookup(m.locks, l.last().outpoint),
        )
    }
}

/// The listed outputs still bound to operation `id`, in listing order.
pub open spec fn bound_violations(step: usize, id: Seq<char>, l: Seq<UtxoModel>) -> Seq<ViolationModel>
    decreases l.len(),
{
    if l.len() == 0 {
        Seq::empty()
    } else {
        bound_violations(step, id, l.drop_last()) + when(
            l.last().operation_binding matches Some(b) && b.operation_id == id,
            one(
                step,
                InvariantViolationKind::ReleasedOperationStillBound,
                id + ":"@ + outpoint_text(l.last().outpoint),
            ),
        )
    }
}

/// A released operation that is recorded must be rolling back.
pub open spec fn phase_violations(step: usize, m: StoreModel, id: Seq<char>) -> Seq<ViolationModel> {
    match lookup(m.operations, id) {
        Some(op) => when(
            op.phase != OperationPhase::RollingBack,
            one(
                step,
                InvariantViolationKind::ReleasedOperationStillBound,
                id + ":phase="@ + op.phase.debug_text(),
            ),
        ),
        None => Seq::empty(),
    }
}

/// The violations of the released operations, each checked against its own listing of the outputs.
pub open spec fn released_violations(
    step: usize,
    m: StoreModel,
    ids: Seq<Seq<char>>,
    ls: Seq<Seq<UtxoModel>>,
) -> Seq<ViolationModel>
    decreases ids.len(),
{
    if ids.len() == 0 {
        Seq::empty()
    } else {
        released_violations(step, m, ids.drop_last(), ls) + bound_violations(step, ids.last(), ls[ids.len() - 1])
            + phase_violations(step, m, ids.last())
    }
}

pub open spec fn operation_ids_model(s: Seq<OperationId>) -> Seq<Seq<char>> {
    s.map_values(|id: OperationId| id@)
}

/// Every listing in `ls` lists the outputs of `m`.
pub open spec fn all_list(ls: Seq<Seq<UtxoModel>>, m: StoreModel) -> bool {
    forall|i: int| 0 <= i < ls.len() ==> lists_utxos(#[trigger] ls[i], m.utxos)
}

/// The violations found in state `m` whose outputs a store lists as `l`,
/// for the released operations `ids`: those of the state, then those of each
/// released operation in order.
pub open spec fn invariant_report(step: usize, m: StoreModel, l: Seq<UtxoModel>, ids: Seq<Seq<char>>) -> Seq<
    ViolationModel,
> {
    state_violations(step, m, l) + released_violations(step, m, ids, Seq::new(ids.len(), |i: int| l))
}

#[derive(Debug, Default, Clone, Copy)]
pub struct InvariantChecker;

impl InvariantChecker {
    /// The violations of the output listing `outputs`.
    fn state_checks<S: StateStore>(step: usize, orchestrator: &Orchestrator<S>, outputs: &Vec<ManagedUtxo>) -> (r:
        DomainResult<Vec<InvariantViolation>>)
        ensures
            match r {
                Ok(v) => violations_model(v@) == state_violations(
                    step,
                    orchestrator.store_model(),
                    utxos_model(outputs@),
                ),
                Err(e) => !orchestrator.healthy() && e@ is Storage,
            },
    {
        let ghost m = orchestrator.store_model();
        let ghost l = utxos_model(outputs@);
        let mut violations: Vec<InvariantViolation> = Vec::new();
        let mut i: usize = 0;
        assert(l.take(0) =~= Seq::<UtxoModel>::empty());
        assert(violations_model(violations@) =~= Seq::<ViolationModel>::empty());
        while i < outputs.len()
            invariant
                i <= outputs@.len(),
                l == utxos_model(outputs@),
                m == orchestrator.store_model(),
                violations_model(violations@) == state_violations(step, m, l.take(i as int)),
            decreases outputs@.len() - i,
        {
            proof {
                assert(l.take(i + 1).drop_last() =~= l.take(i as int));
                assert(l.take(i + 1).last() == outputs@[i as int]@);
            }
            let utxo = &outputs[i];
            let ghost before = violations_model(violations@);
            match utxo.availability {
                Availability::Reserved => {
                    if utxo.operation_binding.is_none() {
                        violations.push(
                            InvariantViolation {
                                step,
                                kind: InvariantViolationKind::ReservedWithoutBinding,
                                detail: utxo.outpoint.to_string(),
                            },
                        );
                    }
                    let lock = match orchestrator.get_lock(&utxo.outpoint) {
                        Err(e) => return Err(e),
                        Ok(l) => l,
                    };
                    if lock.is_none() {
                        violations.push(
                            InvariantViolation {
                                step,
                                kind: InvariantViolationKind::ReservedWithoutLock,
                                detail: utxo.outpoint.to_string(),
                            },
                        );
                    }
                },
                Availability::Selectable => {
                    let lock = match orchestrator.get_lock(&utxo.outpoint) {
                        Err(e) => return Err(e),
                        Ok(l) => l,
                    };
                    if lock.is_some() {
                        violations.push(
                            InvariantViolation {
                                step,
                                kind: InvariantViolationKind::SelectableWithLock,
                                detail: utxo.outpoint.to_string(),
                            },
                        );
                    }
                    if utxo.operation_binding.is_some() {
                        violations.push(
                            InvariantViolation {
                                step,
                                kind: InvariantViolationKind::SelectableWithBinding,
                                detail: utxo.outpoint.to_string(),
                            },
                        );
                    }
                    if utxo.observation_conflict.is_some() {
                        violations.push(
                            InvariantViolation {
                                step,
                                kind: InvariantViolationKind::SelectableWithConflict,
                                detail: utxo.outpoint.to_string(),
                            },
                        );
                    }
                    if utxo.onchain_state != OnchainState::Confirmed {
                        let mut detail = utxo.outpoint.to_string();
                        detail.append(":");
                        detail.append(utxo.onchain_state.debug_name());
                        violations.push(
                            InvariantViolation {
                                step,
                                kind: InvariantViolationKind::SelectableWhileUnconfirmed,
                                detail,
                            },
                        );
                    }
                },
                _ => {},
            }
            assert(violations_model(violations@) =~= before + output_violations(
                step,
                outputs@[i as int]@,
                lookup(m.locks, outputs@[i as int]@.outpoint),
            ));
            i = i + 1;
        }
        assert(l.take(i as int) =~= l);
        Ok(violations)
    }

    /// The outputs of `outputs` still bound to the released operation.
    fn bound_checks(step: usize, operation_id: &OperationId, outputs: &Vec<ManagedUtxo>) -> (r: Vec<
        InvariantViolation,
    >)
        ensures
            violations_model(r@) == bound_violations(step, operation_id@, utxos_model(outputs@)),
    {
        let ghost l = utxos_model(outputs@);
        let mut violations: Vec<InvariantViolation> = Vec::new();
        let mut i: usize = 0;
        assert(l.take(0) =~= Seq::<UtxoModel>::empty());
        assert(violations_model(violations@) =~= Seq::<ViolationModel>::empty());
        while i < outputs.len()
            invariant
                i <= outputs@.len(),
                l == utxos_model(outputs@),
                violations_model(violations@) == bound_violations(step, operation_id@, l.take(i as int)),
            decreases outputs@.len() - i,
        {
            proof {
                assert(l.take(i + 1).drop_last() =~= l.take(i as int));
                assert(l.take(i + 1).last() == outputs@[i as int]@);
            }
            let ghost before = violations_model(violations@);
            let bound = match &outputs[i].operation_binding {
                Some(b) => b.operation_id.same(operation_id),
                None => false,
            };
            if bound {
                let mut detail = operation_id.to_string();
                detail.append(":");
                let text = outputs[i].outpoint.to_string();
                detail.append(text.as_str());
                violations.push(
                    InvariantViolation { step, kind: InvariantViolationKind::ReleasedOperationStillBound, detail },
                );
            }
            assert(violations_model(violations@) =~= before + when(
                l[i as int].operation_binding matches Some(b) && b.operation_id == operation_id@,
                one(
                    step,
                    InvariantViolationKind::ReleasedOperationStillBound,
                    operation_id@ + ":"@ + outpoint_text(l[i as int].outpoint),
                ),
            ));
            i = i + 1;
        }
        assert(l.take(i as int) =~= l);
        violations
    }

    /// Checks the store's outputs and the released operations: reserved
    /// outputs are bound and locked, selectable ones are unlocked, unbound,
    /// conflict-free and confirmed, and no output stays bound to a released
    /// operation, which itself must be rolling back. Violations come in the
    /// order found; each listing of the outputs is in the store's order.
    pub fn check<S: StateStore>(
        &self,
        step: usize,
        orchestrator: &Orchestrator<S>,
        released_operations: &[OperationId],
    ) -> (r: DomainResult<Vec<InvariantViolation>>)
        ensures
            match r {
                Ok(v) => exists|l0: Seq<UtxoModel>, ls: Seq<Seq<UtxoModel>>|
                    #![trigger lists_utxos(l0, orchestrator.store_model().utxos), all_list(ls, orchestrator.store_model())]
                    lists_utxos(l0, orchestrator.store_model().utxos) && ls.len() == released_operations@.len()
                        && all_list(ls, orchestrator.store_model()) && violations_model(v@) == state_violations(
                        step,
                        orchestrator.store_model(),
                        l0,
                    ) + released_violations(
                        step,
                        orchestrator.store_model(),
                        operation_ids_model(released_operations@),
                        ls,
                    ),
                Err(e) => !orchestrator.healthy() && e@ is Storage,
            },
            r is Ok ==> violations_model(r->Ok_0@) == invariant_report(
                step,
                orchestrator.store_model(),
                orchestrator.utxo_listing(),
                operation_ids_model(released_operations@),
            ),
    {
        let ghost m = orchestrator.store_model();
        let ghost ids = operation_ids_model(released_operations@);
        let outputs = match orchestrator.list_utxos() {
            Err(e) => return Err(e),
            Ok(v) => v,
        };
        let ghost l0 = utxos_model(outputs@);
        let mut violations = match Self::state_checks(step, orchestrator, &outputs) {
            Err(e) => return Err(e),
            Ok(v) => v,
        };
        let ghost head = violations_model(violations@);
        let ghost mut ls: Seq<Seq<UtxoModel>> = Seq::empty();
        let mut j: usize = 0;
        assert(ids.take(0) =~= Seq::<Seq<char>>::empty());
        assert(head + Seq::<ViolationModel>::empty() =~= head);
        while j < released_operations.len()
            invariant
                j <= released_operations@.len(),
                m == orchestrator.store_model(),
                ids == operation_ids_model(released_operations@),
                ls.len() == j,
                all_list(ls, m),
                l0 == orchestrator.utxo_listing(),
                forall|i: int| 0 <= i < ls.len() ==> #[trigger] ls[i] == l0,
                head == state_violations(step, m, l0),
                violations_model(violations@) == head + released_violations(step, m, ids.take(j as int), ls),
            decreases released_operations@.len() - j,
        {
            let operation_id = &released_operations[j];
            let listing = match orchestrator.list_utxos() {
                Err(e) => return Err(e),
                Ok(v) => v,
            };
            let bound = Self::bound_checks(step, operation_id, &listing);
            let ghost before = violations_model(violations@);
            let ghost prev_ls = ls;
            proof {
                ls = ls.push(utxos_model(listing@));
                assert(ids.take(j + 1).drop_last() =~= ids.take(j as int));
                assert(ids.take(j + 1).last() == operation_id@);
                lemma_released_prefix(step, m, ids.take(j as int), prev_ls, ls);
            }
            let mut k: usize = 0;
            while k < bound.len()
                invariant
                    k <= bound@.len(),
                    violations_model(violations@) == before + violations_model(bound@).take(k as int),
                decreases bound@.len() - k,
            {
                let ghost v0 = violations@;
                violations.push(
                    InvariantViolation {
                        step: bound[k].step,
                        kind: bound[k].kind.dup(),
                        detail: bound[k].detail.clone(),
                    },
                );
                proof {
                    assert(violations@ =~= v0.push(violations@.last()));
                    assert(violations@.last()@ == bound@[k as int]@);
                    assert(violations_model(violations@) =~= violations_model(v0).push(bound@[k as int]@));
                    assert(violations_model(bound@).take(k + 1) =~= violations_model(bound@).take(k as int).push(
                        bound@[k as int]@,
                    ));
                }
                k = k + 1;
                assert(violations_model(violations@) =~= before + violations_model(bound@).take(k as int));
            }
            assert(violations_model(bound@).take(k as int) =~= violations_model(bound@));
            let ghost mid = violations_model(violations@);
            match orchestrator.get_operation(operation_id) {
                Err(e) => return Err(e),
                Ok(None) => {},
                Ok(Some(operation)) => {
                    if operation.phase != OperationPhase::RollingBack {
                        let mut detail = operation_id.to_string();
                        detail.append(":phase=");
                        detail.append(operation.phase.debug_name());
                        violations.push(
                            InvariantViolation {
                                step,
                                kind: InvariantViolationKind::ReleasedOperationStillBound,
                                detail,
                            },
                        );
                    }
                },
            }
            assert(violations_model(violations@) =~= mid + phase_violations(step, m, operation_id@));
            j = j + 1;
        }
        assert(ids.take(j as int) =~= ids);
        assert(ls =~= Seq::new(ids.len(), |i: int| l0));
        Ok(violations)
    }
}

/// `released_violations` reads only the listings of the operations it is given.
proof fn lemma_released_prefix(
    step: usize,
    m: StoreModel,
    ids: Seq<Seq<char>>,
    a: Seq<Seq<UtxoModel>>,
    b: Seq<Seq<UtxoModel>>,
)
    requires
        ids.len() <= a.len(),
        ids.len() <= b.len(),
        forall|i: int| 0 <= i < ids.len() ==> a[i] == b[i],
    ensures
        released_violations(step, m, ids, a) == released_violations(step, m, ids, b),
    decreases ids.len(),
{
    if ids.len() > 0 {
        lemma_released_prefix(step, m, ids.drop_last(), a, b);
    }
}

impl InvariantViolationKind {
    /// A copy of this kind.
    pub fn dup(&self) -> (r: Self)
        ensures
            r == *self,
    {
        match self {
            InvariantViolationKind::ReservedWithoutLock => InvariantViolationKind::ReservedWithoutLock,
            InvariantViolationKind::ReservedWithoutBinding => InvariantViolationKind::ReservedWithoutBinding,
            InvariantViolationKind::SelectableWithLock => InvariantViolationKind::SelectableWithLock,
            InvariantViolationKind::SelectableWithBinding => InvariantViolationKind::SelectableWithBinding,
            InvariantViolationKind::SelectableWithConflict => InvariantViolationKind::SelectableWithConflict,
            InvariantViolationKind::SelectableWhileUnconfirmed => InvariantViolationKind::SelectableWhileUnconfirmed,
            InvariantViolationKind::ReleasedOperationStillBound => InvariantViolationKind::ReleasedOperationStillBound,
            InvariantViolationKind::LifecycleStateMismatch => InvariantViolationKind::LifecycleStateMismatch,
        }
    }
}

/// Checks the invariants of an in-memory orchestrator: the same report, over
/// the same listing, as `InvariantChecker::check`.
pub fn check_invariants(
    step: usize,
    orchestrator: &Orchestrator<InMemoryStateStore>,
    released_operations: &[OperationId],
) -> (r: DomainResult<Vec<InvariantViolation>>)
    ensures
        match r {
            Ok(v) => exists|l0: Seq<UtxoModel>, ls: Seq<Seq<UtxoModel>>|
                #![trigger lists_utxos(l0, orchestrator.store_model().utxos), all_list(ls, orchestrator.store_model())]
                lists_utxos(l0, orchestrator.store_model().utxos) && ls.len() == released_operations@.len()
                    && all_list(ls, orchestrator.store_model()) && violations_model(v@) == state_violations(
                    step,
                    orchestrator.store_model(),
                    l0,
                ) + released_violations(
                    step,
                    orchestrator.store_model(),
                    operation_ids_model(released_operations@),
                    ls,
                ),
            Err(e) => !orchestrator.healthy() && e@ is Storage,
        },
        r is Ok ==> violations_model(r->Ok_0@) == invariant_report(
            step,
            orchestrator.store_model(),
            orchestrator.utxo_listing(),
            operation_ids_model(released_operations@),
        ),
{
    InvariantChecker.check(step, orchestrator, released_operations)
}

/// Counters one simulation step adds.
#[derive(Debug, Clone, PartialEq, Eq, Default)]
pub struct MetricsDelta {
    pub prepare_successes: u64,
    pub prepare_failures: u64,
    pub committed_operations: u64,
    pub failed_operations: u64,
    pub cleanup_release_count: u64,
    pub replay_successes: u64,
    pub replay_failures: u64,
    pub lock_conflicts: u64,
    pub crash_count: u64,
    pub selected_input_count: u64,
}

/// Counters accumulated over a simulation.
#[derive(Debug, Clone, PartialEq, Eq, Default)]
pub struct SimMetrics {
    pub prepare_successes: u64,
    pub prepare_failures: u64,
    pub committed_operations: u64,
    pub failed_operations: u64,
    pub cleanup_release_count: u64,
    pub replay_successes: u64,
    pub replay_failures: u64,
    pub lock_conflicts: u64,
    pub crash_count: u64,
    pub total_selected_input_count: u64,
    pub steps: usize,
}

impl SimMetrics {
    /// Adds one step's counters and counts the step.
    pub fn apply_delta(&mut self, delta: &MetricsDelta)
        requires
            old(self).prepare_successes + delta.prepare_successes <= u64::MAX,
            old(self).prepare_failures + delta.prepare_failures <= u64::MAX,
            old(self).committed_operations + delta.committed_operations <= u64::MAX,
            old(self).failed_operations + delta.failed_operations <= u64::MAX,
            old(self).cleanup_release_count + delta.cleanup_release_count <= u64::MAX,
            old(self).replay_successes + delta.replay_successes <= u64::MAX,
            old(self).replay_failures + delta.replay_failures <= u64::MAX,
            old(self).lock_conflicts + delta.lock_conflicts <= u64::MAX,
            old(self).crash_count + delta.crash_count <= u64::MAX,
            old(self).total_selected_input_count + delta.selected_input_count <= u64::MAX,
            old(self).steps < usize::MAX,
        ensures
            final(self).prepare_successes == old(self).prepare_successes + delta.prepare_successes,
            final(self).prepare_failures == old(self).prepare_failures + delta.prepare_failures,
            final(self).committed_operations == old(self).committed_operations + delta.committed_operations,
            final(self).failed_operations == old(self).failed_operations + delta.failed_operations,
            final(self).cleanup_release_count == old(self).cleanup_release_count + delta.cleanup_release_count,
            final(self).replay_successes == old(self).replay_successes + delta.replay_successes,
            final(self).replay_failures == old(self).replay_failures + delta.replay_failures,
            final(self).lock_conflicts == old(self).lock_conflicts + delta.lock_conflicts,
            final(self).crash_count == old(self).crash_count + delta.crash_count,
            final(self).total_selected_input_count == old(self).total_selected_input_count
                + delta.selected_input_count,
            final(self).steps == old(self).steps + 1,
    {
        self.prepare_successes = self.prepare_successes + delta.prepare_successes;
        self.prepare_failures = self.prepare_failures + delta.prepare_failures;
        self.committed_operations = self.committed_operations + delta.committed_operations;
        self.failed_operations = self.failed_operations + delta.failed_operations;
        self.cleanup_release_count = self.cleanup_release_count + delta.cleanup_release_count;
        self.replay_successes = self.replay_successes + delta.replay_successes;
        self.replay_failures = self.replay_failures + delta.replay_failures;
        self.lock_conflicts = self.lock_conflicts + delta.lock_conflicts;
        self.crash_count = self.crash_count + delta.crash_count;
        self.total_selected_input_count = self.total_selected_input_count + delta.selected_input_count;
        self.steps = self.steps + 1;
    }
}

} // verus!
