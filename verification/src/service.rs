//! The application-facing service: bootstrapping accounts and scopes,
//! reconciling observations, planning selections and manual reservations.
use vstd::prelude::*;
use vstd::string::StringExecFns;

use crate::account::{Account, AccountModel, ScopeModel, WalletScope};
use crate::capability::CapabilitySet;
use crate::clock::{Clock, RandomReservationIdGenerator, ReservationIdGenerator, UtcClock};
use crate::errors::{DomainError, DomainResult, ErrorModel};
use crate::ids::{AccountId, OperationId, WalletScopeId};
use crate::lock::LockPurpose;
use crate::observation::{ObservationScope, ObservationSnapshot};
use crate::operation::{
    lock_effects, outpoints_model, BindingModel, OperationPhase, OperationSelection,
    SelectionModel,
};
use crate::orchestrator::{
    commit_spec, first_repeat, first_repeated, is_selected, prepare_steps, proposal_result, steps_ok,
    CleanupReport, Orchestrator,
};
use crate::outpoint::{outpoint_text, OutPoint, OutPointModel};
use crate::reconciliation::{actions_model, plan_spec};
use crate::selection_request::{
    request_view, ManualReservationExactRequest, ManualReservationFirstAvailableRequest,
    PlannedExactOutpointsRequest, PlannedSpecificOutpointRequest, SelectionRequest,
};
use crate::store::{lists_utxos, lookup, opt_res, read_ok, unit_res, StateStore, StoreModel};
use crate::utxo::UtxoModel;
use crate::utxo_status::{status_of, UtxoStatus};

verus! {

/// Account definition used during service bootstrap.
#[derive(Debug, Clone, PartialEq, Eq)]
pub struct BootstrapAccountConfig {
    /// Stable account identifier chosen by the caller.
    pub id: AccountId,
    /// Human-readable account name.
    pub name: String,
    /// Capability set allowed for the account.
    pub capabilities: CapabilitySet,
}

/// Scope definition used during service bootstrap.
#[derive(Debug, Clone, PartialEq, Eq)]
pub struct BootstrapScopeConfig {
    /// Stable scope identifier chosen by the caller.
    pub id: WalletScopeId,
    /// Account that owns this scope.
    pub account_id: AccountId,
    /// Caller-owned descriptor reference.
    pub descriptor_ref: String,
    /// Caller-owned derivation scope label.
    pub derivation_scope: String,
    /// Capability subset enabled for this scope.
    pub capabilities: CapabilitySet,
    /// Lower values are preferred during selection.
    pub priority: u32,
}

/// Full bootstrap payload for creating the managed account/scope topology.
#[derive(Debug, Clone, PartialEq, Eq)]
pub struct BootstrapConfig {
    /// Logical owner label stored in txoscope state.
    pub owner: String,
    /// Accounts to register before scopes are added.
    pub accounts: Vec<BootstrapAccountConfig>,
    /// Scopes to attach to previously declared accounts.
    pub scopes: Vec<BootstrapScopeConfig>,
}

/// Request to plan an operation against an exact set of outpoints.
#[derive(Debug, Clone, PartialEq, Eq)]
pub struct PlanExactOutpointsRequest {
    pub operation_id: OperationId,
    pub target_account_id: AccountId,
    pub selected_outpoints: Vec<OutPoint>,
}

/// Request to reserve one specific outpoint for a caller-owned operation.
#[derive(Debug, Clone, PartialEq, Eq)]
pub struct ReserveSpecificUtxoRequest {
    pub operation_id: OperationId,
    pub target_account_id: AccountId,
    pub outpoint: OutPoint,
    /// Optional UTC Unix timestamp in seconds for lock expiry.
    pub expires_at: Option<u64>,
}

/// Result of a successful planning or operation-bound reservation call.
#[derive(Debug, Clone, PartialEq, Eq)]
pub struct PlannedSelection {
    pub operation_id: OperationId,
    pub selected_outpoints: Vec<OutPoint>,
    /// Scope that should receive any resulting change.
    pub change_scope_id: WalletScopeId,
    /// Optional UTC Unix timestamp in seconds for expiry.
    pub expires_at: Option<u64>,
}

/// Request to bind one operation to an explicit caller-provided input set.
#[derive(Debug, Clone, PartialEq, Eq)]
pub struct ApplyExplicitSelectionRequest {
    pub operation_id: OperationId,
    pub selected_outpoints: Vec<OutPoint>,
    pub change_scope_id: WalletScopeId,
    pub expires_at: Option<u64>,
}

/// Request to create a manual reservation for one outpoint.
#[derive(Debug, Clone, PartialEq, Eq)]
pub struct ReserveManualUtxoRequest {
    pub target_account_id: AccountId,
    pub outpoint: OutPoint,
    /// Reservation lifetime in seconds, clamped to `1..=604800` (7 days).
    pub ttl_secs: u64,
}

/// Request to create a manual reservation from the first selectable candidate.
#[derive(Debug, Clone, PartialEq, Eq)]
pub struct ReserveFirstAvailableManualUtxoRequest {
    pub target_account_id: AccountId,
    pub candidate_outpoints: Vec<OutPoint>,
    /// Reservation lifetime in seconds, clamped to `1..=604800` (7 days).
    pub ttl_secs: u64,
}

/// Result of a manual reservation created by the service.
#[derive(Debug, Clone, PartialEq, Eq)]
pub struct ManualReservation {
    pub reservation_id: OperationId,
    pub outpoint: OutPoint,
    /// Reservation expiry as a UTC Unix timestamp in seconds.
    pub expires_at: u64,
}

/// Account ownership and bitcoin value of a managed transaction output.
#[derive(Debug, Clone, PartialEq, Eq)]
pub struct ManagedUtxoInfo {
    pub account_id: AccountId,
    pub value_sats: u64,
}

/// Summary of one reconciliation pass.
#[derive(Debug, Clone, PartialEq, Eq)]
pub struct ReconcileSummary {
    /// Monotonic internal tick after reconciliation.
    pub tick: u64,
    /// Number of observed UTXOs supplied in the snapshot.
    pub observed_utxos: usize,
    /// Number of reconciliation actions applied.
    pub actions_applied: usize,
    /// Observation scope used for this reconciliation pass.
    pub scope: ObservationScope,
}

/// The parts of a planned selection.
pub struct PlannedModel {
    pub operation_id: Seq<char>,
    pub selected_outpoints: Seq<OutPointModel>,
    pub change_scope_id: Seq<char>,
    pub expires_at: Option<u64>,
}

impl View for PlannedSelection {
    type V = PlannedModel;

    open spec fn view(&self) -> PlannedModel {
        PlannedModel {
            operation_id: self.operation_id@,
            selected_outpoints: outpoints_model(self.selected_outpoints@),
            change_scope_id: self.change_scope_id@,
            expires_at: self.expires_at,
        }
    }
}

/// The planned part of a selection.
pub open spec fn planned_of(s: SelectionModel) -> PlannedModel {
    PlannedModel {
        operation_id: s.operation_id,
        selected_outpoints: s.selected_outpoints,
        change_scope_id: s.change_scope_id,
        expires_at: s.expires_at,
    }
}

pub open spec fn planned_steps(x: (Result<SelectionModel, ErrorModel>, StoreModel)) -> (Result<PlannedModel, ErrorModel>, StoreModel) {
    (
        match x.0 {
            Ok(s) => Ok(planned_of(s)),
            Err(e) => Err(e),
        },
        x.1,
    )
}

pub open spec fn planned_res(r: DomainResult<PlannedSelection>) -> Result<PlannedModel, ErrorModel> {
    match r {
        Ok(p) => Ok(p@),
        Err(e) => Err(e@),
    }
}

impl From<OperationSelection> for PlannedSelection {
    fn from(selection: OperationSelection) -> (r: Self) {
        PlannedSelection {
            operation_id: selection.operation_id,
            selected_outpoints: selection.selected_outpoints,
            change_scope_id: selection.change_scope_id,
            expires_at: selection.expires_at,
        }
    }
}

impl vstd::std_specs::convert::FromSpecImpl<OperationSelection> for PlannedSelection {
    open spec fn obeys_from_spec() -> bool {
        true
    }

    open spec fn from_spec(selection: OperationSelection) -> PlannedSelection {
        PlannedSelection {
            operation_id: selection.operation_id,
            selected_outpoints: selection.selected_outpoints,
            change_scope_id: selection.change_scope_id,
            expires_at: selection.expires_at,
        }
    }
}

impl From<PlanExactOutpointsRequest> for PlannedExactOutpointsRequest {
    fn from(req: PlanExactOutpointsRequest) -> (r: Self) {
        PlannedExactOutpointsRequest {
            operation_id: req.operation_id,
            account_id: req.target_account_id,
            outpoints: req.selected_outpoints,
        }
    }
}

impl vstd::std_specs::convert::FromSpecImpl<PlanExactOutpointsRequest> for PlannedExactOutpointsRequest {
    open spec fn obeys_from_spec() -> bool {
        true
    }

    open spec fn from_spec(req: PlanExactOutpointsRequest) -> PlannedExactOutpointsRequest {
        PlannedExactOutpointsRequest {
            operation_id: req.operation_id,
            account_id: req.target_account_id,
            outpoints: req.selected_outpoints,
        }
    }
}

impl From<ReserveSpecificUtxoRequest> for PlannedSpecificOutpointRequest {
    fn from(req: ReserveSpecificUtxoRequest) -> (r: Self) {
        PlannedSpecificOutpointRequest {
            operation_id: req.operation_id,
            account_id: req.target_account_id,
            outpoint: req.outpoint,
            expires_at: req.expires_at,
        }
    }
}

impl vstd::std_specs::convert::FromSpecImpl<ReserveSpecificUtxoRequest> for PlannedSpecificOutpointRequest {
    open spec fn obeys_from_spec() -> bool {
        true
    }

    open spec fn from_spec(req: ReserveSpecificUtxoRequest) -> PlannedSpecificOutpointRequest {
        PlannedSpecificOutpointRequest {
            operation_id: req.operation_id,
            account_id: req.target_account_id,
            outpoint: req.outpoint,
            expires_at: req.expires_at,
        }
    }
}

/// The account a bootstrap entry registers.
pub open spec fn account_of(c: BootstrapAccountConfig) -> AccountModel {
    AccountModel { id: c.id@, name: c.name@, scopes: Seq::empty(), capabilities: c.capabilities@ }
}

/// The scope a bootstrap entry registers.
pub open spec fn scope_of(c: BootstrapScopeConfig) -> ScopeModel {
    ScopeModel {
        id: c.id@,
        account_id: c.account_id@,
        descriptor_ref: c.descriptor_ref@,
        derivation_scope: c.derivation_scope@,
        capabilities: c.capabilities@,
        priority: c.priority,
    }
}

/// Registering accounts in order.
pub open spec fn put_accounts(m: StoreModel, s: Seq<BootstrapAccountConfig>) -> StoreModel
    decreases s.len(),
{
    if s.len() == 0 {
        m
    } else {
        put_accounts(m, s.drop_last()).put_account(account_of(s.last()))
    }
}

/// Registering scopes in order, stopping at the first whose account is unknown.
pub open spec fn put_scopes(m: StoreModel, s: Seq<BootstrapScopeConfig>) -> (Result<(), ErrorModel>, StoreModel)
    decreases s.len(),
{
    if s.len() == 0 {
        (Ok(()), m)
    } else {
        match put_scopes(m, s.drop_last()) {
            (Err(e), mm) => (Err(e), mm),
            (Ok(_), mm) => match mm.put_scope(scope_of(s.last())) {
                Err(e) => (Err(e), mm),
                Ok(m2) => (Ok(()), m2),
            },
        }
    }
}

/// The normalized request of planning exact outpoints.
pub open spec fn exact_request(req: PlanExactOutpointsRequest) -> SelectionRequest {
    SelectionRequest::PlannedExactOutpoints(
        PlannedExactOutpointsRequest {
            operation_id: req.operation_id,
            account_id: req.target_account_id,
            outpoints: req.selected_outpoints,
        },
    )
}

/// The normalized request of reserving one outpoint for an operation.
pub open spec fn specific_request(req: ReserveSpecificUtxoRequest) -> SelectionRequest {
    SelectionRequest::PlannedSpecificOutpoint(
        PlannedSpecificOutpointRequest {
            operation_id: req.operation_id,
            account_id: req.target_account_id,
            outpoint: req.outpoint,
            expires_at: req.expires_at,
        },
    )
}

/// The value of a manual reservation.
pub struct ReservationModel {
    pub reservation_id: Seq<char>,
    pub outpoint: OutPointModel,
    pub expires_at: u64,
}

impl View for ManualReservation {
    type V = ReservationModel;

    open spec fn view(&self) -> ReservationModel {
        ReservationModel {
            reservation_id: self.reservation_id@,
            outpoint: self.outpoint@,
            expires_at: self.expires_at,
        }
    }
}

pub open spec fn reservation_res(r: DomainResult<Option<ManualReservation>>) -> Result<Option<ReservationModel>, ErrorModel> {
    match r {
        Ok(Some(x)) => Ok(Some(x@)),
        Ok(None) => Ok(None),
        Err(e) => Err(e@),
    }
}

/// The manual reservation on `o` still in Selected, read from the lock, its
/// operation and the output's binding; a lock without expiry is corrupted state.
pub open spec fn manual_spec(m: StoreModel, o: OutPointModel) -> Result<Option<ReservationModel>, ErrorModel> {
    match lookup(m.locks, o) {
        None => Ok(None),
        Some(l) => if l.purpose != LockPurpose::ManualReservation {
            Ok(None)
        } else {
            let selected_operation = is_selected(m, l.operation_id);
            let selected_binding = lookup(m.utxos, o) matches Some(u) && u.operation_binding == Some(
                BindingModel { operation_id: l.operation_id, phase: OperationPhase::Selected },
            );
            if !selected_operation || !selected_binding {
                Ok(None)
            } else {
                match l.expires_at {
                    None => Err(
                        ErrorModel::CorruptedState(
                            "manual reservation lock for outpoint "@ + outpoint_text(o) + " is missing expires_at"@,
                        ),
                    ),
                    Some(x) => Ok(Some(ReservationModel { reservation_id: l.operation_id, outpoint: o, expires_at: x })),
                }
            }
        },
    }
}

/// The manual reservation on `o` at time `now`: one expired by then is released and not answered.
pub open spec fn active_spec(m: StoreModel, o: OutPointModel, now: u64) -> (Result<Option<ReservationModel>, ErrorModel>, StoreModel) {
    match manual_spec(m, o) {
        Err(e) => (Err(e), m),
        Ok(None) => (Ok(None), m),
        Ok(Some(r)) => if r.expires_at <= now {
            (
                Ok(None),
                if is_selected(m, r.reservation_id) {
                    m.release(r.reservation_id, OperationPhase::RollingBack)
                } else {
                    m
                },
            )
        } else {
            (Ok(Some(r)), m)
        },
    }
}

/// Expiring, in order, the manual reservations of the outputs, each at its own clock reading.
pub open spec fn expire_all(m: StoreModel, outs: Seq<OutPointModel>, nows: Seq<u64>) -> (Result<(), ErrorModel>, StoreModel)
    decreases outs.len(),
{
    if outs.len() == 0 {
        (Ok(()), m)
    } else {
        match expire_all(m, outs.drop_last(), nows.drop_last()) {
            (Err(e), mm) => (Err(e), mm),
            (Ok(_), mm) => match active_spec(mm, outs.last(), nows.last()) {
                (Err(e), m2) => (Err(e), m2),
                (Ok(_), m2) => (Ok(()), m2),
            },
        }
    }
}

/// The largest reservation lifetime: seven days.
pub const MAX_MANUAL_TTL_SECS: u64 = 604800;

/// A manual reservation's expiry: `now` plus the lifetime clamped to `1..=604800`, saturating.
pub open spec fn manual_expiry(now: u64, ttl: u64) -> u64 {
    let t: u64 = if ttl < 1 {
        1
    } else if ttl > MAX_MANUAL_TTL_SECS {
        MAX_MANUAL_TTL_SECS
    } else {
        ttl
    };
    if now + t > u64::MAX {
        u64::MAX
    } else {
        (now + t) as u64
    }
}

/// The reservation a manual selection makes: its first input and its expiry.
pub open spec fn reservation_from(s: SelectionModel) -> Result<ReservationModel, ErrorModel> {
    if s.selected_outpoints.len() == 0 {
        Err(
            ErrorModel::CorruptedState(
                "manual reservation selection "@ + s.operation_id + " has no selected outpoint"@,
            ),
        )
    } else {
        match s.expires_at {
            None => Err(
                ErrorModel::CorruptedState("manual reservation selection "@ + s.operation_id + " is missing expires_at"@),
            ),
            Some(x) => Ok(
                ReservationModel {
                    reservation_id: s.operation_id,
                    outpoint: s.selected_outpoints[0],
                    expires_at: x,
                },
            ),
        }
    }
}

/// The selection an explicit request applies: every input locked for planned selection.
pub open spec fn explicit_selection(req: ApplyExplicitSelectionRequest) -> SelectionModel {
    SelectionModel {
        operation_id: req.operation_id@,
        selected_outpoints: outpoints_model(req.selected_outpoints@),
        change_scope_id: req.change_scope_id@,
        effects: lock_effects(outpoints_model(req.selected_outpoints@), LockPurpose::PlannedSelection),
        expires_at: req.expires_at,
    }
}

/// The checks before an explicit selection is applied: inputs given and
/// distinct, and the change scope recorded.
pub open spec fn explicit_pre(m: StoreModel, req: ApplyExplicitSelectionRequest) -> Option<ErrorModel> {
    let outs = outpoints_model(req.selected_outpoints@);
    if outs.len() == 0 {
        Some(ErrorModel::InvalidRequest { reason: "explicit selection requires at least one outpoint"@ })
    } else {
        match first_repeat(outs, Seq::empty()) {
            Some(o) => Some(
                ErrorModel::InvalidRequest {
                    reason: "explicit selection includes duplicate outpoint: "@ + outpoint_text(o),
                },
            ),
            None => if !m.scopes.contains_key(req.change_scope_id@) {
                Some(ErrorModel::ScopeNotFound(req.change_scope_id@))
            } else {
                None
            },
        }
    }
}

/// Applying an explicit selection: the checks, then recording and committing it.
pub open spec fn explicit_steps(m: StoreModel, owner: Seq<char>, req: ApplyExplicitSelectionRequest) -> (Result<
    PlannedModel,
    ErrorModel,
>, StoreModel) {
    match explicit_pre(m, req) {
        Some(e) => (Err(e), m),
        None => {
            let sel = explicit_selection(req);
            match m.persist_intent(sel) {
                Err(e) => (Err(e), m),
                Ok((_, m2)) => match commit_spec(m2, sel.operation_id, owner) {
                    (Ok(_), m3) => (Ok(planned_of(sel)), m3),
                    (Err(e), m3) => (Err(e), m3),
                },
            }
        },
    }
}

/// The request a manual reservation of one output makes.
pub open spec fn manual_exact_request(id: OperationId, account: AccountId, outpoint: OutPoint, expires_at: u64) -> SelectionRequest {
    SelectionRequest::ManualReservationExact(
        ManualReservationExactRequest { reservation_id: id, account_id: account, outpoint, expires_at },
    )
}

/// The request a manual reservation of the first available output makes.
pub open spec fn manual_first_request(
    id: OperationId,
    account: AccountId,
    candidates: Vec<OutPoint>,
    expires_at: u64,
) -> SelectionRequest {
    SelectionRequest::ManualReservationFirstAvailable(
        ManualReservationFirstAvailableRequest {
            reservation_id: id,
            account_id: account,
            candidate_outpoints: candidates,
            expires_at,
        },
    )
}

/// A manual reservation's outcome: the prepared selection made into a reservation.
pub open spec fn manual_steps(x: (Result<SelectionModel, ErrorModel>, StoreModel)) -> (Result<ReservationModel, ErrorModel>, StoreModel) {
    (
        match x.0 {
            Err(e) => Err(e),
            Ok(s) => reservation_from(s),
        },
        x.1,
    )
}

pub open spec fn manual_res(r: DomainResult<ManualReservation>) -> Result<ReservationModel, ErrorModel> {
    match r {
        Ok(x) => Ok(x@),
        Err(e) => Err(e@),
    }
}

/// A first-available reservation's outcome: none available answers `None`.
pub open spec fn first_available_steps(x: (Result<SelectionModel, ErrorModel>, StoreModel)) -> (Result<
    Option<ReservationModel>,
    ErrorModel,
>, StoreModel) {
    (
        match x.0 {
            Err(ErrorModel::NoCandidateAvailable) => Ok(None),
            Err(e) => Err(e),
            Ok(s) => match reservation_from(s) {
                Ok(r) => Ok(Some(r)),
                Err(e) => Err(e),
            },
        },
        x.1,
    )
}

/// Backend-agnostic high-level service built on top of a caller-supplied store.
pub struct TxoscopeService<S: StateStore, C = UtcClock, G = RandomReservationIdGenerator> {
    pub orchestrator: Orchestrator<S>,
    pub clock: C,
    pub reservation_ids: G,
}

impl<S: StateStore> TxoscopeService<S> {
    /// Wraps a concrete store backend in the facade service.
    pub fn with_store(store: S) -> (r: Self)
        ensures
            r.model() == store.model(),
            r.healthy() == store.healthy(),
            r.orchestrator.owner() == "txoscope"@,
    {
        TxoscopeService::with_store_and_dependencies(store, UtcClock, RandomReservationIdGenerator)
    }
}

impl<S: StateStore, C: Clock, G: ReservationIdGenerator> TxoscopeService<S, C, G> {
    /// The state the store records.
    pub open spec fn model(&self) -> StoreModel {
        self.orchestrator.store_model()
    }

    /// Whether the store answers without storage faults.
    pub open spec fn healthy(&self) -> bool {
        self.orchestrator.healthy()
    }

    /// Wraps a concrete store backend in the facade service with caller-supplied dependencies.
    pub fn with_store_and_dependencies(store: S, clock: C, reservation_ids: G) -> (r: Self)
        ensures
            r.model() == store.model(),
            r.healthy() == store.healthy(),
            r.orchestrator.owner() == "txoscope"@,
            r.clock == clock,
            r.reservation_ids == reservation_ids,
    {
        TxoscopeService { orchestrator: Orchestrator::with_store(store), clock, reservation_ids }
    }

    /// Registers the owner, accounts, and scopes declared in `cfg`.
    pub fn bootstrap(&mut self, cfg: BootstrapConfig) -> (r: DomainResult<()>)
        ensures
            final(self).clock == old(self).clock,
            final(self).reservation_ids == old(self).reservation_ids,
            final(self).healthy() == old(self).healthy(),
            final(self).orchestrator.owner() == cfg.owner@,
            steps_ok(
                unit_res(r),
                final(self).model(),
                put_scopes(put_accounts(old(self).model(), cfg.accounts@), cfg.scopes@),
                old(self).healthy(),
            ),
    {
        self.orchestrator.set_owner(cfg.owner);
        let ghost m0 = self.model();
        let mut i: usize = 0;
        assert(cfg.accounts@.take(0) =~= Seq::<BootstrapAccountConfig>::empty());
        while i < cfg.accounts.len()
            invariant
                i <= cfg.accounts@.len(),
                self.healthy() == old(self).healthy(),
                self.orchestrator.owner() == cfg.owner@,
                self.clock == old(self).clock,
                self.reservation_ids == old(self).reservation_ids,
                m0 == old(self).model(),
                self.model() == put_accounts(m0, cfg.accounts@.take(i as int)),
            decreases cfg.accounts@.len() - i,
        {
            let account = &cfg.accounts[i];
            proof {
                assert(cfg.accounts@.take(i + 1).drop_last() =~= cfg.accounts@.take(i as int));
                assert(cfg.accounts@.take(i + 1).last() == *account);
            }
            let a = Account::new(account.id.dup(), account.name.clone(), Vec::new(), account.capabilities);
            assert(a@ == account_of(*account)) by {
                assert(crate::account::scope_ids_model(Seq::<WalletScopeId>::empty()) =~= Seq::<Seq<char>>::empty());
            }
            match self.orchestrator.add_account(a) {
                Err(e) => return Err(e),
                Ok(()) => {},
            }
            i = i + 1;
        }
        assert(cfg.accounts@.take(i as int) =~= cfg.accounts@);
        let ghost m1 = self.model();
        let mut j: usize = 0;
        assert(cfg.scopes@.take(0) =~= Seq::<BootstrapScopeConfig>::empty());
        while j < cfg.scopes.len()
            invariant
                j <= cfg.scopes@.len(),
                self.healthy() == old(self).healthy(),
                self.orchestrator.owner() == cfg.owner@,
                self.clock == old(self).clock,
                self.reservation_ids == old(self).reservation_ids,
                m1 == put_accounts(old(self).model(), cfg.accounts@),
                put_scopes(m1, cfg.scopes@.take(j as int)) == (Ok::<(), ErrorModel>(()), self.model()),
            decreases cfg.scopes@.len() - j,
        {
            let scope = &cfg.scopes[j];
            proof {
                assert(cfg.scopes@.take(j + 1).drop_last() =~= cfg.scopes@.take(j as int));
                assert(cfg.scopes@.take(j + 1).last() == *scope);
            }
            let s = WalletScope::new(
                scope.id.dup(),
                scope.account_id.dup(),
                scope.descriptor_ref.clone(),
                scope.derivation_scope.clone(),
                scope.capabilities,
                scope.priority,
            );
            assert(s@ == scope_of(*scope));
            match self.orchestrator.add_scope(s) {
                Err(e) => {
                    proof {
                        if !(!old(self).healthy() && e@ is Storage) {
                            assert(put_scopes(m1, cfg.scopes@.take(j + 1)) == (Err::<(), ErrorModel>(e@), self.model()));
                            lemma_put_scopes_stop(m1, cfg.scopes@, j + 1);
                        }
                    }
                    return Err(e);
                },
                Ok(()) => {},
            }
            j = j + 1;
        }
        assert(cfg.scopes@.take(j as int) =~= cfg.scopes@);
        Ok(())
    }

    /// Reconciles one observation snapshot after advancing the tick by one.
    pub fn reconcile_snapshot(&mut self, snapshot: ObservationSnapshot) -> (r: DomainResult<ReconcileSummary>)
        ensures
            final(self).clock == old(self).clock,
            final(self).reservation_ids == old(self).reservation_ids,
            final(self).healthy() == old(self).healthy(),
            final(self).orchestrator.owner() == old(self).orchestrator.owner(),
            match r {
                Ok(s) => {
                    let m1 = old(self).model().advance_tick(1);
                    &&& exists|l: Seq<UtxoModel>|
                        lists_utxos(l, m1.utxos) && final(self).model() == m1.apply_reconciliation(
                            plan_spec(l, snapshot@),
                        ) && s.actions_applied == plan_spec(l, snapshot@).len()
                    &&& s.tick == final(self).model().tick
                    &&& s.observed_utxos == snapshot@.utxos.len()
                    &&& s.scope == snapshot.scope
                },
                Err(e) => !old(self).healthy() && e@ is Storage,
            },
    {
        match self.orchestrator.advance_tick(1) {
            Err(e) => return Err(e),
            Ok(()) => {},
        }
        let scope = snapshot.scope;
        let observed_utxos = snapshot.utxos.len();
        let ghost snap = snapshot@;
        let plan = match self.orchestrator.reconcile_snapshot(snapshot) {
            Err(e) => return Err(e),
            Ok(p) => p,
        };
        let tick = match self.orchestrator.current_tick() {
            Err(e) => return Err(e),
            Ok(t) => t,
        };
        let ghost m1 = old(self).model().advance_tick(1);
        proof {
            let l = choose|l: Seq<UtxoModel>|
                lists_utxos(l, m1.utxos) && actions_model(plan.actions@) == plan_spec(l, snap);
            assert(lists_utxos(l, m1.utxos) && self.model() == m1.apply_reconciliation(plan_spec(l, snap))
                && plan.actions@.len() == plan_spec(l, snap).len());
        }
        Ok(ReconcileSummary { tick, observed_utxos, actions_applied: plan.actions.len(), scope })
    }

    /// Plans an operation against the exact outpoints provided by the caller,
    /// reserving them for the operation.
    pub fn plan_exact_outpoints(&mut self, req: PlanExactOutpointsRequest) -> (r: DomainResult<PlannedSelection>)
        ensures
            final(self).clock == old(self).clock,
            final(self).reservation_ids == old(self).reservation_ids,
            final(self).healthy() == old(self).healthy(),
            final(self).orchestrator.owner() == old(self).orchestrator.owner(),
            (!old(self).healthy() && r is Err && r->Err_0@ is Storage) || exists|
                p: Result<SelectionModel, ErrorModel>,
            |
                proposal_result(old(self).model(), old(self).healthy(), request_view(exact_request(req)), p) && (
                planned_res(r), final(self).model()) == planned_steps(
                    prepare_steps(old(self).model(), old(self).orchestrator.owner(), p, true),
                ),
    {
        let ghost m0 = self.model();
        let ghost owner = self.orchestrator.owner();
        let ghost rv = request_view(exact_request(req));
        let request = PlannedExactOutpointsRequest::from(req);
        let res = self.orchestrator.prepare_operation(request);
        let ghost sr = crate::orchestrator::selection_res(res);
        let out = match res {
            Err(e) => Err(e),
            Ok(s) => Ok(PlannedSelection::from(s)),
        };
        proof {
            if !(!old(self).healthy() && sr is Err && sr->Err_0 is Storage) {
                let p = choose|p: Result<SelectionModel, ErrorModel>|
                    proposal_result(m0, old(self).healthy(), rv, p) && (sr, self.model()) == prepare_steps(
                        m0,
                        owner,
                        p,
                        true,
                    );
                assert(proposal_result(m0, old(self).healthy(), rv, p));
                assert((planned_res(out), self.model()) == planned_steps(prepare_steps(m0, owner, p, true)));
            }
        }
        out
    }

    /// Reserves one specific outpoint for a caller-owned operation.
    pub fn reserve_specific_utxo(&mut self, req: ReserveSpecificUtxoRequest) -> (r: DomainResult<PlannedSelection>)
        ensures
            final(self).clock == old(self).clock,
            final(self).reservation_ids == old(self).reservation_ids,
            final(self).healthy() == old(self).healthy(),
            final(self).orchestrator.owner() == old(self).orchestrator.owner(),
            (!old(self).healthy() && r is Err && r->Err_0@ is Storage) || exists|
                p: Result<SelectionModel, ErrorModel>,
            |
                proposal_result(old(self).model(), old(self).healthy(), request_view(specific_request(req)), p)
                    && (planned_res(r), final(self).model()) == planned_steps(
                    prepare_steps(old(self).model(), old(self).orchestrator.owner(), p, true),
                ),
    {
        let ghost m0 = self.model();
        let ghost owner = self.orchestrator.owner();
        let ghost rv = request_view(specific_request(req));
        let request = PlannedSpecificOutpointRequest::from(req);
        let res = self.orchestrator.prepare_operation(request);
        let ghost sr = crate::orchestrator::selection_res(res);
        let out = match res {
            Err(e) => Err(e),
            Ok(s) => Ok(PlannedSelection::from(s)),
        };
        proof {
            if !(!old(self).healthy() && sr is Err && sr->Err_0 is Storage) {
                let p = choose|p: Result<SelectionModel, ErrorModel>|
                    proposal_result(m0, old(self).healthy(), rv, p) && (sr, self.model()) == prepare_steps(
                        m0,
                        owner,
                        p,
                        true,
                    );
                assert(proposal_result(m0, old(self).healthy(), rv, p));
                assert((planned_res(out), self.model()) == planned_steps(prepare_steps(m0, owner, p, true)));
            }
        }
        out
    }
}

impl<S: StateStore, C: Clock, G: ReservationIdGenerator> TxoscopeService<S, C, G> {
    /// Applies an explicit caller-provided selection without re-running
    /// account-scoped selection: every input and the change scope must belong
    /// to registered accounts and scopes granting `ReserveSupport`; the inputs
    /// are locked as one operation.
    pub fn apply_explicit_selection(&mut self, req: ApplyExplicitSelectionRequest) -> (r: DomainResult<PlannedSelection>)
        ensures
            final(self).clock == old(self).clock,
            final(self).reservation_ids == old(self).reservation_ids,
            final(self).healthy() == old(self).healthy(),
            final(self).orchestrator.owner() == old(self).orchestrator.owner(),
            steps_ok(
                planned_res(r),
                final(self).model(),
                explicit_steps(old(self).model(), old(self).orchestrator.owner(), req),
                old(self).healthy(),
            ),
    {
        if req.selected_outpoints.len() == 0 {
            return Err(
                DomainError::InvalidRequest {
                    reason: String::from_str("explicit selection requires at least one outpoint"),
                },
            );
        }
        match first_repeated(&req.selected_outpoints) {
            Some(j) => {
                let mut reason = String::from_str("explicit selection includes duplicate outpoint: ");
                let text = req.selected_outpoints[j].to_string();
                reason.append(text.as_str());
                return Err(DomainError::InvalidRequest { reason });
            },
            None => {},
        }
        match self.orchestrator.get_scope(&req.change_scope_id) {
            Err(e) => return Err(e),
            Ok(None) => return Err(DomainError::ScopeNotFound(req.change_scope_id.dup())),
            Ok(Some(_)) => {},
        }
        let effects = crate::operation::lock_effects_for(&req.selected_outpoints, LockPurpose::PlannedSelection);
        let selection = OperationSelection {
            operation_id: req.operation_id,
            selected_outpoints: req.selected_outpoints,
            change_scope_id: req.change_scope_id,
            effects,
            expires_at: req.expires_at,
        };
        match self.orchestrator.apply_selection(&selection) {
            Err(e) => return Err(e),
            Ok(()) => {},
        }
        Ok(PlannedSelection::from(selection))
    }

    /// A manual reservation's identity and expiry at the current clock reading.
    fn next_manual_reservation(&self, ttl_secs: u64) -> (r: (OperationId, u64, Ghost<u64>))
        ensures
            r.1 == manual_expiry(r.2@, ttl_secs),
    {
        let now = self.clock.now_utc_unix_secs();
        let ttl = if ttl_secs < 1 {
            1
        } else if ttl_secs > MAX_MANUAL_TTL_SECS {
            MAX_MANUAL_TTL_SECS
        } else {
            ttl_secs
        };
        let expires_at = if now <= u64::MAX - ttl {
            now + ttl
        } else {
            u64::MAX
        };
        let reservation_id = self.reservation_ids.generate(now);
        (reservation_id, expires_at, Ghost(now))
    }

    /// The reservation a manual selection made.
    fn manual_reservation_from_selection(&self, selection: OperationSelection) -> (r: DomainResult<ManualReservation>)
        ensures
            manual_res(r) == reservation_from(selection@),
    {
        if selection.selected_outpoints.len() == 0 {
            let mut reason = String::from_str("manual reservation selection ");
            reason.append(selection.operation_id.as_str());
            reason.append(" has no selected outpoint");
            return Err(DomainError::CorruptedState(reason));
        }
        let expires_at = match selection.expires_at {
            None => {
                let mut reason = String::from_str("manual reservation selection ");
                reason.append(selection.operation_id.as_str());
                reason.append(" is missing expires_at");
                return Err(DomainError::CorruptedState(reason));
            },
            Some(x) => x,
        };
        let outpoint = selection.selected_outpoints[0].dup();
        Ok(ManualReservation { reservation_id: selection.operation_id, outpoint, expires_at })
    }

    /// Creates a manual reservation with a service-generated reservation ID,
    /// expiring after the clamped lifetime.
    pub fn reserve_manual_utxo(&mut self, req: ReserveManualUtxoRequest) -> (r: DomainResult<ManualReservation>)
        ensures
            final(self).clock == old(self).clock,
            final(self).reservation_ids == old(self).reservation_ids,
            final(self).healthy() == old(self).healthy(),
            final(self).orchestrator.owner() == old(self).orchestrator.owner(),
            (!old(self).healthy() && r is Err && r->Err_0@ is Storage) || exists|
                id: OperationId,
                now: u64,
                p: Result<SelectionModel, ErrorModel>,
            |
                proposal_result(
                    old(self).model(),
                    old(self).healthy(),
                    request_view(
                        manual_exact_request(id, req.target_account_id, req.outpoint, manual_expiry(now, req.ttl_secs)),
                    ),
                    p,
                ) && (manual_res(r), final(self).model()) == manual_steps(
                    prepare_steps(old(self).model(), old(self).orchestrator.owner(), p, true),
                ),
    {
        let ghost m0 = self.model();
        let ghost owner = self.orchestrator.owner();
        let (reservation_id, expires_at, now) = self.next_manual_reservation(req.ttl_secs);
        let ghost id = reservation_id;
        let ghost rv = request_view(manual_exact_request(id, req.target_account_id, req.outpoint, expires_at));
        let request = ManualReservationExactRequest {
            reservation_id,
            account_id: req.target_account_id,
            outpoint: req.outpoint,
            expires_at,
        };
        let res = self.orchestrator.prepare_operation(request);
        let ghost sr = crate::orchestrator::selection_res(res);
        let out = match res {
            Err(e) => Err(e),
            Ok(selection) => self.manual_reservation_from_selection(selection),
        };
        proof {
            if !(!old(self).healthy() && sr is Err && sr->Err_0 is Storage) {
                let p = choose|p: Result<SelectionModel, ErrorModel>|
                    proposal_result(m0, old(self).healthy(), rv, p) && (sr, self.model()) == prepare_steps(
                        m0,
                        owner,
                        p,
                        true,
                    );
                assert(proposal_result(m0, old(self).healthy(), rv, p));
                assert((manual_res(out), self.model()) == manual_steps(prepare_steps(m0, owner, p, true)));
            }
        }
        out
    }

    /// Expires, in order, the stale manual reservations of the outputs.
    pub(crate) fn expire_stale_candidate_reservations(&mut self, candidate_outpoints: &Vec<OutPoint>) -> (r: (DomainResult<()>, Ghost<Seq<u64>>))
        ensures
            final(self).clock == old(self).clock,
            final(self).reservation_ids == old(self).reservation_ids,
            final(self).healthy() == old(self).healthy(),
            final(self).orchestrator.owner() == old(self).orchestrator.owner(),
            r.1@.len() == candidate_outpoints@.len(),
            steps_ok(
                unit_res(r.0),
                final(self).model(),
                expire_all(old(self).model(), outpoints_model(candidate_outpoints@), r.1@),
                old(self).healthy(),
            ),
    {
        let ghost outs = outpoints_model(candidate_outpoints@);
        let ghost m0 = self.model();
        let ghost mut nows: Seq<u64> = Seq::empty();
        let mut i: usize = 0;
        assert(outs.take(0) =~= Seq::<OutPointModel>::empty());
        while i < candidate_outpoints.len()
            invariant
                i <= candidate_outpoints@.len(),
                outs == outpoints_model(candidate_outpoints@),
                nows.len() == i,
                m0 == old(self).model(),
                self.healthy() == old(self).healthy(),
                self.orchestrator.owner() == old(self).orchestrator.owner(),
                self.clock == old(self).clock,
                self.reservation_ids == old(self).reservation_ids,
                expire_all(m0, outs.take(i as int), nows) == (Ok::<(), ErrorModel>(()), self.model()),
            decreases candidate_outpoints@.len() - i,
        {
            let ghost before = self.model();
            let ghost prev_nows = nows;
            let (res, now) = self.get_active_manual_reservation_reading(&candidate_outpoints[i]);
            proof {
                nows = nows.push(now@);
                assert(outs.take(i + 1).drop_last() =~= outs.take(i as int));
                assert(outs.take(i + 1).last() == candidate_outpoints@[i as int]@);
                assert(nows.drop_last() =~= prev_nows);
                assert(expire_all(m0, outs.take(i + 1), nows) == match active_spec(before, candidate_outpoints@[i as int]@, now@) {
                    (Err(e), m2) => (Err::<(), ErrorModel>(e), m2),
                    (Ok(_), m2) => (Ok(()), m2),
                });
            }
            match res {
                Err(e) => {
                    let ghost full = nows + Seq::new((candidate_outpoints@.len() - i - 1) as nat, |k: int| 0u64);
                    proof {
                        assert(full.take(i + 1) =~= nows);
                        if !(!old(self).healthy() && e@ is Storage) {
                            assert(expire_all(m0, outs.take(i + 1), nows) == (Err::<(), ErrorModel>(e@), self.model()));
                            lemma_expire_stop(m0, outs, full, i + 1);
                        }
                    }
                    return (Err(e), Ghost(full));
                },
                Ok(_) => {},
            }
            i = i + 1;
        }
        assert(outs.take(i as int) =~= outs);
        (Ok(()), Ghost(nows))
    }

    /// Creates a manual reservation from the first selectable candidate, after
    /// expiring stale manual reservations of the candidates; `None` when no
    /// candidate is selectable.
    pub fn reserve_first_available_manual_utxo(&mut self, req: ReserveFirstAvailableManualUtxoRequest) -> (r: DomainResult<
        Option<ManualReservation>,
    >)
        ensures
            final(self).clock == old(self).clock,
            final(self).reservation_ids == old(self).reservation_ids,
            final(self).healthy() == old(self).healthy(),
            final(self).orchestrator.owner() == old(self).orchestrator.owner(),
            (!old(self).healthy() && r is Err && r->Err_0@ is Storage) || exists|nows: Seq<u64>|
                #![trigger expire_all(old(self).model(), outpoints_model(req.candidate_outpoints@), nows)]
                nows.len() == req.candidate_outpoints@.len() && match expire_all(
                    old(self).model(),
                    outpoints_model(req.candidate_outpoints@),
                    nows,
                ) {
                    (Err(e), m1) => reservation_res(r) == Err::<Option<ReservationModel>, ErrorModel>(e)
                        && final(self).model() == m1,
                    (Ok(_), m1) => exists|id: OperationId, now: u64, p: Result<SelectionModel, ErrorModel>|
                        #![trigger manual_first_request(id, req.target_account_id, req.candidate_outpoints, manual_expiry(now, req.ttl_secs)), proposal_result(m1, old(self).healthy(), request_view(manual_first_request(id, req.target_account_id, req.candidate_outpoints, manual_expiry(now, req.ttl_secs))), p)]
                        proposal_result(
                            m1,
                            old(self).healthy(),
                            request_view(
                                manual_first_request(
                                    id,
                                    req.target_account_id,
                                    req.candidate_outpoints,
                                    manual_expiry(now, req.ttl_secs),
                                ),
                            ),
                            p,
                        ) && (reservation_res(r), final(self).model()) == first_available_steps(
                            prepare_steps(m1, old(self).orchestrator.owner(), p, true),
                        ),
                },
    {
        let ghost m0 = self.model();
        let ghost owner = self.orchestrator.owner();
        let (expired, nows) = self.expire_stale_candidate_reservations(&req.candidate_outpoints);
        match expired {
            Err(e) => return Err(e),
            Ok(()) => {},
        }
        let ghost m1 = self.model();
        let (reservation_id, expires_at, now) = self.next_manual_reservation(req.ttl_secs);
        let ghost id = reservation_id;
        let ghost rv = request_view(
            manual_first_request(id, req.target_account_id, req.candidate_outpoints, expires_at),
        );
        let request = ManualReservationFirstAvailableRequest {
            reservation_id,
            account_id: req.target_account_id,
            candidate_outpoints: req.candidate_outpoints,
            expires_at,
        };
        let res = self.orchestrator.prepare_operation(request);
        let ghost sr = crate::orchestrator::selection_res(res);
        let out = match res {
            Ok(selection) => match self.manual_reservation_from_selection(selection) {
                Ok(x) => Ok(Some(x)),
                Err(e) => Err(e),
            },
            Err(DomainError::NoCandidateAvailable) => Ok(None),
            Err(e) => Err(e),
        };
        proof {
            if !(!old(self).healthy() && sr is Err && sr->Err_0 is Storage) {
                let p = choose|p: Result<SelectionModel, ErrorModel>|
                    proposal_result(m1, old(self).healthy(), rv, p) && (sr, self.model()) == prepare_steps(
                        m1,
                        owner,
                        p,
                        true,
                    );
                assert(proposal_result(m1, old(self).healthy(), rv, p));
                assert((reservation_res(out), self.model()) == first_available_steps(
                    prepare_steps(m1, owner, p, true),
                ));
            }
        }
        out
    }

    /// Cancels an operation and releases its locks and bindings. Inputs already
    /// marked as spending remain blocked.
    pub fn release_operation(&mut self, operation_id: &OperationId) -> (r: DomainResult<Vec<OutPoint>>)
        ensures
            final(self).clock == old(self).clock,
            final(self).reservation_ids == old(self).reservation_ids,
            final(self).healthy() == old(self).healthy(),
            final(self).orchestrator.owner() == old(self).orchestrator.owner(),
            match r {
                Ok(v) => old(self).model().operations.contains_key(operation_id@) && if old(self).model().operations[operation_id@].phase
                    == OperationPhase::RollingBack {
                    v@.len() == 0 && final(self).model() == old(self).model()
                } else {
                    final(self).model() == old(self).model().release(operation_id@, OperationPhase::RollingBack)
                        && crate::store::enumerates(outpoints_model(v@), old(self).model().bound_outpoints(operation_id@))
                },
                Err(e) => final(self).model() == old(self).model() && ((
                !old(self).model().operations.contains_key(operation_id@) && e@
                    == ErrorModel::OperationNotFound(operation_id@)) || (!old(self).healthy() && e@ is Storage)),
            },
    {
        self.orchestrator.release_operation(operation_id)
    }

    /// Advances an operation while retaining its input ownership; leaving
    /// Selected requires the actual inputs to match the planned ones.
    pub fn complete_operation(
        &mut self,
        operation_id: &OperationId,
        completed_phase: OperationPhase,
        actual_outpoints: Vec<OutPoint>,
    ) -> (r: DomainResult<Vec<OutPoint>>)
        ensures
            final(self).healthy() == old(self).healthy(),
            final(self).orchestrator.owner() == old(self).orchestrator.owner(),
            match r {
                Ok(v) => match crate::orchestrator::complete_pre(
                    old(self).model(),
                    operation_id@,
                    completed_phase,
                    outpoints_model(actual_outpoints@),
                ) {
                    Ok(false) => v@.len() == 0 && final(self).model() == old(self).model(),
                    Ok(true) => old(self).model().complete(operation_id@, completed_phase) == Ok::<
                        (bool, StoreModel),
                        ErrorModel,
                    >((true, final(self).model())) && crate::store::enumerates(
                        outpoints_model(v@),
                        old(self).model().bound_outpoints(operation_id@),
                    ),
                    Err(_) => false,
                },
                Err(e) => final(self).model() == old(self).model() && (crate::orchestrator::complete_pre(
                    old(self).model(),
                    operation_id@,
                    completed_phase,
                    outpoints_model(actual_outpoints@),
                ) == Err::<bool, ErrorModel>(e@) || (!old(self).healthy() && e@ is Storage)),
            },
    {
        self.orchestrator.complete_operation(operation_id, completed_phase, actual_outpoints)
    }

    /// Releases selected operations whose age exceeds `max_age` ticks.
    pub fn cleanup_stale_reservations(&mut self, max_age: u64) -> (r: DomainResult<CleanupReport>)
        ensures
            final(self).clock == old(self).clock,
            final(self).reservation_ids == old(self).reservation_ids,
            final(self).healthy() == old(self).healthy(),
            final(self).orchestrator.owner() == old(self).orchestrator.owner(),
            (!old(self).healthy() && r is Err && r->Err_0@ is Storage) || exists|
                l: Seq<crate::operation::OperationModel>,
            |
                crate::store::lists_operations(l, old(self).model().operations) && ({
                    let ids = crate::orchestrator::stale_ids(l, old(self).model().tick, max_age);
                    match crate::orchestrator::cleanup_res(r) {
                        Some((ops, outs)) => final(self).model() == crate::orchestrator::release_all(
                            old(self).model(),
                            ids,
                        ) && ops == crate::orchestrator::released_ids(old(self).model(), ids)
                            && crate::store::enumerates(
                            outs,
                            crate::orchestrator::released_set(old(self).model(), ids),
                        ) && crate::orchestrator::released_in_groups(old(self).model(), ids, outs),
                        None => false,
                    }
                }),
    {
        let r = self.orchestrator.cleanup_stale_reservations(max_age);
        proof {
            if !(!old(self).healthy() && r is Err && r->Err_0@ is Storage) {
                let l = choose|l: Seq<crate::operation::OperationModel>|
                    crate::store::lists_operations(l, old(self).model().operations) && ({
                        let ids = crate::orchestrator::stale_ids(l, old(self).model().tick, max_age);
                        match crate::orchestrator::cleanup_res(r) {
                            Some((ops, outs)) => self.model() == crate::orchestrator::release_all(old(self).model(), ids)
                                && ops == crate::orchestrator::released_ids(old(self).model(), ids)
                                && crate::store::enumerates(outs, crate::orchestrator::released_set(old(self).model(), ids))
                                && crate::orchestrator::released_in_groups(old(self).model(), ids, outs),
                            None => false,
                        }
                    });
                assert(crate::store::lists_operations(l, old(self).model().operations));
            }
        }
        r
    }

    /// The planned selection recorded for the operation, if any.
    pub fn get_planned_selection(&self, operation_id: &OperationId) -> (r: DomainResult<Option<PlannedSelection>>)
        ensures
            read_ok(
                match r {
                    Ok(Some(p)) => Ok::<Option<PlannedModel>, ErrorModel>(Some(p@)),
                    Ok(None) => Ok(None),
                    Err(e) => Err(e@),
                },
                match lookup(self.model().intents, operation_id@) {
                    Some(i) => Some(planned_of(i.selection)),
                    None => None,
                },
                self.healthy(),
            ),
    {
        match self.orchestrator.get_intent(operation_id) {
            Err(e) => Err(e),
            Ok(None) => Ok(None),
            Ok(Some(intent)) => Ok(Some(PlannedSelection::from(intent.selection))),
        }
    }

    /// Verifies that the actual input set exactly matches the planned selection, in any order.
    pub fn verify_planned_inputs(&self, operation_id: &OperationId, actual_outpoints: Vec<OutPoint>) -> (r: DomainResult<()>)
        ensures
            crate::store::agrees(
                unit_res(r),
                match lookup(self.model().intents, operation_id@) {
                    None => Err(ErrorModel::IntentNotFound(operation_id@)),
                    Some(i) => if i.selection.selected_outpoints.to_set() == outpoints_model(actual_outpoints@).to_set() {
                        Ok(())
                    } else {
                        Err(ErrorModel::PlannedInputsMismatch { operation_id: operation_id@ })
                    },
                },
                self.healthy(),
            ),
    {
        self.orchestrator.verify_planned_inputs(operation_id, actual_outpoints)
    }

    /// The manual reservation on the output still in Selected, without expiring anything.
    pub fn get_manual_reservation(&self, outpoint: &OutPoint) -> (r: DomainResult<Option<ManualReservation>>)
        ensures
            crate::store::agrees(reservation_res(r), manual_spec(self.model(), outpoint@), self.healthy()),
    {
        let lock = match self.orchestrator.get_lock(outpoint) {
            Err(e) => return Err(e),
            Ok(None) => return Ok(None),
            Ok(Some(l)) => l,
        };
        if lock.purpose != LockPurpose::ManualReservation {
            return Ok(None);
        }
        let selected_operation = match self.orchestrator.get_operation(&lock.operation_id) {
            Err(e) => return Err(e),
            Ok(Some(op)) => op.phase == OperationPhase::Selected,
            Ok(None) => false,
        };
        let selected_binding = match self.orchestrator.get_utxo(outpoint) {
            Err(e) => return Err(e),
            Ok(Some(u)) => match &u.operation_binding {
                Some(b) => b.operation_id.same(&lock.operation_id) && b.phase == OperationPhase::Selected,
                None => false,
            },
            Ok(None) => false,
        };
        if !selected_operation || !selected_binding {
            return Ok(None);
        }
        let expires_at = match lock.expires_at {
            None => {
                let mut reason = String::from_str("manual reservation lock for outpoint ");
                let text = outpoint.to_string();
                reason.append(text.as_str());
                reason.append(" is missing expires_at");
                return Err(DomainError::CorruptedState(reason));
            },
            Some(x) => x,
        };
        Ok(Some(ManualReservation { reservation_id: lock.operation_id, outpoint: outpoint.dup(), expires_at }))
    }

    /// The manual reservation on the output at time `now`; one expired by then
    /// is released (only while still Selected) and not answered.
    pub fn get_active_manual_reservation_at(&mut self, outpoint: &OutPoint, now: u64) -> (r: DomainResult<
        Option<ManualReservation>,
    >)
        ensures
            final(self).clock == old(self).clock,
            final(self).reservation_ids == old(self).reservation_ids,
            final(self).healthy() == old(self).healthy(),
            final(self).orchestrator.owner() == old(self).orchestrator.owner(),
            steps_ok(
                reservation_res(r),
                final(self).model(),
                active_spec(old(self).model(), outpoint@, now),
                old(self).healthy(),
            ),
    {
        let reservation = match self.get_manual_reservation(outpoint) {
            Err(e) => return Err(e),
            Ok(None) => return Ok(None),
            Ok(Some(x)) => x,
        };
        if reservation.expires_at <= now {
            match self.orchestrator.release_selected_operation(&reservation.reservation_id) {
                Err(e) => return Err(e),
                Ok(_) => {},
            }
            return Ok(None);
        }
        Ok(Some(reservation))
    }

    fn get_active_manual_reservation_reading(&mut self, outpoint: &OutPoint) -> (r: (DomainResult<
        Option<ManualReservation>,
    >, Ghost<u64>))
        ensures
            final(self).clock == old(self).clock,
            final(self).reservation_ids == old(self).reservation_ids,
            final(self).healthy() == old(self).healthy(),
            final(self).orchestrator.owner() == old(self).orchestrator.owner(),
            steps_ok(
                reservation_res(r.0),
                final(self).model(),
                active_spec(old(self).model(), outpoint@, r.1@),
                old(self).healthy(),
            ),
    {
        let now = self.clock.now_utc_unix_secs();
        (self.get_active_manual_reservation_at(outpoint, now), Ghost(now))
    }

    /// The active manual reservation at the clock's current reading, expiring
    /// only leases still in Selected.
    pub fn get_active_manual_reservation(&mut self, outpoint: &OutPoint) -> (r: DomainResult<
        Option<ManualReservation>,
    >)
        ensures
            final(self).clock == old(self).clock,
            final(self).reservation_ids == old(self).reservation_ids,
            final(self).healthy() == old(self).healthy(),
            final(self).orchestrator.owner() == old(self).orchestrator.owner(),
            exists|now: u64|
                steps_ok(
                    reservation_res(r),
                    final(self).model(),
                    active_spec(old(self).model(), outpoint@, now),
                    old(self).healthy(),
                ),
    {
        let (r, now) = self.get_active_manual_reservation_reading(outpoint);
        assert(steps_ok(reservation_res(r), self.model(), active_spec(old(self).model(), outpoint@, now@), old(self).healthy()));
        r
    }

    /// The owning account of a known output.
    pub fn utxo_account_id(&self, outpoint: &OutPoint) -> (r: DomainResult<Option<AccountId>>)
        ensures
            read_ok(
                match r {
                    Ok(Some(a)) => Ok::<Option<Seq<char>>, ErrorModel>(Some(a@)),
                    Ok(None) => Ok(None),
                    Err(e) => Err(e@),
                },
                match lookup(self.model().utxos, outpoint@) {
                    Some(u) => Some(u.account_id),
                    None => None,
                },
                self.healthy(),
            ),
    {
        match self.orchestrator.get_utxo(outpoint) {
            Err(e) => Err(e),
            Ok(None) => Ok(None),
            Ok(Some(u)) => Ok(Some(u.account_id)),
        }
    }

    /// Whether a known output can currently be locked for selection.
    pub fn is_outpoint_selectable(&self, outpoint: &OutPoint) -> (r: DomainResult<bool>)
        ensures
            read_ok(
                match r {
                    Ok(b) => Ok::<bool, ErrorModel>(b),
                    Err(e) => Err(e@),
                },
                lookup(self.model().utxos, outpoint@) matches Some(u) && status_of(
                    u,
                    lookup(self.model().locks, outpoint@),
                ).unavailable_reason is None,
                self.healthy(),
            ),
    {
        self.orchestrator.is_outpoint_selectable(outpoint)
    }

    /// Recorded chain state, availability, ownership, lock and rejection reason; read-only.
    pub fn utxo_status(&self, outpoint: &OutPoint) -> (r: DomainResult<Option<UtxoStatus>>)
        ensures
            read_ok(
                opt_res(r),
                match lookup(self.model().utxos, outpoint@) {
                    None => None,
                    Some(u) => Some(status_of(u, lookup(self.model().locks, outpoint@))),
                },
                self.healthy(),
            ),
    {
        self.orchestrator.utxo_status(outpoint)
    }

    /// Account ownership and bitcoin value of a known output.
    pub fn managed_utxo(&self, outpoint: &OutPoint) -> (r: DomainResult<Option<ManagedUtxoInfo>>)
        ensures
            read_ok(
                match r {
                    Ok(Some(i)) => Ok::<Option<(Seq<char>, u64)>, ErrorModel>(Some((i.account_id@, i.value_sats))),
                    Ok(None) => Ok(None),
                    Err(e) => Err(e@),
                },
                match lookup(self.model().utxos, outpoint@) {
                    Some(u) => Some((u.account_id, u.value_sats)),
                    None => None,
                },
                self.healthy(),
            ),
    {
        match self.orchestrator.get_utxo(outpoint) {
            Err(e) => Err(e),
            Ok(None) => Ok(None),
            Ok(Some(u)) => Ok(Some(ManagedUtxoInfo { account_id: u.account_id, value_sats: u.value_sats })),
        }
    }

    /// The operation bound to the output, in any phase.
    pub fn owning_operation_id_for_outpoint(&self, outpoint: &OutPoint) -> (r: DomainResult<Option<OperationId>>)
        ensures
            read_ok(
                match r {
                    Ok(Some(a)) => Ok::<Option<Seq<char>>, ErrorModel>(Some(a@)),
                    Ok(None) => Ok(None),
                    Err(e) => Err(e@),
                },
                match lookup(self.model().utxos, outpoint@) {
                    Some(u) => match u.operation_binding {
                        Some(b) => Some(b.operation_id),
                        None => None,
                    },
                    None => None,
                },
                self.healthy(),
            ),
    {
        match self.orchestrator.get_utxo(outpoint) {
            Err(e) => Err(e),
            Ok(None) => Ok(None),
            Ok(Some(u)) => match u.operation_binding {
                Some(b) => Ok(Some(b.operation_id)),
                None => Ok(None),
            },
        }
    }

    /// The operation bound to the output only while its phase is Selected.
    pub fn selected_operation_id_for_outpoint(&self, outpoint: &OutPoint) -> (r: DomainResult<Option<OperationId>>)
        ensures
            read_ok(
                match r {
                    Ok(Some(a)) => Ok::<Option<Seq<char>>, ErrorModel>(Some(a@)),
                    Ok(None) => Ok(None),
                    Err(e) => Err(e@),
                },
                match lookup(self.model().utxos, outpoint@) {
                    Some(u) => match u.operation_binding {
                        Some(b) => if b.phase == OperationPhase::Selected {
                            Some(b.operation_id)
                        } else {
                            None
                        },
                        None => None,
                    },
                    None => None,
                },
                self.healthy(),
            ),
    {
        match self.orchestrator.get_utxo(outpoint) {
            Err(e) => Err(e),
            Ok(None) => Ok(None),
            Ok(Some(u)) => match u.operation_binding {
                Some(b) => if b.phase == OperationPhase::Selected {
                    Ok(Some(b.operation_id))
                } else {
                    Ok(None)
                },
                None => Ok(None),
            },
        }
    }

    /// Whether the known on-chain state of the output is spent.
    pub fn is_outpoint_spent(&self, outpoint: &OutPoint) -> (r: DomainResult<bool>)
        ensures
            read_ok(
                match r {
                    Ok(b) => Ok::<bool, ErrorModel>(b),
                    Err(e) => Err(e@),
                },
                lookup(self.model().utxos, outpoint@) matches Some(u) && u.onchain_state
                    == crate::state::OnchainState::Spent,
                self.healthy(),
            ),
    {
        match self.orchestrator.get_utxo(outpoint) {
            Err(e) => Err(e),
            Ok(None) => Ok(false),
            Ok(Some(u)) => Ok(u.onchain_state == crate::state::OnchainState::Spent),
        }
    }

    /// Whether the persisted operation carries an expiry.
    pub fn operation_has_expiry(&self, operation_id: &OperationId) -> (r: DomainResult<bool>)
        ensures
            read_ok(
                match r {
                    Ok(b) => Ok::<bool, ErrorModel>(b),
                    Err(e) => Err(e@),
                },
                lookup(self.model().operations, operation_id@) matches Some(o) && o.expires_at is Some,
                self.healthy(),
            ),
    {
        match self.orchestrator.get_operation(operation_id) {
            Err(e) => Err(e),
            Ok(None) => Ok(false),
            Ok(Some(o)) => Ok(o.expires_at.is_some()),
        }
    }
}

proof fn lemma_expire_stop(m: StoreModel, outs: Seq<OutPointModel>, nows: Seq<u64>, k: int)
    requires
        0 < k <= outs.len(),
        nows.len() == outs.len(),
        expire_all(m, outs.take(k), nows.take(k)).0 is Err,
    ensures
        expire_all(m, outs, nows) == expire_all(m, outs.take(k), nows.take(k)),
    decreases outs.len() - k,
{
    if k < outs.len() {
        assert(outs.take(k + 1).drop_last() =~= outs.take(k));
        assert(nows.take(k + 1).drop_last() =~= nows.take(k));
        lemma_expire_stop(m, outs, nows, k + 1);
    } else {
        assert(outs.take(k) =~= outs);
        assert(nows.take(k) =~= nows);
    }
}

proof fn lemma_put_scopes_stop(m: StoreModel, s: Seq<BootstrapScopeConfig>, k: int)
    requires
        0 < k <= s.len(),
        put_scopes(m, s.take(k)).0 is Err,
    ensures
        put_scopes(m, s) == put_scopes(m, s.take(k)),
    decreases s.len() - k,
{
    if k < s.len() {
        assert(s.take(k + 1).drop_last() =~= s.take(k));
        lemma_put_scopes_stop(m, s, k + 1);
    } else {
        assert(s.take(k) =~= s);
    }
}

} // verus!
