//! The state a backend keeps, what each store operation does to it, and the
//! read and write interfaces that backends implement.
use vstd::prelude::*;

use crate::account::{Account, AccountModel, ScopeModel, WalletScope};
use crate::capability::Capability;
use crate::errors::{DomainResult, ErrorModel};
use crate::ids::{AccountId, OperationId, WalletScopeId};
use crate::lock::{LockModel, OperationLock};
use crate::operation::{
    advance_check, outpoints_model, BindingModel, EffectModel, IntentModel, IntentStatus,
    OperationIntent, OperationModel, OperationPhase, OperationSelection, PersistedOperation,
    SelectionModel,
};
use crate::outpoint::{OutPoint, OutPointModel};
use crate::reconciliation::{ActionModel, ReconcilePlan};
use crate::state::{Availability, OnchainState};
use crate::utxo::{ConflictModel, ManagedUtxo, UtxoModel};

verus! {

/// Everything a backend records: six tables and a tick counter.
pub struct StoreModel {
    pub accounts: Map<Seq<char>, AccountModel>,
    pub scopes: Map<Seq<char>, ScopeModel>,
    pub utxos: Map<OutPointModel, UtxoModel>,
    pub locks: Map<OutPointModel, LockModel>,
    pub operations: Map<Seq<char>, OperationModel>,
    pub intents: Map<Seq<char>, IntentModel>,
    pub tick: u64,
}

/// The record under `k`, if any.
pub open spec fn lookup<K, V>(m: Map<K, V>, k: K) -> Option<V> {
    if m.contains_key(k) {
        Some(m[k])
    } else {
        None
    }
}

/// The value of an optional record.
pub open spec fn opt_view<T: View>(o: Option<T>) -> Option<T::V> {
    match o {
        Some(v) => Some(v@),
        None => None,
    }
}

/// The value of a result holding an optional record.
pub open spec fn opt_res<T: View>(r: DomainResult<Option<T>>) -> Result<Option<T::V>, ErrorModel> {
    match r {
        Ok(v) => Ok(opt_view(v)),
        Err(e) => Err(e@),
    }
}

/// The value of a result without a payload.
pub open spec fn unit_res(r: DomainResult<()>) -> Result<(), ErrorModel> {
    match r {
        Ok(_) => Ok(()),
        Err(e) => Err(e@),
    }
}

/// A read answers the recorded value; only a faulty backend may report a storage error instead.
pub open spec fn read_ok<T>(r: Result<T, ErrorModel>, expected: T, healthy: bool) -> bool {
    match r {
        Ok(v) => v == expected,
        Err(e) => !healthy && e is Storage,
    }
}

/// A write either succeeds with the expected state, or fails leaving the
/// state unchanged, with the expected error or (only on a faulty backend) a storage error.
pub open spec fn write_ok(
    r: Result<(), ErrorModel>,
    before: StoreModel,
    after: StoreModel,
    expected: Result<StoreModel, ErrorModel>,
    healthy: bool,
) -> bool {
    match r {
        Ok(_) => expected == Ok::<StoreModel, ErrorModel>(after),
        Err(e) => after == before && (expected == Err::<StoreModel, ErrorModel>(e) || (!healthy
            && e is Storage)),
    }
}

/// A result equals the expected one, unless a faulty backend reported a storage error.
pub open spec fn agrees<T>(r: Result<T, ErrorModel>, expected: Result<T, ErrorModel>, healthy: bool) -> bool {
    r == expected || (!healthy && r is Err && r->Err_0 is Storage)
}

/// Recorded outputs in the order a backend lists them.
pub type UtxoListing = Seq<UtxoModel>;

/// `s` lists the outputs of `m`, each once, in some order.
pub open spec fn lists_utxos(s: Seq<UtxoModel>, m: Map<OutPointModel, UtxoModel>) -> bool {
    &&& forall|i: int| 0 <= i < s.len() ==> #[trigger] m.contains_key(s[i].outpoint) && m[s[i].outpoint] == s[i]
    &&& forall|i: int, j: int| 0 <= i < j < s.len() ==> (#[trigger] s[i]).outpoint != (#[trigger] s[j]).outpoint
    &&& forall|k: OutPointModel| #[trigger] m.contains_key(k) ==> exists|i: int| 0 <= i < s.len() && s[i].outpoint == k
}

/// `s` lists the operations of `m`, each once, in some order.
pub open spec fn lists_operations(s: Seq<OperationModel>, m: Map<Seq<char>, OperationModel>) -> bool {
    &&& forall|i: int| 0 <= i < s.len() ==> #[trigger] m.contains_key(s[i].operation_id) && m[s[i].operation_id] == s[i]
    &&& forall|i: int, j: int| 0 <= i < j < s.len() ==> (#[trigger] s[i]).operation_id != (#[trigger] s[j]).operation_id
    &&& forall|k: Seq<char>| #[trigger] m.contains_key(k) ==> exists|i: int| 0 <= i < s.len() && s[i].operation_id == k
}

/// `s` lists the intents of `m`, each once, in some order.
pub open spec fn lists_intents(s: Seq<IntentModel>, m: Map<Seq<char>, IntentModel>) -> bool {
    &&& forall|i: int| 0 <= i < s.len() ==> #[trigger] m.contains_key(s[i].selection.operation_id)
        && m[s[i].selection.operation_id] == s[i]
    &&& forall|i: int, j: int| 0 <= i < j < s.len() ==> (#[trigger] s[i]).selection.operation_id
        != (#[trigger] s[j]).selection.operation_id
    &&& forall|k: Seq<char>| #[trigger] m.contains_key(k) ==> exists|i: int|
        0 <= i < s.len() && s[i].selection.operation_id == k
}

/// `s` names every member of `set` exactly once.
pub open spec fn enumerates<A>(s: Seq<A>, set: Set<A>) -> bool {
    &&& s.no_duplicates()
    &&& forall|x: A| #[trigger] s.contains(x) <==> set.contains(x)
}

/// The values of a list of outputs.
pub open spec fn utxos_model(s: Seq<ManagedUtxo>) -> Seq<UtxoModel> {
    s.map_values(|u: ManagedUtxo| u@)
}

/// The values of a list of operations.
pub open spec fn operations_model(s: Seq<PersistedOperation>) -> Seq<OperationModel> {
    s.map_values(|o: PersistedOperation| o@)
}

/// The values of a list of intents.
pub open spec fn intents_model(s: Seq<OperationIntent>) -> Seq<IntentModel> {
    s.map_values(|i: OperationIntent| i@)
}

/// One more tick, saturating.
pub open spec fn bump(t: u64) -> u64 {
    if t == u64::MAX {
        t
    } else {
        (t + 1) as u64
    }
}

/// `t + d`, saturating.
pub open spec fn sat_add(t: u64, d: u64) -> u64 {
    if t + d > u64::MAX {
        u64::MAX
    } else {
        (t + d) as u64
    }
}

/// The output is bound to operation `id`, in any phase.
pub open spec fn bound_to(u: UtxoModel, id: Seq<char>) -> bool {
    u.operation_binding matches Some(b) && b.operation_id == id
}

/// The output is bound to operation `id` in `phase`.
pub open spec fn bound_as(u: UtxoModel, id: Seq<char>, phase: OperationPhase) -> bool {
    u.operation_binding == Some(BindingModel { operation_id: id, phase })
}

pub open spec fn bool_text(b: bool) -> Seq<char> {
    if b {
        "true"@
    } else {
        "false"@
    }
}

/// Why an output that is neither free nor already held by the operation cannot be locked.
pub open spec fn lock_refusal(outpoint: OutPointModel, u: UtxoModel, lock_present: bool) -> ErrorModel {
    if u.availability != Availability::Selectable {
        ErrorModel::UtxoUnavailable { outpoint, availability: u.availability }
    } else if u.observation_conflict is Some {
        ErrorModel::ObservationConflict { outpoint, onchain_state: u.onchain_state }
    } else {
        ErrorModel::UtxoPolicyBlocked {
            outpoint,
            reason: "utxo is not safely spendable: onchain_state="@ + u.onchain_state.debug_text()
                + ", lock_present="@ + bool_text(lock_present),
        }
    }
}

/// Checks one output before a lock: free outputs and the operation's own are accepted.
pub open spec fn lock_effect_check(
    utxos: Map<OutPointModel, UtxoModel>,
    locks: Map<OutPointModel, LockModel>,
    id: Seq<char>,
    phase: OperationPhase,
    outpoint: OutPointModel,
) -> Result<(), ErrorModel> {
    if !utxos.contains_key(outpoint) {
        Err(ErrorModel::UtxoNotFound(outpoint))
    } else {
        let u = utxos[outpoint];
        let lock_present = locks.contains_key(outpoint);
        if u.can_be_locked(lock_present) {
            Ok(())
        } else if bound_as(u, id, phase) && lock_present && locks[outpoint].operation_id == id {
            Ok(())
        } else {
            Err(lock_refusal(outpoint, u, lock_present))
        }
    }
}

/// Applies one lock effect of a selection: reserve and lock a free output, or
/// check that an output the operation already holds was locked the same way.
pub open spec fn lock_step(
    utxos: Map<OutPointModel, UtxoModel>,
    locks: Map<OutPointModel, LockModel>,
    sel: SelectionModel,
    phase: OperationPhase,
    owner: Seq<char>,
    created_at: u64,
    e: EffectModel,
) -> Result<(Map<OutPointModel, UtxoModel>, Map<OutPointModel, LockModel>), ErrorModel> {
    let id = sel.operation_id;
    match lock_effect_check(utxos, locks, id, phase, e.outpoint) {
        Err(x) => Err(x),
        Ok(_) => {
            let u = utxos[e.outpoint];
            if bound_as(u, id, phase) && locks.contains_key(e.outpoint) && locks[e.outpoint].operation_id
                == id {
                let l = locks[e.outpoint];
                if l.purpose != e.purpose || l.expires_at != sel.expires_at || l.account_id
                    != u.account_id || l.scope_id != u.scope_id {
                    Err(ErrorModel::IntentConflict { operation_id: id })
                } else {
                    Ok((utxos, locks))
                }
            } else {
                Ok(
                    (
                        utxos.insert(e.outpoint, u.reserve(id, phase)),
                        locks.insert(
                            e.outpoint,
                            LockModel {
                                operation_id: id,
                                account_id: u.account_id,
                                scope_id: u.scope_id,
                                purpose: e.purpose,
                                owner,
                                created_at,
                                expires_at: sel.expires_at,
                            },
                        ),
                    ),
                )
            }
        },
    }
}

/// Applies the lock effects in order; the first refusal stops everything.
pub open spec fn lock_all(
    utxos: Map<OutPointModel, UtxoModel>,
    locks: Map<OutPointModel, LockModel>,
    sel: SelectionModel,
    phase: OperationPhase,
    owner: Seq<char>,
    created_at: u64,
    effects: Seq<EffectModel>,
) -> Result<(Map<OutPointModel, UtxoModel>, Map<OutPointModel, LockModel>), ErrorModel>
    decreases effects.len(),
{
    if effects.len() == 0 {
        Ok((utxos, locks))
    } else {
        match lock_step(utxos, locks, sel, phase, owner, created_at, effects[0]) {
            Err(x) => Err(x),
            Ok((u, l)) => lock_all(u, l, sel, phase, owner, created_at, effects.drop_first()),
        }
    }
}

/// The output is bound to operation `id` in `phase` and locked by it.
pub open spec fn held_by(
    utxos: Map<OutPointModel, UtxoModel>,
    locks: Map<OutPointModel, LockModel>,
    o: OutPointModel,
    id: Seq<char>,
    phase: OperationPhase,
) -> bool {
    &&& utxos.contains_key(o)
    &&& bound_as(utxos[o], id, phase)
    &&& locks.contains_key(o)
    &&& locks[o].operation_id == id
}

/// A lock step keeps every output the operation holds held, and holds the one it locks.
proof fn lemma_lock_step_holds(
    utxos: Map<OutPointModel, UtxoModel>,
    locks: Map<OutPointModel, LockModel>,
    sel: SelectionModel,
    phase: OperationPhase,
    owner: Seq<char>,
    created_at: u64,
    e: EffectModel,
    o: OutPointModel,
)
    requires
        lock_step(utxos, locks, sel, phase, owner, created_at, e) is Ok,
    ensures
        ({
            let (u, l) = lock_step(utxos, locks, sel, phase, owner, created_at, e)->Ok_0;
            &&& held_by(u, l, e.outpoint, sel.operation_id, phase)
            &&& held_by(utxos, locks, o, sel.operation_id, phase) ==> held_by(u, l, o, sel.operation_id, phase)
        }),
{
}

/// A successful lock pass leaves every output of its effects bound to the
/// operation in the phase and locked by it.
pub proof fn lemma_lock_all_holds(
    utxos: Map<OutPointModel, UtxoModel>,
    locks: Map<OutPointModel, LockModel>,
    sel: SelectionModel,
    phase: OperationPhase,
    owner: Seq<char>,
    created_at: u64,
    effects: Seq<EffectModel>,
)
    requires
        lock_all(utxos, locks, sel, phase, owner, created_at, effects) is Ok,
    ensures
        ({
            let (u, l) = lock_all(utxos, locks, sel, phase, owner, created_at, effects)->Ok_0;
            &&& forall|k: int| 0 <= k < effects.len() ==> held_by(u, l, #[trigger] effects[k].outpoint, sel.operation_id, phase)
            &&& forall|o: OutPointModel| held_by(utxos, locks, o, sel.operation_id, phase) ==> #[trigger] held_by(u, l, o, sel.operation_id, phase)
        }),
    decreases effects.len(),
{
    if effects.len() > 0 {
        let (u1, l1) = lock_step(utxos, locks, sel, phase, owner, created_at, effects[0])->Ok_0;
        let rest = effects.drop_first();
        lemma_lock_all_holds(u1, l1, sel, phase, owner, created_at, rest);
        let (u, l) = lock_all(utxos, locks, sel, phase, owner, created_at, effects)->Ok_0;
        lemma_lock_step_holds(utxos, locks, sel, phase, owner, created_at, effects[0], effects[0].outpoint);
        assert forall|o: OutPointModel| held_by(utxos, locks, o, sel.operation_id, phase) implies #[trigger] held_by(
            u,
            l,
            o,
            sel.operation_id,
            phase,
        ) by {
            lemma_lock_step_holds(utxos, locks, sel, phase, owner, created_at, effects[0], o);
        }
        assert forall|k: int| 0 <= k < effects.len() implies held_by(u, l, #[trigger] effects[k].outpoint, sel.operation_id, phase) by {
            if k > 0 {
                assert(rest[k - 1] == effects[k]);
            }
        }
    }
}

/// The account and scope both exist, belong together, and grant `required`.
pub open spec fn scope_check(
    m: StoreModel,
    account_id: Seq<char>,
    scope_id: Seq<char>,
    required: Set<Capability>,
) -> Result<(), ErrorModel> {
    match lookup(m.accounts, account_id) {
        None => Err(ErrorModel::AccountNotFound(account_id)),
        Some(a) => if !required.subset_of(a.capabilities) {
            Err(ErrorModel::MissingAccountCapabilities { account_id })
        } else {
            match lookup(m.scopes, scope_id) {
                None => Err(ErrorModel::ScopeNotFound(scope_id)),
                Some(s) => if s.account_id != account_id || !a.scopes.contains(scope_id) {
                    Err(ErrorModel::ScopeNotFound(scope_id))
                } else if !required.subset_of(s.capabilities) {
                    Err(ErrorModel::MissingCapabilities { scope_id })
                } else {
                    Ok(())
                },
            }
        },
    }
}

/// Checks each locked input's account and scope for its purpose, collecting the
/// capabilities the change scope must grant.
pub open spec fn effects_check(m: StoreModel, effects: Seq<EffectModel>, change: Set<Capability>) -> Result<
    Set<Capability>,
    ErrorModel,
>
    decreases effects.len(),
{
    if effects.len() == 0 {
        Ok(change)
    } else {
        let e = effects[0];
        match lookup(m.utxos, e.outpoint) {
            None => Err(ErrorModel::UtxoNotFound(e.outpoint)),
            Some(u) => match scope_check(m, u.account_id, u.scope_id, e.purpose.required_set()) {
                Err(x) => Err(x),
                Ok(_) => effects_check(
                    m,
                    effects.drop_first(),
                    change.union(e.purpose.required_change_set()),
                ),
            },
        }
    }
}

/// The outputs the effects lock, in order.
pub open spec fn effect_outpoints(effects: Seq<EffectModel>) -> Seq<OutPointModel> {
    effects.map_values(|e: EffectModel| e.outpoint)
}

/// Structure and capability check of a selection against the recorded state.
/// The selection's own structure is sound: its lock effects name distinct
/// outputs, and exactly its inputs, which are non-empty and distinct.
pub open spec fn selection_shaped(sel: SelectionModel) -> bool {
    let locked = effect_outpoints(sel.effects);
    &&& locked.no_duplicates()
    &&& sel.selected_outpoints.len() > 0
    &&& sel.selected_outpoints.no_duplicates()
    &&& sel.selected_outpoints.to_set() == locked.to_set()
}

pub open spec fn capability_check(m: StoreModel, sel: SelectionModel) -> Result<(), ErrorModel> {
    let locked = effect_outpoints(sel.effects);
    if !locked.no_duplicates() {
        Err(ErrorModel::CorruptedState("duplicate selection effect"@))
    } else if sel.selected_outpoints.len() == 0 || !sel.selected_outpoints.no_duplicates()
        || sel.selected_outpoints.to_set() != locked.to_set() {
        Err(
            ErrorModel::CorruptedState(
                "selection inputs and lock effects must match and be non-empty and unique"@,
            ),
        )
    } else {
        match effects_check(m, sel.effects, Set::empty()) {
            Err(x) => Err(x),
            Ok(change) => match lookup(m.scopes, sel.change_scope_id) {
                None => Err(ErrorModel::ScopeNotFound(sel.change_scope_id)),
                Some(cs) => scope_check(m, cs.account_id, cs.id, change),
            },
        }
    }
}

/// One reconciliation action on the recorded outputs and locks. Outputs the
/// state does not know are left alone; a known output is not rediscovered.
pub open spec fn action_step(m: StoreModel, a: ActionModel) -> StoreModel {
    match a {
        ActionModel::DiscoverNew(o) => if m.utxos.contains_key(o.outpoint) {
            m
        } else {
            StoreModel {
                utxos: m.utxos.insert(
                    o.outpoint,
                    UtxoModel::discovered(o.outpoint, o.account_id, o.scope_id, o.value_sats, o.confirmation),
                ),
                ..m
            }
        },
        ActionModel::RefreshObserved(_) => m,
        ActionModel::UpdateOnchainState { outpoint, new_state } => if m.utxos.contains_key(outpoint)
            && m.utxos[outpoint].onchain_state != OnchainState::Spent
            && m.utxos[outpoint].onchain_state != OnchainState::SpendingInFlight {
            StoreModel {
                utxos: m.utxos.insert(outpoint, UtxoModel { onchain_state: new_state, ..m.utxos[outpoint] }),
                ..m
            }
        } else {
            m
        },
        ActionModel::MarkSpent { outpoint, .. } => StoreModel {
            utxos: if m.utxos.contains_key(outpoint) {
                m.utxos.insert(outpoint, m.utxos[outpoint].mark_spent())
            } else {
                m.utxos
            },
            locks: m.locks.remove(outpoint),
            ..m
        },
        ActionModel::ReportConflict { outpoint, message, recorded_at } => if m.utxos.contains_key(
            outpoint,
        ) {
            StoreModel {
                utxos: m.utxos.insert(
                    outpoint,
                    UtxoModel {
                        observation_conflict: Some(ConflictModel { message, recorded_at }),
                        ..m.utxos[outpoint]
                    },
                ),
                ..m
            }
        } else {
            m
        },
        ActionModel::ClearConflict(outpoint) => if m.utxos.contains_key(outpoint) {
            StoreModel {
                utxos: m.utxos.insert(
                    outpoint,
                    UtxoModel { observation_conflict: None, ..m.utxos[outpoint] },
                ),
                ..m
            }
        } else {
            m
        },
        ActionModel::UpdateAvailability { outpoint, availability } => if m.utxos.contains_key(
            outpoint,
        ) {
            StoreModel {
                utxos: m.utxos.insert(outpoint, UtxoModel { availability, ..m.utxos[outpoint] }),
                ..m
            }
        } else {
            m
        },
        ActionModel::MarkMissing(outpoint) => if m.utxos.contains_key(outpoint) {
            StoreModel { utxos: m.utxos.insert(outpoint, m.utxos[outpoint].mark_missing()), ..m }
        } else {
            m
        },
    }
}

/// The actions applied in order.
pub open spec fn apply_actions(m: StoreModel, actions: Seq<ActionModel>) -> StoreModel
    decreases actions.len(),
{
    if actions.len() == 0 {
        m
    } else {
        apply_actions(action_step(m, actions[0]), actions.drop_first())
    }
}

pub open spec fn keyed_accounts(m: Map<Seq<char>, AccountModel>) -> bool {
    forall|k: Seq<char>| #[trigger] m.contains_key(k) ==> m[k].id == k
}

pub open spec fn keyed_scopes(m: Map<Seq<char>, ScopeModel>) -> bool {
    forall|k: Seq<char>| #[trigger] m.contains_key(k) ==> m[k].id == k
}

pub open spec fn keyed_utxos(m: Map<OutPointModel, UtxoModel>) -> bool {
    forall|k: OutPointModel| #[trigger] m.contains_key(k) ==> m[k].outpoint == k
}

pub open spec fn keyed_operations(m: Map<Seq<char>, OperationModel>) -> bool {
    forall|k: Seq<char>| #[trigger] m.contains_key(k) ==> m[k].operation_id == k
}

pub open spec fn keyed_intents(m: Map<Seq<char>, IntentModel>) -> bool {
    forall|k: Seq<char>| #[trigger] m.contains_key(k) ==> m[k].selection.operation_id == k
}

impl StoreModel {
    /// Every record is filed under its own key.
    pub open spec fn keyed(self) -> bool {
        &&& keyed_accounts(self.accounts)
        &&& keyed_scopes(self.scopes)
        &&& keyed_utxos(self.utxos)
        &&& keyed_operations(self.operations)
        &&& keyed_intents(self.intents)
    }

    /// The intents still pending.
    pub open spec fn pending_intents(self) -> Map<Seq<char>, IntentModel> {
        self.intents.restrict(
            Set::new(
                |k: Seq<char>|
                    self.intents.contains_key(k) && self.intents[k].status == IntentStatus::Pending,
            ),
        )
    }

    /// The outputs currently bound to operation `id`.
    pub open spec fn bound_outpoints(self, id: Seq<char>) -> Set<OutPointModel> {
        Set::new(|k: OutPointModel| self.utxos.contains_key(k) && bound_to(self.utxos[k], id))
    }

    pub open spec fn put_account(self, a: AccountModel) -> StoreModel {
        StoreModel { accounts: self.accounts.insert(a.id, a), tick: bump(self.tick), ..self }
    }

    /// Adds a scope to its (existing) account's scope list and records it.
    pub open spec fn put_scope(self, s: ScopeModel) -> Result<StoreModel, ErrorModel> {
        match lookup(self.accounts, s.account_id) {
            None => Err(ErrorModel::AccountNotFound(s.account_id)),
            Some(a) => Ok(
                StoreModel {
                    accounts: self.accounts.insert(
                        s.account_id,
                        AccountModel { scopes: a.scopes.push(s.id), ..a },
                    ),
                    scopes: self.scopes.insert(s.id, s),
                    tick: bump(self.tick),
                    ..self
                },
            ),
        }
    }

    pub open spec fn put_utxo(self, u: UtxoModel) -> StoreModel {
        StoreModel { utxos: self.utxos.insert(u.outpoint, u), tick: bump(self.tick), ..self }
    }

    /// Advances the tick by `delta`, at least one, saturating.
    pub open spec fn advance_tick(self, delta: u64) -> StoreModel {
        StoreModel { tick: sat_add(self.tick, if delta == 0 { 1 } else { delta }), ..self }
    }

    /// Records a pending intent for a new operation; repeating the same selection
    /// answers the recorded intent, a different one conflicts.
    pub open spec fn persist_intent(self, sel: SelectionModel) -> Result<(IntentModel, StoreModel), ErrorModel> {
        let id = sel.operation_id;
        match lookup(self.intents, id) {
            Some(existing) => if existing.selection != sel {
                Err(ErrorModel::IntentConflict { operation_id: id })
            } else {
                Ok((existing, self))
            },
            None => {
                let intent = IntentModel {
                    selection: sel,
                    status: IntentStatus::Pending,
                    recorded_at: bump(self.tick),
                };
                Ok((intent, StoreModel { intents: self.intents.insert(id, intent), tick: bump(self.tick), ..self }))
            },
        }
    }

    pub open spec fn mark_intent_committed(self, id: Seq<char>) -> Result<StoreModel, ErrorModel> {
        match lookup(self.intents, id) {
            None => Err(ErrorModel::IntentNotFound(id)),
            Some(i) => if i.status == IntentStatus::Failed {
                Err(ErrorModel::IntentNotPending(id))
            } else {
                Ok(
                    StoreModel {
                        intents: self.intents.insert(id, IntentModel { status: IntentStatus::Committed, ..i }),
                        tick: bump(self.tick),
                        ..self
                    },
                )
            },
        }
    }

    /// Releases every output bound to `id` and its locks, and records the operation in `phase`.
    pub open spec fn release(self, id: Seq<char>, phase: OperationPhase) -> StoreModel {
        StoreModel {
            utxos: Map::new(
                |k: OutPointModel| self.utxos.contains_key(k),
                |k: OutPointModel|
                    if bound_to(self.utxos[k], id) {
                        self.utxos[k].release_binding()
                    } else {
                        self.utxos[k]
                    },
            ),
            locks: Map::new(
                |k: OutPointModel| self.locks.contains_key(k) && self.locks[k].operation_id != id,
                |k: OutPointModel| self.locks[k],
            ),
            operations: self.operations.insert(
                id,
                OperationModel {
                    operation_id: id,
                    phase,
                    updated_at: bump(self.tick),
                    expires_at: None,
                },
            ),
            tick: bump(self.tick),
            ..self
        }
    }

    /// Rejects a pending intent, rolling back its operation if it is still selected.
    pub open spec fn mark_intent_failed(self, id: Seq<char>) -> Result<StoreModel, ErrorModel> {
        match lookup(self.intents, id) {
            None => Err(ErrorModel::IntentNotFound(id)),
            Some(i) => if i.status == IntentStatus::Committed {
                Err(ErrorModel::IntentNotPending(id))
            } else if i.status == IntentStatus::Failed {
                Ok(self)
            } else {
                let released: Result<StoreModel, ErrorModel> = match lookup(self.operations, id) {
                    None => Ok(self),
                    Some(op) => if op.phase == OperationPhase::Selected {
                        Ok(self.release(id, OperationPhase::RollingBack))
                    } else if op.phase == OperationPhase::RollingBack {
                        Ok(self)
                    } else {
                        Err(
                            ErrorModel::InvalidOperationTransition {
                                operation_id: id,
                                from: op.phase,
                                to: OperationPhase::RollingBack,
                            },
                        )
                    },
                };
                match released {
                    Err(e) => Err(e),
                    Ok(m) => Ok(
                        StoreModel {
                            intents: m.intents.insert(id, IntentModel { status: IntentStatus::Failed, ..i }),
                            tick: bump(m.tick),
                            ..m
                        },
                    ),
                }
            },
        }
    }

    /// Checks the intent, the operation's phase and the capabilities, then locks
    /// every input and records the operation in `phase`; any refusal changes nothing.
    pub open spec fn apply_batch(self, sel: SelectionModel, phase: OperationPhase, owner: Seq<char>) -> Result<
        StoreModel,
        ErrorModel,
    > {
        let id = sel.operation_id;
        if self.intents.contains_key(id) && self.intents[id].status == IntentStatus::Failed {
            Err(ErrorModel::IntentNotPending(id))
        } else if self.intents.contains_key(id) && self.intents[id].selection != sel {
            Err(ErrorModel::IntentConflict { operation_id: id })
        } else if self.operations.contains_key(id) && (self.operations[id].phase != phase
            || self.operations[id].phase == OperationPhase::RollingBack) {
            Err(
                ErrorModel::InvalidOperationTransition {
                    operation_id: id,
                    from: self.operations[id].phase,
                    to: phase,
                },
            )
        } else {
            match capability_check(self, sel) {
                Err(e) => Err(e),
                Ok(_) => match lock_all(self.utxos, self.locks, sel, phase, owner, bump(self.tick), sel.effects) {
                    Err(e) => Err(e),
                    Ok((u, l)) => Ok(
                        StoreModel {
                            utxos: u,
                            locks: l,
                            operations: self.operations.insert(
                                id,
                                OperationModel {
                                    operation_id: id,
                                    phase,
                                    updated_at: bump(self.tick),
                                    expires_at: sel.expires_at,
                                },
                            ),
                            tick: bump(self.tick),
                            ..self
                        },
                    ),
                },
            }
        }
    }

    /// Applies the actions of a plan in order and advances the tick.
    pub open spec fn apply_reconciliation(self, actions: Seq<ActionModel>) -> StoreModel {
        let m = apply_actions(self, actions);
        StoreModel { tick: bump(m.tick), ..m }
    }

    /// Advances a committed operation and its bound outputs to `phase`, keeping
    /// locks but ending their expiry. `Ok(false)` repeats the current phase.
    pub open spec fn complete(self, id: Seq<char>, phase: OperationPhase) -> Result<(bool, StoreModel), ErrorModel> {
        if !self.operations.contains_key(id) {
            Err(ErrorModel::OperationNotFound(id))
        } else if !self.intents.contains_key(id) {
            Err(ErrorModel::IntentNotFound(id))
        } else if self.intents[id].status != IntentStatus::Committed {
            Err(ErrorModel::IntentNotCommitted(id))
        } else {
            match advance_check(self.operations[id], phase) {
                Err(e) => Err(e),
                Ok(false) => Ok((false, self)),
                Ok(true) => Ok(
                    (
                        true,
                        StoreModel {
                            utxos: Map::new(
                                |k: OutPointModel| self.utxos.contains_key(k),
                                |k: OutPointModel|
                                    if bound_to(self.utxos[k], id) {
                                        self.utxos[k].advance_binding(phase)
                                    } else {
                                        self.utxos[k]
                                    },
                            ),
                            locks: Map::new(
                                |k: OutPointModel| self.locks.contains_key(k),
                                |k: OutPointModel|
                                    if self.locks[k].operation_id == id {
                                        LockModel { expires_at: None, ..self.locks[k] }
                                    } else {
                                        self.locks[k]
                                    },
                            ),
                            operations: self.operations.insert(
                                id,
                                OperationModel {
                                    operation_id: id,
                                    phase,
                                    updated_at: bump(self.tick),
                                    expires_at: None,
                                },
                            ),
                            tick: bump(self.tick),
                            ..self
                        },
                    ),
                ),
            }
        }
    }
}

proof fn lemma_actions_keep_spent(m: StoreModel, actions: Seq<ActionModel>, k: OutPointModel)
    requires
        m.utxos.contains_key(k),
        m.utxos[k].onchain_state == OnchainState::Spent,
    ensures
        apply_actions(m, actions).utxos.contains_key(k),
        apply_actions(m, actions).utxos[k].onchain_state == OnchainState::Spent,
    decreases actions.len(),
{
    if actions.len() > 0 {
        let n = action_step(m, actions[0]);
        assert(n.utxos.contains_key(k) && n.utxos[k].onchain_state == OnchainState::Spent);
        lemma_actions_keep_spent(n, actions.drop_first(), k);
    }
}

/// Reconciliation never reopens a spent output: whatever the plan, an output
/// recorded as spent stays recorded and spent.
pub proof fn lemma_reconciliation_keeps_spent(m: StoreModel, actions: Seq<ActionModel>, k: OutPointModel)
    requires
        m.utxos.contains_key(k),
        m.utxos[k].onchain_state == OnchainState::Spent,
    ensures
        m.apply_reconciliation(actions).utxos.contains_key(k),
        m.apply_reconciliation(actions).utxos[k].onchain_state == OnchainState::Spent,
{
    lemma_actions_keep_spent(m, actions, k);
}

/// What applying a selection needs besides the selection: the phase and the owner label.
#[derive(Debug, Clone, PartialEq, Eq)]
pub struct StateBatch {
    pub selection: OperationSelection,
    pub phase: OperationPhase,
    pub owner: String,
}

/// Reads state using distinct account, scope, and operation identities.
///
/// `model` is what the backend records and `healthy` whether it answers
/// without storage faults; every read answers from `model`.
pub trait StateRead {
    spec fn model(&self) -> StoreModel;

    spec fn healthy(&self) -> bool;

    /// The recorded outputs in the order this backend lists them; a function
    /// of the backend's state, so two listings of one state agree.
    spec fn utxo_listing(&self) -> UtxoListing;

    fn get_account(&self, account_id: &AccountId) -> (r: DomainResult<Option<Account>>)
        ensures
            read_ok(opt_res(r), lookup(self.model().accounts, account_id@), self.healthy()),
    ;

    fn get_scope(&self, scope_id: &WalletScopeId) -> (r: DomainResult<Option<WalletScope>>)
        ensures
            read_ok(opt_res(r), lookup(self.model().scopes, scope_id@), self.healthy()),
    ;

    fn get_utxo(&self, outpoint: &OutPoint) -> (r: DomainResult<Option<ManagedUtxo>>)
        ensures
            read_ok(opt_res(r), lookup(self.model().utxos, outpoint@), self.healthy()),
    ;

    fn get_lock(&self, outpoint: &OutPoint) -> (r: DomainResult<Option<OperationLock>>)
        ensures
            read_ok(opt_res(r), lookup(self.model().locks, outpoint@), self.healthy()),
    ;

    fn get_operation(&self, operation_id: &OperationId) -> (r: DomainResult<Option<PersistedOperation>>)
        ensures
            read_ok(opt_res(r), lookup(self.model().operations, operation_id@), self.healthy()),
    ;

    fn get_intent(&self, operation_id: &OperationId) -> (r: DomainResult<Option<OperationIntent>>)
        ensures
            read_ok(opt_res(r), lookup(self.model().intents, operation_id@), self.healthy()),
    ;

    /// Every recorded output once, in an order the backend chooses.
    fn list_utxos(&self) -> (r: DomainResult<Vec<ManagedUtxo>>)
        ensures
            match r {
                Ok(v) => lists_utxos(utxos_model(v@), self.model().utxos) && utxos_model(v@) == self.utxo_listing(),
                Err(e) => !self.healthy() && e@ is Storage,
            },
    ;

    /// Every recorded operation once, in an order the backend chooses.
    fn list_operations(&self) -> (r: DomainResult<Vec<PersistedOperation>>)
        ensures
            match r {
                Ok(v) => lists_operations(operations_model(v@), self.model().operations),
                Err(e) => !self.healthy() && e@ is Storage,
            },
    ;

    /// Every pending intent once, in an order the backend chooses.
    fn list_pending_intents(&self) -> (r: DomainResult<Vec<OperationIntent>>)
        ensures
            match r {
                Ok(v) => lists_intents(intents_model(v@), self.model().pending_intents()),
                Err(e) => !self.healthy() && e@ is Storage,
            },
    ;

    fn current_tick(&self) -> (r: DomainResult<u64>)
        ensures
            match r {
                Ok(t) => t == self.model().tick,
                Err(e) => !self.healthy() && e@ is Storage,
            },
    ;
}

/// Writes state; each write is atomic and leaves the state unchanged when it fails.
pub trait StateStore: StateRead {
    fn put_account(&mut self, account: Account) -> (r: DomainResult<()>)
        ensures
            final(self).healthy() == old(self).healthy(),
            write_ok(
                unit_res(r),
                old(self).model(),
                final(self).model(),
                Ok(old(self).model().put_account(account@)),
                old(self).healthy(),
            ),
    ;

    fn put_scope(&mut self, scope: WalletScope) -> (r: DomainResult<()>)
        ensures
            final(self).healthy() == old(self).healthy(),
            write_ok(
                unit_res(r),
                old(self).model(),
                final(self).model(),
                old(self).model().put_scope(scope@),
                old(self).healthy(),
            ),
    ;

    fn put_utxo(&mut self, utxo: ManagedUtxo) -> (r: DomainResult<()>)
        ensures
            final(self).healthy() == old(self).healthy(),
            write_ok(
                unit_res(r),
                old(self).model(),
                final(self).model(),
                Ok(old(self).model().put_utxo(utxo@)),
                old(self).healthy(),
            ),
    ;

    fn advance_tick(&mut self, delta: u64) -> (r: DomainResult<()>)
        ensures
            final(self).healthy() == old(self).healthy(),
            write_ok(
                unit_res(r),
                old(self).model(),
                final(self).model(),
                Ok(old(self).model().advance_tick(delta)),
                old(self).healthy(),
            ),
    ;

    fn persist_intent(&mut self, selection: OperationSelection) -> (r: DomainResult<OperationIntent>)
        ensures
            final(self).healthy() == old(self).healthy(),
            match r {
                Ok(i) => old(self).model().persist_intent(selection@) == Ok::<
                    (IntentModel, StoreModel),
                    ErrorModel,
                >((i@, final(self).model())),
                Err(e) => final(self).model() == old(self).model() && (old(self).model().persist_intent(
                    selection@,
                ) == Err::<(IntentModel, StoreModel), ErrorModel>(e@) || (!old(self).healthy()
                    && e@ is Storage)),
            },
    ;

    fn mark_intent_committed(&mut self, operation_id: &OperationId) -> (r: DomainResult<()>)
        ensures
            final(self).healthy() == old(self).healthy(),
            write_ok(
                unit_res(r),
                old(self).model(),
                final(self).model(),
                old(self).model().mark_intent_committed(operation_id@),
                old(self).healthy(),
            ),
    ;

    /// Rejects only a pending intent, atomically releasing any applied Selected reservation.
    /// Already failed intents are idempotent; committed intents must not be rejected.
    fn mark_intent_failed(&mut self, operation_id: &OperationId) -> (r: DomainResult<()>)
        ensures
            final(self).healthy() == old(self).healthy(),
            write_ok(
                unit_res(r),
                old(self).model(),
                final(self).model(),
                old(self).model().mark_intent_failed(operation_id@),
                old(self).healthy(),
            ),
    ;

    /// Validates capabilities and applies all effects atomically against the same state.
    fn apply_batch(&mut self, batch: StateBatch) -> (r: DomainResult<()>)
        ensures
            final(self).healthy() == old(self).healthy(),
            write_ok(
                unit_res(r),
                old(self).model(),
                final(self).model(),
                old(self).model().apply_batch(batch.selection@, batch.phase, batch.owner@),
                old(self).healthy(),
            ),
    ;

    fn apply_reconciliation(&mut self, plan: ReconcilePlan) -> (r: DomainResult<()>)
        ensures
            final(self).healthy() == old(self).healthy(),
            write_ok(
                unit_res(r),
                old(self).model(),
                final(self).model(),
                Ok(old(self).model().apply_reconciliation(crate::reconciliation::actions_model(plan.actions@))),
                old(self).healthy(),
            ),
    ;

    /// Atomically releases only a Selected operation into RollingBack. Returns
    /// None without changing anything if the operation no longer is Selected.
    fn release_selected_operation(&mut self, operation_id: &OperationId) -> (r: DomainResult<
        Option<Vec<OutPoint>>,
    >)
        ensures
            final(self).healthy() == old(self).healthy(),
            match r {
                Ok(None) => final(self).model() == old(self).model() && !(old(self).model().operations.contains_key(
                    operation_id@,
                ) && old(self).model().operations[operation_id@].phase == OperationPhase::Selected),
                Ok(Some(v)) => old(self).model().operations.contains_key(operation_id@) && old(
                    self,
                ).model().operations[operation_id@].phase == OperationPhase::Selected
                    && final(self).model() == old(self).model().release(
                    operation_id@,
                    OperationPhase::RollingBack,
                ) && enumerates(outpoints_model(v@), old(self).model().bound_outpoints(operation_id@)),
                Err(e) => final(self).model() == old(self).model() && !old(self).healthy() && e@ is Storage,
            },
    ;

    /// Releases every input bound to the operation and its locks, recording it in `released_phase`.
    fn release_operation(&mut self, operation_id: &OperationId, released_phase: OperationPhase) -> (r:
        DomainResult<Vec<OutPoint>>)
        ensures
            final(self).healthy() == old(self).healthy(),
            match r {
                Ok(v) => final(self).model() == old(self).model().release(operation_id@, released_phase)
                    && enumerates(outpoints_model(v@), old(self).model().bound_outpoints(operation_id@)),
                Err(e) => final(self).model() == old(self).model() && !old(self).healthy() && e@ is Storage,
            },
    ;

    /// Atomically advances the operation and its bound inputs without releasing
    /// locks or bindings, and clears selection expiry on the operation and its locks.
    /// Returns the outpoints whose bindings advanced.
    fn complete_operation(&mut self, operation_id: &OperationId, completed_phase: OperationPhase) -> (r:
        DomainResult<Vec<OutPoint>>)
        ensures
            final(self).healthy() == old(self).healthy(),
            match r {
                Ok(v) => match old(self).model().complete(operation_id@, completed_phase) {
                    Ok((advanced, m)) => final(self).model() == m && (if advanced {
                        enumerates(outpoints_model(v@), old(self).model().bound_outpoints(operation_id@))
                    } else {
                        v@.len() == 0
                    }),
                    Err(_) => false,
                },
                Err(e) => final(self).model() == old(self).model() && (old(self).model().complete(
                    operation_id@,
                    completed_phase,
                ) == Err::<(bool, StoreModel), ErrorModel>(e@) || (!old(self).healthy() && e@ is Storage)),
            },
    ;
}

} // verus!
