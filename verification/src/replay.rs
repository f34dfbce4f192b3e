//! Replaying a batch: what applying an already applied selection again does.
use vstd::prelude::*;

use crate::errors::ErrorModel;
use crate::lock::{LockModel, LockPurpose};
use crate::operation::{EffectModel, IntentStatus, OperationModel, OperationPhase, SelectionModel};
use crate::outpoint::OutPointModel;
use crate::store::{
    bound_as, bump, capability_check, effect_outpoints, effects_check, held_by, lock_all, lock_step, scope_check,
    selection_shaped, StoreModel,
};
use crate::utxo::UtxoModel;

verus! {

/// Output `o` is held by operation `id` in `phase` and locked for `purpose`
/// with expiry `expires_at`, under the output's own account and scope.
pub open spec fn locked_as(
    utxos: Map<OutPointModel, UtxoModel>,
    locks: Map<OutPointModel, LockModel>,
    o: OutPointModel,
    id: Seq<char>,
    phase: OperationPhase,
    purpose: LockPurpose,
    expires_at: Option<u64>,
) -> bool {
    &&& held_by(utxos, locks, o, id, phase)
    &&& locks[o].purpose == purpose
    &&& locks[o].expires_at == expires_at
    &&& locks[o].account_id == utxos[o].account_id
    &&& locks[o].scope_id == utxos[o].scope_id
}

/// Two output maps record the same outputs under the same accounts and scopes.
pub open spec fn same_places(a: Map<OutPointModel, UtxoModel>, b: Map<OutPointModel, UtxoModel>) -> bool {
    &&& a.dom() == b.dom()
    &&& forall|o: OutPointModel| #[trigger] a.contains_key(o) ==> a[o].account_id == b[o].account_id
        && a[o].scope_id == b[o].scope_id
}

proof fn lemma_lock_step_keeps(
    utxos: Map<OutPointModel, UtxoModel>,
    locks: Map<OutPointModel, LockModel>,
    sel: SelectionModel,
    phase: OperationPhase,
    owner: Seq<char>,
    created_at: u64,
    e: EffectModel,
)
    requires
        lock_step(utxos, locks, sel, phase, owner, created_at, e) is Ok,
    ensures
        ({
            let (u, l) = lock_step(utxos, locks, sel, phase, owner, created_at, e)->Ok_0;
            &&& locked_as(u, l, e.outpoint, sel.operation_id, phase, e.purpose, sel.expires_at)
            &&& forall|o: OutPointModel, p: LockPurpose, x: Option<u64>|
                #[trigger] locked_as(utxos, locks, o, sel.operation_id, phase, p, x) ==> locked_as(
                    u,
                    l,
                    o,
                    sel.operation_id,
                    phase,
                    p,
                    x,
                )
            &&& same_places(u, utxos)
        }),
{
    let (u, l) = lock_step(utxos, locks, sel, phase, owner, created_at, e)->Ok_0;
    let id = sel.operation_id;
    assert(utxos.contains_key(e.outpoint));
    if !(bound_as(utxos[e.outpoint], id, phase) && locks.contains_key(e.outpoint) && locks[e.outpoint].operation_id
        == id) {
        assert forall|o: OutPointModel, p: LockPurpose, x: Option<u64>|
            #[trigger] locked_as(utxos, locks, o, id, phase, p, x) implies locked_as(u, l, o, id, phase, p, x) by {
            assert(o != e.outpoint);
        }
        assert(u.dom() =~= utxos.dom());
    }
}

pub(crate) proof fn lemma_lock_all_keeps(
    utxos: Map<OutPointModel, UtxoModel>,
    locks: Map<OutPointModel, LockModel>,
    sel: SelectionModel,
    phase: OperationPhase,
    owner: Seq<char>,
    created_at: u64,
    effects: Seq<EffectModel>,
)
    requires
        lock_all(utxos, locks, sel, phase, owner, created_at, effects) is Ok,
    ensures
        ({
            let (u, l) = lock_all(utxos, locks, sel, phase, owner, created_at, effects)->Ok_0;
            &&& forall|k: int| 0 <= k < effects.len() ==> locked_as(
                u,
                l,
                #[trigger] effects[k].outpoint,
                sel.operation_id,
                phase,
                effects[k].purpose,
                sel.expires_at,
            )
            &&& forall|o: OutPointModel, p: LockPurpose, x: Option<u64>|
                #[trigger] locked_as(utxos, locks, o, sel.operation_id, phase, p, x) ==> locked_as(
                    u,
                    l,
                    o,
                    sel.operation_id,
                    phase,
                    p,
                    x,
                )
            &&& same_places(u, utxos)
        }),
    decreases effects.len(),
{
    if effects.len() > 0 {
        let id = sel.operation_id;
        let (u1, l1) = lock_step(utxos, locks, sel, phase, owner, created_at, effects[0])->Ok_0;
        let rest = effects.drop_first();
        lemma_lock_step_keeps(utxos, locks, sel, phase, owner, created_at, effects[0]);
        lemma_lock_all_keeps(u1, l1, sel, phase, owner, created_at, rest);
        let (u, l) = lock_all(utxos, locks, sel, phase, owner, created_at, effects)->Ok_0;
        assert forall|k: int| 0 <= k < effects.len() implies locked_as(
            u,
            l,
            #[trigger] effects[k].outpoint,
            id,
            phase,
            effects[k].purpose,
            sel.expires_at,
        ) by {
            if k > 0 {
                assert(rest[k - 1] == effects[k]);
            } else {
                assert(locked_as(u1, l1, effects[0].outpoint, id, phase, effects[0].purpose, sel.expires_at));
            }
        }
        assert forall|o: OutPointModel, p: LockPurpose, x: Option<u64>|
            #[trigger] locked_as(utxos, locks, o, id, phase, p, x) implies locked_as(u, l, o, id, phase, p, x) by {
            assert(locked_as(u1, l1, o, id, phase, p, x));
        }
        assert forall|o: OutPointModel| #[trigger] u.contains_key(o) implies u[o].account_id == utxos[o].account_id
            && u[o].scope_id == utxos[o].scope_id by {
            assert(u1.contains_key(o));
        }
    }
}

/// A lock pass over effects whose outputs are all already locked the same way
/// changes nothing.
proof fn lemma_lock_all_noop(
    utxos: Map<OutPointModel, UtxoModel>,
    locks: Map<OutPointModel, LockModel>,
    sel: SelectionModel,
    phase: OperationPhase,
    owner: Seq<char>,
    created_at: u64,
    effects: Seq<EffectModel>,
)
    requires
        forall|k: int| 0 <= k < effects.len() ==> locked_as(
            utxos,
            locks,
            #[trigger] effects[k].outpoint,
            sel.operation_id,
            phase,
            effects[k].purpose,
            sel.expires_at,
        ),
    ensures
        lock_all(utxos, locks, sel, phase, owner, created_at, effects) == Ok::<
            (Map<OutPointModel, UtxoModel>, Map<OutPointModel, LockModel>),
            ErrorModel,
        >((utxos, locks)),
    decreases effects.len(),
{
    if effects.len() > 0 {
        let e = effects[0];
        assert(locked_as(utxos, locks, e.outpoint, sel.operation_id, phase, e.purpose, sel.expires_at));
        assert(lock_step(utxos, locks, sel, phase, owner, created_at, e) == Ok::<
            (Map<OutPointModel, UtxoModel>, Map<OutPointModel, LockModel>),
            ErrorModel,
        >((utxos, locks)));
        let rest = effects.drop_first();
        assert forall|k: int| 0 <= k < rest.len() implies locked_as(
            utxos,
            locks,
            #[trigger] rest[k].outpoint,
            sel.operation_id,
            phase,
            rest[k].purpose,
            sel.expires_at,
        ) by {
            assert(rest[k] == effects[k + 1]);
        }
        lemma_lock_all_noop(utxos, locks, sel, phase, owner, created_at, rest);
    }
}

/// The lock of effect `j` differs from what `sel` asks of it.
pub open spec fn lock_differs(
    locks: Map<OutPointModel, LockModel>,
    sel: SelectionModel,
    effects: Seq<EffectModel>,
    j: int,
) -> bool {
    locks[effects[j].outpoint].purpose != effects[j].purpose || locks[effects[j].outpoint].expires_at
        != sel.expires_at
}

/// A lock pass over outputs the operation already holds, one of them locked
/// otherwise than asked, is refused as an intent conflict.
proof fn lemma_lock_all_differs(
    utxos: Map<OutPointModel, UtxoModel>,
    locks: Map<OutPointModel, LockModel>,
    sel: SelectionModel,
    phase: OperationPhase,
    owner: Seq<char>,
    created_at: u64,
    effects: Seq<EffectModel>,
)
    requires
        forall|k: int| 0 <= k < effects.len() ==> {
            let o = #[trigger] effects[k].outpoint;
            &&& held_by(utxos, locks, o, sel.operation_id, phase)
            &&& locks[o].account_id == utxos[o].account_id
            &&& locks[o].scope_id == utxos[o].scope_id
        },
        exists|j: int| 0 <= j < effects.len() && lock_differs(locks, sel, effects, j),
    ensures
        lock_all(utxos, locks, sel, phase, owner, created_at, effects) == Err::<
            (Map<OutPointModel, UtxoModel>, Map<OutPointModel, LockModel>),
            ErrorModel,
        >(ErrorModel::IntentConflict { operation_id: sel.operation_id }),
    decreases effects.len(),
{
    let e = effects[0];
    assert(held_by(utxos, locks, e.outpoint, sel.operation_id, phase));
    if !lock_differs(locks, sel, effects, 0) {
        assert(lock_step(utxos, locks, sel, phase, owner, created_at, e) == Ok::<
            (Map<OutPointModel, UtxoModel>, Map<OutPointModel, LockModel>),
            ErrorModel,
        >((utxos, locks)));
        let rest = effects.drop_first();
        let j = choose|j: int| 0 <= j < effects.len() && lock_differs(locks, sel, effects, j);
        assert(j > 0);
        assert(rest[j - 1] == effects[j]);
        assert(lock_differs(locks, sel, rest, j - 1));
        assert forall|k: int| 0 <= k < rest.len() implies {
            let o = #[trigger] rest[k].outpoint;
            &&& held_by(utxos, locks, o, sel.operation_id, phase)
            &&& locks[o].account_id == utxos[o].account_id
            &&& locks[o].scope_id == utxos[o].scope_id
        } by {
            assert(rest[k] == effects[k + 1]);
        }
        lemma_lock_all_differs(utxos, locks, sel, phase, owner, created_at, rest);
    }
}

proof fn lemma_effects_check_places(a: StoreModel, b: StoreModel, effects: Seq<EffectModel>, change: Set<crate::capability::Capability>)
    requires
        a.accounts == b.accounts,
        a.scopes == b.scopes,
        same_places(a.utxos, b.utxos),
    ensures
        effects_check(a, effects, change) == effects_check(b, effects, change),
    decreases effects.len(),
{
    if effects.len() > 0 {
        let e = effects[0];
        if a.utxos.contains_key(e.outpoint) {
            assert(b.utxos.contains_key(e.outpoint));
            let ua = a.utxos[e.outpoint];
            let ub = b.utxos[e.outpoint];
            assert(scope_check(a, ua.account_id, ua.scope_id, e.purpose.required_set()) == scope_check(
                b,
                ub.account_id,
                ub.scope_id,
                e.purpose.required_set(),
            ));
        } else {
            assert(!b.utxos.contains_key(e.outpoint));
        }
        lemma_effects_check_places(a, b, effects.drop_first(), change.union(e.purpose.required_change_set()));
    }
}

/// What the first application of a batch leaves: its outputs locked as asked,
/// the outputs otherwise in their places, intents untouched.
proof fn lemma_applied(m: StoreModel, sel: SelectionModel, phase: OperationPhase, owner: Seq<char>)
    requires
        m.apply_batch(sel, phase, owner) is Ok,
    ensures
        ({
            let m1 = m.apply_batch(sel, phase, owner)->Ok_0;
            &&& m1.intents == m.intents
            &&& m1.accounts == m.accounts
            &&& m1.scopes == m.scopes
            &&& capability_check(m1, sel) == capability_check(m, sel)
            &&& capability_check(m, sel) is Ok
            &&& sel.effects.len() > 0
            &&& forall|k: int| 0 <= k < sel.effects.len() ==> locked_as(
                m1.utxos,
                m1.locks,
                #[trigger] sel.effects[k].outpoint,
                sel.operation_id,
                phase,
                sel.effects[k].purpose,
                sel.expires_at,
            )
            &&& m1.operations.contains_key(sel.operation_id)
            &&& m1.operations[sel.operation_id].phase == phase
            &&& !(m.intents.contains_key(sel.operation_id) && m.intents[sel.operation_id].status
                == IntentStatus::Failed)
            &&& (m.intents.contains_key(sel.operation_id) ==> m.intents[sel.operation_id].selection == sel)
        }),
{
    let m1 = m.apply_batch(sel, phase, owner)->Ok_0;
    lemma_lock_all_keeps(m.utxos, m.locks, sel, phase, owner, bump(m.tick), sel.effects);
    lemma_effects_check_places(m1, m, sel.effects, Set::empty());
    assert(selection_shaped(sel));
    let locked = effect_outpoints(sel.effects);
    assert(sel.selected_outpoints.to_set().contains(sel.selected_outpoints[0]));
    assert(locked.to_set().contains(sel.selected_outpoints[0]));
    assert(locked.len() == sel.effects.len());
}

/// Replaying a batch that was applied succeeds and changes no output and no
/// lock: each lock keeps its owner and creation tick, whatever owner the
/// replay names; only the operation's update tick and the state's tick advance.
/// (A batch that first recorded an operation as rolling back is refused on replay.)
pub proof fn lemma_batch_replay_keeps_locks(
    m: StoreModel,
    sel: SelectionModel,
    phase: OperationPhase,
    owner: Seq<char>,
    owner2: Seq<char>,
)
    requires
        m.apply_batch(sel, phase, owner) is Ok,
        phase != OperationPhase::RollingBack,
    ensures
        ({
            let m1 = m.apply_batch(sel, phase, owner)->Ok_0;
            m1.apply_batch(sel, phase, owner2) == Ok::<StoreModel, ErrorModel>(
                StoreModel {
                    operations: m1.operations.insert(
                        sel.operation_id,
                        OperationModel {
                            operation_id: sel.operation_id,
                            phase,
                            updated_at: bump(m1.tick),
                            expires_at: sel.expires_at,
                        },
                    ),
                    tick: bump(m1.tick),
                    ..m1
                },
            )
        }),
{
    let m1 = m.apply_batch(sel, phase, owner)->Ok_0;
    lemma_applied(m, sel, phase, owner);
    lemma_lock_all_noop(m1.utxos, m1.locks, sel, phase, owner2, bump(m1.tick), sel.effects);
}

/// Replaying an applied batch with the same outputs but another expiry, or
/// another purpose for some lock, is refused as an intent conflict, unless no
/// intent is recorded and the changed purposes are not permitted, which is
/// refused by the capability check.
pub proof fn lemma_batch_replay_refuses_changed_locks(
    m: StoreModel,
    sel: SelectionModel,
    phase: OperationPhase,
    owner: Seq<char>,
    sel2: SelectionModel,
    owner2: Seq<char>,
)
    requires
        m.apply_batch(sel, phase, owner) is Ok,
        phase != OperationPhase::RollingBack,
        sel2.operation_id == sel.operation_id,
        sel2.selected_outpoints == sel.selected_outpoints,
        sel2.change_scope_id == sel.change_scope_id,
        sel2.effects.len() == sel.effects.len(),
        forall|k: int| 0 <= k < sel.effects.len() ==> #[trigger] sel2.effects[k].outpoint == sel.effects[k].outpoint,
        sel2 != sel,
    ensures
        ({
            let m1 = m.apply_batch(sel, phase, owner)->Ok_0;
            let id = sel.operation_id;
            &&& m1.apply_batch(sel2, phase, owner2) == if !m1.intents.contains_key(id) && capability_check(
                m1,
                sel2,
            ) is Err {
                Err::<StoreModel, ErrorModel>(capability_check(m1, sel2)->Err_0)
            } else {
                Err(ErrorModel::IntentConflict { operation_id: id })
            }
            &&& sel2.effects == sel.effects ==> m1.apply_batch(sel2, phase, owner2) == Err::<StoreModel, ErrorModel>(
                ErrorModel::IntentConflict { operation_id: id },
            )
        }),
{
    let m1 = m.apply_batch(sel, phase, owner)->Ok_0;
    let id = sel.operation_id;
    lemma_applied(m, sel, phase, owner);
    if sel2.effects == sel.effects {
        assert(effect_outpoints(sel2.effects) == effect_outpoints(sel.effects));
        assert(capability_check(m1, sel2) == capability_check(m1, sel));
    }
    if !m1.intents.contains_key(id) && capability_check(m1, sel2) is Ok {
        let differs = exists|j: int| 0 <= j < sel2.effects.len() && lock_differs(m1.locks, sel2, sel2.effects, j);
        if !differs {
            assert(sel2.expires_at == sel.expires_at) by {
                assert(!lock_differs(m1.locks, sel2, sel2.effects, 0));
                assert(locked_as(
                    m1.utxos,
                    m1.locks,
                    sel.effects[0].outpoint,
                    id,
                    phase,
                    sel.effects[0].purpose,
                    sel.expires_at,
                ));
            }
            assert forall|k: int| 0 <= k < sel.effects.len() implies #[trigger] sel2.effects[k] == sel.effects[k] by {
                assert(!lock_differs(m1.locks, sel2, sel2.effects, k));
                assert(locked_as(
                    m1.utxos,
                    m1.locks,
                    sel.effects[k].outpoint,
                    id,
                    phase,
                    sel.effects[k].purpose,
                    sel.expires_at,
                ));
            }
            assert(sel2.effects =~= sel.effects);
            assert(sel2 == sel);
        }
        assert forall|k: int| 0 <= k < sel2.effects.len() implies {
            let o = #[trigger] sel2.effects[k].outpoint;
            &&& held_by(m1.utxos, m1.locks, o, sel2.operation_id, phase)
            &&& m1.locks[o].account_id == m1.utxos[o].account_id
            &&& m1.locks[o].scope_id == m1.utxos[o].scope_id
        } by {
            assert(locked_as(
                m1.utxos,
                m1.locks,
                sel.effects[k].outpoint,
                id,
                phase,
                sel.effects[k].purpose,
                sel.expires_at,
            ));
        }
        lemma_lock_all_differs(m1.utxos, m1.locks, sel2, phase, owner2, bump(m1.tick), sel2.effects);
    }
}

/// Once an applied operation is released (rolled back), replaying its batch is
/// refused as an invalid transition out of `RollingBack`.
pub proof fn lemma_batch_after_release_refused(
    m: StoreModel,
    sel: SelectionModel,
    phase: OperationPhase,
    owner: Seq<char>,
    owner2: Seq<char>,
)
    requires
        m.apply_batch(sel, phase, owner) is Ok,
    ensures
        m.apply_batch(sel, phase, owner)->Ok_0.release(sel.operation_id, OperationPhase::RollingBack).apply_batch(
            sel,
            phase,
            owner2,
        ) == Err::<StoreModel, ErrorModel>(
            ErrorModel::InvalidOperationTransition {
                operation_id: sel.operation_id,
                from: OperationPhase::RollingBack,
                to: phase,
            },
        ),
{
    lemma_applied(m, sel, phase, owner);
}

} // verus!
