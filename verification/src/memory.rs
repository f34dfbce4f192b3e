//! An in-memory backend for tests, examples, simulation and ephemeral use.
use vstd::prelude::*;
use vstd::string::StringExecFns;

use crate::account::{Account, WalletScope};
use crate::errors::{DomainError, DomainResult, ErrorModel};
use crate::ids::{AccountId, OperationId, WalletScopeId};
use crate::lock::{LockModel, OperationLock};
use crate::operation::{
    outpoints_model, IntentStatus, OperationIntent, OperationModel, OperationPhase,
    OperationSelection, PersistedOperation,
};
use crate::outpoint::{OutPoint, OutPointModel};
use crate::reconciliation::{actions_model, ActionModel, ReconcilePlan, ReconciliationAction};
use crate::state::{Availability, OnchainState};
use crate::store::{
    action_step, apply_actions, bound_to, bump, enumerates, lock_all,
    lock_effect_check, lock_step, intents_model, operations_model,
    utxos_model, keyed_accounts, keyed_intents, keyed_operations, keyed_scopes, keyed_utxos,
    StateBatch, StateRead, StateStore, StoreModel,
};
use crate::table::{Table, TableKey, TableValue};
use crate::utxo::{ManagedUtxo, ObservationConflict, UtxoModel};

verus! {

impl TableKey for AccountId {
    fn same_key(&self, other: &Self) -> (r: bool) {
        self.same(other)
    }

    fn dup_key(&self) -> (r: Self) {
        self.dup()
    }
}

impl TableKey for WalletScopeId {
    fn same_key(&self, other: &Self) -> (r: bool) {
        self.same(other)
    }

    fn dup_key(&self) -> (r: Self) {
        self.dup()
    }
}

impl TableKey for OperationId {
    fn same_key(&self, other: &Self) -> (r: bool) {
        self.same(other)
    }

    fn dup_key(&self) -> (r: Self) {
        self.dup()
    }
}

impl TableKey for OutPoint {
    fn same_key(&self, other: &Self) -> (r: bool) {
        self.same(other)
    }

    fn dup_key(&self) -> (r: Self) {
        self.dup()
    }
}

impl TableValue for Account {
    fn dup_value(&self) -> (r: Self) {
        self.dup()
    }
}

impl TableValue for WalletScope {
    fn dup_value(&self) -> (r: Self) {
        self.dup()
    }
}

impl TableValue for ManagedUtxo {
    fn dup_value(&self) -> (r: Self) {
        self.dup()
    }
}

impl TableValue for OperationLock {
    fn dup_value(&self) -> (r: Self) {
        self.dup()
    }
}

impl TableValue for PersistedOperation {
    fn dup_value(&self) -> (r: Self) {
        self.dup()
    }
}

impl TableValue for OperationIntent {
    fn dup_value(&self) -> (r: Self) {
        self.dup()
    }
}

/// A bound output after its operation is released (`None`) or advanced to a phase.
pub open spec fn rebind(u: UtxoModel, to: Option<OperationPhase>) -> UtxoModel {
    match to {
        None => u.release_binding(),
        Some(p) => u.advance_binding(p),
    }
}

/// The outputs of `m` with those bound to `id` rebound.
pub open spec fn rebind_all(
    m: Map<OutPointModel, UtxoModel>,
    id: Seq<char>,
    to: Option<OperationPhase>,
) -> Map<OutPointModel, UtxoModel> {
    Map::new(
        |k: OutPointModel| m.contains_key(k),
        |k: OutPointModel|
            if bound_to(m[k], id) {
                rebind(m[k], to)
            } else {
                m[k]
            },
    )
}

/// Whether the output is bound to operation `id`.
fn is_bound_to(u: &ManagedUtxo, id: &OperationId) -> (r: bool)
    ensures
        r == bound_to(u@, id@),
{
    match &u.operation_binding {
        Some(b) => b.operation_id.same(id),
        None => false,
    }
}

/// Rebinds every output bound to `id`, answering those outputs in table order.
fn rebind_bound(
    utxos: &mut Table<OutPoint, ManagedUtxo>,
    id: &OperationId,
    to: Option<OperationPhase>,
) -> (r: Vec<OutPoint>)
    requires
        old(utxos).wf(),
        keyed_utxos(old(utxos)@),
    ensures
        final(utxos).wf(),
        keyed_utxos(final(utxos)@),
        final(utxos)@ == rebind_all(old(utxos)@, id@, to),
        enumerates(
            outpoints_model(r@),
            Set::new(|k: OutPointModel| old(utxos)@.contains_key(k) && bound_to(old(utxos)@[k], id@)),
        ),
{
    let ghost orig = utxos@;
    let ghost ks = utxos.key_seq();
    proof {
        utxos.lemma_enumerates();
    }
    let mut released: Vec<OutPoint> = Vec::new();
    let mut i: usize = 0;
    let n = utxos.len();
    while i < n
        invariant
            utxos.wf(),
            utxos.key_seq() == ks,
            n == ks.len(),
            i <= n,
            ks.no_duplicates(),
            forall|j: int| 0 <= j < ks.len() ==> #[trigger] orig.contains_key(ks[j]),
            forall|k: OutPointModel| #[trigger] orig.contains_key(k) ==> ks.contains(k),
            keyed_utxos(orig),
            forall|k: OutPointModel| #[trigger] utxos@.contains_key(k) <==> orig.contains_key(k),
            forall|j: int| 0 <= j < i ==> #[trigger] utxos@[ks[j]] == (if bound_to(orig[ks[j]], id@) {
                rebind(orig[ks[j]], to)
            } else {
                orig[ks[j]]
            }),
            forall|j: int| i <= j < n ==> #[trigger] utxos@[ks[j]] == orig[ks[j]],
            outpoints_model(released@).no_duplicates(),
            forall|x: OutPointModel| #[trigger] outpoints_model(released@).contains(x) <==> (exists|j: int|
                0 <= j < i && ks[j] == x && bound_to(orig[x], id@)),
        decreases n - i,
    {
        let u = utxos.value_at(i);
        if is_bound_to(u, id) {
            let mut u2 = u.dup();
            match to {
                None => u2.release_binding(),
                Some(p) => u2.advance_binding(p),
            }
            let o = u2.outpoint.dup();
            let ghost before = outpoints_model(released@);
            released.push(o);
            proof {
                assert(outpoints_model(released@) =~= before.push(ks[i as int]));
                assert(!before.contains(ks[i as int])) by {
                    if before.contains(ks[i as int]) {
                        let j = choose|j: int| 0 <= j < i && ks[j] == ks[i as int] && bound_to(orig[ks[i as int]], id@);
                        assert(ks[j] != ks[i as int]);
                    }
                }
                assert forall|x: OutPointModel| #[trigger] outpoints_model(released@).contains(x) implies (exists|j: int|
                    0 <= j < i + 1 && ks[j] == x && bound_to(orig[x], id@)) by {
                    if x == ks[i as int] {
                        assert(0 <= i < i + 1 && ks[i as int] == x && bound_to(orig[x], id@));
                    } else {
                        let k = choose|k: int| 0 <= k < outpoints_model(released@).len() && outpoints_model(released@)[k] == x;
                        assert(k < before.len());
                        assert(before[k] == x);
                        assert(before.contains(x));
                        let j = choose|j: int| 0 <= j < i && ks[j] == x && bound_to(orig[x], id@);
                        assert(0 <= j < i + 1 && ks[j] == x && bound_to(orig[x], id@));
                    }
                }
                assert forall|x: OutPointModel| (exists|j: int|
                    0 <= j < i + 1 && ks[j] == x && bound_to(orig[x], id@)) implies #[trigger] outpoints_model(released@).contains(x) by {
                    let j = choose|j: int| 0 <= j < i + 1 && ks[j] == x && bound_to(orig[x], id@);
                    if j == i {
                        assert(outpoints_model(released@)[before.len() as int] == x);
                    } else {
                        assert(exists|j2: int| 0 <= j2 < i && ks[j2] == x && bound_to(orig[x], id@));
                        assert(before.contains(x));
                        let k = choose|k: int| 0 <= k < before.len() && before[k] == x;
                        assert(outpoints_model(released@)[k] == x);
                    }
                }
            }
            let ghost pre = utxos@;
            utxos.set_value_at(i, u2);
            proof {
                assert forall|j: int| 0 <= j < n && j != i implies utxos@[ks[j]] == pre[ks[j]] by {
                    assert(ks[j] != ks[i as int]);
                }
            }
        } else {
            proof {
                assert forall|x: OutPointModel| #[trigger] outpoints_model(released@).contains(x) <==> (exists|j: int|
                    0 <= j < i + 1 && ks[j] == x && bound_to(orig[x], id@)) by {
                    if exists|j: int| 0 <= j < i + 1 && ks[j] == x && bound_to(orig[x], id@) {
                        let j = choose|j: int| 0 <= j < i + 1 && ks[j] == x && bound_to(orig[x], id@);
                        assert(j != i);
                    }
                }
            }
        }
        i = i + 1;
    }
    proof {
        assert forall|k: OutPointModel| #[trigger] utxos@.contains_key(k) implies utxos@[k] == rebind_all(
            orig,
            id@,
            to,
        )[k] by {
            let j = choose|j: int| 0 <= j < ks.len() && ks[j] == k;
            assert(utxos@[ks[j]] == rebind_all(orig, id@, to)[ks[j]]);
        }
        assert(utxos@ =~= rebind_all(orig, id@, to));
        assert forall|x: OutPointModel| #[trigger] outpoints_model(released@).contains(x) <==> Set::new(
            |k: OutPointModel| orig.contains_key(k) && bound_to(orig[k], id@),
        ).contains(x) by {
            if orig.contains_key(x) && bound_to(orig[x], id@) {
                let j = choose|j: int| 0 <= j < ks.len() && ks[j] == x;
                assert(exists|j: int| 0 <= j < i && ks[j] == x && bound_to(orig[x], id@));
            }
        }
    }
    released
}

/// The state keeps accounts, scopes, outputs, locks, operations and intents in
/// tables, each record under its own key.
pub struct InMemoryStateStore {
    accounts: Table<AccountId, Account>,
    scopes: Table<WalletScopeId, WalletScope>,
    utxos: Table<OutPoint, ManagedUtxo>,
    locks: Table<OutPoint, OperationLock>,
    operations: Table<OperationId, PersistedOperation>,
    intents: Table<OperationId, OperationIntent>,
    tick: u64,
}

impl InMemoryStateStore {
    pub closed spec fn recorded(&self) -> StoreModel {
        StoreModel {
            accounts: self.accounts@,
            scopes: self.scopes@,
            utxos: self.utxos@,
            locks: self.locks@,
            operations: self.operations@,
            intents: self.intents@,
            tick: self.tick,
        }
    }

    #[verifier::type_invariant]
    spec fn well_formed(self) -> bool {
        &&& self.accounts.wf()
        &&& self.scopes.wf()
        &&& self.utxos.wf()
        &&& self.locks.wf()
        &&& self.operations.wf()
        &&& self.intents.wf()
        &&& keyed_accounts(self.accounts@)
        &&& keyed_scopes(self.scopes@)
        &&& keyed_utxos(self.utxos@)
        &&& keyed_operations(self.operations@)
        &&& keyed_intents(self.intents@)
    }

    /// An empty store at tick zero.
    pub fn new() -> (r: Self)
        ensures
            r.model() == (StoreModel {
                accounts: Map::empty(),
                scopes: Map::empty(),
                utxos: Map::empty(),
                locks: Map::empty(),
                operations: Map::empty(),
                intents: Map::empty(),
                tick: 0,
            }),
    {
        InMemoryStateStore {
            accounts: Table::new(),
            scopes: Table::new(),
            utxos: Table::new(),
            locks: Table::new(),
            operations: Table::new(),
            intents: Table::new(),
            tick: 0,
        }
    }

    /// The tick after the current one, saturating.
    fn following_tick(&self) -> (r: u64)
        ensures
            r == bump(self.tick),
    {
        if self.tick < u64::MAX {
            self.tick + 1
        } else {
            u64::MAX
        }
    }

    fn next_tick(&mut self) -> (r: u64)
        ensures
            final(self).recorded() == (StoreModel { tick: bump(old(self).tick), ..old(self).recorded() }),
            r == bump(old(self).tick),
    {
        proof {
            use_type_invariant(&*self);
        }
        let t = if self.tick < u64::MAX {
            self.tick + 1
        } else {
            u64::MAX
        };
        self.tick = t;
        t
    }
}

impl Clone for InMemoryStateStore {
    /// An independent copy holding the same records at the same tick.
    fn clone(&self) -> (r: Self)
        ensures
            r.model() == self.model(),
    {
        proof {
            use_type_invariant(self);
        }
        InMemoryStateStore {
            accounts: self.accounts.dup_table(),
            scopes: self.scopes.dup_table(),
            utxos: self.utxos.dup_table(),
            locks: self.locks.dup_table(),
            operations: self.operations.dup_table(),
            intents: self.intents.dup_table(),
            tick: self.tick,
        }
    }
}

impl Default for InMemoryStateStore {
    fn default() -> (r: Self)
        ensures
            r.model() == (StoreModel {
                accounts: Map::empty(),
                scopes: Map::empty(),
                utxos: Map::empty(),
                locks: Map::empty(),
                operations: Map::empty(),
                intents: Map::empty(),
                tick: 0,
            }),
    {
        InMemoryStateStore::new()
    }
}

impl StateRead for InMemoryStateStore {
    open spec fn model(&self) -> StoreModel {
        self.recorded()
    }

    open spec fn healthy(&self) -> bool {
        true
    }

    closed spec fn utxo_listing(&self) -> Seq<UtxoModel> {
        self.utxos.key_seq().map_values(|k: OutPointModel| self.utxos@[k])
    }

    fn get_account(&self, account_id: &AccountId) -> (r: DomainResult<Option<Account>>) {
        proof {
            use_type_invariant(self);
        }
        match self.accounts.get(account_id) {
            Some(a) => Ok(Some(a.dup())),
            None => Ok(None),
        }
    }

    fn get_scope(&self, scope_id: &WalletScopeId) -> (r: DomainResult<Option<WalletScope>>) {
        proof {
            use_type_invariant(self);
        }
        match self.scopes.get(scope_id) {
            Some(s) => Ok(Some(s.dup())),
            None => Ok(None),
        }
    }

    fn get_utxo(&self, outpoint: &OutPoint) -> (r: DomainResult<Option<ManagedUtxo>>) {
        proof {
            use_type_invariant(self);
        }
        match self.utxos.get(outpoint) {
            Some(u) => Ok(Some(u.dup())),
            None => Ok(None),
        }
    }

    fn get_lock(&self, outpoint: &OutPoint) -> (r: DomainResult<Option<OperationLock>>) {
        proof {
            use_type_invariant(self);
        }
        match self.locks.get(outpoint) {
            Some(l) => Ok(Some(l.dup())),
            None => Ok(None),
        }
    }

    fn get_operation(&self, operation_id: &OperationId) -> (r: DomainResult<Option<PersistedOperation>>) {
        proof {
            use_type_invariant(self);
        }
        match self.operations.get(operation_id) {
            Some(o) => Ok(Some(o.dup())),
            None => Ok(None),
        }
    }

    fn get_intent(&self, operation_id: &OperationId) -> (r: DomainResult<Option<OperationIntent>>) {
        proof {
            use_type_invariant(self);
        }
        match self.intents.get(operation_id) {
            Some(i) => Ok(Some(i.dup())),
            None => Ok(None),
        }
    }

    fn list_utxos(&self) -> (r: DomainResult<Vec<ManagedUtxo>>) {
        proof {
            use_type_invariant(self);
            self.utxos.lemma_enumerates();
        }
        let ghost ks = self.utxos.key_seq();
        let ghost m = self.utxos@;
        let mut out: Vec<ManagedUtxo> = Vec::new();
        let mut i: usize = 0;
        while i < self.utxos.len()
            invariant
                self.utxos.wf(),
                ks == self.utxos.key_seq(),
                m == self.utxos@,
                i <= ks.len(),
                out@.len() == i,
                forall|j: int| 0 <= j < i ==> #[trigger] out@[j]@ == m[ks[j]],
            decreases ks.len() - i,
        {
            out.push(self.utxos.value_at(i).dup());
            i = i + 1;
        }
        proof {
            let s = utxos_model(out@);
            assert forall|j: int| 0 <= j < s.len() implies #[trigger] m.contains_key(s[j].outpoint)
                && m[s[j].outpoint] == s[j] by {
                assert(s[j] == m[ks[j]]);
                assert(m.contains_key(ks[j]));
            }
            assert forall|a: int, b: int| 0 <= a < b < s.len() implies (#[trigger] s[a]).outpoint
                != (#[trigger] s[b]).outpoint by {
                assert(s[a] == m[ks[a]]);
                assert(s[b] == m[ks[b]]);
                assert(m.contains_key(ks[a]));
                assert(m.contains_key(ks[b]));
            }
            assert forall|k: OutPointModel| #[trigger] m.contains_key(k) implies exists|j: int|
                0 <= j < s.len() && s[j].outpoint == k by {
                let j = choose|j: int| 0 <= j < ks.len() && ks[j] == k;
                assert(s[j] == m[ks[j]]);
            }
            assert(s =~= self.utxo_listing());
        }
        Ok(out)
    }

    fn list_operations(&self) -> (r: DomainResult<Vec<PersistedOperation>>) {
        proof {
            use_type_invariant(self);
            self.operations.lemma_enumerates();
        }
        let ghost ks = self.operations.key_seq();
        let ghost m = self.operations@;
        let mut out: Vec<PersistedOperation> = Vec::new();
        let mut i: usize = 0;
        while i < self.operations.len()
            invariant
                self.operations.wf(),
                ks == self.operations.key_seq(),
                m == self.operations@,
                i <= ks.len(),
                out@.len() == i,
                forall|j: int| 0 <= j < i ==> #[trigger] out@[j]@ == m[ks[j]],
            decreases ks.len() - i,
        {
            out.push(self.operations.value_at(i).dup());
            i = i + 1;
        }
        proof {
            let s = operations_model(out@);
            assert forall|j: int| 0 <= j < s.len() implies #[trigger] m.contains_key(s[j].operation_id)
                && m[s[j].operation_id] == s[j] by {
                assert(s[j] == m[ks[j]]);
                assert(m.contains_key(ks[j]));
            }
            assert forall|a: int, b: int| 0 <= a < b < s.len() implies (#[trigger] s[a]).operation_id
                != (#[trigger] s[b]).operation_id by {
                assert(s[a] == m[ks[a]]);
                assert(s[b] == m[ks[b]]);
                assert(m.contains_key(ks[a]));
                assert(m.contains_key(ks[b]));
            }
            assert forall|k: Seq<char>| #[trigger] m.contains_key(k) implies exists|j: int|
                0 <= j < s.len() && s[j].operation_id == k by {
                let j = choose|j: int| 0 <= j < ks.len() && ks[j] == k;
                assert(s[j] == m[ks[j]]);
            }
        }
        Ok(out)
    }

    fn list_pending_intents(&self) -> (r: DomainResult<Vec<OperationIntent>>) {
        proof {
            use_type_invariant(self);
            self.intents.lemma_enumerates();
        }
        let ghost ks = self.intents.key_seq();
        let ghost m = self.intents@;
        let ghost pm = self.model().pending_intents();
        let mut out: Vec<OperationIntent> = Vec::new();
        let mut i: usize = 0;
        while i < self.intents.len()
            invariant
                self.intents.wf(),
                ks == self.intents.key_seq(),
                m == self.intents@,
                ks.no_duplicates(),
                forall|j: int| 0 <= j < ks.len() ==> #[trigger] m.contains_key(ks[j]),
                forall|k: Seq<char>| #[trigger] m.contains_key(k) ==> m[k].selection.operation_id == k,
                pm == m.restrict(
                    Set::new(|k: Seq<char>| m.contains_key(k) && m[k].status == IntentStatus::Pending),
                ),
                i <= ks.len(),
                forall|j: int| 0 <= j < out@.len() ==> #[trigger] pm.contains_key((out@[j]@).selection.operation_id)
                    && pm[(out@[j]@).selection.operation_id] == out@[j]@,
                forall|a: int, b: int| 0 <= a < b < out@.len() ==> (#[trigger] out@[a]@).selection.operation_id
                    != (#[trigger] out@[b]@).selection.operation_id,
                forall|j: int| 0 <= j < out@.len() ==> exists|t: int| 0 <= t < i && ks[t] == #[trigger] (out@[j]@).selection.operation_id,
                forall|t: int| 0 <= t < i && #[trigger] m[ks[t]].status == IntentStatus::Pending
                    ==> exists|j: int| 0 <= j < out@.len() && (out@[j]@).selection.operation_id == ks[t],
            decreases ks.len() - i,
        {
            let intent = self.intents.value_at(i);
            if intent.status == IntentStatus::Pending {
                let ghost before = out@;
                out.push(intent.dup());
                proof {
                    assert((out@[before.len() as int]@).selection.operation_id == ks[i as int]);
                    assert forall|a: int, b: int| 0 <= a < b < out@.len() implies (#[trigger] out@[a]@).selection.operation_id != (#[trigger] out@[b]@).selection.operation_id by {
                        if b == before.len() {
                            assert(out@[a] == before[a]);
                            let t = choose|t: int| 0 <= t < i && ks[t] == (before[a]@).selection.operation_id;
                            assert(ks[t] != ks[i as int]);
                        } else {
                            assert(out@[a] == before[a]);
                            assert(out@[b] == before[b]);
                        }
                    }
                    assert forall|j: int| 0 <= j < out@.len() implies exists|t: int|
                        0 <= t < i + 1 && ks[t] == #[trigger] (out@[j]@).selection.operation_id by {
                        if j < before.len() {
                            assert(out@[j] == before[j]);
                            let t = choose|t: int| 0 <= t < i && ks[t] == (before[j]@).selection.operation_id;
                            assert(0 <= t < i + 1 && ks[t] == (out@[j]@).selection.operation_id);
                        } else {
                            assert(ks[i as int] == (out@[j]@).selection.operation_id);
                        }
                    }
                    assert forall|t: int| 0 <= t < i + 1 && #[trigger] m[ks[t]].status
                        == IntentStatus::Pending implies exists|j: int|
                        0 <= j < out@.len() && (out@[j]@).selection.operation_id == ks[t] by {
                        if t < i {
                            let j = choose|j: int| 0 <= j < before.len() && (before[j]@).selection.operation_id == ks[t];
                            assert(out@[j] == before[j]);
                        } else {
                            assert((out@[before.len() as int]@).selection.operation_id == ks[t]);
                        }
                    }
                }
            } else {
                proof {
                    assert forall|j: int| 0 <= j < out@.len() implies exists|t: int|
                        0 <= t < i + 1 && ks[t] == #[trigger] (out@[j]@).selection.operation_id by {
                        let t = choose|t: int| 0 <= t < i && ks[t] == (out@[j]@).selection.operation_id;
                        assert(0 <= t < i + 1);
                    }
                }
            }
            i = i + 1;
        }
        proof {
            assert forall|k: Seq<char>| #[trigger] pm.contains_key(k) implies exists|j: int|
                0 <= j < intents_model(out@).len() && (intents_model(out@)[j]).selection.operation_id == k by {
                let t = choose|t: int| 0 <= t < ks.len() && ks[t] == k;
                assert(m[ks[t]].status == IntentStatus::Pending);
                let j = choose|j: int| 0 <= j < out@.len() && (out@[j]@).selection.operation_id == ks[t];
                assert(intents_model(out@)[j] == out@[j]@);
            }
            assert forall|j: int| 0 <= j < intents_model(out@).len() implies #[trigger] pm.contains_key(
                (intents_model(out@)[j]).selection.operation_id,
            ) && pm[(intents_model(out@)[j]).selection.operation_id] == intents_model(out@)[j] by {
                assert(intents_model(out@)[j] == out@[j]@);
            }
            assert forall|a: int, b: int| 0 <= a < b < intents_model(out@).len() implies (#[trigger] intents_model(out@)[a]).selection.operation_id != (#[trigger] intents_model(out@)[b]).selection.operation_id by {
                assert(intents_model(out@)[a] == out@[a]@);
                assert(intents_model(out@)[b] == out@[b]@);
            }
        }
        Ok(out)
    }

    fn current_tick(&self) -> (r: DomainResult<u64>) {
        Ok(self.tick)
    }
}


/// What applying a batch records once its locks were applied (or refused).
pub open spec fn batch_outcome(
    m: StoreModel,
    sel: crate::operation::SelectionModel,
    phase: OperationPhase,
    locked: Result<(Map<OutPointModel, UtxoModel>, Map<OutPointModel, LockModel>), ErrorModel>,
) -> Result<StoreModel, ErrorModel> {
    match locked {
        Err(e) => Err(e),
        Ok((u, l)) => Ok(
            StoreModel {
                utxos: u,
                locks: l,
                operations: m.operations.insert(
                    sel.operation_id,
                    OperationModel {
                        operation_id: sel.operation_id,
                        phase,
                        updated_at: bump(m.tick),
                        expires_at: sel.expires_at,
                    },
                ),
                tick: bump(m.tick),
                ..m
            },
        ),
    }
}

/// Checks one output before locking it for `id`; see `lock_effect_check`.
fn validate_lock_effect(
    utxos: &Table<OutPoint, ManagedUtxo>,
    locks: &Table<OutPoint, OperationLock>,
    id: &OperationId,
    phase: OperationPhase,
    outpoint: &OutPoint,
) -> (r: DomainResult<()>)
    requires
        utxos.wf(),
        locks.wf(),
    ensures
        crate::store::unit_res(r) == lock_effect_check(utxos@, locks@, id@, phase, outpoint@),
{
    let utxo = match utxos.get(outpoint) {
        None => return Err(DomainError::UtxoNotFound(outpoint.dup())),
        Some(u) => u,
    };
    let lock = locks.get(outpoint);
    let lock_present = lock.is_some();
    if utxo.can_be_locked(lock_present) {
        return Ok(());
    }
    let own_binding = match &utxo.operation_binding {
        Some(b) => b.operation_id.same(id) && b.phase == phase,
        None => false,
    };
    let own_lock = match lock {
        Some(l) => l.operation_id.same(id),
        None => false,
    };
    if own_binding && own_lock {
        return Ok(());
    }
    if utxo.availability != Availability::Selectable {
        return Err(
            DomainError::UtxoUnavailable { outpoint: outpoint.dup(), availability: utxo.availability },
        );
    }
    if utxo.observation_conflict.is_some() {
        return Err(
            DomainError::ObservationConflict {
                outpoint: outpoint.dup(),
                onchain_state: utxo.onchain_state,
            },
        );
    }
    let mut reason = String::from_str("utxo is not safely spendable: onchain_state=");
    reason.append(utxo.onchain_state.debug_name());
    reason.append(", lock_present=");
    reason.append(if lock_present { "true" } else { "false" });
    Err(DomainError::UtxoPolicyBlocked { outpoint: outpoint.dup(), reason })
}

proof fn lemma_lock_all_step(
    utxos: Map<OutPointModel, UtxoModel>,
    locks: Map<OutPointModel, LockModel>,
    sel: crate::operation::SelectionModel,
    phase: OperationPhase,
    owner: Seq<char>,
    created_at: u64,
    effects: Seq<crate::operation::EffectModel>,
    i: int,
)
    requires
        0 <= i < effects.len(),
    ensures
        lock_all(utxos, locks, sel, phase, owner, created_at, effects.skip(i)) == (match lock_step(
            utxos,
            locks,
            sel,
            phase,
            owner,
            created_at,
            effects[i],
        ) {
            Err(x) => Err(x),
            Ok((u, l)) => lock_all(u, l, sel, phase, owner, created_at, effects.skip(i + 1)),
        }),
{
    assert(effects.skip(i).drop_first() =~= effects.skip(i + 1));
    assert(effects.skip(i)[0] == effects[i]);
}

proof fn lemma_apply_actions_step(m: StoreModel, actions: Seq<ActionModel>, i: int)
    requires
        0 <= i < actions.len(),
    ensures
        apply_actions(m, actions.skip(i)) == apply_actions(action_step(m, actions[i]), actions.skip(i + 1)),
{
    assert(actions.skip(i).drop_first() =~= actions.skip(i + 1));
    assert(actions.skip(i)[0] == actions[i]);
}

/// Applies one reconciliation action to the output and lock tables.
fn apply_action(
    utxos: &mut Table<OutPoint, ManagedUtxo>,
    locks: &mut Table<OutPoint, OperationLock>,
    action: &ReconciliationAction,
    Ghost(m): Ghost<StoreModel>,
)
    requires
        old(utxos).wf(),
        old(locks).wf(),
        keyed_utxos(old(utxos)@),
        m.utxos == old(utxos)@,
        m.locks == old(locks)@,
    ensures
        final(utxos).wf(),
        final(locks).wf(),
        keyed_utxos(final(utxos)@),
        action_step(m, action@) == (StoreModel { utxos: final(utxos)@, locks: final(locks)@, ..m }),
{
    match action {
        ReconciliationAction::DiscoverNew(o) => {
            if !utxos.contains_key(&o.outpoint) {
                let u = ManagedUtxo::discover_from_observed(
                    o.outpoint.dup(),
                    o.account_id.dup(),
                    o.scope_id.dup(),
                    o.value_sats,
                    &o.confirmation,
                );
                utxos.insert(o.outpoint.dup(), u);
            }
        },
        ReconciliationAction::RefreshObserved(_) => {},
        ReconciliationAction::UpdateOnchainState { outpoint, new_state } => {
            match utxos.find(outpoint) {
                Some(i) => {
                    let u = utxos.value_at(i);
                    if u.onchain_state != OnchainState::Spent && u.onchain_state
                        != OnchainState::SpendingInFlight {
                        let mut u2 = u.dup();
                        u2.onchain_state = *new_state;
                        utxos.set_value_at(i, u2);
                    }
                },
                None => {},
            }
        },
        ReconciliationAction::MarkSpent { outpoint, .. } => {
            match utxos.find(outpoint) {
                Some(i) => {
                    let mut u2 = utxos.value_at(i).dup();
                    u2.mark_spent();
                    utxos.set_value_at(i, u2);
                },
                None => {},
            }
            locks.remove(outpoint);
        },
        ReconciliationAction::ReportConflict { outpoint, message, recorded_at } => {
            match utxos.find(outpoint) {
                Some(i) => {
                    let mut u2 = utxos.value_at(i).dup();
                    u2.observation_conflict = Some(
                        ObservationConflict { message: message.clone(), recorded_at: *recorded_at },
                    );
                    utxos.set_value_at(i, u2);
                },
                None => {},
            }
        },
        ReconciliationAction::ClearConflict(outpoint) => {
            match utxos.find(outpoint) {
                Some(i) => {
                    let mut u2 = utxos.value_at(i).dup();
                    u2.observation_conflict = None;
                    utxos.set_value_at(i, u2);
                },
                None => {},
            }
        },
        ReconciliationAction::UpdateAvailability { outpoint, availability } => {
            match utxos.find(outpoint) {
                Some(i) => {
                    let mut u2 = utxos.value_at(i).dup();
                    u2.availability = *availability;
                    utxos.set_value_at(i, u2);
                },
                None => {},
            }
        },
        ReconciliationAction::MarkMissing(outpoint) => {
            match utxos.find(outpoint) {
                Some(i) => {
                    let mut u2 = utxos.value_at(i).dup();
                    u2.mark_missing();
                    utxos.set_value_at(i, u2);
                },
                None => {},
            }
        },
    }
}

impl StateStore for InMemoryStateStore {
    fn put_account(&mut self, account: Account) -> (r: DomainResult<()>) {
        proof {
            use_type_invariant(&*self);
        }
        let mut t = self.accounts.dup_table();
        t.insert(account.id.dup(), account);
        self.accounts = t;
        self.next_tick();
        Ok(())
    }

    fn put_scope(&mut self, scope: WalletScope) -> (r: DomainResult<()>) {
        proof {
            use_type_invariant(&*self);
        }
        let mut account = match self.accounts.get(&scope.account_id) {
            None => return Err(DomainError::AccountNotFound(scope.account_id.dup())),
            Some(a) => a.dup(),
        };
        let ghost before = account@;
        account.scopes.push(scope.id.dup());
        assert(account@ == (crate::account::AccountModel { scopes: before.scopes.push(scope.id@), ..before })) by {
            assert(crate::account::scope_ids_model(account.scopes@) =~= before.scopes.push(scope.id@));
        }
        let mut t = self.accounts.dup_table();
        t.insert(scope.account_id.dup(), account);
        self.accounts = t;
        let mut s = self.scopes.dup_table();
        s.insert(scope.id.dup(), scope);
        self.scopes = s;
        self.next_tick();
        Ok(())
    }

    fn put_utxo(&mut self, utxo: ManagedUtxo) -> (r: DomainResult<()>) {
        proof {
            use_type_invariant(&*self);
        }
        let mut t = self.utxos.dup_table();
        t.insert(utxo.outpoint.dup(), utxo);
        self.utxos = t;
        self.next_tick();
        Ok(())
    }

    fn advance_tick(&mut self, delta: u64) -> (r: DomainResult<()>) {
        proof {
            use_type_invariant(&*self);
            assert(self.accounts.wf());
            assert(self.recorded().keyed());
            assert(self.well_formed());
        }
        let step = if delta == 0 {
            1
        } else {
            delta
        };
        let t = if self.tick <= u64::MAX - step {
            self.tick + step
        } else {
            u64::MAX
        };
        self.tick = t;
        Ok(())
    }

    fn persist_intent(&mut self, selection: OperationSelection) -> (r: DomainResult<OperationIntent>) {
        proof {
            use_type_invariant(&*self);
        }
        match self.intents.get(&selection.operation_id) {
            Some(existing) => {
                if !existing.selection.same(&selection) {
                    return Err(
                        DomainError::IntentConflict { operation_id: selection.operation_id.dup() },
                    );
                }
                return Ok(existing.dup());
            },
            None => {},
        }
        let recorded_at = self.following_tick();
        let key = selection.operation_id.dup();
        let intent = OperationIntent { selection, status: IntentStatus::Pending, recorded_at };
        let mut t = self.intents.dup_table();
        t.insert(key, intent.dup());
        self.intents = t;
        self.next_tick();
        Ok(intent)
    }

    fn mark_intent_committed(&mut self, operation_id: &OperationId) -> (r: DomainResult<()>) {
        proof {
            use_type_invariant(&*self);
        }
        let mut intent = match self.intents.get(operation_id) {
            None => return Err(DomainError::IntentNotFound(operation_id.dup())),
            Some(i) => i.dup(),
        };
        if intent.status == IntentStatus::Failed {
            return Err(DomainError::IntentNotPending(operation_id.dup()));
        }
        intent.status = IntentStatus::Committed;
        let mut t = self.intents.dup_table();
        t.insert(operation_id.dup(), intent);
        self.intents = t;
        self.next_tick();
        Ok(())
    }

    fn mark_intent_failed(&mut self, operation_id: &OperationId) -> (r: DomainResult<()>) {
        proof {
            use_type_invariant(&*self);
        }
        let mut intent = match self.intents.get(operation_id) {
            None => return Err(DomainError::IntentNotFound(operation_id.dup())),
            Some(i) => i.dup(),
        };
        match intent.status {
            IntentStatus::Committed => return Err(DomainError::IntentNotPending(operation_id.dup())),
            IntentStatus::Failed => return Ok(()),
            IntentStatus::Pending => {},
        }
        let phase = match self.operations.get(operation_id) {
            Some(op) => Some(op.phase),
            None => None,
        };
        match phase {
            Some(OperationPhase::Selected) => {
                let _ = self.release_operation(operation_id, OperationPhase::RollingBack);
            },
            Some(OperationPhase::RollingBack) => {},
            Some(p) => {
                return Err(
                    DomainError::InvalidOperationTransition {
                        operation_id: operation_id.dup(),
                        from: p,
                        to: OperationPhase::RollingBack,
                    },
                );
            },
            None => {},
        }
        proof {
            use_type_invariant(&*self);
        }
        intent.status = IntentStatus::Failed;
        let mut t = self.intents.dup_table();
        t.insert(operation_id.dup(), intent);
        self.intents = t;
        self.next_tick();
        Ok(())
    }

    fn apply_batch(&mut self, batch: StateBatch) -> (r: DomainResult<()>) {
        proof {
            use_type_invariant(&*self);
        }
        let ghost m0 = self.recorded();
        let ghost sel = batch.selection@;
        match self.intents.get(&batch.selection.operation_id) {
            Some(intent) => {
                if intent.status == IntentStatus::Failed {
                    return Err(DomainError::IntentNotPending(batch.selection.operation_id.dup()));
                }
                if !intent.selection.same(&batch.selection) {
                    return Err(
                        DomainError::IntentConflict {
                            operation_id: batch.selection.operation_id.dup(),
                        },
                    );
                }
            },
            None => {},
        }
        match self.operations.get(&batch.selection.operation_id) {
            Some(op) => {
                if op.phase != batch.phase || op.phase == OperationPhase::RollingBack {
                    return Err(
                        DomainError::InvalidOperationTransition {
                            operation_id: batch.selection.operation_id.dup(),
                            from: op.phase,
                            to: batch.phase,
                        },
                    );
                }
            },
            None => {},
        }
        match batch.selection.validate_capabilities(&*self) {
            Err(e) => return Err(e),
            Ok(()) => {},
        }
        let mut next_utxos = self.utxos.dup_table();
        let mut next_locks = self.locks.dup_table();
        let created_at: u64 = if self.tick < u64::MAX {
            self.tick + 1
        } else {
            u64::MAX
        };
        let ghost effects = sel.effects;
        let ghost owner = batch.owner@;
        let mut i: usize = 0;
        assert(effects.skip(0) =~= effects);
        assert(m0.apply_batch(sel, batch.phase, owner) == batch_outcome(
            m0,
            sel,
            batch.phase,
            lock_all(m0.utxos, m0.locks, sel, batch.phase, owner, created_at, effects),
        ));
        while i < batch.selection.effects.len()
            invariant
                i <= batch.selection.effects@.len(),
                sel == batch.selection@,
                effects == sel.effects,
                owner == batch.owner@,
                next_utxos.wf(),
                next_locks.wf(),
                keyed_utxos(next_utxos@),
                m0 == old(self).recorded(),
                self.recorded() == m0,
                created_at == bump(m0.tick),
                m0.apply_batch(sel, batch.phase, owner) == batch_outcome(
                    m0,
                    sel,
                    batch.phase,
                    lock_all(m0.utxos, m0.locks, sel, batch.phase, owner, created_at, effects),
                ),
                lock_all(m0.utxos, m0.locks, sel, batch.phase, owner, created_at, effects) == lock_all(
                    next_utxos@,
                    next_locks@,
                    sel,
                    batch.phase,
                    owner,
                    created_at,
                    effects.skip(i as int),
                ),
            decreases batch.selection.effects@.len() - i,
        {
            proof {
                lemma_lock_all_step(next_utxos@, next_locks@, sel, batch.phase, owner, created_at, effects, i as int);
            }
            let effect = &batch.selection.effects[i];
            let outpoint = effect.outpoint();
            let purpose = effect.purpose();
            assert(effects[i as int] == effect@);
            match validate_lock_effect(
                &next_utxos,
                &next_locks,
                &batch.selection.operation_id,
                batch.phase,
                outpoint,
            ) {
                Err(e) => return Err(e),
                Ok(()) => {},
            }
            let utxo = match next_utxos.get(outpoint) {
                Some(u) => u.dup(),
                None => return Err(DomainError::UtxoNotFound(outpoint.dup())),
            };
            let own_binding = match &utxo.operation_binding {
                Some(b) => b.operation_id.same(&batch.selection.operation_id) && b.phase == batch.phase,
                None => false,
            };
            let held = match next_locks.get(outpoint) {
                Some(l) => if own_binding && l.operation_id.same(&batch.selection.operation_id) {
                    Some(l.dup())
                } else {
                    None
                },
                None => None,
            };
            match held {
                Some(lock) => {
                    if lock.purpose != purpose || lock.expires_at != batch.selection.expires_at
                        || !lock.account_id.same(&utxo.account_id) || !lock.scope_id.same(
                        &utxo.scope_id,
                    ) {
                        return Err(
                            DomainError::IntentConflict {
                                operation_id: batch.selection.operation_id.dup(),
                            },
                        );
                    }
                },
                None => {
                    let lock = OperationLock {
                        operation_id: batch.selection.operation_id.dup(),
                        account_id: utxo.account_id.dup(),
                        scope_id: utxo.scope_id.dup(),
                        purpose,
                        owner: batch.owner.clone(),
                        created_at,
                        expires_at: batch.selection.expires_at,
                    };
                    let mut reserved = utxo;
                    reserved.reserve(batch.selection.operation_id.dup(), batch.phase);
                    next_utxos.insert(outpoint.dup(), reserved);
                    next_locks.insert(outpoint.dup(), lock);
                },
            }
            i = i + 1;
        }
        assert(effects.skip(i as int) =~= Seq::<crate::operation::EffectModel>::empty());
        let key = batch.selection.operation_id.dup();
        let op = PersistedOperation {
            operation_id: batch.selection.operation_id.dup(),
            phase: batch.phase,
            updated_at: created_at,
            expires_at: batch.selection.expires_at,
        };
        let mut ops = self.operations.dup_table();
        ops.insert(key, op);
        self.operations = ops;
        self.utxos = next_utxos;
        self.locks = next_locks;
        self.next_tick();
        Ok(())
    }

    fn apply_reconciliation(&mut self, plan: ReconcilePlan) -> (r: DomainResult<()>) {
        proof {
            use_type_invariant(&*self);
        }
        let ghost m0 = self.recorded();
        let ghost acts = actions_model(plan.actions@);
        let mut utxos = self.utxos.dup_table();
        let mut locks = self.locks.dup_table();
        let mut i: usize = 0;
        assert(acts.skip(0) =~= acts);
        assert((StoreModel { utxos: utxos@, locks: locks@, ..m0 }) == m0);
        while i < plan.actions.len()
            invariant
                i <= plan.actions@.len(),
                acts == actions_model(plan.actions@),
                utxos.wf(),
                locks.wf(),
                keyed_utxos(utxos@),
                apply_actions(m0, acts) == apply_actions(
                    StoreModel { utxos: utxos@, locks: locks@, ..m0 },
                    acts.skip(i as int),
                ),
            decreases plan.actions@.len() - i,
        {
            proof {
                lemma_apply_actions_step(StoreModel { utxos: utxos@, locks: locks@, ..m0 }, acts, i as int);
                assert(acts[i as int] == plan.actions@[i as int]@);
            }
            let ghost cur = StoreModel { utxos: utxos@, locks: locks@, ..m0 };
            apply_action(&mut utxos, &mut locks, &plan.actions[i], Ghost(cur));
            i = i + 1;
        }
        assert(acts.skip(i as int) =~= Seq::<ActionModel>::empty());
        self.utxos = utxos;
        self.locks = locks;
        self.next_tick();
        Ok(())
    }

    fn release_selected_operation(&mut self, operation_id: &OperationId) -> (r: DomainResult<
        Option<Vec<OutPoint>>,
    >) {
        proof {
            use_type_invariant(&*self);
        }
        let selected = match self.operations.get(operation_id) {
            Some(op) => op.phase == OperationPhase::Selected,
            None => false,
        };
        if !selected {
            return Ok(None);
        }
        match self.release_operation(operation_id, OperationPhase::RollingBack) {
            Ok(v) => Ok(Some(v)),
            Err(e) => Err(e),
        }
    }

    fn release_operation(&mut self, operation_id: &OperationId, released_phase: OperationPhase) -> (r:
        DomainResult<Vec<OutPoint>>) {
        proof {
            use_type_invariant(&*self);
        }
        let ghost m0 = self.recorded();
        let mut next_utxos = self.utxos.dup_table();
        let released = rebind_bound(&mut next_utxos, operation_id, None);
        let mut next_locks: Table<OutPoint, OperationLock> = Table::new();
        let mut i: usize = 0;
        proof {
            self.locks.lemma_enumerates();
        }
        let ghost ks = self.locks.key_seq();
        while i < self.locks.len()
            invariant
                self.locks.wf(),
                ks == self.locks.key_seq(),
                m0.locks == self.locks@,
                self.locks.enumerates(),
                next_locks.wf(),
                i <= ks.len(),
                forall|k: OutPointModel| #[trigger] next_locks@.contains_key(k) ==> m0.locks.contains_key(k)
                    && m0.locks[k].operation_id != operation_id@ && next_locks@[k] == m0.locks[k],
                forall|j: int| 0 <= j < i && #[trigger] m0.locks[ks[j]].operation_id != operation_id@
                    ==> next_locks@.contains_key(ks[j]),
            decreases ks.len() - i,
        {
            let lock = self.locks.value_at(i);
            if !lock.operation_id.same(operation_id) {
                let k = self.locks.key_at(i).dup();
                next_locks.insert(k, lock.dup());
            }
            i = i + 1;
        }
        proof {
            assert forall|k: OutPointModel| #[trigger] m0.locks.contains_key(k) && m0.locks[k].operation_id
                != operation_id@ implies next_locks@.contains_key(k) by {
                let j = choose|j: int| 0 <= j < ks.len() && ks[j] == k;
                assert(m0.locks[ks[j]].operation_id != operation_id@);
            }
            assert(next_locks@ =~= m0.release(operation_id@, released_phase).locks);
        }
        let updated_at = self.following_tick();
        self.utxos = next_utxos;
        self.locks = next_locks;
        let op = PersistedOperation {
            operation_id: operation_id.dup(),
            phase: released_phase,
            updated_at,
            expires_at: None,
        };
        let mut ops = self.operations.dup_table();
        ops.insert(operation_id.dup(), op);
        self.operations = ops;
        self.next_tick();
        proof {
            assert(self.recorded().utxos =~= m0.release(operation_id@, released_phase).utxos);
        }
        Ok(released)
    }

    fn complete_operation(&mut self, operation_id: &OperationId, completed_phase: OperationPhase) -> (r:
        DomainResult<Vec<OutPoint>>) {
        proof {
            use_type_invariant(&*self);
        }
        let ghost m0 = self.recorded();
        let operation = match self.operations.get(operation_id) {
            None => return Err(DomainError::OperationNotFound(operation_id.dup())),
            Some(o) => o.dup(),
        };
        let committed = match self.intents.get(operation_id) {
            None => return Err(DomainError::IntentNotFound(operation_id.dup())),
            Some(i) => i.status == IntentStatus::Committed,
        };
        if !committed {
            return Err(DomainError::IntentNotCommitted(operation_id.dup()));
        }
        match operation.validate_advance(completed_phase) {
            Err(e) => return Err(e),
            Ok(false) => return Ok(Vec::new()),
            Ok(true) => {},
        }
        let mut next_utxos = self.utxos.dup_table();
        let completed = rebind_bound(&mut next_utxos, operation_id, Some(completed_phase));
        let mut next_locks = self.locks.dup_table();
        proof {
            next_locks.lemma_enumerates();
        }
        let ghost ks = next_locks.key_seq();
        let mut i: usize = 0;
        while i < next_locks.len()
            invariant
                next_locks.wf(),
                ks == next_locks.key_seq(),
                ks.no_duplicates(),
                forall|j: int| 0 <= j < ks.len() ==> #[trigger] m0.locks.contains_key(ks[j]),
                forall|k: OutPointModel| #[trigger] m0.locks.contains_key(k) ==> ks.contains(k),
                forall|k: OutPointModel| #[trigger] next_locks@.contains_key(k) <==> m0.locks.contains_key(k),
                i <= ks.len(),
                forall|j: int| 0 <= j < i ==> #[trigger] next_locks@[ks[j]] == (if m0.locks[ks[j]].operation_id
                    == operation_id@ {
                    LockModel { expires_at: None, ..m0.locks[ks[j]] }
                } else {
                    m0.locks[ks[j]]
                }),
                forall|j: int| i <= j < ks.len() ==> #[trigger] next_locks@[ks[j]] == m0.locks[ks[j]],
            decreases ks.len() - i,
        {
            let lock = next_locks.value_at(i);
            if lock.operation_id.same(operation_id) {
                let mut l2 = lock.dup();
                l2.expires_at = None;
                let ghost pre = next_locks@;
                next_locks.set_value_at(i, l2);
                proof {
                    assert forall|j: int| 0 <= j < ks.len() && j != i implies next_locks@[ks[j]] == pre[ks[j]] by {
                        assert(ks[j] != ks[i as int]);
                    }
                }
            }
            i = i + 1;
        }
        let ghost target = m0.complete(operation_id@, completed_phase);
        proof {
            assert forall|k: OutPointModel| #[trigger] next_locks@.contains_key(k) implies next_locks@[k]
                == target->Ok_0.1.locks[k] by {
                let j = choose|j: int| 0 <= j < ks.len() && ks[j] == k;
                assert(next_locks@[ks[j]] == target->Ok_0.1.locks[ks[j]]);
            }
            assert(next_locks@ =~= target->Ok_0.1.locks);
        }
        let updated_at = self.following_tick();
        self.utxos = next_utxos;
        self.locks = next_locks;
        let op = PersistedOperation {
            operation_id: operation_id.dup(),
            phase: completed_phase,
            updated_at,
            expires_at: None,
        };
        let mut ops = self.operations.dup_table();
        ops.insert(operation_id.dup(), op);
        self.operations = ops;
        self.next_tick();
        proof {
            assert(self.recorded().utxos =~= target->Ok_0.1.utxos);
            assert(self.recorded() == target->Ok_0.1);
        }
        Ok(completed)
    }
}

} // verus!
