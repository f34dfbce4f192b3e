//! Checking a selection's structure and capabilities against recorded state.
use vstd::prelude::*;

use crate::asset_selection::{contains_outpoint, has_duplicate_outpoints};
use crate::capability::CapabilitySet;
use crate::errors::{DomainError, DomainResult, ErrorModel};
use crate::ids::{AccountId, WalletScopeId};
use crate::operation::{outpoints_model, EffectModel, OperationSelection};
use crate::outpoint::{OutPoint, OutPointModel};
use crate::store::{
    agrees, capability_check, effect_outpoints, selection_shaped, effects_check, lookup, scope_check,
    unit_res, StateRead,
};

verus! {

/// The account and scope both exist, belong together, and grant `required`.
pub fn validate_scope<S: StateRead>(
    store: &S,
    account_id: &AccountId,
    scope_id: &WalletScopeId,
    required: &CapabilitySet,
) -> (r: DomainResult<()>)
    ensures
        agrees(
            unit_res(r),
            scope_check(store.model(), account_id@, scope_id@, required@),
            store.healthy(),
        ),
{
    let account = match store.get_account(account_id) {
        Err(e) => return Err(e),
        Ok(None) => return Err(DomainError::AccountNotFound(account_id.dup())),
        Ok(Some(a)) => a,
    };
    if !account.capabilities.contains_all(required) {
        return Err(DomainError::MissingAccountCapabilities { account_id: account_id.dup() });
    }
    let scope = match store.get_scope(scope_id) {
        Err(e) => return Err(e),
        Ok(None) => return Err(DomainError::ScopeNotFound(scope_id.dup())),
        Ok(Some(s)) => s,
    };
    let mut listed = false;
    let mut i: usize = 0;
    while i < account.scopes.len()
        invariant
            i <= account.scopes@.len(),
            listed == (exists|k: int| 0 <= k < i && account.scopes@[k]@ == scope_id@),
        decreases account.scopes@.len() - i,
    {
        if account.scopes[i].same(scope_id) {
            listed = true;
        }
        i = i + 1;
    }
    proof {
        let ids = account@.scopes;
        if listed {
            let k = choose|k: int| 0 <= k < i && account.scopes@[k]@ == scope_id@;
            assert(ids[k] == scope_id@);
        }
        if ids.contains(scope_id@) {
            let k = choose|k: int| 0 <= k < ids.len() && ids[k] == scope_id@;
            assert(account.scopes@[k]@ == scope_id@);
        }
    }
    if !scope.account_id.same(account_id) || !listed {
        return Err(DomainError::ScopeNotFound(scope_id.dup()));
    }
    if !scope.capabilities.contains_all(required) {
        return Err(DomainError::MissingCapabilities { scope_id: scope_id.dup() });
    }
    Ok(())
}

proof fn lemma_effects_check_step(
    m: crate::store::StoreModel,
    effects: Seq<EffectModel>,
    i: int,
    change: Set<crate::capability::Capability>,
)
    requires
        0 <= i < effects.len(),
    ensures
        effects_check(m, effects.skip(i), change) == ({
            let e = effects[i];
            match lookup(m.utxos, e.outpoint) {
                None => Err(ErrorModel::UtxoNotFound(e.outpoint)),
                Some(u) => match scope_check(m, u.account_id, u.scope_id, e.purpose.required_set()) {
                    Err(x) => Err(x),
                    Ok(_) => effects_check(
                        m,
                        effects.skip(i + 1),
                        change.union(e.purpose.required_change_set()),
                    ),
                },
            }
        }),
{
    assert(effects.skip(i).drop_first() =~= effects.skip(i + 1));
    assert(effects.skip(i)[0] == effects[i]);
}

/// What the capability check answers once the lock effects were checked.
pub open spec fn change_check(
    m: crate::store::StoreModel,
    sel: crate::operation::SelectionModel,
    effects: Result<Set<crate::capability::Capability>, ErrorModel>,
) -> Result<(), ErrorModel> {
    match effects {
        Err(x) => Err(x),
        Ok(change) => match lookup(m.scopes, sel.change_scope_id) {
            None => Err(ErrorModel::ScopeNotFound(sel.change_scope_id)),
            Some(cs) => scope_check(m, cs.account_id, cs.id, change),
        },
    }
}

impl OperationSelection {
    /// The outputs the lock effects name, in order.
    pub fn locked_outpoints(&self) -> (r: Vec<OutPoint>)
        ensures
            outpoints_model(r@) == effect_outpoints(self@.effects),
    {
        let mut r: Vec<OutPoint> = Vec::new();
        let mut i: usize = 0;
        while i < self.effects.len()
            invariant
                i <= self.effects@.len(),
                r@.len() == i,
                forall|k: int| 0 <= k < i ==> #[trigger] r@[k]@ == self.effects@[k]@.outpoint,
            decreases self.effects@.len() - i,
        {
            r.push(self.effects[i].outpoint().dup());
            i = i + 1;
        }
        assert(outpoints_model(r@) =~= effect_outpoints(self@.effects));
        r
    }

    /// Validates selection structure and the current account/scope capabilities.
    /// Store backends must read from the same snapshot as their atomic write.
    pub fn validate_capabilities<S: StateRead>(&self, store: &S) -> (r: DomainResult<()>)
        ensures
            agrees(unit_res(r), capability_check(store.model(), self@), store.healthy()),
            !selection_shaped(self@) ==> unit_res(r) == capability_check(store.model(), self@),
            !selection_shaped(self@) ==> (r matches Err(e) && e@ is CorruptedState),
    {
        let locked = self.locked_outpoints();
        if has_duplicate_outpoints(locked.as_slice()) {
            return Err(DomainError::CorruptedState(String::from_str("duplicate selection effect")));
        }
        let ghost sel = outpoints_model(self.selected_outpoints@);
        let ghost lk = outpoints_model(locked@);
        let mut matching = self.selected_outpoints.len() > 0 && !has_duplicate_outpoints(
            self.selected_outpoints.as_slice(),
        );
        let mut i: usize = 0;
        while matching && i < self.selected_outpoints.len()
            invariant
                i <= self.selected_outpoints@.len(),
                sel == outpoints_model(self.selected_outpoints@),
                lk == outpoints_model(locked@),
                matching ==> forall|k: int| 0 <= k < i ==> lk.contains(#[trigger] sel[k]),
                matching ==> sel.len() > 0 && sel.no_duplicates(),
                !matching ==> (sel.len() == 0 || !sel.no_duplicates() || exists|k: int|
                    0 <= k < sel.len() && !lk.contains(sel[k])),
            decreases self.selected_outpoints@.len() - i,
        {
            assert(sel[i as int] == self.selected_outpoints@[i as int]@);
            if !contains_outpoint(locked.as_slice(), &self.selected_outpoints[i]) {
                matching = false;
            }
            i = i + 1;
        }
        let mut j: usize = 0;
        while matching && j < locked.len()
            invariant
                j <= locked@.len(),
                sel == outpoints_model(self.selected_outpoints@),
                lk == outpoints_model(locked@),
                matching ==> forall|k: int| 0 <= k < sel.len() ==> lk.contains(#[trigger] sel[k]),
                matching ==> forall|k: int| 0 <= k < j ==> sel.contains(#[trigger] lk[k]),
                matching ==> sel.len() > 0 && sel.no_duplicates(),
                !matching ==> (sel.len() == 0 || !sel.no_duplicates() || (exists|k: int|
                    0 <= k < sel.len() && !lk.contains(sel[k])) || (exists|k: int|
                    0 <= k < lk.len() && !sel.contains(lk[k]))),
            decreases locked@.len() - j,
        {
            assert(lk[j as int] == locked@[j as int]@);
            if !contains_outpoint(self.selected_outpoints.as_slice(), &locked[j]) {
                matching = false;
            }
            j = j + 1;
        }
        proof {
            if matching {
                assert forall|x: OutPointModel| sel.to_set().contains(x) == lk.to_set().contains(x) by {
                    if sel.contains(x) {
                        let k = choose|k: int| 0 <= k < sel.len() && sel[k] == x;
                        assert(lk.contains(sel[k]));
                    }
                    if lk.contains(x) {
                        let k = choose|k: int| 0 <= k < lk.len() && lk[k] == x;
                        assert(sel.contains(lk[k]));
                    }
                }
                assert(sel.to_set() =~= lk.to_set());
            } else {
                if exists|k: int| 0 <= k < sel.len() && !lk.contains(sel[k]) {
                    let k = choose|k: int| 0 <= k < sel.len() && !lk.contains(sel[k]);
                    assert(sel.to_set().contains(sel[k]));
                    assert(!lk.to_set().contains(sel[k]));
                }
                if exists|k: int| 0 <= k < lk.len() && !sel.contains(lk[k]) {
                    let k = choose|k: int| 0 <= k < lk.len() && !sel.contains(lk[k]);
                    assert(lk.to_set().contains(lk[k]));
                    assert(!sel.to_set().contains(lk[k]));
                }
            }
        }
        if !matching {
            return Err(
                DomainError::CorruptedState(
                    String::from_str(
                        "selection inputs and lock effects must match and be non-empty and unique",
                    ),
                ),
            );
        }
        assert(selection_shaped(self@));
        let ghost m = store.model();
        let ghost effects = self@.effects;
        let mut change = CapabilitySet::empty();
        let mut k: usize = 0;
        assert(effects.skip(0) =~= effects);
        assert(capability_check(m, self@) == change_check(m, self@, effects_check(m, effects, Set::empty())));
        while k < self.effects.len()
            invariant
                k <= self.effects@.len(),
                selection_shaped(self@),
                m == store.model(),
                effects == self@.effects,
                effects_check(m, effects, Set::empty()) == effects_check(m, effects.skip(k as int), change@),
                capability_check(m, self@) == change_check(m, self@, effects_check(m, effects, Set::empty())),
            decreases self.effects@.len() - k,
        {
            proof {
                lemma_effects_check_step(m, effects, k as int, change@);
            }
            let effect = &self.effects[k];
            let outpoint = effect.outpoint();
            let purpose = effect.purpose();
            let utxo = match store.get_utxo(outpoint) {
                Err(e) => return Err(e),
                Ok(None) => return Err(DomainError::UtxoNotFound(outpoint.dup())),
                Ok(Some(u)) => u,
            };
            let required = purpose.required_capabilities();
            match validate_scope(store, &utxo.account_id, &utxo.scope_id, &required) {
                Err(e) => return Err(e),
                Ok(()) => {},
            }
            change.insert_all(&purpose.required_change_capabilities());
            k = k + 1;
        }
        assert(effects.skip(k as int) =~= Seq::<EffectModel>::empty());
        let change_scope = match store.get_scope(&self.change_scope_id) {
            Err(e) => return Err(e),
            Ok(None) => return Err(DomainError::ScopeNotFound(self.change_scope_id.dup())),
            Ok(Some(s)) => s,
        };
        validate_scope(store, &change_scope.account_id, &change_scope.id, &change)
    }
}

} // verus!
