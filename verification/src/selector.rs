//! Choosing inputs for a request from the outputs an account may spend.
use vstd::prelude::*;
use vstd::string::StringExecFns;

use crate::account::{scope_ids_model, ScopeModel, WalletScope};
use crate::errors::{DomainError, DomainResult, ErrorModel};
use crate::ids::{AccountId, WalletScopeId};
use crate::operation::{
    clone_outpoints, outpoints_model, InputSelectionRequest, InputSelectionSpec, SelectedInputs,
    SpecModel,
};
use crate::outpoint::{OutPoint, OutPointModel};
use crate::sorting::{insertion_sort, lemma_sort_members, sort_by_insertion, Ordered};
use crate::state::{Availability, UtxoRole};
use crate::store::{
    agrees, bool_text, lists_utxos, lookup, utxos_model, StateRead, StoreModel,
};
use crate::utxo::{ManagedUtxo, UtxoModel};

verus! {

/// What a selector reads: the store, the requesting account, the account's
/// scopes, and those of them that satisfy all request capabilities.
pub struct SelectionContext<'a, S: StateRead> {
    pub state: &'a S,
    pub account_id: &'a AccountId,
    pub account_scope_ids: &'a [WalletScopeId],
    /// Scopes belonging to the account that each satisfy all request capabilities.
    pub eligible_scope_ids: &'a [WalletScopeId],
}

/// An output the account may spend now: its own, in an eligible scope,
/// policy-spendable and unlocked.
pub open spec fn is_candidate(m: StoreModel, account: Seq<char>, eligible: Seq<Seq<char>>, u: UtxoModel) -> bool {
    &&& u.account_id == account
    &&& eligible.contains(u.scope_id)
    &&& u.is_policy_spendable()
    &&& !m.locks.contains_key(u.outpoint)
}

/// The candidates among the listed outputs, in listing order.
pub open spec fn candidates_in(m: StoreModel, account: Seq<char>, eligible: Seq<Seq<char>>, l: Seq<UtxoModel>) -> Seq<
    UtxoModel,
>
    decreases l.len(),
{
    if l.len() == 0 {
        Seq::empty()
    } else if is_candidate(m, account, eligible, l.last()) {
        candidates_in(m, account, eligible, l.drop_last()).push(l.last())
    } else {
        candidates_in(m, account, eligible, l.drop_last())
    }
}

/// Preference among roles when values tie: spend-preferred first.
pub open spec fn role_weight(role: UtxoRole) -> u8 {
    match role {
        UtxoRole::SpendPreferred => 0,
        UtxoRole::General => 1,
        UtxoRole::ConsolidationCandidate => 2,
        _ => 10,
    }
}

/// Sort keys ordered by value, then role weight; the position breaks no ties
/// and only names the candidate.
impl Ordered for (u64, u8, usize) {
    open spec fn before(a: (u64, u8, usize), b: (u64, u8, usize)) -> bool {
        a.0 < b.0 || (a.0 == b.0 && a.1 < b.1)
    }

    fn is_before(&self, other: &Self) -> (r: bool) {
        self.0 < other.0 || (self.0 == other.0 && self.1 < other.1)
    }
}

/// The sort key of each candidate, with its position.
pub open spec fn sort_keys(c: Seq<UtxoModel>) -> Seq<(u64, u8, usize)> {
    Seq::new(c.len(), |i: int| (c[i].value_sats, role_weight(c[i].role), i as usize))
}

/// The candidates, smallest value first, ties by role weight, then listing order.
pub open spec fn value_order(c: Seq<UtxoModel>) -> Seq<UtxoModel> {
    sort_by_insertion(sort_keys(c)).map_values(|k: (u64, u8, usize)| c[k.2 as int])
}

/// The values of the outputs, in order.
pub open spec fn values_of(s: Seq<UtxoModel>) -> Seq<u64> {
    s.map_values(|u: UtxoModel| u.value_sats)
}

/// The outpoints of the outputs, in order.
pub open spec fn outpoints_of(s: Seq<UtxoModel>) -> Seq<OutPointModel> {
    s.map_values(|u: UtxoModel| u.outpoint)
}

/// How many of `vals`, in order, first bring the saturating total from `acc` to `target`.
pub open spec fn cover(vals: Seq<u64>, target: u64, acc: u64) -> Option<nat>
    decreases vals.len(),
{
    if vals.len() == 0 {
        None
    } else {
        let a = if acc + vals[0] > u64::MAX {
            u64::MAX
        } else {
            (acc + vals[0]) as u64
        };
        if a >= target {
            Some(1)
        } else {
            match cover(vals.drop_first(), target, a) {
                Some(n) => Some(n + 1),
                None => None,
            }
        }
    }
}

/// The recorded scopes among `ids`, in order.
pub open spec fn existing_scopes(m: StoreModel, ids: Seq<Seq<char>>) -> Seq<ScopeModel>
    decreases ids.len(),
{
    if ids.len() == 0 {
        Seq::empty()
    } else {
        match lookup(m.scopes, ids.last()) {
            Some(s) => existing_scopes(m, ids.drop_last()).push(s),
            None => existing_scopes(m, ids.drop_last()),
        }
    }
}

/// The first scope of lowest priority.
pub open spec fn preferred(scopes: Seq<ScopeModel>) -> Option<ScopeModel>
    decreases scopes.len(),
{
    if scopes.len() == 0 {
        None
    } else {
        match preferred(scopes.drop_last()) {
            None => Some(scopes.last()),
            Some(b) => if scopes.last().priority < b.priority {
                Some(scopes.last())
            } else {
                Some(b)
            },
        }
    }
}

/// Target-value selection over the listed outputs: change goes to the preferred
/// eligible scope; candidates are taken smallest first until they cover the amount.
pub open spec fn target_outcome(
    m: StoreModel,
    account: Seq<char>,
    eligible: Seq<Seq<char>>,
    l: Seq<UtxoModel>,
    amount: u64,
) -> Result<(Seq<OutPointModel>, Seq<char>), ErrorModel> {
    match preferred(existing_scopes(m, eligible)) {
        None => Err(ErrorModel::NoEligibleScope { account_id: account }),
        Some(s) => {
            let order = value_order(candidates_in(m, account, eligible, l));
            match cover(values_of(order), amount, 0) {
                None => Err(ErrorModel::InsufficientFunds),
                Some(n) => Ok((outpoints_of(order.take(n as int)), s.id)),
            }
        },
    }
}

/// Why output `o` cannot be taken for the account, if it cannot.
pub open spec fn refusal(
    m: StoreModel,
    account: Seq<char>,
    account_scopes: Seq<Seq<char>>,
    eligible: Seq<Seq<char>>,
    o: OutPointModel,
) -> Option<ErrorModel> {
    match lookup(m.utxos, o) {
        None => Some(ErrorModel::UtxoNotFound(o)),
        Some(u) => if u.account_id != account {
            Some(ErrorModel::AccountNotFound(account))
        } else if !eligible.contains(u.scope_id) {
            if account_scopes.contains(u.scope_id) && (lookup(m.scopes, u.scope_id) matches Some(s)
                && s.account_id == account) {
                Some(ErrorModel::MissingCapabilities { scope_id: u.scope_id })
            } else {
                Some(ErrorModel::ScopeNotFound(u.scope_id))
            }
        } else if u.availability != Availability::Selectable {
            Some(ErrorModel::UtxoUnavailable { outpoint: o, availability: u.availability })
        } else if !(u.is_policy_spendable() && !m.locks.contains_key(u.outpoint)) {
            Some(
                ErrorModel::UtxoPolicyBlocked {
                    outpoint: o,
                    reason: "utxo is not safely spendable: onchain_state="@ + u.onchain_state.debug_text()
                        + ", conflict="@ + bool_text(u.observation_conflict is Some) + ", lock_present="@
                        + bool_text(m.locks.contains_key(o)),
                },
            )
        } else {
            None
        },
    }
}

/// The refusal of the first refused output, in order.
pub open spec fn first_refusal(
    m: StoreModel,
    account: Seq<char>,
    account_scopes: Seq<Seq<char>>,
    eligible: Seq<Seq<char>>,
    outs: Seq<OutPointModel>,
) -> Option<ErrorModel>
    decreases outs.len(),
{
    if outs.len() == 0 {
        None
    } else {
        match refusal(m, account, account_scopes, eligible, outs[0]) {
            Some(e) => Some(e),
            None => first_refusal(m, account, account_scopes, eligible, outs.drop_first()),
        }
    }
}

/// The first of `outs` that the account may spend now.
pub open spec fn first_selectable(m: StoreModel, account: Seq<char>, eligible: Seq<Seq<char>>, outs: Seq<
    OutPointModel,
>) -> Option<OutPointModel>
    decreases outs.len(),
{
    if outs.len() == 0 {
        None
    } else if (lookup(m.utxos, outs[0]) matches Some(u) && is_candidate(m, account, eligible, u)) {
        Some(outs[0])
    } else {
        first_selectable(m, account, eligible, outs.drop_first())
    }
}

/// Candidate selection: every exact input must be spendable by the account, or
/// the first selectable candidate is taken; change goes to the first input's scope.
pub open spec fn candidate_outcome(
    m: StoreModel,
    account: Seq<char>,
    account_scopes: Seq<Seq<char>>,
    eligible: Seq<Seq<char>>,
    spec: SpecModel,
) -> Result<(Seq<OutPointModel>, Seq<char>), ErrorModel> {
    let picked: Result<Seq<OutPointModel>, ErrorModel> = match spec {
        SpecModel::ExactOutpoints { outpoints } => match first_refusal(m, account, account_scopes, eligible, outpoints) {
            Some(e) => Err(e),
            None => Ok(outpoints),
        },
        SpecModel::FirstSelectable { candidates } => match first_selectable(m, account, eligible, candidates) {
            None => Err(ErrorModel::NoCandidateAvailable),
            Some(o) => Ok(seq![o]),
        },
        SpecModel::TargetValue { .. } => Err(ErrorModel::CorruptedState("selector returned no inputs"@)),
    };
    match picked {
        Err(e) => Err(e),
        Ok(outs) => if outs.len() == 0 {
            Err(ErrorModel::CorruptedState("selector returned no inputs"@))
        } else {
            match lookup(m.utxos, outs[0]) {
                None => Err(ErrorModel::UtxoNotFound(outs[0])),
                Some(u) => Ok((outs, u.scope_id)),
            }
        },
    }
}

/// The value of a selection result.
pub open spec fn selected_res(r: DomainResult<SelectedInputs>) -> Result<(Seq<OutPointModel>, Seq<char>), ErrorModel> {
    match r {
        Ok(s) => Ok((outpoints_model(s.outpoints@), s.change_scope_id@)),
        Err(e) => Err(e@),
    }
}

/// What a selector answers for a request, given the state, the account, its
/// scopes, the eligible scopes, and the outputs as the store lists them.
pub open spec fn outcome_for(
    m: StoreModel,
    account: Seq<char>,
    account_scopes: Seq<Seq<char>>,
    eligible: Seq<Seq<char>>,
    spec: SpecModel,
    l: Seq<UtxoModel>,
) -> Result<(Seq<OutPointModel>, Seq<char>), ErrorModel> {
    match spec {
        SpecModel::TargetValue { amount_sats } => target_outcome(m, account, eligible, l, amount_sats),
        _ => candidate_outcome(m, account, account_scopes, eligible, spec),
    }
}

/// What a selector answers for a request, over the outputs as the store lists them.
pub open spec fn selection_outcome<S: StateRead>(
    ctx: SelectionContext<S>,
    spec: SpecModel,
    l: Seq<UtxoModel>,
) -> Result<(Seq<OutPointModel>, Seq<char>), ErrorModel> {
    outcome_for(
        ctx.state.model(),
        ctx.account_id@,
        scope_ids_model(ctx.account_scope_ids@),
        scope_ids_model(ctx.eligible_scope_ids@),
        spec,
        l,
    )
}

/// A selector's answer: target-value selection over some listing of the
/// outputs (none is needed when no scope can take change), candidate selection
/// over the recorded state; a faulty store may report a storage error instead.
pub open spec fn result_for(
    m: StoreModel,
    healthy: bool,
    account: Seq<char>,
    account_scopes: Seq<Seq<char>>,
    eligible: Seq<Seq<char>>,
    spec: SpecModel,
    r: Result<(Seq<OutPointModel>, Seq<char>), ErrorModel>,
) -> bool {
    match spec {
        SpecModel::TargetValue { .. } => (!healthy && r is Err && r->Err_0 is Storage) || (preferred(
            existing_scopes(m, eligible),
        ) is None && r == Err::<(Seq<OutPointModel>, Seq<char>), ErrorModel>(
            ErrorModel::NoEligibleScope { account_id: account },
        )) || exists|l: Seq<UtxoModel>|
            lists_utxos(l, m.utxos) && r == outcome_for(m, account, account_scopes, eligible, spec, l),
        _ => agrees(r, outcome_for(m, account, account_scopes, eligible, spec, Seq::empty()), healthy),
    }
}

/// Whether `id` is among `ids`.
pub fn contains_scope(ids: &[WalletScopeId], id: &WalletScopeId) -> (r: bool)
    ensures
        r == scope_ids_model(ids@).contains(id@),
{
    let mut i: usize = 0;
    while i < ids.len()
        invariant
            i <= ids@.len(),
            forall|k: int| 0 <= k < i ==> ids@[k]@ != id@,
        decreases ids@.len() - i,
    {
        if ids[i].same(id) {
            assert(scope_ids_model(ids@)[i as int] == id@);
            return true;
        }
        i = i + 1;
    }
    proof {
        if scope_ids_model(ids@).contains(id@) {
            let k = choose|k: int| 0 <= k < scope_ids_model(ids@).len() && scope_ids_model(ids@)[k] == id@;
            assert(ids@[k]@ == id@);
        }
    }
    false
}

impl<'a, S: StateRead> SelectionContext<'a, S> {
    /// Policy-spendable and not locked.
    fn is_policy_spendable(&self, utxo: &ManagedUtxo) -> (r: DomainResult<bool>)
        ensures
            agrees(
                match r {
                    Ok(b) => Ok::<bool, ErrorModel>(b),
                    Err(e) => Err(e@),
                },
                Ok(utxo@.is_policy_spendable() && !self.state.model().locks.contains_key(utxo@.outpoint)),
                self.state.healthy(),
            ),
    {
        if !utxo.is_policy_spendable() {
            return Ok(false);
        }
        match self.state.get_lock(&utxo.outpoint) {
            Err(e) => Err(e),
            Ok(lock) => Ok(lock.is_none()),
        }
    }

    /// Whether the output is a candidate for the account now.
    fn is_candidate_utxo(&self, utxo: &ManagedUtxo) -> (r: DomainResult<bool>)
        ensures
            agrees(
                match r {
                    Ok(b) => Ok::<bool, ErrorModel>(b),
                    Err(e) => Err(e@),
                },
                Ok(
                    is_candidate(
                        self.state.model(),
                        self.account_id@,
                        scope_ids_model(self.eligible_scope_ids@),
                        utxo@,
                    ),
                ),
                self.state.healthy(),
            ),
    {
        if !utxo.account_id.same(self.account_id) {
            return Ok(false);
        }
        if !contains_scope(self.eligible_scope_ids, &utxo.scope_id) {
            return Ok(false);
        }
        self.is_policy_spendable(utxo)
    }

    /// The candidates among the listed outputs, in listing order.
    fn selectable_utxos(&self, listed: &Vec<ManagedUtxo>) -> (r: DomainResult<Vec<ManagedUtxo>>)
        ensures
            match r {
                Ok(c) => utxos_model(c@) == candidates_in(
                    self.state.model(),
                    self.account_id@,
                    scope_ids_model(self.eligible_scope_ids@),
                    utxos_model(listed@),
                ),
                Err(e) => !self.state.healthy() && e@ is Storage,
            },
    {
        let ghost m = self.state.model();
        let ghost acc = self.account_id@;
        let ghost el = scope_ids_model(self.eligible_scope_ids@);
        let ghost l = utxos_model(listed@);
        let mut out: Vec<ManagedUtxo> = Vec::new();
        let mut i: usize = 0;
        assert(l.take(0) =~= Seq::<UtxoModel>::empty());
        assert(utxos_model(out@) =~= Seq::<UtxoModel>::empty());
        while i < listed.len()
            invariant
                i <= listed@.len(),
                l == utxos_model(listed@),
                m == self.state.model(),
                acc == self.account_id@,
                el == scope_ids_model(self.eligible_scope_ids@),
                utxos_model(out@) == candidates_in(m, acc, el, l.take(i as int)),
            decreases listed@.len() - i,
        {
            let u = &listed[i];
            let take = match self.is_candidate_utxo(u) {
                Err(e) => return Err(e),
                Ok(b) => b,
            };
            let ghost before = utxos_model(out@);
            if take {
                out.push(u.dup());
                assert(utxos_model(out@) =~= before.push(u@));
            }
            proof {
                assert(l.take(i + 1).drop_last() =~= l.take(i as int));
                assert(l.take(i + 1).last() == u@);
            }
            i = i + 1;
        }
        assert(l.take(i as int) =~= l);
        Ok(out)
    }

    /// The eligible scope changes go to: the first of lowest priority.
    fn preferred_scope(&self) -> (r: DomainResult<WalletScope>)
        ensures
            agrees(
                match r {
                    Ok(s) => Ok::<ScopeModel, ErrorModel>(s@),
                    Err(e) => Err(e@),
                },
                match preferred(existing_scopes(self.state.model(), scope_ids_model(self.eligible_scope_ids@))) {
                    Some(s) => Ok(s),
                    None => Err(ErrorModel::NoEligibleScope { account_id: self.account_id@ }),
                },
                self.state.healthy(),
            ),
    {
        let ghost m = self.state.model();
        let ghost ids = scope_ids_model(self.eligible_scope_ids@);
        let mut best: Option<WalletScope> = None;
        let mut i: usize = 0;
        let ghost mut found: Seq<ScopeModel> = Seq::empty();
        assert(ids.take(0) =~= Seq::<Seq<char>>::empty());
        while i < self.eligible_scope_ids.len()
            invariant
                i <= self.eligible_scope_ids@.len(),
                m == self.state.model(),
                ids == scope_ids_model(self.eligible_scope_ids@),
                found == existing_scopes(m, ids.take(i as int)),
                match best {
                    Some(b) => preferred(found) == Some(b@),
                    None => preferred(found) is None,
                },
            decreases self.eligible_scope_ids@.len() - i,
        {
            let scope = match self.state.get_scope(&self.eligible_scope_ids[i]) {
                Err(e) => return Err(e),
                Ok(s) => s,
            };
            proof {
                assert(ids.take(i + 1).drop_last() =~= ids.take(i as int));
                assert(ids.take(i + 1).last() == self.eligible_scope_ids@[i as int]@);
            }
            match scope {
                Some(s) => {
                    proof {
                        found = found.push(s@);
                        assert(found.drop_last() =~= existing_scopes(m, ids.take(i as int)));
                    }
                    let replace = match &best {
                        None => true,
                        Some(b) => s.priority < b.priority,
                    };
                    if replace {
                        best = Some(s);
                    }
                },
                None => {},
            }
            i = i + 1;
        }
        assert(ids.take(i as int) =~= ids);
        match best {
            Some(b) => Ok(b),
            None => Err(DomainError::NoEligibleScope { account_id: self.account_id.dup() }),
        }
    }

    /// Whether output `o` is a candidate for the account now.
    fn is_selectable_candidate(&self, outpoint: &OutPoint) -> (r: DomainResult<bool>)
        ensures
            agrees(
                match r {
                    Ok(b) => Ok::<bool, ErrorModel>(b),
                    Err(e) => Err(e@),
                },
                Ok(
                    lookup(self.state.model().utxos, outpoint@) matches Some(u) && is_candidate(
                        self.state.model(),
                        self.account_id@,
                        scope_ids_model(self.eligible_scope_ids@),
                        u,
                    ),
                ),
                self.state.healthy(),
            ),
    {
        let utxo = match self.state.get_utxo(outpoint) {
            Err(e) => return Err(e),
            Ok(None) => return Ok(false),
            Ok(Some(u)) => u,
        };
        self.is_candidate_utxo(&utxo)
    }

    /// Fails with the reason output `o` cannot be taken for the account, if it cannot.
    fn require_selectable_candidate(&self, outpoint: &OutPoint) -> (r: DomainResult<()>)
        ensures
            agrees(
                match r {
                    Ok(_) => Ok::<(), ErrorModel>(()),
                    Err(e) => Err(e@),
                },
                match refusal(
                    self.state.model(),
                    self.account_id@,
                    scope_ids_model(self.account_scope_ids@),
                    scope_ids_model(self.eligible_scope_ids@),
                    outpoint@,
                ) {
                    Some(e) => Err(e),
                    None => Ok(()),
                },
                self.state.healthy(),
            ),
    {
        let utxo = match self.state.get_utxo(outpoint) {
            Err(e) => return Err(e),
            Ok(None) => return Err(DomainError::UtxoNotFound(outpoint.dup())),
            Ok(Some(u)) => u,
        };
        if !utxo.account_id.same(self.account_id) {
            return Err(DomainError::AccountNotFound(self.account_id.dup()));
        }
        if !contains_scope(self.eligible_scope_ids, &utxo.scope_id) {
            if contains_scope(self.account_scope_ids, &utxo.scope_id) {
                let owned = match self.state.get_scope(&utxo.scope_id) {
                    Err(e) => return Err(e),
                    Ok(Some(s)) => s.account_id.same(self.account_id),
                    Ok(None) => false,
                };
                if owned {
                    return Err(DomainError::MissingCapabilities { scope_id: utxo.scope_id.dup() });
                }
            }
            return Err(DomainError::ScopeNotFound(utxo.scope_id.dup()));
        }
        if utxo.availability != Availability::Selectable {
            return Err(
                DomainError::UtxoUnavailable { outpoint: outpoint.dup(), availability: utxo.availability },
            );
        }
        let spendable = match self.is_policy_spendable(&utxo) {
            Err(e) => return Err(e),
            Ok(b) => b,
        };
        if !spendable {
            let lock_present = match self.state.get_lock(outpoint) {
                Err(e) => return Err(e),
                Ok(l) => l.is_some(),
            };
            let mut reason = String::from_str("utxo is not safely spendable: onchain_state=");
            reason.append(utxo.onchain_state.debug_name());
            reason.append(", conflict=");
            reason.append(if utxo.observation_conflict.is_some() { "true" } else { "false" });
            reason.append(", lock_present=");
            reason.append(if lock_present { "true" } else { "false" });
            return Err(DomainError::UtxoPolicyBlocked { outpoint: outpoint.dup(), reason });
        }
        Ok(())
    }
}


/// What a selector answers for `spec` in this context.
pub open spec fn selection_result<S: StateRead>(
    ctx: SelectionContext<S>,
    spec: SpecModel,
    r: Result<(Seq<OutPointModel>, Seq<char>), ErrorModel>,
) -> bool {
    result_for(
        ctx.state.model(),
        ctx.state.healthy(),
        ctx.account_id@,
        scope_ids_model(ctx.account_scope_ids@),
        scope_ids_model(ctx.eligible_scope_ids@),
        spec,
        r,
    )
}

/// Chooses the inputs of a request.
pub trait UtxoSelector {
    /// The kinds of request this selector serves.
    spec fn handles(&self, spec: SpecModel) -> bool;

    fn select<S: StateRead>(&self, ctx: &SelectionContext<S>, req: &InputSelectionRequest) -> (r: DomainResult<
        SelectedInputs,
    >)
        requires
            self.handles(req.spec@),
        ensures
            selection_result(*ctx, req.spec@, selected_res(r)),
    ;
}

/// Takes the smallest candidates until they cover a target value.
pub struct TargetValueSelector;

/// Takes exactly the requested inputs, or the first selectable candidate.
pub struct CandidateInputSelector;

fn role_weight_of(role: UtxoRole) -> (r: u8)
    ensures
        r == role_weight(role),
{
    match role {
        UtxoRole::SpendPreferred => 0,
        UtxoRole::General => 1,
        UtxoRole::ConsolidationCandidate => 2,
        _ => 10,
    }
}

proof fn lemma_cover_step(vals: Seq<u64>, target: u64, acc: u64, k: int)
    requires
        0 <= k < vals.len(),
    ensures
        cover(vals.skip(k), target, acc) == ({
            let a = if acc + vals[k] > u64::MAX {
                u64::MAX
            } else {
                (acc + vals[k]) as u64
            };
            if a >= target {
                Some(1nat)
            } else {
                match cover(vals.skip(k + 1), target, a) {
                    Some(n) => Some(n + 1),
                    None => None,
                }
            }
        }),
{
    assert(vals.skip(k).drop_first() =~= vals.skip(k + 1));
    assert(vals.skip(k)[0] == vals[k]);
}

impl UtxoSelector for TargetValueSelector {
    open spec fn handles(&self, spec: SpecModel) -> bool {
        spec is TargetValue
    }

    fn select<S: StateRead>(&self, ctx: &SelectionContext<S>, req: &InputSelectionRequest) -> (r: DomainResult<
        SelectedInputs,
    >) {
        let amount = match &req.spec {
            InputSelectionSpec::TargetValue { amount_sats } => *amount_sats,
            _ => 0,
        };
        let ghost m = ctx.state.model();
        let ghost account = ctx.account_id@;
        let ghost eligible = scope_ids_model(ctx.eligible_scope_ids@);
        let change_scope_id = match ctx.preferred_scope() {
            Err(e) => return Err(e),
            Ok(s) => s.id,
        };
        let listed = match ctx.state.list_utxos() {
            Err(e) => return Err(e),
            Ok(v) => v,
        };
        let ghost l = utxos_model(listed@);
        let cands = match ctx.selectable_utxos(&listed) {
            Err(e) => return Err(e),
            Ok(c) => c,
        };
        let ghost c = utxos_model(cands@);
        let mut keys: Vec<(u64, u8, usize)> = Vec::new();
        let mut i: usize = 0;
        while i < cands.len()
            invariant
                i <= cands@.len(),
                c == utxos_model(cands@),
                keys@.len() == i,
                forall|j: int| 0 <= j < i ==> #[trigger] keys@[j] == (c[j].value_sats, role_weight(c[j].role), j as usize),
            decreases cands@.len() - i,
        {
            keys.push((cands[i].value_sats, role_weight_of(cands[i].role), i));
            i = i + 1;
        }
        assert(keys@ =~= sort_keys(c));
        let sorted = insertion_sort(keys);
        proof {
            lemma_sort_members(sort_keys(c));
        }
        let ghost order = value_order(c);
        let ghost vals = values_of(order);
        let mut acc: u64 = 0;
        let mut selected: Vec<OutPoint> = Vec::new();
        let mut k: usize = 0;
        assert(vals.skip(0) =~= vals);
        assert(outpoints_model(selected@) =~= outpoints_of(order.take(0)));
        while k < sorted.len()
            invariant
                k <= sorted@.len(),
                sorted@ == sort_by_insertion(sort_keys(c)),
                sorted@.len() == c.len(),
                forall|y: (u64, u8, usize)| #[trigger] sorted@.contains(y) ==> sort_keys(c).contains(y),
                c == utxos_model(cands@),
                order == value_order(c),
                vals == values_of(order),
                outpoints_model(selected@) == outpoints_of(order.take(k as int)),
                m == ctx.state.model(),
                account == ctx.account_id@,
                eligible == scope_ids_model(ctx.eligible_scope_ids@),
                lists_utxos(l, m.utxos),
                c == candidates_in(m, account, eligible, l),
                req.spec@ == (SpecModel::TargetValue { amount_sats: amount }),
                preferred(existing_scopes(m, eligible)) matches Some(ps) && ps.id == change_scope_id@,
                cover(vals, amount, 0) == (match cover(vals.skip(k as int), amount, acc) {
                    Some(n) => Some((n + k) as nat),
                    None => None::<nat>,
                }),
            decreases sorted@.len() - k,
        {
            proof {
                lemma_cover_step(vals, amount, acc, k as int);
                assert(sorted@.contains(sorted@[k as int]));
                let kk = choose|j: int| 0 <= j < sort_keys(c).len() && sort_keys(c)[j] == sorted@[k as int];
                assert(sort_keys(c)[kk].2 == kk as usize);
            }
            let idx = sorted[k].2;
            let cand = &cands[idx];
            assert(order[k as int] == cand@);
            acc = if acc <= u64::MAX - cand.value_sats {
                acc + cand.value_sats
            } else {
                u64::MAX
            };
            let ghost before = selected@;
            selected.push(cand.outpoint.dup());
            proof {
                assert(outpoints_model(selected@) =~= outpoints_model(before).push(cand@.outpoint));
                assert(order.take(k + 1) =~= order.take(k as int).push(cand@));
                assert(outpoints_model(selected@) =~= outpoints_of(order.take(k + 1)));
            }
            k = k + 1;
            if acc >= amount {
                let r = SelectedInputs { outpoints: selected, change_scope_id };
                assert(selected_res(Ok(r)) == selection_outcome(*ctx, req.spec@, l));
                return Ok(r);
            }
        }
        assert(vals.skip(k as int) =~= Seq::<u64>::empty());
        assert(selection_outcome(*ctx, req.spec@, l) == Err::<(Seq<OutPointModel>, Seq<char>), ErrorModel>(ErrorModel::InsufficientFunds));
        Err(DomainError::InsufficientFunds)
    }
}

impl UtxoSelector for CandidateInputSelector {
    open spec fn handles(&self, spec: SpecModel) -> bool {
        !(spec is TargetValue)
    }

    fn select<S: StateRead>(&self, ctx: &SelectionContext<S>, req: &InputSelectionRequest) -> (r: DomainResult<
        SelectedInputs,
    >) {
        let ghost m = ctx.state.model();
        let ghost account = ctx.account_id@;
        let ghost scopes = scope_ids_model(ctx.account_scope_ids@);
        let ghost eligible = scope_ids_model(ctx.eligible_scope_ids@);
        let outpoints: Vec<OutPoint> = match &req.spec {
            InputSelectionSpec::ExactOutpoints { outpoints } => {
                let ghost outs = outpoints_model(outpoints@);
                let mut i: usize = 0;
                assert(outs.skip(0) =~= outs);
                while i < outpoints.len()
                    invariant
                        i <= outpoints@.len(),
                        outs == outpoints_model(outpoints@),
                        m == ctx.state.model(),
                        account == ctx.account_id@,
                        scopes == scope_ids_model(ctx.account_scope_ids@),
                        eligible == scope_ids_model(ctx.eligible_scope_ids@),
                        req.spec@ == (SpecModel::ExactOutpoints { outpoints: outs }),
                        first_refusal(m, account, scopes, eligible, outs) == first_refusal(
                            m,
                            account,
                            scopes,
                            eligible,
                            outs.skip(i as int),
                        ),
                    decreases outpoints@.len() - i,
                {
                    proof {
                        assert(outs.skip(i as int).drop_first() =~= outs.skip(i + 1));
                        assert(outs.skip(i as int)[0] == outpoints@[i as int]@);
                    }
                    match ctx.require_selectable_candidate(&outpoints[i]) {
                        Err(e) => return Err(e),
                        Ok(()) => {},
                    }
                    i = i + 1;
                }
                assert(outs.skip(i as int) =~= Seq::<OutPointModel>::empty());
                clone_outpoints(outpoints)
            },
            InputSelectionSpec::FirstSelectable { candidates } => {
                let ghost outs = outpoints_model(candidates@);
                let mut selected: Option<OutPoint> = None;
                let mut i: usize = 0;
                assert(outs.skip(0) =~= outs);
                while i < candidates.len()
                    invariant_except_break
                        selected is None,
                    invariant
                        i <= candidates@.len(),
                        outs == outpoints_model(candidates@),
                        m == ctx.state.model(),
                        account == ctx.account_id@,
                        eligible == scope_ids_model(ctx.eligible_scope_ids@),
                        scopes == scope_ids_model(ctx.account_scope_ids@),
                        req.spec@ == (SpecModel::FirstSelectable { candidates: outs }),
                        selected is None ==> first_selectable(m, account, eligible, outs) == first_selectable(
                            m,
                            account,
                            eligible,
                            outs.skip(i as int),
                        ),
                    ensures
                        match selected {
                            Some(o) => first_selectable(m, account, eligible, outs) == Some(o@),
                            None => first_selectable(m, account, eligible, outs) is None,
                        },
                    decreases candidates@.len() - i,
                {
                    proof {
                        assert(outs.skip(i as int).drop_first() =~= outs.skip(i + 1));
                        assert(outs.skip(i as int)[0] == candidates@[i as int]@);
                    }
                    let ok = match ctx.is_selectable_candidate(&candidates[i]) {
                        Err(e) => return Err(e),
                        Ok(b) => b,
                    };
                    if ok {
                        selected = Some(candidates[i].dup());
                        break;
                    }
                    i = i + 1;
                    if i == candidates.len() {
                        assert(outs.skip(i as int) =~= Seq::<OutPointModel>::empty());
                    }
                }
                proof {
                    if selected is None && candidates@.len() == 0 {
                        assert(outs.skip(0) =~= Seq::<OutPointModel>::empty());
                    }
                }
                match selected {
                    None => return Err(DomainError::NoCandidateAvailable),
                    Some(o) => {
                        let v = vec![o];
                        assert(outpoints_model(v@) =~= seq![v@[0]@]);
                        v
                    },
                }
            },
            InputSelectionSpec::TargetValue { .. } => Vec::new(),
        };
        if outpoints.len() == 0 {
            return Err(DomainError::CorruptedState(String::from_str("selector returned no inputs")));
        }
        let utxo = match ctx.state.get_utxo(&outpoints[0]) {
            Err(e) => return Err(e),
            Ok(None) => return Err(DomainError::UtxoNotFound(outpoints[0].dup())),
            Ok(Some(u)) => u,
        };
        Ok(SelectedInputs { outpoints, change_scope_id: utxo.scope_id })
    }
}


/// Picks the selector for each kind of request.
#[derive(Debug, Default, Clone, Copy)]
pub struct SelectorRegistry;

impl SelectorRegistry {
    /// Serves the request with the selector for its kind: target values by
    /// `TargetValueSelector`, exact and first-available inputs by `CandidateInputSelector`.
    pub fn select<S: StateRead>(&self, ctx: &SelectionContext<S>, req: &InputSelectionRequest) -> (r: DomainResult<
        SelectedInputs,
    >)
        ensures
            selection_result(*ctx, req.spec@, selected_res(r)),
    {
        match &req.spec {
            InputSelectionSpec::TargetValue { .. } => TargetValueSelector.select(ctx, req),
            _ => CandidateInputSelector.select(ctx, req),
        }
    }
}

} // verus!
