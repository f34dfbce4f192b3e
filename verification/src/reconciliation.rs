//! Planning how observed wallet facts change the managed state.
use vstd::prelude::*;

use vstd::string::StringExecFns;

use crate::errors::DomainResult;
use crate::observation::{
    confirmation_availability, confirmation_state, ObservationScope, ObservationSnapshot,
    ObservedModel, ObservedSpendStatus, ObservedUtxo, SnapshotModel, SpendModel,
};
use crate::outpoint::{OutPoint, OutPointModel};
use crate::state::{Availability, OnchainState};
use crate::store::{lists_utxos, utxos_model, StateRead};
use crate::text::{decimal_text, push_decimal};
use crate::utxo::{ManagedUtxo, UtxoModel};

verus! {

/// One change that a reconciliation plan makes to the managed state.
#[derive(Debug, Clone, PartialEq, Eq)]
pub enum ReconciliationAction {
    DiscoverNew(ObservedUtxo),
    RefreshObserved(ObservedUtxo),
    UpdateOnchainState { outpoint: OutPoint, new_state: OnchainState },
    MarkSpent { outpoint: OutPoint, spending_txid: String },
    ReportConflict { outpoint: OutPoint, message: String, recorded_at: u64 },
    ClearConflict(OutPoint),
    UpdateAvailability { outpoint: OutPoint, availability: Availability },
    MarkMissing(OutPoint),
}

/// The value of a `ReconciliationAction`.
pub enum ActionModel {
    DiscoverNew(ObservedModel),
    RefreshObserved(ObservedModel),
    UpdateOnchainState { outpoint: OutPointModel, new_state: OnchainState },
    MarkSpent { outpoint: OutPointModel, spending_txid: Seq<char> },
    ReportConflict { outpoint: OutPointModel, message: Seq<char>, recorded_at: u64 },
    ClearConflict(OutPointModel),
    UpdateAvailability { outpoint: OutPointModel, availability: Availability },
    MarkMissing(OutPointModel),
}

impl View for ReconciliationAction {
    type V = ActionModel;

    open spec fn view(&self) -> ActionModel {
        match self {
            ReconciliationAction::DiscoverNew(o) => ActionModel::DiscoverNew(o@),
            ReconciliationAction::RefreshObserved(o) => ActionModel::RefreshObserved(o@),
            ReconciliationAction::UpdateOnchainState { outpoint, new_state } => {
                ActionModel::UpdateOnchainState { outpoint: outpoint@, new_state: *new_state }
            },
            ReconciliationAction::MarkSpent { outpoint, spending_txid } => ActionModel::MarkSpent {
                outpoint: outpoint@,
                spending_txid: spending_txid@,
            },
            ReconciliationAction::ReportConflict { outpoint, message, recorded_at } => {
                ActionModel::ReportConflict {
                    outpoint: outpoint@,
                    message: message@,
                    recorded_at: *recorded_at,
                }
            },
            ReconciliationAction::ClearConflict(o) => ActionModel::ClearConflict(o@),
            ReconciliationAction::UpdateAvailability { outpoint, availability } => {
                ActionModel::UpdateAvailability { outpoint: outpoint@, availability: *availability }
            },
            ReconciliationAction::MarkMissing(o) => ActionModel::MarkMissing(o@),
        }
    }
}

impl ReconciliationAction {
    pub fn dup(&self) -> (r: Self)
        ensures
            r@ == self@,
    {
        match self {
            ReconciliationAction::DiscoverNew(o) => ReconciliationAction::DiscoverNew(o.dup()),
            ReconciliationAction::RefreshObserved(o) => ReconciliationAction::RefreshObserved(o.dup()),
            ReconciliationAction::UpdateOnchainState { outpoint, new_state } => {
                ReconciliationAction::UpdateOnchainState { outpoint: outpoint.dup(), new_state: *new_state }
            },
            ReconciliationAction::MarkSpent { outpoint, spending_txid } => {
                ReconciliationAction::MarkSpent {
                    outpoint: outpoint.dup(),
                    spending_txid: spending_txid.clone(),
                }
            },
            ReconciliationAction::ReportConflict { outpoint, message, recorded_at } => {
                ReconciliationAction::ReportConflict {
                    outpoint: outpoint.dup(),
                    message: message.clone(),
                    recorded_at: *recorded_at,
                }
            },
            ReconciliationAction::ClearConflict(o) => ReconciliationAction::ClearConflict(o.dup()),
            ReconciliationAction::UpdateAvailability { outpoint, availability } => {
                ReconciliationAction::UpdateAvailability {
                    outpoint: outpoint.dup(),
                    availability: *availability,
                }
            },
            ReconciliationAction::MarkMissing(o) => ReconciliationAction::MarkMissing(o.dup()),
        }
    }
}

/// The values of a list of actions.
pub open spec fn actions_model(s: Seq<ReconciliationAction>) -> Seq<ActionModel> {
    s.map_values(|a: ReconciliationAction| a@)
}

/// The actions one reconciliation pass applies, in order.
#[derive(Debug, Clone, PartialEq, Eq)]
pub struct ReconcilePlan {
    pub actions: Vec<ReconciliationAction>,
}

impl ReconcilePlan {
    pub fn dup(&self) -> (r: Self)
        ensures
            actions_model(r.actions@) == actions_model(self.actions@),
    {
        let mut actions: Vec<ReconciliationAction> = Vec::new();
        let mut i: usize = 0;
        while i < self.actions.len()
            invariant
                i <= self.actions@.len(),
                actions@.len() == i,
                forall|k: int| 0 <= k < i ==> #[trigger] actions@[k]@ == self.actions@[k]@,
            decreases self.actions@.len() - i,
        {
            actions.push(self.actions[i].dup());
            i = i + 1;
        }
        assert(actions_model(actions@) =~= actions_model(self.actions@));
        ReconcilePlan { actions }
    }
}


/// The first listed output at `o`.
pub open spec fn find_utxo(l: Seq<UtxoModel>, o: OutPointModel) -> Option<UtxoModel>
    decreases l.len(),
{
    if l.len() == 0 {
        None
    } else if l[0].outpoint == o {
        Some(l[0])
    } else {
        find_utxo(l.drop_first(), o)
    }
}

/// The parts joined by `", "`.
pub open spec fn join_text(parts: Seq<Seq<char>>) -> Seq<char>
    decreases parts.len(),
{
    if parts.len() == 0 {
        Seq::empty()
    } else if parts.len() == 1 {
        parts[0]
    } else {
        join_text(parts.drop_last()) + ", "@ + parts.last()
    }
}

/// The recorded facts an unspent observation contradicts, each as `field(local=.., observed=..)`.
pub open spec fn mismatch_parts(m: UtxoModel, o: ObservedModel) -> Seq<Seq<char>> {
    let p1: Seq<Seq<char>> = if m.value_sats != o.value_sats {
        seq![
            "value_sats(local="@ + decimal_text(m.value_sats as nat) + ", observed="@ + decimal_text(
                o.value_sats as nat,
            ) + ")"@,
        ]
    } else {
        Seq::empty()
    };
    let p2: Seq<Seq<char>> = if m.account_id != o.account_id {
        p1.push("account_id(local="@ + m.account_id + ", observed="@ + o.account_id + ")"@)
    } else {
        p1
    };
    if m.scope_id != o.scope_id {
        p2.push("scope_id(local="@ + m.scope_id + ", observed="@ + o.scope_id + ")"@)
    } else {
        p2
    }
}

/// The conflict message of an observation that contradicts recorded facts, if it does.
pub open spec fn mismatch_message(m: UtxoModel, o: ObservedModel) -> Option<Seq<char>> {
    let parts = mismatch_parts(m, o);
    if parts.len() == 0 {
        None
    } else {
        Some("Observed metadata mismatch: "@ + join_text(parts))
    }
}

/// The availability an unspent observation restores, if it changes anything.
/// Spent outputs stay as they are; outputs being spent stay blocked; bound
/// outputs come back from recovery as reserved; contradicted outputs are blocked
/// by policy; the others follow the observed confirmation when they are
/// recovering, policy-blocked or selectable.
pub open spec fn restored_availability(m: UtxoModel, o: ObservedModel, has_mismatch: bool) -> Option<
    Availability,
> {
    if m.onchain_state == OnchainState::Spent {
        None
    } else if m.onchain_state == OnchainState::SpendingInFlight {
        if m.availability != Availability::BlockedByL2 {
            Some(Availability::BlockedByL2)
        } else {
            None
        }
    } else if m.operation_binding is Some {
        if m.availability == Availability::Recovering {
            Some(Availability::Reserved)
        } else {
            None
        }
    } else if has_mismatch {
        if m.availability != Availability::BlockedByPolicy {
            Some(Availability::BlockedByPolicy)
        } else {
            None
        }
    } else {
        let desired = confirmation_availability(o.confirmation);
        let can_restore = m.availability == Availability::Recovering || m.availability
            == Availability::BlockedByPolicy || m.availability == Availability::Selectable;
        if can_restore && m.availability != desired {
            Some(desired)
        } else {
            None
        }
    }
}

/// A conflict report on a reserved output, when it is reserved.
pub open spec fn reserved_conflict(m: UtxoModel, message: Seq<char>, ts: u64) -> Seq<ActionModel> {
    if m.availability == Availability::Reserved {
        seq![ActionModel::ReportConflict { outpoint: m.outpoint, message, recorded_at: ts }]
    } else {
        Seq::empty()
    }
}

/// The actions for an unspent observation of a managed output that is not spent.
pub open spec fn unspent_actions(m: UtxoModel, o: ObservedModel, ts: u64) -> Seq<ActionModel> {
    let mismatch = mismatch_message(m, o);
    let a1: Seq<ActionModel> = match mismatch {
        Some(msg) => seq![ActionModel::ReportConflict { outpoint: m.outpoint, message: msg, recorded_at: ts }],
        None => Seq::empty(),
    };
    let a2: Seq<ActionModel> = match restored_availability(m, o, mismatch is Some) {
        Some(a) => a1.push(ActionModel::UpdateAvailability { outpoint: m.outpoint, availability: a }),
        None => a1,
    };
    let a3: Seq<ActionModel> = if m.observation_conflict is Some && mismatch is None {
        a2.push(ActionModel::ClearConflict(m.outpoint))
    } else {
        a2
    };
    let new_state = confirmation_state(o.confirmation);
    if m.onchain_state != OnchainState::SpendingInFlight && m.onchain_state != new_state {
        a3.push(ActionModel::UpdateOnchainState { outpoint: m.outpoint, new_state })
    } else {
        a3
    }
}

/// The actions one observation calls for, given the managed output at its outpoint.
pub open spec fn observed_actions(managed: Option<UtxoModel>, o: ObservedModel, ts: u64) -> Seq<ActionModel> {
    match managed {
        None => if o.spend_status is Unspent {
            seq![ActionModel::DiscoverNew(o)]
        } else {
            Seq::empty()
        },
        Some(m) => match o.spend_status {
            SpendModel::Spent { spending_txid } => if m.onchain_state != OnchainState::Spent {
                reserved_conflict(m, "Reserved UTXO spent by "@ + spending_txid, ts).push(
                    ActionModel::MarkSpent { outpoint: m.outpoint, spending_txid },
                )
            } else {
                Seq::empty()
            },
            SpendModel::Missing => if m.onchain_state != OnchainState::Spent {
                reserved_conflict(m, "Reserved UTXO explicitly reported as missing"@, ts).push(
                    ActionModel::MarkMissing(m.outpoint),
                )
            } else {
                Seq::empty()
            },
            SpendModel::Unspent => if m.onchain_state == OnchainState::Spent {
                Seq::empty()
            } else {
                unspent_actions(m, o, ts)
            },
            SpendModel::Unknown => Seq::empty(),
        },
    }
}

/// The actions for the observations, in order.
pub open spec fn observed_part(l: Seq<UtxoModel>, obs: Seq<ObservedModel>, ts: u64) -> Seq<ActionModel>
    decreases obs.len(),
{
    if obs.len() == 0 {
        Seq::empty()
    } else {
        observed_part(l, obs.drop_last(), ts) + observed_actions(
            find_utxo(l, obs.last().outpoint),
            obs.last(),
            ts,
        )
    }
}

/// Whether some observation is at `o`.
pub open spec fn observed_at(obs: Seq<ObservedModel>, o: OutPointModel) -> bool {
    exists|i: int| 0 <= i < obs.len() && obs[i].outpoint == o
}

/// The actions a full snapshot calls for on a managed output it does not mention.
pub open spec fn absent_actions(m: UtxoModel, obs: Seq<ObservedModel>, ts: u64) -> Seq<ActionModel> {
    if m.onchain_state != OnchainState::Spent && m.availability != Availability::Recovering
        && m.onchain_state != OnchainState::SpendingInFlight && !observed_at(obs, m.outpoint) {
        reserved_conflict(m, "Reserved UTXO missing from full snapshot"@, ts).push(
            ActionModel::MarkMissing(m.outpoint),
        )
    } else {
        Seq::empty()
    }
}

/// The actions for managed outputs missing from a full snapshot, in listing order.
pub open spec fn missing_part(l: Seq<UtxoModel>, obs: Seq<ObservedModel>, ts: u64) -> Seq<ActionModel>
    decreases l.len(),
{
    if l.len() == 0 {
        Seq::empty()
    } else {
        missing_part(l.drop_last(), obs, ts) + absent_actions(l.last(), obs, ts)
    }
}

/// The plan for a snapshot, given the managed outputs in listing order: the
/// actions for each observation in snapshot order, then, for a full snapshot,
/// those for managed outputs it leaves out.
pub open spec fn plan_spec(l: Seq<UtxoModel>, snap: SnapshotModel) -> Seq<ActionModel> {
    observed_part(l, snap.utxos, snap.timestamp) + if snap.scope == ObservationScope::Full {
        missing_part(l, snap.utxos, snap.timestamp)
    } else {
        Seq::empty()
    }
}

/// Plans reconciliation against the state a reader records.
pub struct ReconciliationPlanner<'a, S: StateRead> {
    state: &'a S,
}

proof fn lemma_find_utxo(l: Seq<UtxoModel>, o: OutPointModel, i: int)
    requires
        0 <= i <= l.len(),
        forall|k: int| 0 <= k < i ==> l[k].outpoint != o,
    ensures
        find_utxo(l, o) == find_utxo(l.skip(i), o),
    decreases i,
{
    if i > 0 {
        lemma_find_utxo(l, o, i - 1);
        assert(l.skip(i - 1).drop_first() =~= l.skip(i));
    } else {
        assert(l.skip(0) =~= l);
    }
}

/// The first output at `o` in the list.
fn find_managed(l: &Vec<ManagedUtxo>, o: &OutPoint) -> (r: Option<usize>)
    ensures
        match find_utxo(utxos_model(l@), o@) {
            Some(u) => r is Some && r->Some_0 < l@.len() && l@[r->Some_0 as int]@ == u,
            None => r is None,
        },
{
    let ghost m = utxos_model(l@);
    let mut i: usize = 0;
    while i < l.len()
        invariant
            i <= l@.len(),
            m == utxos_model(l@),
            forall|k: int| 0 <= k < i ==> m[k].outpoint != o@,
        decreases l@.len() - i,
    {
        if l[i].outpoint.same(o) {
            proof {
                lemma_find_utxo(m, o@, i as int);
                assert(m.skip(i as int)[0] == m[i as int]);
            }
            return Some(i);
        }
        i = i + 1;
    }
    proof {
        lemma_find_utxo(m, o@, i as int);
    }
    None
}

/// Whether some observation is at `o`.
fn is_observed(obs: &Vec<ObservedUtxo>, o: &OutPoint) -> (r: bool)
    ensures
        r == observed_at(obs@.map_values(|u: ObservedUtxo| u@), o@),
{
    let ghost m = obs@.map_values(|u: ObservedUtxo| u@);
    let mut i: usize = 0;
    while i < obs.len()
        invariant
            i <= obs@.len(),
            m == obs@.map_values(|u: ObservedUtxo| u@),
            forall|k: int| 0 <= k < i ==> m[k].outpoint != o@,
        decreases obs@.len() - i,
    {
        if obs[i].outpoint.same(o) {
            assert(m[i as int].outpoint == o@);
            return true;
        }
        i = i + 1;
    }
    false
}

/// The values of a list of strings.
pub open spec fn texts_model(s: Seq<String>) -> Seq<Seq<char>> {
    s.map_values(|t: String| t@)
}

/// The contradicted facts, each as `field(local=.., observed=..)`.
fn mismatch_parts_of(managed: &ManagedUtxo, observed: &ObservedUtxo) -> (r: Vec<String>)
    ensures
        texts_model(r@) == mismatch_parts(managed@, observed@),
{
    let mut parts: Vec<String> = Vec::new();
    if managed.value_sats != observed.value_sats {
        let mut t = String::from_str("value_sats(local=");
        push_decimal(&mut t, managed.value_sats as u128);
        t.append(", observed=");
        push_decimal(&mut t, observed.value_sats as u128);
        t.append(")");
        parts.push(t);
    }
    let ghost p1 = texts_model(parts@);
    assert(p1 =~= if managed@.value_sats != observed@.value_sats {
        seq![
            "value_sats(local="@ + decimal_text(managed@.value_sats as nat) + ", observed="@
                + decimal_text(observed@.value_sats as nat) + ")"@,
        ]
    } else {
        Seq::<Seq<char>>::empty()
    });
    if !managed.account_id.same(&observed.account_id) {
        let mut t = String::from_str("account_id(local=");
        t.append(managed.account_id.as_str());
        t.append(", observed=");
        t.append(observed.account_id.as_str());
        t.append(")");
        parts.push(t);
    }
    let ghost p2 = texts_model(parts@);
    assert(p2 =~= if managed@.account_id != observed@.account_id {
        p1.push("account_id(local="@ + managed@.account_id + ", observed="@ + observed@.account_id + ")"@)
    } else {
        p1
    });
    if !managed.scope_id.same(&observed.scope_id) {
        let mut t = String::from_str("scope_id(local=");
        t.append(managed.scope_id.as_str());
        t.append(", observed=");
        t.append(observed.scope_id.as_str());
        t.append(")");
        parts.push(t);
    }
    assert(texts_model(parts@) =~= if managed@.scope_id != observed@.scope_id {
        p2.push("scope_id(local="@ + managed@.scope_id + ", observed="@ + observed@.scope_id + ")"@)
    } else {
        p2
    });
    parts
}

/// The parts joined by `", "`.
fn join_parts(parts: &Vec<String>) -> (r: String)
    ensures
        r@ == join_text(texts_model(parts@)),
{
    let mut text = String::new();
    let mut i: usize = 0;
    assert(texts_model(parts@).take(0) =~= Seq::<Seq<char>>::empty());
    while i < parts.len()
        invariant
            i <= parts@.len(),
            text@ == join_text(texts_model(parts@).take(i as int)),
        decreases parts@.len() - i,
    {
        let ghost tm = texts_model(parts@);
        if i > 0 {
            text.append(", ");
        }
        text.append(parts[i].as_str());
        proof {
            assert(tm.take(i + 1).drop_last() =~= tm.take(i as int));
            assert(tm.take(i + 1).last() == parts@[i as int]@);
            if i == 0 {
                assert(text@ =~= tm.take(1)[0]);
            } else {
                assert(text@ =~= join_text(tm.take(i as int)) + ", "@ + parts@[i as int]@);
            }
        }
        i = i + 1;
    }
    assert(texts_model(parts@).take(i as int) =~= texts_model(parts@));
    text
}

/// The conflict message of an observation that contradicts recorded facts, if it does.
fn mismatch(managed: &ManagedUtxo, observed: &ObservedUtxo) -> (r: Option<String>)
    ensures
        match mismatch_message(managed@, observed@) {
            Some(msg) => r is Some && r->Some_0@ == msg,
            None => r is None,
        },
{
    let parts = mismatch_parts_of(managed, observed);
    if parts.len() == 0 {
        return None;
    }
    let mut text = String::from_str("Observed metadata mismatch: ");
    let joined = join_parts(&parts);
    text.append(joined.as_str());
    Some(text)
}

/// The availability an unspent observation restores, if it changes anything.
fn restored(managed: &ManagedUtxo, observed: &ObservedUtxo, has_mismatch: bool) -> (r: Option<Availability>)
    ensures
        r == restored_availability(managed@, observed@, has_mismatch),
{
    if managed.onchain_state == OnchainState::Spent {
        return None;
    }
    if managed.onchain_state == OnchainState::SpendingInFlight {
        return if managed.availability != Availability::BlockedByL2 {
            Some(Availability::BlockedByL2)
        } else {
            None
        };
    }
    if managed.operation_binding.is_some() {
        return if managed.availability == Availability::Recovering {
            Some(Availability::Reserved)
        } else {
            None
        };
    }
    if has_mismatch {
        return if managed.availability != Availability::BlockedByPolicy {
            Some(Availability::BlockedByPolicy)
        } else {
            None
        };
    }
    let desired = observed.confirmation.availability();
    let can_restore = managed.availability == Availability::Recovering || managed.availability
        == Availability::BlockedByPolicy || managed.availability == Availability::Selectable;
    if can_restore && managed.availability != desired {
        Some(desired)
    } else {
        None
    }
}

/// Appends a conflict report for a reserved output.
fn push_reserved_conflict(
    actions: &mut Vec<ReconciliationAction>,
    managed: &ManagedUtxo,
    message: String,
    ts: u64,
)
    ensures
        actions_model(final(actions)@) == actions_model(old(actions)@) + reserved_conflict(
            managed@,
            message@,
            ts,
        ),
{
    let ghost before = actions_model(actions@);
    if managed.availability == Availability::Reserved {
        actions.push(
            ReconciliationAction::ReportConflict {
                outpoint: managed.outpoint.dup(),
                message,
                recorded_at: ts,
            },
        );
    }
    assert(actions_model(actions@) =~= before + reserved_conflict(managed@, message@, ts));
}

/// Appends the actions one observation calls for.
fn push_observed_actions(
    actions: &mut Vec<ReconciliationAction>,
    managed: Option<&ManagedUtxo>,
    observed: &ObservedUtxo,
    ts: u64,
)
    ensures
        actions_model(final(actions)@) == actions_model(old(actions)@) + observed_actions(
            match managed {
                Some(m) => Some(m@),
                None => None,
            },
            observed@,
            ts,
        ),
{
    let ghost before = actions_model(actions@);
    match managed {
        None => {
            if let ObservedSpendStatus::Unspent = observed.spend_status {
                actions.push(ReconciliationAction::DiscoverNew(observed.dup()));
            }
            assert(actions_model(actions@) =~= before + observed_actions(None, observed@, ts));
        },
        Some(m) => {
            match &observed.spend_status {
                ObservedSpendStatus::Spent { spending_txid } => {
                    if m.onchain_state != OnchainState::Spent {
                        let mut message = String::from_str("Reserved UTXO spent by ");
                        message.append(spending_txid.as_str());
                        push_reserved_conflict(actions, m, message, ts);
                        let ghost mid = actions_model(actions@);
                        actions.push(
                            ReconciliationAction::MarkSpent {
                                outpoint: m.outpoint.dup(),
                                spending_txid: spending_txid.clone(),
                            },
                        );
                        assert(actions_model(actions@) =~= mid.push(
                            ActionModel::MarkSpent { outpoint: m@.outpoint, spending_txid: spending_txid@ },
                        ));
                    }
                },
                ObservedSpendStatus::Missing => {
                    if m.onchain_state != OnchainState::Spent {
                        push_reserved_conflict(
                            actions,
                            m,
                            String::from_str("Reserved UTXO explicitly reported as missing"),
                            ts,
                        );
                        let ghost mid = actions_model(actions@);
                        actions.push(ReconciliationAction::MarkMissing(m.outpoint.dup()));
                        assert(actions_model(actions@) =~= mid.push(ActionModel::MarkMissing(m@.outpoint)));
                    }
                },
                ObservedSpendStatus::Unspent => {
                    if m.onchain_state != OnchainState::Spent {
                        let found = mismatch(m, observed);
                        let has_mismatch = found.is_some();
                        let ghost a0 = actions_model(actions@);
                        match found {
                            Some(message) => {
                                actions.push(
                                    ReconciliationAction::ReportConflict {
                                        outpoint: m.outpoint.dup(),
                                        message,
                                        recorded_at: ts,
                                    },
                                );
                            },
                            None => {},
                        }
                        let ghost a1 = actions_model(actions@);
                        match restored(m, observed, has_mismatch) {
                            Some(availability) => {
                                actions.push(
                                    ReconciliationAction::UpdateAvailability {
                                        outpoint: m.outpoint.dup(),
                                        availability,
                                    },
                                );
                            },
                            None => {},
                        }
                        let ghost a2 = actions_model(actions@);
                        if m.observation_conflict.is_some() && !has_mismatch {
                            actions.push(ReconciliationAction::ClearConflict(m.outpoint.dup()));
                        }
                        let ghost a3 = actions_model(actions@);
                        let new_state = observed.confirmation.onchain_state();
                        if m.onchain_state != OnchainState::SpendingInFlight && m.onchain_state
                            != new_state {
                            actions.push(
                                ReconciliationAction::UpdateOnchainState {
                                    outpoint: m.outpoint.dup(),
                                    new_state,
                                },
                            );
                        }
                        proof {
                            let u = unspent_actions(m@, observed@, ts);
                            assert(a1 =~= a0 + match mismatch_message(m@, observed@) {
                                Some(msg) => seq![
                                    ActionModel::ReportConflict {
                                        outpoint: m@.outpoint,
                                        message: msg,
                                        recorded_at: ts,
                                    },
                                ],
                                None => Seq::<ActionModel>::empty(),
                            });
                            assert(actions_model(actions@) =~= before + u);
                        }
                    }
                },
                ObservedSpendStatus::Unknown => {},
            }
            assert(actions_model(actions@) =~= before + observed_actions(Some(m@), observed@, ts));
        },
    }
}

/// Appends the actions a full snapshot calls for on a managed output it leaves out.
fn push_absent_actions(
    actions: &mut Vec<ReconciliationAction>,
    managed: &ManagedUtxo,
    obs: &Vec<ObservedUtxo>,
    ts: u64,
)
    ensures
        actions_model(final(actions)@) == actions_model(old(actions)@) + absent_actions(
            managed@,
            obs@.map_values(|u: ObservedUtxo| u@),
            ts,
        ),
{
    let ghost before = actions_model(actions@);
    if managed.onchain_state != OnchainState::Spent && managed.availability != Availability::Recovering
        && managed.onchain_state != OnchainState::SpendingInFlight && !is_observed(obs, &managed.outpoint) {
        push_reserved_conflict(
            actions,
            managed,
            String::from_str("Reserved UTXO missing from full snapshot"),
            ts,
        );
        let ghost mid = actions_model(actions@);
        actions.push(ReconciliationAction::MarkMissing(managed.outpoint.dup()));
        assert(actions_model(actions@) =~= mid.push(ActionModel::MarkMissing(managed@.outpoint)));
    }
    assert(actions_model(actions@) =~= before + absent_actions(
        managed@,
        obs@.map_values(|u: ObservedUtxo| u@),
        ts,
    ));
}

impl<'a, S: StateRead> ReconciliationPlanner<'a, S> {
    pub fn new(state: &'a S) -> (r: Self)
        ensures
            r.reader() == state,
    {
        ReconciliationPlanner { state }
    }

    /// The reader this planner reads from.
    pub closed spec fn reader(&self) -> &'a S {
        self.state
    }

    /// Plans the actions that bring the recorded state in line with `snapshot`.
    /// The outputs are visited in the order the reader lists them.
    pub fn plan(&self, snapshot: &ObservationSnapshot) -> (r: DomainResult<ReconcilePlan>)
        ensures
            match r {
                Ok(p) => exists|l: Seq<UtxoModel>|
                    lists_utxos(l, self.reader().model().utxos) && actions_model(p.actions@)
                        == plan_spec(l, snapshot@),
                Err(e) => !self.reader().healthy() && e@ is Storage,
            },
    {
        let managed_utxos = match self.state.list_utxos() {
            Ok(v) => v,
            Err(e) => return Err(e),
        };
        let ghost l = utxos_model(managed_utxos@);
        let ghost obs = snapshot@.utxos;
        let ts = snapshot.timestamp;
        let mut actions: Vec<ReconciliationAction> = Vec::new();
        let mut i: usize = 0;
        assert(obs.take(0) =~= Seq::<ObservedModel>::empty());
        assert(actions_model(actions@) =~= Seq::<ActionModel>::empty());
        while i < snapshot.utxos.len()
            invariant
                i <= snapshot.utxos@.len(),
                l == utxos_model(managed_utxos@),
                obs == snapshot@.utxos,
                ts == snapshot@.timestamp,
                actions_model(actions@) == observed_part(l, obs.take(i as int), ts),
            decreases snapshot.utxos@.len() - i,
        {
            let observed = &snapshot.utxos[i];
            let found = find_managed(&managed_utxos, &observed.outpoint);
            let managed = match found {
                Some(j) => Some(&managed_utxos[j]),
                None => None,
            };
            push_observed_actions(&mut actions, managed, observed, ts);
            proof {
                assert(obs.take(i + 1).drop_last() =~= obs.take(i as int));
                assert(obs.take(i + 1).last() == observed@);
            }
            i = i + 1;
        }
        assert(obs.take(i as int) =~= obs);
        if snapshot.scope == ObservationScope::Full {
            let ghost head = actions_model(actions@);
            let mut j: usize = 0;
            assert(l.take(0) =~= Seq::<UtxoModel>::empty());
            assert(head + missing_part(l.take(0), obs, ts) =~= head);
            while j < managed_utxos.len()
                invariant
                    j <= managed_utxos@.len(),
                    l == utxos_model(managed_utxos@),
                    obs == snapshot@.utxos,
                    obs == snapshot.utxos@.map_values(|u: ObservedUtxo| u@),
                    ts == snapshot@.timestamp,
                    actions_model(actions@) == head + missing_part(l.take(j as int), obs, ts),
                decreases managed_utxos@.len() - j,
            {
                push_absent_actions(&mut actions, &managed_utxos[j], &snapshot.utxos, ts);
                proof {
                    assert(l.take(j + 1).drop_last() =~= l.take(j as int));
                    assert(l.take(j + 1).last() == managed_utxos@[j as int]@);
                }
                j = j + 1;
            }
            assert(l.take(j as int) =~= l);
        } else {
            assert(actions_model(actions@) =~= actions_model(actions@) + Seq::<ActionModel>::empty());
        }
        assert(lists_utxos(l, self.state.model().utxos));
        assert(actions_model(actions@) == plan_spec(l, snapshot@));
        Ok(ReconcilePlan { actions })
    }
}


/// The output an action is about.
pub open spec fn action_outpoint(a: ActionModel) -> OutPointModel {
    match a {
        ActionModel::DiscoverNew(o) => o.outpoint,
        ActionModel::RefreshObserved(o) => o.outpoint,
        ActionModel::UpdateOnchainState { outpoint, .. } => outpoint,
        ActionModel::MarkSpent { outpoint, .. } => outpoint,
        ActionModel::ReportConflict { outpoint, .. } => outpoint,
        ActionModel::ClearConflict(outpoint) => outpoint,
        ActionModel::UpdateAvailability { outpoint, .. } => outpoint,
        ActionModel::MarkMissing(outpoint) => outpoint,
    }
}

/// Every action is about output `o`.
pub open spec fn all_about(s: Seq<ActionModel>, o: OutPointModel) -> bool {
    forall|i: int| 0 <= i < s.len() ==> action_outpoint(#[trigger] s[i]) == o
}

/// No action is about output `o`.
pub open spec fn none_about(s: Seq<ActionModel>, o: OutPointModel) -> bool {
    forall|i: int| 0 <= i < s.len() ==> action_outpoint(#[trigger] s[i]) != o
}

proof fn lemma_find_utxo_found(l: Seq<UtxoModel>, o: OutPointModel)
    ensures
        find_utxo(l, o) matches Some(u) ==> u.outpoint == o && l.contains(u),
        find_utxo(l, o) is None ==> forall|i: int| 0 <= i < l.len() ==> l[i].outpoint != o,
    decreases l.len(),
{
    if l.len() > 0 {
        lemma_find_utxo_found(l.drop_first(), o);
        if l[0].outpoint != o {
            match find_utxo(l.drop_first(), o) {
                Some(u) => {
                    let i = choose|i: int| 0 <= i < l.drop_first().len() && l.drop_first()[i] == u;
                    assert(l[i + 1] == u);
                },
                None => {
                    assert forall|i: int| 0 <= i < l.len() implies l[i].outpoint != o by {
                        if i > 0 {
                            assert(l[i] == l.drop_first()[i - 1]);
                        }
                    }
                },
            }
        } else {
            assert(l[0] == l[0]);
        }
    }
}

proof fn lemma_find_unique(l: Seq<UtxoModel>, u: UtxoModel)
    requires
        l.contains(u),
        forall|i: int, j: int| 0 <= i < j < l.len() ==> (#[trigger] l[i]).outpoint != (#[trigger] l[j]).outpoint,
    ensures
        find_utxo(l, u.outpoint) == Some(u),
{
    lemma_find_utxo_found(l, u.outpoint);
    let k = choose|k: int| 0 <= k < l.len() && l[k] == u;
    match find_utxo(l, u.outpoint) {
        Some(x) => {
            let j = choose|j: int| 0 <= j < l.len() && l[j] == x;
            if j != k {
                if j < k {
                    assert(l[j].outpoint != l[k].outpoint);
                } else {
                    assert(l[k].outpoint != l[j].outpoint);
                }
            }
        },
        None => {
            assert(l[k].outpoint == u.outpoint);
        },
    }
}

proof fn lemma_reserved_conflict_about(m: UtxoModel, msg: Seq<char>, ts: u64)
    ensures
        all_about(reserved_conflict(m, msg, ts), m.outpoint),
{
}

proof fn lemma_observed_actions_about(managed: Option<UtxoModel>, o: ObservedModel, ts: u64)
    requires
        managed matches Some(m) ==> m.outpoint == o.outpoint,
    ensures
        all_about(observed_actions(managed, o, ts), o.outpoint),
        managed matches Some(m) && m.onchain_state == OnchainState::Spent ==> observed_actions(
            managed,
            o,
            ts,
        ).len() == 0,
{
    match managed {
        None => {},
        Some(m) => {
            let a = observed_actions(managed, o, ts);
            assert forall|i: int| 0 <= i < a.len() implies action_outpoint(#[trigger] a[i]) == o.outpoint by {
                match o.spend_status {
                    SpendModel::Spent { spending_txid } => {
                        let c = reserved_conflict(m, "Reserved UTXO spent by "@ + spending_txid, ts);
                        if i < c.len() {
                            assert(a[i] == c[i]);
                        }
                    },
                    SpendModel::Missing => {
                        let c = reserved_conflict(m, "Reserved UTXO explicitly reported as missing"@, ts);
                        if i < c.len() {
                            assert(a[i] == c[i]);
                        }
                    },
                    _ => {},
                }
            }
        },
    }
}

proof fn lemma_observed_part_spares(l: Seq<UtxoModel>, obs: Seq<ObservedModel>, ts: u64, u: UtxoModel)
    requires
        find_utxo(l, u.outpoint) == Some(u),
        u.onchain_state == OnchainState::Spent,
    ensures
        none_about(observed_part(l, obs, ts), u.outpoint),
    decreases obs.len(),
{
    if obs.len() > 0 {
        lemma_observed_part_spares(l, obs.drop_last(), ts, u);
        let o = obs.last();
        let managed = find_utxo(l, o.outpoint);
        lemma_find_utxo_found(l, o.outpoint);
        lemma_observed_actions_about(managed, o, ts);
        let head = observed_part(l, obs.drop_last(), ts);
        let tail = observed_actions(managed, o, ts);
        assert forall|i: int| 0 <= i < (head + tail).len() implies action_outpoint(#[trigger] (head + tail)[i])
            != u.outpoint by {
            if i >= head.len() {
                assert((head + tail)[i] == tail[i - head.len()]);
                if o.outpoint == u.outpoint {
                    assert(tail.len() == 0);
                }
            } else {
                assert((head + tail)[i] == head[i]);
            }
        }
    }
}

proof fn lemma_missing_part_spares(l: Seq<UtxoModel>, obs: Seq<ObservedModel>, ts: u64, u: UtxoModel)
    requires
        u.onchain_state == OnchainState::Spent,
        forall|i: int| 0 <= i < l.len() && l[i].outpoint == u.outpoint ==> l[i] == u,
    ensures
        none_about(missing_part(l, obs, ts), u.outpoint),
    decreases l.len(),
{
    if l.len() > 0 {
        lemma_missing_part_spares(l.drop_last(), obs, ts, u);
        let m = l.last();
        let head = missing_part(l.drop_last(), obs, ts);
        let tail = absent_actions(m, obs, ts);
        lemma_reserved_conflict_about(m, "Reserved UTXO missing from full snapshot"@, ts);
        assert forall|i: int| 0 <= i < (head + tail).len() implies action_outpoint(#[trigger] (head + tail)[i])
            != u.outpoint by {
            if i >= head.len() {
                assert((head + tail)[i] == tail[i - head.len()]);
                let c = reserved_conflict(m, "Reserved UTXO missing from full snapshot"@, ts);
                if i - head.len() < c.len() {
                    assert(tail[i - head.len()] == c[i - head.len()]);
                }
            } else {
                assert((head + tail)[i] == head[i]);
            }
        }
    }
}

/// A reconciliation plan never touches an output recorded as spent: an
/// unspent observation cannot reopen it, and no other action names it.
pub proof fn lemma_plan_spares_spent_outputs(l: Seq<UtxoModel>, snap: SnapshotModel, u: UtxoModel)
    requires
        l.contains(u),
        u.onchain_state == OnchainState::Spent,
        forall|i: int, j: int| 0 <= i < j < l.len() ==> (#[trigger] l[i]).outpoint != (#[trigger] l[j]).outpoint,
    ensures
        none_about(plan_spec(l, snap), u.outpoint),
{
    lemma_find_unique(l, u);
    lemma_observed_part_spares(l, snap.utxos, snap.timestamp, u);
    assert forall|i: int| 0 <= i < l.len() && l[i].outpoint == u.outpoint implies l[i] == u by {
        let k = choose|k: int| 0 <= k < l.len() && l[k] == u;
        if i != k {
            if i < k {
                assert(l[i].outpoint != l[k].outpoint);
            } else {
                assert(l[k].outpoint != l[i].outpoint);
            }
        }
    }
    lemma_missing_part_spares(l, snap.utxos, snap.timestamp, u);
    let head = observed_part(l, snap.utxos, snap.timestamp);
    let tail: Seq<ActionModel> = if snap.scope == ObservationScope::Full {
        missing_part(l, snap.utxos, snap.timestamp)
    } else {
        Seq::empty()
    };
    assert forall|i: int| 0 <= i < (head + tail).len() implies action_outpoint(#[trigger] (head + tail)[i])
        != u.outpoint by {
        if i >= head.len() {
            assert((head + tail)[i] == tail[i - head.len()]);
        } else {
            assert((head + tail)[i] == head[i]);
        }
    }
}

proof fn lemma_observed_part_missing(l: Seq<UtxoModel>, obs: Seq<ObservedModel>, ts: u64)
    ensures
        forall|i: int| 0 <= i < observed_part(l, obs, ts).len() && #[trigger] observed_part(l, obs, ts)[i] is MarkMissing
            ==> exists|j: int| 0 <= j < obs.len() && obs[j].outpoint == action_outpoint(observed_part(l, obs, ts)[i])
            && obs[j].spend_status is Missing,
    decreases obs.len(),
{
    if obs.len() > 0 {
        lemma_observed_part_missing(l, obs.drop_last(), ts);
        let o = obs.last();
        let managed = find_utxo(l, o.outpoint);
        lemma_find_utxo_found(l, o.outpoint);
        lemma_observed_actions_about(managed, o, ts);
        let head = observed_part(l, obs.drop_last(), ts);
        let tail = observed_actions(managed, o, ts);
        assert(observed_part(l, obs, ts) == head + tail);
        assert forall|i: int| 0 <= i < (head + tail).len() && #[trigger] (head + tail)[i] is MarkMissing implies exists|j: int|
            0 <= j < obs.len() && obs[j].outpoint == action_outpoint((head + tail)[i]) && obs[j].spend_status is Missing by {
            if i >= head.len() {
                assert((head + tail)[i] == tail[i - head.len()]);
                assert(obs[obs.len() - 1] == o);
                match managed {
                    None => {},
                    Some(m) => {
                        match o.spend_status {
                            SpendModel::Spent { spending_txid } => {
                                let c = reserved_conflict(m, "Reserved UTXO spent by "@ + spending_txid, ts);
                                if i - head.len() < c.len() {
                                    assert(tail[i - head.len()] == c[i - head.len()]);
                                }
                            },
                            _ => {},
                        }
                    },
                }
            } else {
                assert((head + tail)[i] == head[i]);
                let j = choose|j: int| 0 <= j < obs.drop_last().len() && obs.drop_last()[j].outpoint
                    == action_outpoint(head[i]) && obs.drop_last()[j].spend_status is Missing;
                assert(obs[j] == obs.drop_last()[j]);
            }
        }
    }
}

/// An incremental snapshot marks an output missing only when it reports that
/// output as missing: outputs it does not mention are left alone.
pub proof fn lemma_incremental_plan_marks_only_reported_missing(l: Seq<UtxoModel>, snap: SnapshotModel)
    requires
        snap.scope == ObservationScope::Incremental,
    ensures
        forall|i: int| 0 <= i < plan_spec(l, snap).len() && #[trigger] plan_spec(l, snap)[i] is MarkMissing
            ==> exists|j: int| 0 <= j < snap.utxos.len() && snap.utxos[j].outpoint == action_outpoint(plan_spec(l, snap)[i])
            && snap.utxos[j].spend_status is Missing,
{
    lemma_observed_part_missing(l, snap.utxos, snap.timestamp);
    assert(plan_spec(l, snap) =~= observed_part(l, snap.utxos, snap.timestamp));
}


/// The actions for each listed output appear in the missing part.
proof fn lemma_missing_part_contains(l: Seq<UtxoModel>, obs: Seq<ObservedModel>, ts: u64, k: int, a: ActionModel)
    requires
        0 <= k < l.len(),
        absent_actions(l[k], obs, ts).contains(a),
    ensures
        missing_part(l, obs, ts).contains(a),
    decreases l.len(),
{
    let init = missing_part(l.drop_last(), obs, ts);
    let last = absent_actions(l.last(), obs, ts);
    if k == l.len() - 1 {
        let j = choose|j: int| 0 <= j < last.len() && last[j] == a;
        assert((init + last)[init.len() + j] == a);
    } else {
        assert(l.drop_last()[k] == l[k]);
        lemma_missing_part_contains(l.drop_last(), obs, ts, k, a);
        let j = choose|j: int| 0 <= j < init.len() && init[j] == a;
        assert((init + last)[j] == a);
    }
}

/// A full snapshot marks missing every managed output it does not mention,
/// unless the output is spent, being spent, or already recovering; a reserved
/// one is also reported as a conflict at the snapshot's time.
pub proof fn lemma_full_plan_marks_unmentioned_missing(l: Seq<UtxoModel>, snap: SnapshotModel, k: int)
    requires
        snap.scope == ObservationScope::Full,
        0 <= k < l.len(),
        l[k].onchain_state != OnchainState::Spent,
        l[k].onchain_state != OnchainState::SpendingInFlight,
        l[k].availability != Availability::Recovering,
        forall|j: int| 0 <= j < snap.utxos.len() ==> snap.utxos[j].outpoint != l[k].outpoint,
    ensures
        plan_spec(l, snap).contains(ActionModel::MarkMissing(l[k].outpoint)),
        l[k].availability == Availability::Reserved ==> plan_spec(l, snap).contains(
            ActionModel::ReportConflict {
                outpoint: l[k].outpoint,
                message: "Reserved UTXO missing from full snapshot"@,
                recorded_at: snap.timestamp,
            },
        ),
{
    let u = l[k];
    let ts = snap.timestamp;
    let obs = snap.utxos;
    let acts = absent_actions(u, obs, ts);
    let observed = observed_part(l, obs, ts);
    let missing = missing_part(l, obs, ts);
    assert(!observed_at(obs, u.outpoint));
    let mark = ActionModel::MarkMissing(u.outpoint);
    assert(acts[acts.len() - 1] == mark);
    lemma_missing_part_contains(l, obs, ts, k, mark);
    let j = choose|j: int| 0 <= j < missing.len() && missing[j] == mark;
    assert((observed + missing)[observed.len() + j] == mark);
    if u.availability == Availability::Reserved {
        let conflict = ActionModel::ReportConflict {
            outpoint: u.outpoint,
            message: "Reserved UTXO missing from full snapshot"@,
            recorded_at: ts,
        };
        assert(acts[0] == conflict);
        lemma_missing_part_contains(l, obs, ts, k, conflict);
        let i = choose|i: int| 0 <= i < missing.len() && missing[i] == conflict;
        assert((observed + missing)[observed.len() + i] == conflict);
    }
}


proof fn lemma_absent_actions_about(m: UtxoModel, obs: Seq<ObservedModel>, ts: u64)
    ensures
        all_about(absent_actions(m, obs, ts), m.outpoint),
{
    let a = absent_actions(m, obs, ts);
    let c = reserved_conflict(m, "Reserved UTXO missing from full snapshot"@, ts);
    assert forall|i: int| 0 <= i < a.len() implies action_outpoint(#[trigger] a[i]) == m.outpoint by {
        if i < c.len() {
            assert(a[i] == c[i]);
        }
    }
}

/// The observed part says nothing of an output no observation names.
proof fn lemma_observed_part_unmentioned(l: Seq<UtxoModel>, obs: Seq<ObservedModel>, ts: u64, o: OutPointModel)
    requires
        forall|j: int| 0 <= j < obs.len() ==> obs[j].outpoint != o,
    ensures
        none_about(observed_part(l, obs, ts), o),
    decreases obs.len(),
{
    if obs.len() > 0 {
        assert forall|j: int| 0 <= j < obs.drop_last().len() implies obs.drop_last()[j].outpoint != o by {
            assert(obs.drop_last()[j] == obs[j]);
        }
        lemma_observed_part_unmentioned(l, obs.drop_last(), ts, o);
        let last = obs.last();
        assert(obs[obs.len() - 1] == last);
        let managed = find_utxo(l, last.outpoint);
        lemma_find_utxo_found(l, last.outpoint);
        lemma_observed_actions_about(managed, last, ts);
        let head = observed_part(l, obs.drop_last(), ts);
        let tail = observed_actions(managed, last, ts);
        assert forall|i: int| 0 <= i < (head + tail).len() implies action_outpoint(#[trigger] (head + tail)[i]) != o by {
            if i >= head.len() {
                assert((head + tail)[i] == tail[i - head.len()]);
            } else {
                assert((head + tail)[i] == head[i]);
            }
        }
    }
}

/// Each action of the missing part comes from one listed output.
proof fn lemma_missing_part_source(l: Seq<UtxoModel>, obs: Seq<ObservedModel>, ts: u64, a: ActionModel)
    requires
        missing_part(l, obs, ts).contains(a),
    ensures
        exists|i: int| 0 <= i < l.len() && absent_actions(l[i], obs, ts).contains(a),
    decreases l.len(),
{
    let init = missing_part(l.drop_last(), obs, ts);
    let last = absent_actions(l.last(), obs, ts);
    let j = choose|j: int| 0 <= j < (init + last).len() && (init + last)[j] == a;
    if j >= init.len() {
        assert(last[j - init.len()] == a);
        assert(l[l.len() - 1] == l.last());
    } else {
        assert(init[j] == a);
        lemma_missing_part_source(l.drop_last(), obs, ts, a);
        let i = choose|i: int| 0 <= i < l.drop_last().len() && absent_actions(l.drop_last()[i], obs, ts).contains(a);
        assert(l[i] == l.drop_last()[i]);
    }
}

/// For a managed output a snapshot leaves out (and that is neither spent, being
/// spent, nor recovering): it is marked missing exactly when the snapshot is
/// full, and reported as a conflict exactly when the snapshot is full and the
/// output is reserved.
pub proof fn lemma_plan_for_unmentioned_output(l: Seq<UtxoModel>, snap: SnapshotModel, k: int)
    requires
        0 <= k < l.len(),
        forall|i: int, j: int| 0 <= i < j < l.len() ==> (#[trigger] l[i]).outpoint != (#[trigger] l[j]).outpoint,
        l[k].onchain_state != OnchainState::Spent,
        l[k].onchain_state != OnchainState::SpendingInFlight,
        l[k].availability != Availability::Recovering,
        forall|j: int| 0 <= j < snap.utxos.len() ==> snap.utxos[j].outpoint != l[k].outpoint,
    ensures
        plan_spec(l, snap).contains(ActionModel::MarkMissing(l[k].outpoint)) <==> snap.scope
            == ObservationScope::Full,
        plan_spec(l, snap).contains(
            ActionModel::ReportConflict {
                outpoint: l[k].outpoint,
                message: "Reserved UTXO missing from full snapshot"@,
                recorded_at: snap.timestamp,
            },
        ) <==> (snap.scope == ObservationScope::Full && l[k].availability == Availability::Reserved),
{
    let u = l[k];
    let ts = snap.timestamp;
    let obs = snap.utxos;
    let observed = observed_part(l, obs, ts);
    let tail: Seq<ActionModel> = if snap.scope == ObservationScope::Full {
        missing_part(l, obs, ts)
    } else {
        Seq::empty()
    };
    let plan = plan_spec(l, snap);
    assert(plan == observed + tail);
    lemma_observed_part_unmentioned(l, obs, ts, u.outpoint);
    if snap.scope == ObservationScope::Full {
        lemma_full_plan_marks_unmentioned_missing(l, snap, k);
    }
    let conflict = ActionModel::ReportConflict {
        outpoint: u.outpoint,
        message: "Reserved UTXO missing from full snapshot"@,
        recorded_at: ts,
    };
    let mark = ActionModel::MarkMissing(u.outpoint);
    assert forall|a: ActionModel| action_outpoint(a) == u.outpoint && #[trigger] plan.contains(a) implies (snap.scope
        == ObservationScope::Full && absent_actions(u, obs, ts).contains(a)) by {
        let j = choose|j: int| 0 <= j < plan.len() && plan[j] == a;
        if j < observed.len() {
            assert(observed[j] == a);
        } else {
            assert(tail[j - observed.len()] == a);
            lemma_missing_part_source(l, obs, ts, a);
            let i = choose|i: int| 0 <= i < l.len() && absent_actions(l[i], obs, ts).contains(a);
            lemma_absent_actions_about(l[i], obs, ts);
            let t = choose|t: int| 0 <= t < absent_actions(l[i], obs, ts).len() && absent_actions(l[i], obs, ts)[t] == a;
            assert(action_outpoint(absent_actions(l[i], obs, ts)[t]) == l[i].outpoint);
            if i != k {
                if i < k {
                    assert(l[i].outpoint != l[k].outpoint);
                } else {
                    assert(l[k].outpoint != l[i].outpoint);
                }
            }
        }
    }
    if plan.contains(conflict) {
        assert(action_outpoint(conflict) == u.outpoint);
        let acts = absent_actions(u, obs, ts);
        assert(acts.contains(conflict));
        let c = reserved_conflict(u, "Reserved UTXO missing from full snapshot"@, ts);
        assert(!observed_at(obs, u.outpoint));
        assert(acts == c.push(mark));
        let t = choose|t: int| 0 <= t < acts.len() && acts[t] == conflict;
        if t < c.len() {
            assert(c[t] == conflict);
        } else {
            assert(acts[t] == mark);
        }
    }
    if plan.contains(mark) {
        assert(action_outpoint(mark) == u.outpoint);
    }
}


proof fn lemma_join_text_first(parts: Seq<Seq<char>>)
    requires
        parts.len() > 0,
    ensures
        exists|rest: Seq<char>| join_text(parts) == parts[0] + rest,
    decreases parts.len(),
{
    if parts.len() == 1 {
        assert(join_text(parts) == parts[0] + Seq::<char>::empty());
    } else {
        lemma_join_text_first(parts.drop_last());
        let rest = choose|rest: Seq<char>| join_text(parts.drop_last()) == parts.drop_last()[0] + rest;
        assert(parts.drop_last()[0] == parts[0]);
        assert(join_text(parts) == parts[0] + (rest + ", "@ + parts.last()));
    }
}

/// The actions of each observation appear in the observed part.
proof fn lemma_observed_part_contains(l: Seq<UtxoModel>, obs: Seq<ObservedModel>, ts: u64, j: int, a: ActionModel)
    requires
        0 <= j < obs.len(),
        observed_actions(find_utxo(l, obs[j].outpoint), obs[j], ts).contains(a),
    ensures
        observed_part(l, obs, ts).contains(a),
    decreases obs.len(),
{
    let init = observed_part(l, obs.drop_last(), ts);
    let last = observed_actions(find_utxo(l, obs.last().outpoint), obs.last(), ts);
    assert(observed_part(l, obs, ts) == init + last);
    if j == obs.len() - 1 {
        assert(obs[j] == obs.last());
        let i = choose|i: int| 0 <= i < last.len() && last[i] == a;
        assert((init + last)[init.len() + i] == a);
    } else {
        assert(obs.drop_last()[j] == obs[j]);
        lemma_observed_part_contains(l, obs.drop_last(), ts, j, a);
        let i = choose|i: int| 0 <= i < init.len() && init[i] == a;
        assert((init + last)[i] == a);
    }
}

/// An unspent observation of a managed output that is not spent, whose recorded
/// value, account or scope it contradicts, makes the plan report a conflict on
/// that output at the snapshot's time; when the value differs, the report names
/// both values first. Unless the output is bound to an operation, being spent,
/// or already blocked by policy, the plan also blocks it by policy.
pub proof fn lemma_plan_reports_metadata_mismatch(l: Seq<UtxoModel>, snap: SnapshotModel, j: int, k: int)
    requires
        0 <= j < snap.utxos.len(),
        0 <= k < l.len(),
        forall|a: int, b: int| 0 <= a < b < l.len() ==> (#[trigger] l[a]).outpoint != (#[trigger] l[b]).outpoint,
        l[k].outpoint == snap.utxos[j].outpoint,
        snap.utxos[j].spend_status is Unspent,
        l[k].onchain_state != OnchainState::Spent,
        l[k].value_sats != snap.utxos[j].value_sats || l[k].account_id != snap.utxos[j].account_id
            || l[k].scope_id != snap.utxos[j].scope_id,
    ensures
        exists|msg: Seq<char>|
            #![trigger plan_spec(l, snap).contains(ActionModel::ReportConflict { outpoint: l[k].outpoint, message: msg, recorded_at: snap.timestamp })]
            plan_spec(l, snap).contains(
                ActionModel::ReportConflict { outpoint: l[k].outpoint, message: msg, recorded_at: snap.timestamp },
            ) && (l[k].value_sats != snap.utxos[j].value_sats ==> exists|rest: Seq<char>|
                msg == "Observed metadata mismatch: "@ + "value_sats(local="@ + decimal_text(l[k].value_sats as nat)
                    + ", observed="@ + decimal_text(snap.utxos[j].value_sats as nat) + ")"@ + rest),
        l[k].onchain_state != OnchainState::SpendingInFlight && l[k].operation_binding is None && l[k].availability
            != Availability::BlockedByPolicy ==> plan_spec(l, snap).contains(
            ActionModel::UpdateAvailability { outpoint: l[k].outpoint, availability: Availability::BlockedByPolicy },
        ),
{
    let u = l[k];
    let o = snap.utxos[j];
    let ts = snap.timestamp;
    assert(l.contains(u));
    lemma_find_unique(l, u);
    let parts = mismatch_parts(u, o);
    assert(parts.len() > 0);
    let msg = "Observed metadata mismatch: "@ + join_text(parts);
    assert(mismatch_message(u, o) == Some(msg));
    let acts = observed_actions(Some(u), o, ts);
    assert(acts == unspent_actions(u, o, ts));
    let conflict = ActionModel::ReportConflict { outpoint: u.outpoint, message: msg, recorded_at: ts };
    let a1: Seq<ActionModel> = seq![conflict];
    let a2: Seq<ActionModel> = match restored_availability(u, o, true) {
        Some(a) => a1.push(ActionModel::UpdateAvailability { outpoint: u.outpoint, availability: a }),
        None => a1,
    };
    assert(acts[0] == conflict);
    assert(acts.contains(conflict));
    lemma_observed_part_contains(l, snap.utxos, ts, j, conflict);
    let observed = observed_part(l, snap.utxos, ts);
    let tail: Seq<ActionModel> = if snap.scope == ObservationScope::Full {
        missing_part(l, snap.utxos, ts)
    } else {
        Seq::empty()
    };
    assert(plan_spec(l, snap) == observed + tail);
    let ic = choose|i: int| 0 <= i < observed.len() && observed[i] == conflict;
    assert((observed + tail)[ic] == conflict);
    if u.value_sats != o.value_sats {
        let vpart = "value_sats(local="@ + decimal_text(u.value_sats as nat) + ", observed="@ + decimal_text(
            o.value_sats as nat,
        ) + ")"@;
        assert(parts[0] == vpart);
        lemma_join_text_first(parts);
        let rest = choose|rest: Seq<char>| join_text(parts) == parts[0] + rest;
        assert(msg =~= "Observed metadata mismatch: "@ + "value_sats(local="@ + decimal_text(u.value_sats as nat)
            + ", observed="@ + decimal_text(o.value_sats as nat) + ")"@ + rest);
        assert(exists|r: Seq<char>|
            msg == "Observed metadata mismatch: "@ + "value_sats(local="@ + decimal_text(u.value_sats as nat)
                + ", observed="@ + decimal_text(o.value_sats as nat) + ")"@ + r);
    }
    assert(plan_spec(l, snap).contains(conflict));
    if u.onchain_state != OnchainState::SpendingInFlight && u.operation_binding is None && u.availability
        != Availability::BlockedByPolicy {
        let block = ActionModel::UpdateAvailability { outpoint: u.outpoint, availability: Availability::BlockedByPolicy };
        assert(restored_availability(u, o, true) == Some(Availability::BlockedByPolicy));
        assert(acts[1] == block);
        assert(acts.contains(block));
        lemma_observed_part_contains(l, snap.utxos, ts, j, block);
        let ib = choose|i: int| 0 <= i < observed.len() && observed[i] == block;
        assert((observed + tail)[ib] == block);
    }
}

} // verus!
