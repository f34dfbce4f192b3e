//! Managed outputs and their local state transitions.
use vstd::prelude::*;

use crate::ids::{AccountId, IntoAccountId, IntoOperationId, IntoScopeId, WalletScopeId};
use crate::observation::{confirmation_availability, confirmation_state, ObservedConfirmation};
use crate::operation::{starts_spending, BindingModel, OperationBinding, OperationPhase};
use crate::outpoint::{OutPoint, OutPointModel};
use crate::state::{Availability, OnchainState, UtxoRole};

verus! {

#[derive(Debug, Clone, PartialEq, Eq)]
pub struct ObservationConflict {
    pub message: String,
    pub recorded_at: u64,
}

pub struct ConflictModel {
    pub message: Seq<char>,
    pub recorded_at: u64,
}

impl View for ObservationConflict {
    type V = ConflictModel;

    open spec fn view(&self) -> ConflictModel {
        ConflictModel { message: self.message@, recorded_at: self.recorded_at }
    }
}

impl ObservationConflict {
    pub fn dup(&self) -> (r: Self)
        ensures
            r@ == self@,
    {
        ObservationConflict { message: self.message.clone(), recorded_at: self.recorded_at }
    }
}

#[derive(Debug, Clone, PartialEq, Eq)]
pub struct ManagedUtxo {
    pub outpoint: OutPoint,
    pub account_id: AccountId,
    pub scope_id: WalletScopeId,
    pub value_sats: u64,
    pub onchain_state: OnchainState,
    pub availability: Availability,
    pub role: UtxoRole,
    pub operation_binding: Option<OperationBinding>,
    pub observation_conflict: Option<ObservationConflict>,
}

pub struct UtxoModel {
    pub outpoint: OutPointModel,
    pub account_id: Seq<char>,
    pub scope_id: Seq<char>,
    pub value_sats: u64,
    pub onchain_state: OnchainState,
    pub availability: Availability,
    pub role: UtxoRole,
    pub operation_binding: Option<BindingModel>,
    pub observation_conflict: Option<ConflictModel>,
}

pub open spec fn binding_model(b: Option<OperationBinding>) -> Option<BindingModel> {
    match b {
        Some(b) => Some(b@),
        None => None,
    }
}

pub open spec fn conflict_model(c: Option<ObservationConflict>) -> Option<ConflictModel> {
    match c {
        Some(c) => Some(c@),
        None => None,
    }
}

impl View for ManagedUtxo {
    type V = UtxoModel;

    open spec fn view(&self) -> UtxoModel {
        UtxoModel {
            outpoint: self.outpoint@,
            account_id: self.account_id@,
            scope_id: self.scope_id@,
            value_sats: self.value_sats,
            onchain_state: self.onchain_state,
            availability: self.availability,
            role: self.role,
            operation_binding: binding_model(self.operation_binding),
            observation_conflict: conflict_model(self.observation_conflict),
        }
    }
}

impl UtxoModel {
    /// Free to be chosen by a new operation, apart from any lock.
    pub open spec fn is_policy_spendable(self) -> bool {
        &&& self.availability == Availability::Selectable
        &&& self.onchain_state == OnchainState::Confirmed
        &&& self.operation_binding is None
        &&& self.observation_conflict is None
    }

    pub open spec fn can_be_locked(self, lock_present: bool) -> bool {
        self.is_policy_spendable() && !lock_present
    }

    pub open spec fn reserve(self, operation_id: Seq<char>, phase: OperationPhase) -> UtxoModel {
        UtxoModel {
            availability: Availability::Reserved,
            operation_binding: Some(BindingModel { operation_id, phase }),
            ..self
        }
    }

    pub open spec fn mark_spent(self) -> UtxoModel {
        UtxoModel {
            onchain_state: OnchainState::Spent,
            availability: Availability::BlockedByL2,
            operation_binding: None,
            ..self
        }
    }

    pub open spec fn mark_missing(self) -> UtxoModel {
        UtxoModel { availability: Availability::Recovering, ..self }
    }

    /// Drops the binding. Inputs whose spend has started stay blocked; recovering
    /// inputs stay recovering; the others become selectable when confirmed and
    /// free of conflicts, and policy-blocked otherwise.
    pub open spec fn release_binding(self) -> UtxoModel {
        let availability = if self.onchain_state == OnchainState::Spent || self.onchain_state
            == OnchainState::SpendingInFlight {
            Availability::BlockedByL2
        } else if self.availability == Availability::Recovering {
            Availability::Recovering
        } else if self.onchain_state == OnchainState::Confirmed && self.observation_conflict is None {
            Availability::Selectable
        } else {
            Availability::BlockedByPolicy
        };
        UtxoModel { availability, operation_binding: None, ..self }
    }

    /// Moves a bound output to `phase`. From broadcast on, the output is being
    /// spent and blocked; earlier phases change only the binding.
    pub open spec fn advance_binding(self, phase: OperationPhase) -> UtxoModel {
        match self.operation_binding {
            None => self,
            Some(b) => {
                let bound = UtxoModel {
                    operation_binding: Some(BindingModel { phase, ..b }),
                    ..self
                };
                if starts_spending(phase) {
                    UtxoModel {
                        onchain_state: if self.onchain_state == OnchainState::Spent {
                            OnchainState::Spent
                        } else {
                            OnchainState::SpendingInFlight
                        },
                        availability: Availability::BlockedByL2,
                        ..bound
                    }
                } else {
                    bound
                }
            },
        }
    }

    /// A newly observed output, with state and availability from its confirmation.
    pub open spec fn discovered(
        outpoint: OutPointModel,
        account_id: Seq<char>,
        scope_id: Seq<char>,
        value_sats: u64,
        confirmation: ObservedConfirmation,
    ) -> UtxoModel {
        UtxoModel {
            outpoint,
            account_id,
            scope_id,
            value_sats,
            onchain_state: confirmation_state(confirmation),
            availability: confirmation_availability(confirmation),
            role: UtxoRole::General,
            operation_binding: None,
            observation_conflict: None,
        }
    }
}

impl ManagedUtxo {
    /// A confirmed, selectable, unbound output.
    pub fn new<A: IntoAccountId, S: IntoScopeId>(
        outpoint: OutPoint,
        account_id: A,
        scope_id: S,
        value_sats: u64,
    ) -> (r: Self)
        ensures
            r@ == (UtxoModel {
                outpoint: outpoint@,
                account_id: account_id.account_text(),
                scope_id: scope_id.scope_text(),
                value_sats,
                onchain_state: OnchainState::Confirmed,
                availability: Availability::Selectable,
                role: UtxoRole::General,
                operation_binding: None,
                observation_conflict: None,
            }),
    {
        ManagedUtxo {
            outpoint,
            account_id: account_id.into_account_id(),
            scope_id: scope_id.into_scope_id(),
            value_sats,
            onchain_state: OnchainState::Confirmed,
            availability: Availability::Selectable,
            role: UtxoRole::General,
            operation_binding: None,
            observation_conflict: None,
        }
    }

    pub fn dup(&self) -> (r: Self)
        ensures
            r@ == self@,
    {
        ManagedUtxo {
            outpoint: self.outpoint.dup(),
            account_id: self.account_id.dup(),
            scope_id: self.scope_id.dup(),
            value_sats: self.value_sats,
            onchain_state: self.onchain_state,
            availability: self.availability,
            role: self.role,
            operation_binding: match &self.operation_binding {
                Some(b) => Some(b.dup()),
                None => None,
            },
            observation_conflict: match &self.observation_conflict {
                Some(c) => Some(c.dup()),
                None => None,
            },
        }
    }

    pub fn is_policy_spendable(&self) -> (r: bool)
        ensures
            r == self@.is_policy_spendable(),
    {
        self.availability == Availability::Selectable && self.onchain_state
            == OnchainState::Confirmed && self.operation_binding.is_none()
            && self.observation_conflict.is_none()
    }

    pub fn can_be_locked(&self, lock_present: bool) -> (r: bool)
        ensures
            r == self@.can_be_locked(lock_present),
    {
        self.is_policy_spendable() && !lock_present
    }

    pub fn reserve<O: IntoOperationId>(&mut self, operation_id: O, phase: OperationPhase)
        ensures
            final(self)@ == old(self)@.reserve(operation_id.operation_text(), phase),
    {
        self.availability = Availability::Reserved;
        self.operation_binding = Some(
            OperationBinding { operation_id: operation_id.into_operation_id(), phase },
        );
    }

    pub fn discover_from_observed<A: IntoAccountId, S: IntoScopeId>(
        outpoint: OutPoint,
        account_id: A,
        scope_id: S,
        value_sats: u64,
        confirmation: &ObservedConfirmation,
    ) -> (r: Self)
        ensures
            r@ == UtxoModel::discovered(
                outpoint@,
                account_id.account_text(),
                scope_id.scope_text(),
                value_sats,
                *confirmation,
            ),
    {
        ManagedUtxo {
            outpoint,
            account_id: account_id.into_account_id(),
            scope_id: scope_id.into_scope_id(),
            value_sats,
            onchain_state: confirmation.onchain_state(),
            availability: confirmation.availability(),
            role: UtxoRole::General,
            operation_binding: None,
            observation_conflict: None,
        }
    }

    pub fn mark_spent(&mut self)
        ensures
            final(self)@ == old(self)@.mark_spent(),
    {
        self.onchain_state = OnchainState::Spent;
        self.availability = Availability::BlockedByL2;
        self.operation_binding = None;
    }

    pub fn mark_missing(&mut self)
        ensures
            final(self)@ == old(self)@.mark_missing(),
    {
        self.availability = Availability::Recovering;
    }

    pub fn release_binding(&mut self)
        ensures
            final(self)@ == old(self)@.release_binding(),
    {
        if self.onchain_state == OnchainState::Spent || self.onchain_state
            == OnchainState::SpendingInFlight {
            self.availability = Availability::BlockedByL2;
        } else if self.availability != Availability::Recovering {
            self.availability = if self.onchain_state == OnchainState::Confirmed
                && self.observation_conflict.is_none() {
                Availability::Selectable
            } else {
                Availability::BlockedByPolicy
            };
        }
        self.operation_binding = None;
    }

    /// Advances local ownership without releasing the input. Broadcasting (or
    /// skipping directly to a later phase) starts spending; constructing and
    /// signing alone provide no new on-chain information.
    pub fn advance_binding(&mut self, phase: OperationPhase)
        ensures
            final(self)@ == old(self)@.advance_binding(phase),
    {
        let bound = match &self.operation_binding {
            Some(b) => Some(OperationBinding { operation_id: b.operation_id.dup(), phase }),
            None => None,
        };
        if bound.is_none() {
            return;
        }
        self.operation_binding = bound;
        if phase == OperationPhase::Broadcast || phase == OperationPhase::AwaitingConfirmation
            || phase == OperationPhase::AwaitingL2Finality {
            if self.onchain_state != OnchainState::Spent {
                self.onchain_state = OnchainState::SpendingInFlight;
            }
            self.availability = Availability::BlockedByL2;
        }
    }
}

} // verus!
