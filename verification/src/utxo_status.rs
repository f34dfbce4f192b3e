//! Caller-facing, read-only diagnostics for a managed output.
use vstd::prelude::*;
use vstd::string::StringExecFns;

use crate::errors::{DomainError, ErrorModel};
use crate::ids::{AccountId, OperationId, WalletScopeId};
use crate::lock::{LockModel, LockPurpose, OperationLock};
use crate::operation::{BindingModel, OperationBinding};
use crate::outpoint::{OutPoint, OutPointModel};
use crate::state::{Availability, OnchainState};
use crate::utxo::{binding_model, ManagedUtxo, UtxoModel};

verus! {

/// The persisted lock, distinct from the UTXO's operation binding.
#[derive(Clone, Debug, PartialEq, Eq)]
pub struct UtxoLockStatus {
    pub operation_id: OperationId,
    pub purpose: LockPurpose,
    /// Recorded UTC Unix deadline; passing it does not itself release the lock.
    pub expires_at: Option<u64>,
}

pub struct LockStatusModel {
    pub operation_id: Seq<char>,
    pub purpose: LockPurpose,
    pub expires_at: Option<u64>,
}

impl View for UtxoLockStatus {
    type V = LockStatusModel;

    open spec fn view(&self) -> LockStatusModel {
        LockStatusModel {
            operation_id: self.operation_id@,
            purpose: self.purpose,
            expires_at: self.expires_at,
        }
    }
}

/// Recorded state and generic input selectability, without applying request capabilities.
///
/// An expired reservation remains unavailable until reservation cleanup releases it.
/// A released broadcast input may have no operation or lock and still be unspendable.
/// This query does not reserve an input or guarantee future selection success.
#[derive(Clone, Debug, PartialEq, Eq)]
pub struct UtxoStatus {
    pub outpoint: OutPoint,
    pub account_id: AccountId,
    pub scope_id: WalletScopeId,
    pub value_sats: u64,
    pub onchain_state: OnchainState,
    pub availability: Availability,
    /// Persisted ownership and phase, including after selection and signing.
    pub operation: Option<OperationBinding>,
    pub lock: Option<UtxoLockStatus>,
    /// The primary reason the input cannot currently be locked for selection.
    pub unavailable_reason: Option<DomainError>,
}

pub struct StatusModel {
    pub outpoint: OutPointModel,
    pub account_id: Seq<char>,
    pub scope_id: Seq<char>,
    pub value_sats: u64,
    pub onchain_state: OnchainState,
    pub availability: Availability,
    pub operation: Option<BindingModel>,
    pub lock: Option<LockStatusModel>,
    pub unavailable_reason: Option<ErrorModel>,
}

impl View for UtxoStatus {
    type V = StatusModel;

    open spec fn view(&self) -> StatusModel {
        StatusModel {
            outpoint: self.outpoint@,
            account_id: self.account_id@,
            scope_id: self.scope_id@,
            value_sats: self.value_sats,
            onchain_state: self.onchain_state,
            availability: self.availability,
            operation: binding_model(self.operation),
            lock: match self.lock {
                Some(l) => Some(l@),
                None => None,
            },
            unavailable_reason: match self.unavailable_reason {
                Some(e) => Some(e@),
                None => None,
            },
        }
    }
}

/// Why an output that cannot be locked is unavailable, most specific cause first:
/// an owning operation, then a lock, then a conflict, then its recorded state.
pub open spec fn unavailable_text(u: UtxoModel, lock_present: bool) -> Seq<char> {
    match u.operation_binding {
        Some(b) => "input is owned by operation "@ + b.operation_id + " ("@ + b.phase.debug_text()
            + ")"@,
        None => if lock_present {
            "input has an active lock"@
        } else {
            match u.observation_conflict {
                Some(c) => "input has conflicting observations: "@ + c.message,
                None => "input is not spendable (availability: "@ + u.availability.debug_text()
                    + ", on-chain state: "@ + u.onchain_state.debug_text() + ")"@,
            }
        },
    }
}

/// The status of an output and its lock.
pub open spec fn status_of(u: UtxoModel, lock: Option<LockModel>) -> StatusModel {
    StatusModel {
        outpoint: u.outpoint,
        account_id: u.account_id,
        scope_id: u.scope_id,
        value_sats: u.value_sats,
        onchain_state: u.onchain_state,
        availability: u.availability,
        operation: u.operation_binding,
        lock: match lock {
            Some(l) => Some(
                LockStatusModel {
                    operation_id: l.operation_id,
                    purpose: l.purpose,
                    expires_at: l.expires_at,
                },
            ),
            None => None,
        },
        unavailable_reason: if u.can_be_locked(lock is Some) {
            None
        } else {
            Some(
                ErrorModel::UtxoPolicyBlocked {
                    outpoint: u.outpoint,
                    reason: unavailable_text(u, lock is Some),
                },
            )
        },
    }
}

pub open spec fn lock_option_model(l: Option<OperationLock>) -> Option<LockModel> {
    match l {
        Some(l) => Some(l@),
        None => None,
    }
}

impl UtxoStatus {
    pub fn is_selectable(&self) -> (r: bool)
        ensures
            r == (self@.unavailable_reason is None),
    {
        self.unavailable_reason.is_none()
    }

    pub fn from_records(utxo: ManagedUtxo, lock: Option<OperationLock>) -> (r: Self)
        ensures
            r@ == status_of(utxo@, lock_option_model(lock)),
    {
        let unavailable_reason = if utxo.can_be_locked(lock.is_some()) {
            None
        } else {
            let mut reason = String::new();
            match &utxo.operation_binding {
                Some(binding) => {
                    reason.append("input is owned by operation ");
                    reason.append(binding.operation_id.as_str());
                    reason.append(" (");
                    reason.append(binding.phase.debug_name());
                    reason.append(")");
                },
                None => {
                    if lock.is_some() {
                        reason.append("input has an active lock");
                    } else {
                        match &utxo.observation_conflict {
                            Some(conflict) => {
                                reason.append("input has conflicting observations: ");
                                reason.append(conflict.message.as_str());
                            },
                            None => {
                                reason.append("input is not spendable (availability: ");
                                reason.append(utxo.availability.debug_name());
                                reason.append(", on-chain state: ");
                                reason.append(utxo.onchain_state.debug_name());
                                reason.append(")");
                            },
                        }
                    }
                },
            }
            assert(reason@ =~= unavailable_text(utxo@, lock is Some));
            Some(DomainError::UtxoPolicyBlocked { outpoint: utxo.outpoint.dup(), reason })
        };
        let lock_status = match lock {
            Some(l) => Some(
                UtxoLockStatus {
                    operation_id: l.operation_id,
                    purpose: l.purpose,
                    expires_at: l.expires_at,
                },
            ),
            None => None,
        };
        UtxoStatus {
            outpoint: utxo.outpoint,
            account_id: utxo.account_id,
            scope_id: utxo.scope_id,
            value_sats: utxo.value_sats,
            onchain_state: utxo.onchain_state,
            availability: utxo.availability,
            operation: utxo.operation_binding,
            lock: lock_status,
            unavailable_reason,
        }
    }
}

} // verus!
