//! Errors returned by domain operations and store backends.
use vstd::prelude::*;
use vstd::string::StringExecFns;

use crate::ids::{AccountId, OperationId, WalletScopeId};
use crate::operation::OperationPhase;
use crate::outpoint::{OutPoint, OutPointModel, outpoint_text};
use crate::state::{Availability, OnchainState};
use crate::text::{decimal_text, push_decimal};

verus! {

/// A candidate excluded by ownership, capability or availability checks.
#[derive(Debug, PartialEq, Eq)]
pub struct AssetCandidateRejection {
    pub outpoint: OutPoint,
    pub reason: DomainError,
}

/// Errors returned by domain operations and store backends.
///
/// Match variants to handle errors programmatically. Display messages are for
/// diagnostics and may change; downstream matches must allow future variants.
#[derive(Debug, PartialEq, Eq)]
#[non_exhaustive]
pub enum DomainError {
    /// The caller supplied an invalid request; no state was changed.
    InvalidRequest { reason: String },
    AccountNotFound(AccountId),
    ScopeNotFound(WalletScopeId),
    /// The account cannot provide the capabilities required by this operation.
    MissingAccountCapabilities { account_id: AccountId },
    /// No registered scope can satisfy the operation's requirements.
    NoEligibleScope { account_id: AccountId },
    MissingCapabilities { scope_id: WalletScopeId },
    InsufficientFunds,
    /// Selected candidates carry fewer asset units than requested.
    InsufficientAsset { needed: u128, have: u128 },
    /// Selected candidates carry fewer sats than requested (channel value + fee budget).
    InsufficientValue { needed: u128, have: u128 },
    /// All supplied asset candidates were excluded before amount selection.
    NoEligibleAssetCandidates { rejections: Vec<AssetCandidateRejection> },
    NoCandidateAvailable,
    InvalidScopeOwnership { scope_id: WalletScopeId, account_id: AccountId },
    UtxoNotFound(OutPoint),
    UtxoUnavailable { outpoint: OutPoint, availability: Availability },
    UtxoPolicyBlocked { outpoint: OutPoint, reason: String },
    IntentNotFound(OperationId),
    IntentNotPending(OperationId),
    IntentNotCommitted(OperationId),
    IntentConflict { operation_id: OperationId },
    OperationNotFound(OperationId),
    InvalidOperationTransition { operation_id: OperationId, from: OperationPhase, to: OperationPhase },
    PlannedInputsMismatch { operation_id: OperationId },
    ObservationConflict { outpoint: OutPoint, onchain_state: OnchainState },
    CorruptedState(String),
    Storage(String),
}

pub type DomainResult<T> = Result<T, DomainError>;

/// The value of a `DomainError`.
pub enum ErrorModel {
    InvalidRequest { reason: Seq<char> },
    AccountNotFound(Seq<char>),
    ScopeNotFound(Seq<char>),
    MissingAccountCapabilities { account_id: Seq<char> },
    NoEligibleScope { account_id: Seq<char> },
    MissingCapabilities { scope_id: Seq<char> },
    InsufficientFunds,
    InsufficientAsset { needed: u128, have: u128 },
    InsufficientValue { needed: u128, have: u128 },
    NoEligibleAssetCandidates { rejections: Seq<RejectionModel> },
    NoCandidateAvailable,
    InvalidScopeOwnership { scope_id: Seq<char>, account_id: Seq<char> },
    UtxoNotFound(OutPointModel),
    UtxoUnavailable { outpoint: OutPointModel, availability: Availability },
    UtxoPolicyBlocked { outpoint: OutPointModel, reason: Seq<char> },
    IntentNotFound(Seq<char>),
    IntentNotPending(Seq<char>),
    IntentNotCommitted(Seq<char>),
    IntentConflict { operation_id: Seq<char> },
    OperationNotFound(Seq<char>),
    InvalidOperationTransition { operation_id: Seq<char>, from: OperationPhase, to: OperationPhase },
    PlannedInputsMismatch { operation_id: Seq<char> },
    ObservationConflict { outpoint: OutPointModel, onchain_state: OnchainState },
    CorruptedState(Seq<char>),
    Storage(Seq<char>),
}

/// The value of an `AssetCandidateRejection`.
pub struct RejectionModel {
    pub outpoint: OutPointModel,
    pub reason: ErrorModel,
}

pub open spec fn error_model(e: &DomainError) -> ErrorModel
    decreases e, 0nat,
{
    match e {
        DomainError::InvalidRequest { reason } => ErrorModel::InvalidRequest { reason: reason@ },
        DomainError::AccountNotFound(id) => ErrorModel::AccountNotFound(id@),
        DomainError::ScopeNotFound(id) => ErrorModel::ScopeNotFound(id@),
        DomainError::MissingAccountCapabilities { account_id } => {
            ErrorModel::MissingAccountCapabilities { account_id: account_id@ }
        },
        DomainError::NoEligibleScope { account_id } => {
            ErrorModel::NoEligibleScope { account_id: account_id@ }
        },
        DomainError::MissingCapabilities { scope_id } => {
            ErrorModel::MissingCapabilities { scope_id: scope_id@ }
        },
        DomainError::InsufficientFunds => ErrorModel::InsufficientFunds,
        DomainError::InsufficientAsset { needed, have } => {
            ErrorModel::InsufficientAsset { needed: *needed, have: *have }
        },
        DomainError::InsufficientValue { needed, have } => {
            ErrorModel::InsufficientValue { needed: *needed, have: *have }
        },
        DomainError::NoEligibleAssetCandidates { rejections } => {
            ErrorModel::NoEligibleAssetCandidates {
                rejections: rejections_model(rejections@, rejections@.len()),
            }
        },
        DomainError::NoCandidateAvailable => ErrorModel::NoCandidateAvailable,
        DomainError::InvalidScopeOwnership { scope_id, account_id } => {
            ErrorModel::InvalidScopeOwnership { scope_id: scope_id@, account_id: account_id@ }
        },
        DomainError::UtxoNotFound(o) => ErrorModel::UtxoNotFound(o@),
        DomainError::UtxoUnavailable { outpoint, availability } => {
            ErrorModel::UtxoUnavailable { outpoint: outpoint@, availability: *availability }
        },
        DomainError::UtxoPolicyBlocked { outpoint, reason } => {
            ErrorModel::UtxoPolicyBlocked { outpoint: outpoint@, reason: reason@ }
        },
        DomainError::IntentNotFound(id) => ErrorModel::IntentNotFound(id@),
        DomainError::IntentNotPending(id) => ErrorModel::IntentNotPending(id@),
        DomainError::IntentNotCommitted(id) => ErrorModel::IntentNotCommitted(id@),
        DomainError::IntentConflict { operation_id } => {
            ErrorModel::IntentConflict { operation_id: operation_id@ }
        },
        DomainError::OperationNotFound(id) => ErrorModel::OperationNotFound(id@),
        DomainError::InvalidOperationTransition { operation_id, from, to } => {
            ErrorModel::InvalidOperationTransition { operation_id: operation_id@, from: *from, to: *to }
        },
        DomainError::PlannedInputsMismatch { operation_id } => {
            ErrorModel::PlannedInputsMismatch { operation_id: operation_id@ }
        },
        DomainError::ObservationConflict { outpoint, onchain_state } => {
            ErrorModel::ObservationConflict { outpoint: outpoint@, onchain_state: *onchain_state }
        },
        DomainError::CorruptedState(r) => ErrorModel::CorruptedState(r@),
        DomainError::Storage(r) => ErrorModel::Storage(r@),
    }
}

/// The values of the first `n` rejections.
pub open spec fn rejections_model(s: Seq<AssetCandidateRejection>, n: nat) -> Seq<RejectionModel>
    decreases s, n,
{
    if n == 0 || n > s.len() {
        Seq::empty()
    } else {
        rejections_model(s, (n - 1) as nat).push(
            RejectionModel { outpoint: s[n - 1].outpoint@, reason: error_model(&s[n - 1].reason) },
        )
    }
}

proof fn lemma_rejections_prefix(a: Seq<AssetCandidateRejection>, b: Seq<AssetCandidateRejection>, n: nat)
    requires
        n <= a.len(),
        n <= b.len(),
        forall|k: int| 0 <= k < n ==> a[k]@ == b[k]@,
    ensures
        rejections_model(a, n) == rejections_model(b, n),
    decreases n,
{
    if n > 0 {
        lemma_rejections_prefix(a, b, (n - 1) as nat);
    }
}

/// Appending a rejection appends its value.
pub proof fn lemma_rejections_push(s: Seq<AssetCandidateRejection>, x: AssetCandidateRejection)
    ensures
        rejections_model(s.push(x), s.len() + 1) == rejections_model(s, s.len()).push(x@),
{
    lemma_rejections_prefix(s.push(x), s, s.len());
}

impl View for DomainError {
    type V = ErrorModel;

    open spec fn view(&self) -> ErrorModel {
        error_model(self)
    }
}

impl View for AssetCandidateRejection {
    type V = RejectionModel;

    open spec fn view(&self) -> RejectionModel {
        RejectionModel { outpoint: self.outpoint@, reason: self.reason@ }
    }
}

/// The diagnostic message of an error.
pub open spec fn error_message(e: ErrorModel) -> Seq<char>
    decreases e, 0nat,
{
    match e {
        ErrorModel::InvalidRequest { reason } => "invalid request: "@ + reason,
        ErrorModel::AccountNotFound(id) => "account not found: "@ + id,
        ErrorModel::ScopeNotFound(id) => "scope not found: "@ + id,
        ErrorModel::MissingAccountCapabilities { account_id } => {
            "account "@ + account_id + " lacks required capabilities"@
        },
        ErrorModel::NoEligibleScope { account_id } => "no eligible scope for account "@ + account_id,
        ErrorModel::MissingCapabilities { scope_id } => {
            "scope "@ + scope_id + " lacks required capabilities"@
        },
        ErrorModel::InsufficientFunds => "insufficient funds"@,
        ErrorModel::InsufficientAsset { needed, have } => {
            "insufficient asset amount: need "@ + decimal_text(needed as nat) + ", have "@
                + decimal_text(have as nat)
        },
        ErrorModel::InsufficientValue { needed, have } => {
            "insufficient bitcoin value: need "@ + decimal_text(needed as nat) + " sats, have "@
                + decimal_text(have as nat) + " sats"@
        },
        ErrorModel::NoEligibleAssetCandidates { rejections } => {
            "none of the supplied asset inputs can be used"@ + rejections_text(
                rejections,
                rejections.len(),
            )
        },
        ErrorModel::NoCandidateAvailable => "no candidate is available"@,
        ErrorModel::InvalidScopeOwnership { scope_id, account_id } => {
            "scope "@ + scope_id + " does not belong to account "@ + account_id
        },
        ErrorModel::UtxoNotFound(o) => "UTXO not found: "@ + outpoint_text(o),
        ErrorModel::UtxoUnavailable { outpoint, availability } => {
            "UTXO "@ + outpoint_text(outpoint) + " is unavailable ("@ + availability.debug_text()
                + ")"@
        },
        ErrorModel::UtxoPolicyBlocked { outpoint, reason } => {
            "UTXO "@ + outpoint_text(outpoint) + " is blocked by policy: "@ + reason
        },
        ErrorModel::IntentNotFound(id) => "intent not found for operation "@ + id,
        ErrorModel::IntentNotPending(id) => "intent for operation "@ + id + " is not pending"@,
        ErrorModel::IntentNotCommitted(id) => "intent for operation "@ + id + " is not committed"@,
        ErrorModel::IntentConflict { operation_id } => {
            "intent conflicts with the recorded selection for operation "@ + operation_id
        },
        ErrorModel::OperationNotFound(id) => "operation not found: "@ + id,
        ErrorModel::InvalidOperationTransition { operation_id, from, to } => {
            "operation "@ + operation_id + " cannot advance from "@ + from.debug_text() + " to "@
                + to.debug_text()
        },
        ErrorModel::PlannedInputsMismatch { operation_id } => {
            "actual inputs do not match the planned inputs for operation "@ + operation_id
        },
        ErrorModel::ObservationConflict { outpoint, onchain_state } => {
            "observation conflicts with UTXO "@ + outpoint_text(outpoint) + " ("@
                + onchain_state.debug_text() + ")"@
        },
        ErrorModel::CorruptedState(r) => "corrupted state: "@ + r,
        ErrorModel::Storage(r) => "storage error: "@ + r,
    }
}

/// The `; outpoint: reason` suffixes of the first `n` rejections.
pub open spec fn rejections_text(s: Seq<RejectionModel>, n: nat) -> Seq<char>
    decreases s, n,
{
    if n == 0 || n > s.len() {
        Seq::empty()
    } else {
        rejections_text(s, (n - 1) as nat) + "; "@ + outpoint_text(s[n - 1].outpoint) + ": "@
            + error_message(s[n - 1].reason)
    }
}

impl DomainError {
    /// A copy with the same value.
    pub fn dup(&self) -> (r: DomainError)
        ensures
            r@ == self@,
        decreases self,
    {
        match self {
            DomainError::InvalidRequest { reason } => DomainError::InvalidRequest {
                reason: reason.clone(),
            },
            DomainError::AccountNotFound(id) => DomainError::AccountNotFound(id.dup()),
            DomainError::ScopeNotFound(id) => DomainError::ScopeNotFound(id.dup()),
            DomainError::MissingAccountCapabilities { account_id } => {
                DomainError::MissingAccountCapabilities { account_id: account_id.dup() }
            },
            DomainError::NoEligibleScope { account_id } => {
                DomainError::NoEligibleScope { account_id: account_id.dup() }
            },
            DomainError::MissingCapabilities { scope_id } => {
                DomainError::MissingCapabilities { scope_id: scope_id.dup() }
            },
            DomainError::InsufficientFunds => DomainError::InsufficientFunds,
            DomainError::InsufficientAsset { needed, have } => {
                DomainError::InsufficientAsset { needed: *needed, have: *have }
            },
            DomainError::InsufficientValue { needed, have } => {
                DomainError::InsufficientValue { needed: *needed, have: *have }
            },
            DomainError::NoEligibleAssetCandidates { rejections } => {
                let mut out: Vec<AssetCandidateRejection> = Vec::new();
                let mut i: usize = 0;
                while i < rejections.len()
                    invariant
                        i <= rejections@.len(),
                        out@.len() == i,
                        forall|k: int| 0 <= k < i ==> #[trigger] out@[k]@ == rejections@[k]@,
                        (*self) is NoEligibleAssetCandidates,
                        (*self)->rejections == *rejections,
                    decreases rejections@.len() - i,
                {
                    proof {
                        assert(decreases_to!(*rejections => rejections@));
                        assert(decreases_to!(rejections@ => rejections@[i as int]));
                        assert(decreases_to!(rejections@[i as int] => rejections@[i as int].reason));
                        assert(decreases_to!(*self => (*self)->rejections));
                    }
                    let reason = rejections[i].reason.dup();
                    out.push(AssetCandidateRejection { outpoint: rejections[i].outpoint.dup(), reason });
                    i = i + 1;
                }
                proof {
                    lemma_rejections_prefix(out@, rejections@, out@.len());
                }
                DomainError::NoEligibleAssetCandidates { rejections: out }
            },
            DomainError::NoCandidateAvailable => DomainError::NoCandidateAvailable,
            DomainError::InvalidScopeOwnership { scope_id, account_id } => {
                DomainError::InvalidScopeOwnership { scope_id: scope_id.dup(), account_id: account_id.dup() }
            },
            DomainError::UtxoNotFound(o) => DomainError::UtxoNotFound(o.dup()),
            DomainError::UtxoUnavailable { outpoint, availability } => {
                DomainError::UtxoUnavailable { outpoint: outpoint.dup(), availability: *availability }
            },
            DomainError::UtxoPolicyBlocked { outpoint, reason } => {
                DomainError::UtxoPolicyBlocked { outpoint: outpoint.dup(), reason: reason.clone() }
            },
            DomainError::IntentNotFound(id) => DomainError::IntentNotFound(id.dup()),
            DomainError::IntentNotPending(id) => DomainError::IntentNotPending(id.dup()),
            DomainError::IntentNotCommitted(id) => DomainError::IntentNotCommitted(id.dup()),
            DomainError::IntentConflict { operation_id } => {
                DomainError::IntentConflict { operation_id: operation_id.dup() }
            },
            DomainError::OperationNotFound(id) => DomainError::OperationNotFound(id.dup()),
            DomainError::InvalidOperationTransition { operation_id, from, to } => {
                DomainError::InvalidOperationTransition { operation_id: operation_id.dup(), from: *from, to: *to }
            },
            DomainError::PlannedInputsMismatch { operation_id } => {
                DomainError::PlannedInputsMismatch { operation_id: operation_id.dup() }
            },
            DomainError::ObservationConflict { outpoint, onchain_state } => {
                DomainError::ObservationConflict { outpoint: outpoint.dup(), onchain_state: *onchain_state }
            },
            DomainError::CorruptedState(r) => DomainError::CorruptedState(r.clone()),
            DomainError::Storage(r) => DomainError::Storage(r.clone()),
        }
    }

    /// The diagnostic message, as the error would be displayed.
    pub fn to_string(&self) -> (r: String)
        ensures
            r@ == error_message(self@),
    {
        let mut s = String::new();
        self.push_message(&mut s);
        assert(s@ =~= error_message(self@));
        s
    }

    /// Appends the diagnostic message.
    pub fn push_message(&self, out: &mut String)
        ensures
            final(out)@ == old(out)@ + error_message(self@),
        decreases self,
    {
        let ghost start = out@;
        match self {
            DomainError::InvalidRequest { reason } => {
                out.append("invalid request: ");
                out.append(reason.as_str());
            },
            DomainError::AccountNotFound(id) => {
                out.append("account not found: ");
                out.append(id.as_str());
            },
            DomainError::ScopeNotFound(id) => {
                out.append("scope not found: ");
                out.append(id.as_str());
            },
            DomainError::MissingAccountCapabilities { account_id } => {
                out.append("account ");
                out.append(account_id.as_str());
                out.append(" lacks required capabilities");
            },
            DomainError::NoEligibleScope { account_id } => {
                out.append("no eligible scope for account ");
                out.append(account_id.as_str());
            },
            DomainError::MissingCapabilities { scope_id } => {
                out.append("scope ");
                out.append(scope_id.as_str());
                out.append(" lacks required capabilities");
            },
            DomainError::InsufficientFunds => {
                out.append("insufficient funds");
            },
            DomainError::InsufficientAsset { needed, have } => {
                out.append("insufficient asset amount: need ");
                push_decimal(out, *needed);
                out.append(", have ");
                push_decimal(out, *have);
            },
            DomainError::InsufficientValue { needed, have } => {
                out.append("insufficient bitcoin value: need ");
                push_decimal(out, *needed);
                out.append(" sats, have ");
                push_decimal(out, *have);
                out.append(" sats");
            },
            DomainError::NoEligibleAssetCandidates { rejections } => {
                out.append("none of the supplied asset inputs can be used");
                let ghost prefix = out@;
                let mut i: usize = 0;
                while i < rejections.len()
                    invariant
                        i <= rejections@.len(),
                        out@ == prefix + rejections_text(
                            rejections_model(rejections@, rejections@.len()),
                            i as nat,
                        ),
                        (*self) is NoEligibleAssetCandidates,
                        (*self)->rejections == *rejections,
                    decreases rejections@.len() - i,
                {
                    proof {
                        assert(decreases_to!(*rejections => rejections@));
                        assert(decreases_to!(rejections@ => rejections@[i as int]));
                        assert(decreases_to!(rejections@[i as int] => rejections@[i as int].reason));
                        assert(decreases_to!(*self => (*self)->rejections));
                        lemma_rejections_model_index(rejections@, i as int);
                    }
                    out.append("; ");
                    let text = rejections[i].outpoint.to_string();
                    out.append(text.as_str());
                    out.append(": ");
                    rejections[i].reason.push_message(out);
                    i = i + 1;
                }
                proof {
                    lemma_rejections_model_len(rejections@, rejections@.len());
                }
            },
            DomainError::NoCandidateAvailable => {
                out.append("no candidate is available");
            },
            DomainError::InvalidScopeOwnership { scope_id, account_id } => {
                out.append("scope ");
                out.append(scope_id.as_str());
                out.append(" does not belong to account ");
                out.append(account_id.as_str());
            },
            DomainError::UtxoNotFound(o) => {
                out.append("UTXO not found: ");
                let text = o.to_string();
                out.append(text.as_str());
            },
            DomainError::UtxoUnavailable { outpoint, availability } => {
                out.append("UTXO ");
                let text = outpoint.to_string();
                out.append(text.as_str());
                out.append(" is unavailable (");
                out.append(availability.debug_name());
                out.append(")");
            },
            DomainError::UtxoPolicyBlocked { outpoint, reason } => {
                out.append("UTXO ");
                let text = outpoint.to_string();
                out.append(text.as_str());
                out.append(" is blocked by policy: ");
                out.append(reason.as_str());
            },
            DomainError::IntentNotFound(id) => {
                out.append("intent not found for operation ");
                out.append(id.as_str());
            },
            DomainError::IntentNotPending(id) => {
                out.append("intent for operation ");
                out.append(id.as_str());
                out.append(" is not pending");
            },
            DomainError::IntentNotCommitted(id) => {
                out.append("intent for operation ");
                out.append(id.as_str());
                out.append(" is not committed");
            },
            DomainError::IntentConflict { operation_id } => {
                out.append("intent conflicts with the recorded selection for operation ");
                out.append(operation_id.as_str());
            },
            DomainError::OperationNotFound(id) => {
                out.append("operation not found: ");
                out.append(id.as_str());
            },
            DomainError::InvalidOperationTransition { operation_id, from, to } => {
                out.append("operation ");
                out.append(operation_id.as_str());
                out.append(" cannot advance from ");
                out.append(from.debug_name());
                out.append(" to ");
                out.append(to.debug_name());
            },
            DomainError::PlannedInputsMismatch { operation_id } => {
                out.append("actual inputs do not match the planned inputs for operation ");
                out.append(operation_id.as_str());
            },
            DomainError::ObservationConflict { outpoint, onchain_state } => {
                out.append("observation conflicts with UTXO ");
                let text = outpoint.to_string();
                out.append(text.as_str());
                out.append(" (");
                out.append(onchain_state.debug_name());
                out.append(")");
            },
            DomainError::CorruptedState(r) => {
                out.append("corrupted state: ");
                out.append(r.as_str());
            },
            DomainError::Storage(r) => {
                out.append("storage error: ");
                out.append(r.as_str());
            },
        }
        assert(out@ =~= start + error_message(self@));
    }
}

impl Clone for DomainError {
    fn clone(&self) -> (r: Self)
        ensures
            r@ == self@,
    {
        self.dup()
    }
}

impl Clone for AssetCandidateRejection {
    fn clone(&self) -> (r: Self)
        ensures
            r@ == self@,
    {
        AssetCandidateRejection { outpoint: self.outpoint.dup(), reason: self.reason.dup() }
    }
}

proof fn lemma_rejections_model_index(s: Seq<AssetCandidateRejection>, i: int)
    requires
        0 <= i < s.len(),
    ensures
        rejections_model(s, s.len()).len() == s.len(),
        rejections_model(s, s.len())[i] == s[i]@,
        rejections_model(s, (i + 1) as nat) == rejections_model(s, i as nat).push(s[i]@),
{
    lemma_rejections_model_len(s, s.len());
    lemma_rejections_model_take(s, (i + 1) as nat, s.len());
}

proof fn lemma_rejections_model_len(s: Seq<AssetCandidateRejection>, n: nat)
    requires
        n <= s.len(),
    ensures
        rejections_model(s, n).len() == n,
    decreases n,
{
    if n > 0 {
        lemma_rejections_model_len(s, (n - 1) as nat);
    }
}

proof fn lemma_rejections_model_take(s: Seq<AssetCandidateRejection>, m: nat, n: nat)
    requires
        0 < m <= n <= s.len(),
    ensures
        rejections_model(s, n)[m - 1] == s[m - 1]@,
    decreases n,
{
    lemma_rejections_model_len(s, n);
    if n > m {
        lemma_rejections_model_take(s, m, (n - 1) as nat);
        lemma_rejections_model_len(s, (n - 1) as nat);
    }
}

} // verus!
