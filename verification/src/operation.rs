//! Operations, their lifecycle phases, recorded intents and selections.
use vstd::prelude::*;

use crate::capability::CapabilitySet;
use crate::errors::{DomainError, DomainResult, ErrorModel};
use crate::ids::{AccountId, IntoAccountId, IntoOperationId, OperationId, WalletScopeId};
use crate::lock::LockPurpose;
use crate::outpoint::{OutPoint, OutPointModel};
use crate::text::str_eq;

verus! {

/// The lifecycle phase of an operation.
#[derive(Clone, Copy, Debug, PartialEq, Eq, Structural)]
pub enum OperationPhase {
    Selected,
    Constructing,
    Signed,
    Broadcast,
    AwaitingConfirmation,
    AwaitingL2Finality,
    RollingBack,
}

impl OperationPhase {
    /// The persisted name of each variant.
    pub open spec fn name_text(self) -> Seq<char> {
        match self {
            OperationPhase::Selected => "selected"@,
            OperationPhase::Constructing => "constructing"@,
            OperationPhase::Signed => "signed"@,
            OperationPhase::Broadcast => "broadcast"@,
            OperationPhase::AwaitingConfirmation => "awaiting_confirmation"@,
            OperationPhase::AwaitingL2Finality => "awaiting_l2_finality"@,
            OperationPhase::RollingBack => "rolling_back"@,
        }
    }

    /// The variant a persisted name denotes, including legacy aliases.
    pub open spec fn parse_name(s: Seq<char>) -> Option<OperationPhase> {
        if s == "selected"@ {
            Some(OperationPhase::Selected)
        } else if s == "constructing"@ {
            Some(OperationPhase::Constructing)
        } else if s == "signed"@ {
            Some(OperationPhase::Signed)
        } else if s == "broadcast"@ {
            Some(OperationPhase::Broadcast)
        } else if s == "awaiting_confirmation"@ {
            Some(OperationPhase::AwaitingConfirmation)
        } else if s == "awaiting_l2_finality"@ {
            Some(OperationPhase::AwaitingL2Finality)
        } else if s == "rolling_back"@ {
            Some(OperationPhase::RollingBack)
        } else {
            None
        }
    }

    /// The name of the variant as written in diagnostics.
    pub open spec fn debug_text(self) -> Seq<char> {
        match self {
            OperationPhase::Selected => "Selected"@,
            OperationPhase::Constructing => "Constructing"@,
            OperationPhase::Signed => "Signed"@,
            OperationPhase::Broadcast => "Broadcast"@,
            OperationPhase::AwaitingConfirmation => "AwaitingConfirmation"@,
            OperationPhase::AwaitingL2Finality => "AwaitingL2Finality"@,
            OperationPhase::RollingBack => "RollingBack"@,
        }
    }

    /// The persisted name of this variant.
    pub fn name(self) -> (r: &'static str)
        ensures
            r@ == self.name_text(),
    {
        match self {
            OperationPhase::Selected => "selected",
            OperationPhase::Constructing => "constructing",
            OperationPhase::Signed => "signed",
            OperationPhase::Broadcast => "broadcast",
            OperationPhase::AwaitingConfirmation => "awaiting_confirmation",
            OperationPhase::AwaitingL2Finality => "awaiting_l2_finality",
            OperationPhase::RollingBack => "rolling_back",
        }
    }

    /// Reads a persisted name, accepting legacy aliases.
    pub fn from_name(s: &str) -> (r: Option<OperationPhase>)
        ensures
            r == OperationPhase::parse_name(s@),
    {
        if str_eq(s, "selected") {
            return Some(OperationPhase::Selected);
        }
        if str_eq(s, "constructing") {
            return Some(OperationPhase::Constructing);
        }
        if str_eq(s, "signed") {
            return Some(OperationPhase::Signed);
        }
        if str_eq(s, "broadcast") {
            return Some(OperationPhase::Broadcast);
        }
        if str_eq(s, "awaiting_confirmation") {
            return Some(OperationPhase::AwaitingConfirmation);
        }
        if str_eq(s, "awaiting_l2_finality") {
            return Some(OperationPhase::AwaitingL2Finality);
        }
        if str_eq(s, "rolling_back") {
            return Some(OperationPhase::RollingBack);
        }
        None
    }

    /// The name of this variant as written in diagnostics.
    pub fn debug_name(self) -> (r: &'static str)
        ensures
            r@ == self.debug_text(),
    {
        match self {
            OperationPhase::Selected => "Selected",
            OperationPhase::Constructing => "Constructing",
            OperationPhase::Signed => "Signed",
            OperationPhase::Broadcast => "Broadcast",
            OperationPhase::AwaitingConfirmation => "AwaitingConfirmation",
            OperationPhase::AwaitingL2Finality => "AwaitingL2Finality",
            OperationPhase::RollingBack => "RollingBack",
        }
    }

    /// Every variant reads back from its persisted name.
    pub proof fn lemma_name_round_trip(self)
        ensures
            OperationPhase::parse_name(self.name_text()) == Some(self),
    {
        reveal_strlit("awaiting_confirmation");
        reveal_strlit("awaiting_l2_finality");
        reveal_strlit("broadcast");
        reveal_strlit("constructing");
        reveal_strlit("rolling_back");
        reveal_strlit("selected");
        reveal_strlit("signed");
        match self {
            OperationPhase::Selected => {
            },
            OperationPhase::Constructing => {
                assert("constructing"@.len() != "selected"@.len());
            },
            OperationPhase::Signed => {
                assert("signed"@.len() != "selected"@.len());
                assert("signed"@.len() != "constructing"@.len());
            },
            OperationPhase::Broadcast => {
                assert("broadcast"@.len() != "selected"@.len());
                assert("broadcast"@.len() != "constructing"@.len());
                assert("broadcast"@.len() != "signed"@.len());
            },
            OperationPhase::AwaitingConfirmation => {
                assert("awaiting_confirmation"@.len() != "selected"@.len());
                assert("awaiting_confirmation"@.len() != "constructing"@.len());
                assert("awaiting_confirmation"@.len() != "signed"@.len());
                assert("awaiting_confirmation"@.len() != "broadcast"@.len());
            },
            OperationPhase::AwaitingL2Finality => {
                assert("awaiting_l2_finality"@.len() != "selected"@.len());
                assert("awaiting_l2_finality"@.len() != "constructing"@.len());
                assert("awaiting_l2_finality"@.len() != "signed"@.len());
                assert("awaiting_l2_finality"@.len() != "broadcast"@.len());
                assert("awaiting_l2_finality"@.len() != "awaiting_confirmation"@.len());
            },
            OperationPhase::RollingBack => {
                assert("rolling_back"@.len() != "selected"@.len());
                assert("rolling_back"@[0] != "constructing"@[0]);
                assert("rolling_back"@.len() != "signed"@.len());
                assert("rolling_back"@.len() != "broadcast"@.len());
                assert("rolling_back"@.len() != "awaiting_confirmation"@.len());
                assert("rolling_back"@.len() != "awaiting_l2_finality"@.len());
            },
        }
    }
}

impl View for OperationPhase {
    type V = OperationPhase;

    open spec fn view(&self) -> OperationPhase {
        *self
    }
}

/// Whether a recorded intent has been applied.
#[derive(Clone, Copy, Debug, PartialEq, Eq, Structural)]
pub enum IntentStatus {
    Pending,
    Committed,
    Failed,
}

impl IntentStatus {
    /// The persisted name of each variant.
    pub open spec fn name_text(self) -> Seq<char> {
        match self {
            IntentStatus::Pending => "pending"@,
            IntentStatus::Committed => "committed"@,
            IntentStatus::Failed => "failed"@,
        }
    }

    /// The variant a persisted name denotes, including legacy aliases.
    pub open spec fn parse_name(s: Seq<char>) -> Option<IntentStatus> {
        if s == "pending"@ {
            Some(IntentStatus::Pending)
        } else if s == "committed"@ {
            Some(IntentStatus::Committed)
        } else if s == "failed"@ {
            Some(IntentStatus::Failed)
        } else {
            None
        }
    }

    /// The name of the variant as written in diagnostics.
    pub open spec fn debug_text(self) -> Seq<char> {
        match self {
            IntentStatus::Pending => "Pending"@,
            IntentStatus::Committed => "Committed"@,
            IntentStatus::Failed => "Failed"@,
        }
    }

    /// The persisted name of this variant.
    pub fn name(self) -> (r: &'static str)
        ensures
            r@ == self.name_text(),
    {
        match self {
            IntentStatus::Pending => "pending",
            IntentStatus::Committed => "committed",
            IntentStatus::Failed => "failed",
        }
    }

    /// Reads a persisted name, accepting legacy aliases.
    pub fn from_name(s: &str) -> (r: Option<IntentStatus>)
        ensures
            r == IntentStatus::parse_name(s@),
    {
        if str_eq(s, "pending") {
            return Some(IntentStatus::Pending);
        }
        if str_eq(s, "committed") {
            return Some(IntentStatus::Committed);
        }
        if str_eq(s, "failed") {
            return Some(IntentStatus::Failed);
        }
        None
    }

    /// The name of this variant as written in diagnostics.
    pub fn debug_name(self) -> (r: &'static str)
        ensures
            r@ == self.debug_text(),
    {
        match self {
            IntentStatus::Pending => "Pending",
            IntentStatus::Committed => "Committed",
            IntentStatus::Failed => "Failed",
        }
    }

    /// Every variant reads back from its persisted name.
    pub proof fn lemma_name_round_trip(self)
        ensures
            IntentStatus::parse_name(self.name_text()) == Some(self),
    {
        reveal_strlit("committed");
        reveal_strlit("failed");
        reveal_strlit("pending");
        match self {
            IntentStatus::Pending => {
            },
            IntentStatus::Committed => {
                assert("committed"@.len() != "pending"@.len());
            },
            IntentStatus::Failed => {
                assert("failed"@.len() != "pending"@.len());
                assert("failed"@.len() != "committed"@.len());
            },
        }
    }
}

impl View for IntentStatus {
    type V = IntentStatus;

    open spec fn view(&self) -> IntentStatus {
        *self
    }
}

/// The values of a sequence of output references.
pub open spec fn outpoints_model(s: Seq<OutPoint>) -> Seq<OutPointModel> {
    s.map_values(|o: OutPoint| o@)
}

/// A copy of a list of output references.
pub fn clone_outpoints(v: &Vec<OutPoint>) -> (r: Vec<OutPoint>)
    ensures
        r@ == v@,
{
    let mut r: Vec<OutPoint> = Vec::new();
    let mut i: usize = 0;
    while i < v.len()
        invariant
            i <= v@.len(),
            r@ == v@.take(i as int),
        decreases v@.len() - i,
    {
        r.push(v[i].dup());
        i = i + 1;
        assert(r@ =~= v@.take(i as int));
    }
    assert(v@.take(i as int) =~= v@);
    r
}

/// The position of a phase in the forward lifecycle; rolling back is outside it.
pub open spec fn phase_rank(p: OperationPhase) -> int {
    match p {
        OperationPhase::Selected => 0,
        OperationPhase::Constructing => 1,
        OperationPhase::Signed => 2,
        OperationPhase::Broadcast => 3,
        OperationPhase::AwaitingConfirmation => 4,
        OperationPhase::AwaitingL2Finality => 5,
        OperationPhase::RollingBack => 6,
    }
}

/// A transition that moves strictly forward through the lifecycle.
pub open spec fn is_forward(from: OperationPhase, to: OperationPhase) -> bool {
    from != OperationPhase::RollingBack && to != OperationPhase::RollingBack && phase_rank(from)
        < phase_rank(to)
}

/// Phases from which the operation's inputs are being spent on chain.
pub open spec fn starts_spending(p: OperationPhase) -> bool {
    p == OperationPhase::Broadcast || p == OperationPhase::AwaitingConfirmation || p
        == OperationPhase::AwaitingL2Finality
}

/// The operation and phase an output is bound to.
#[derive(Debug, Clone, PartialEq, Eq)]
pub struct OperationBinding {
    pub operation_id: OperationId,
    pub phase: OperationPhase,
}

pub struct BindingModel {
    pub operation_id: Seq<char>,
    pub phase: OperationPhase,
}

impl View for OperationBinding {
    type V = BindingModel;

    open spec fn view(&self) -> BindingModel {
        BindingModel { operation_id: self.operation_id@, phase: self.phase }
    }
}

impl OperationBinding {
    pub fn dup(&self) -> (r: Self)
        ensures
            r@ == self@,
    {
        OperationBinding { operation_id: self.operation_id.dup(), phase: self.phase }
    }
}

/// A persisted operation and its current phase.
#[derive(Debug, Clone, PartialEq, Eq)]
pub struct PersistedOperation {
    pub operation_id: OperationId,
    pub phase: OperationPhase,
    pub updated_at: u64,
    pub expires_at: Option<u64>,
}

pub struct OperationModel {
    pub operation_id: Seq<char>,
    pub phase: OperationPhase,
    pub updated_at: u64,
    pub expires_at: Option<u64>,
}

impl View for PersistedOperation {
    type V = OperationModel;

    open spec fn view(&self) -> OperationModel {
        OperationModel {
            operation_id: self.operation_id@,
            phase: self.phase,
            updated_at: self.updated_at,
            expires_at: self.expires_at,
        }
    }
}

/// What checking an advance to `to` answers: `Ok(false)` when already there,
/// `Ok(true)` for a forward move, and an error for any other move.
pub open spec fn advance_check(op: OperationModel, to: OperationPhase) -> Result<bool, ErrorModel> {
    if op.phase == to {
        Ok(false)
    } else if is_forward(op.phase, to) {
        Ok(true)
    } else {
        Err(
            ErrorModel::InvalidOperationTransition {
                operation_id: op.operation_id,
                from: op.phase,
                to,
            },
        )
    }
}

impl PersistedOperation {
    pub fn dup(&self) -> (r: Self)
        ensures
            r@ == self@,
    {
        PersistedOperation {
            operation_id: self.operation_id.dup(),
            phase: self.phase,
            updated_at: self.updated_at,
            expires_at: self.expires_at,
        }
    }

    /// Checks the forward lifecycle at the current stored phase. Returns false
    /// for an idempotent call. Backends must check this inside their atomic write.
    pub fn validate_advance(&self, completed_phase: OperationPhase) -> (r: DomainResult<bool>)
        ensures
            match advance_check(self@, completed_phase) {
                Ok(b) => r == Ok::<bool, DomainError>(b),
                Err(e) => r is Err && r->Err_0@ == e,
            },
    {
        if self.phase == completed_phase {
            return Ok(false);
        }
        let valid_transition = match (self.phase, completed_phase) {
            (
                OperationPhase::Selected,
                OperationPhase::Constructing
                | OperationPhase::Signed
                | OperationPhase::Broadcast
                | OperationPhase::AwaitingConfirmation
                | OperationPhase::AwaitingL2Finality,
            ) => true,
            (
                OperationPhase::Constructing,
                OperationPhase::Signed
                | OperationPhase::Broadcast
                | OperationPhase::AwaitingConfirmation
                | OperationPhase::AwaitingL2Finality,
            ) => true,
            (
                OperationPhase::Signed,
                OperationPhase::Broadcast
                | OperationPhase::AwaitingConfirmation
                | OperationPhase::AwaitingL2Finality,
            ) => true,
            (
                OperationPhase::Broadcast,
                OperationPhase::AwaitingConfirmation | OperationPhase::AwaitingL2Finality,
            ) => true,
            (OperationPhase::AwaitingConfirmation, OperationPhase::AwaitingL2Finality) => true,
            _ => false,
        };
        if !valid_transition {
            return Err(
                DomainError::InvalidOperationTransition {
                    operation_id: self.operation_id.dup(),
                    from: self.phase,
                    to: completed_phase,
                },
            );
        }
        Ok(true)
    }
}

/// What applying a selection does to one output.
#[derive(Debug, Clone, PartialEq, Eq)]
pub enum SelectionEffect {
    LockUtxo { outpoint: OutPoint, purpose: LockPurpose },
}

pub struct EffectModel {
    pub outpoint: OutPointModel,
    pub purpose: LockPurpose,
}

impl View for SelectionEffect {
    type V = EffectModel;

    open spec fn view(&self) -> EffectModel {
        match self {
            SelectionEffect::LockUtxo { outpoint, purpose } => EffectModel {
                outpoint: outpoint@,
                purpose: *purpose,
            },
        }
    }
}

impl SelectionEffect {
    pub fn dup(&self) -> (r: Self)
        ensures
            r@ == self@,
    {
        match self {
            SelectionEffect::LockUtxo { outpoint, purpose } => SelectionEffect::LockUtxo {
                outpoint: outpoint.dup(),
                purpose: *purpose,
            },
        }
    }

    /// The output this effect locks.
    pub fn outpoint(&self) -> (r: &OutPoint)
        ensures
            r@ == self@.outpoint,
    {
        match self {
            SelectionEffect::LockUtxo { outpoint, .. } => outpoint,
        }
    }

    /// The purpose of the lock.
    pub fn purpose(&self) -> (r: LockPurpose)
        ensures
            r == self@.purpose,
    {
        match self {
            SelectionEffect::LockUtxo { purpose, .. } => *purpose,
        }
    }
}

/// The values of a sequence of effects.
pub open spec fn effects_model(s: Seq<SelectionEffect>) -> Seq<EffectModel> {
    s.map_values(|e: SelectionEffect| e@)
}

/// A set of inputs chosen for an operation, and the locks applying it takes.
#[derive(Debug, Clone, PartialEq, Eq)]
pub struct OperationSelection {
    pub operation_id: OperationId,
    pub selected_outpoints: Vec<OutPoint>,
    pub change_scope_id: WalletScopeId,
    pub effects: Vec<SelectionEffect>,
    pub expires_at: Option<u64>,
}

pub struct SelectionModel {
    pub operation_id: Seq<char>,
    pub selected_outpoints: Seq<OutPointModel>,
    pub change_scope_id: Seq<char>,
    pub effects: Seq<EffectModel>,
    pub expires_at: Option<u64>,
}

impl View for OperationSelection {
    type V = SelectionModel;

    open spec fn view(&self) -> SelectionModel {
        SelectionModel {
            operation_id: self.operation_id@,
            selected_outpoints: outpoints_model(self.selected_outpoints@),
            change_scope_id: self.change_scope_id@,
            effects: effects_model(self.effects@),
            expires_at: self.expires_at,
        }
    }
}

impl OperationSelection {
    pub fn dup(&self) -> (r: Self)
        ensures
            r@ == self@,
    {
        let mut effects: Vec<SelectionEffect> = Vec::new();
        let mut i: usize = 0;
        while i < self.effects.len()
            invariant
                i <= self.effects@.len(),
                effects@.len() == i,
                forall|k: int| 0 <= k < i ==> #[trigger] effects@[k]@ == self.effects@[k]@,
            decreases self.effects@.len() - i,
        {
            effects.push(self.effects[i].dup());
            i = i + 1;
        }
        assert(effects_model(effects@) =~= effects_model(self.effects@));
        OperationSelection {
            operation_id: self.operation_id.dup(),
            selected_outpoints: clone_outpoints(&self.selected_outpoints),
            change_scope_id: self.change_scope_id.dup(),
            effects,
            expires_at: self.expires_at,
        }
    }

    /// Whether two selections have the same value.
    pub fn same(&self, other: &Self) -> (r: bool)
        ensures
            r == (self@ == other@),
    {
        if !self.operation_id.same(&other.operation_id) || !self.change_scope_id.same(
            &other.change_scope_id,
        ) || self.expires_at != other.expires_at || self.selected_outpoints.len()
            != other.selected_outpoints.len() || self.effects.len() != other.effects.len() {
            proof {
                if self@ == other@ {
                    assert(self@.selected_outpoints.len() == other@.selected_outpoints.len());
                    assert(self@.effects.len() == other@.effects.len());
                }
            }
            return false;
        }
        let mut i: usize = 0;
        while i < self.selected_outpoints.len()
            invariant
                i <= self.selected_outpoints@.len() == other.selected_outpoints@.len(),
                forall|k: int| 0 <= k < i ==> self.selected_outpoints@[k]@ == other.selected_outpoints@[k]@,
            decreases self.selected_outpoints@.len() - i,
        {
            if !self.selected_outpoints[i].same(&other.selected_outpoints[i]) {
                proof {
                    if self@ == other@ {
                        assert(self@.selected_outpoints[i as int] == other@.selected_outpoints[i as int]);
                    }
                }
                return false;
            }
            i = i + 1;
        }
        let mut j: usize = 0;
        while j < self.effects.len()
            invariant
                j <= self.effects@.len() == other.effects@.len(),
                forall|k: int| 0 <= k < j ==> self.effects@[k]@ == other.effects@[k]@,
            decreases self.effects@.len() - j,
        {
            if !self.effects[j].outpoint().same(other.effects[j].outpoint())
                || self.effects[j].purpose() != other.effects[j].purpose() {
                proof {
                    if self@ == other@ {
                        assert(self@.effects[j as int] == other@.effects[j as int]);
                    }
                }
                return false;
            }
            j = j + 1;
        }
        assert(self@.selected_outpoints =~= other@.selected_outpoints);
        assert(self@.effects =~= other@.effects);
        true
    }
}

/// A selection recorded before it is applied, and whether it was applied.
#[derive(Debug, Clone, PartialEq, Eq)]
pub struct OperationIntent {
    pub selection: OperationSelection,
    pub status: IntentStatus,
    pub recorded_at: u64,
}

pub struct IntentModel {
    pub selection: SelectionModel,
    pub status: IntentStatus,
    pub recorded_at: u64,
}

impl View for OperationIntent {
    type V = IntentModel;

    open spec fn view(&self) -> IntentModel {
        IntentModel {
            selection: self.selection@,
            status: self.status,
            recorded_at: self.recorded_at,
        }
    }
}

impl OperationIntent {
    pub fn dup(&self) -> (r: Self)
        ensures
            r@ == self@,
    {
        OperationIntent {
            selection: self.selection.dup(),
            status: self.status,
            recorded_at: self.recorded_at,
        }
    }
}

/// How the inputs of a request are chosen.
#[derive(Debug, Clone, PartialEq, Eq)]
pub enum InputSelectionSpec {
    TargetValue { amount_sats: u64 },
    ExactOutpoints { outpoints: Vec<OutPoint> },
    FirstSelectable { candidates: Vec<OutPoint> },
}

pub enum SpecModel {
    TargetValue { amount_sats: u64 },
    ExactOutpoints { outpoints: Seq<OutPointModel> },
    FirstSelectable { candidates: Seq<OutPointModel> },
}

impl View for InputSelectionSpec {
    type V = SpecModel;

    open spec fn view(&self) -> SpecModel {
        match self {
            InputSelectionSpec::TargetValue { amount_sats } => SpecModel::TargetValue {
                amount_sats: *amount_sats,
            },
            InputSelectionSpec::ExactOutpoints { outpoints } => SpecModel::ExactOutpoints {
                outpoints: outpoints_model(outpoints@),
            },
            InputSelectionSpec::FirstSelectable { candidates } => SpecModel::FirstSelectable {
                candidates: outpoints_model(candidates@),
            },
        }
    }
}

/// The kinds of operation a request may create.
#[derive(Debug, Clone, Copy, PartialEq, Eq, Structural)]
pub enum OperationPurpose {
    BtcSend,
    PlannedSelection,
    ManualReservation,
}

impl OperationPurpose {
    pub open spec fn spec_lock_purpose(self) -> LockPurpose {
        match self {
            OperationPurpose::BtcSend => LockPurpose::BtcSend,
            OperationPurpose::PlannedSelection => LockPurpose::PlannedSelection,
            OperationPurpose::ManualReservation => LockPurpose::ManualReservation,
        }
    }

    pub fn lock_purpose(self) -> (r: LockPurpose)
        ensures
            r == self.spec_lock_purpose(),
    {
        match self {
            OperationPurpose::BtcSend => LockPurpose::BtcSend,
            OperationPurpose::PlannedSelection => LockPurpose::PlannedSelection,
            OperationPurpose::ManualReservation => LockPurpose::ManualReservation,
        }
    }
}

impl From<OperationPurpose> for LockPurpose {
    fn from(value: OperationPurpose) -> (r: Self) {
        value.lock_purpose()
    }
}

impl vstd::std_specs::convert::FromSpecImpl<OperationPurpose> for LockPurpose {
    open spec fn obeys_from_spec() -> bool {
        true
    }

    open spec fn from_spec(v: OperationPurpose) -> LockPurpose {
        v.spec_lock_purpose()
    }
}

/// Which account selects inputs, how, and with which capabilities.
#[derive(Debug, Clone, PartialEq, Eq)]
pub struct InputSelectionRequest {
    pub account_id: AccountId,
    pub spec: InputSelectionSpec,
    pub required_capabilities: CapabilitySet,
}

impl InputSelectionRequest {
    pub fn new<A: IntoAccountId>(
        account_id: A,
        spec: InputSelectionSpec,
        required_capabilities: CapabilitySet,
    ) -> (r: Self)
        ensures
            r.account_id@ == account_id.account_text(),
            r.spec == spec,
            r.required_capabilities == required_capabilities,
    {
        InputSelectionRequest { account_id: account_id.into_account_id(), spec, required_capabilities }
    }
}

/// How the chosen inputs are locked.
#[derive(Debug, Clone, PartialEq, Eq)]
pub struct SelectionLockPolicy {
    pub purpose: OperationPurpose,
    pub expires_at: Option<u64>,
}

impl SelectionLockPolicy {
    pub fn new(purpose: OperationPurpose, expires_at: Option<u64>) -> (r: Self)
        ensures
            r.purpose == purpose,
            r.expires_at == expires_at,
    {
        SelectionLockPolicy { purpose, expires_at }
    }

    pub fn lock_purpose(&self) -> (r: LockPurpose)
        ensures
            r == self.purpose.spec_lock_purpose(),
    {
        self.purpose.lock_purpose()
    }
}

/// A normalized request for a new operation.
#[derive(Debug, Clone, PartialEq, Eq)]
pub struct OperationRequest {
    pub operation_id: OperationId,
    pub selection: InputSelectionRequest,
    pub locking: SelectionLockPolicy,
}

impl OperationRequest {
    pub fn new<O: IntoOperationId>(
        operation_id: O,
        selection: InputSelectionRequest,
        locking: SelectionLockPolicy,
    ) -> (r: Self)
        ensures
            r.operation_id@ == operation_id.operation_text(),
            r.selection == selection,
            r.locking == locking,
    {
        OperationRequest { operation_id: operation_id.into_operation_id(), selection, locking }
    }
}

/// The inputs a selector chose and the scope that receives change.
#[derive(Debug, Clone, PartialEq, Eq)]
pub struct SelectedInputs {
    pub outpoints: Vec<OutPoint>,
    pub change_scope_id: WalletScopeId,
}

/// The lock effects of a list of inputs, all for one purpose.
pub open spec fn lock_effects(outpoints: Seq<OutPointModel>, purpose: LockPurpose) -> Seq<EffectModel> {
    outpoints.map_values(|o: OutPointModel| EffectModel { outpoint: o, purpose })
}

/// Builds lock effects for each output, in order.
pub fn lock_effects_for(outpoints: &Vec<OutPoint>, purpose: LockPurpose) -> (r: Vec<SelectionEffect>)
    ensures
        effects_model(r@) == lock_effects(outpoints_model(outpoints@), purpose),
{
    let mut effects: Vec<SelectionEffect> = Vec::new();
    let mut i: usize = 0;
    while i < outpoints.len()
        invariant
            i <= outpoints@.len(),
            effects@.len() == i,
            forall|k: int| 0 <= k < i ==> #[trigger] effects@[k]@ == (EffectModel {
                outpoint: outpoints@[k]@,
                purpose,
            }),
        decreases outpoints@.len() - i,
    {
        effects.push(SelectionEffect::LockUtxo { outpoint: outpoints[i].dup(), purpose });
        i = i + 1;
    }
    assert(effects_model(effects@) =~= lock_effects(outpoints_model(outpoints@), purpose));
    effects
}

impl OperationSelection {
    /// The selection a request makes of the chosen inputs: each is locked for
    /// the request's purpose.
    pub fn from_request(req: &OperationRequest, selected_inputs: SelectedInputs) -> (r: Self)
        ensures
            r@ == (SelectionModel {
                operation_id: req.operation_id@,
                selected_outpoints: outpoints_model(selected_inputs.outpoints@),
                change_scope_id: selected_inputs.change_scope_id@,
                effects: lock_effects(
                    outpoints_model(selected_inputs.outpoints@),
                    req.locking.purpose.spec_lock_purpose(),
                ),
                expires_at: req.locking.expires_at,
            }),
    {
        let lock_purpose = req.locking.lock_purpose();
        let effects = lock_effects_for(&selected_inputs.outpoints, lock_purpose);
        OperationSelection {
            operation_id: req.operation_id.dup(),
            selected_outpoints: selected_inputs.outpoints,
            change_scope_id: selected_inputs.change_scope_id,
            effects,
            expires_at: req.locking.expires_at,
        }
    }
}

} // verus!
