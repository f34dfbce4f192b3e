use txoscope::account::{Account, WalletScope};
use txoscope::capability::{Capability, CapabilitySet};
use txoscope::errors::{DomainError, DomainResult};
use txoscope::ids::{AccountId, OperationId, WalletScopeId};
use txoscope::lock::{LockPurpose, OperationLock};
use txoscope::observation::{ObservationScope, ObservationSnapshot, ObservedConfirmation, ObservedUtxo};
use txoscope::operation::{InputSelectionSpec, IntentStatus, OperationIntent, OperationPhase, PersistedOperation};
use txoscope::outpoint::OutPoint;
use txoscope::reconciliation::{ReconciliationAction, ReconciliationPlanner};
use txoscope::selection_request::{
    BtcSendRequest, ManualReservationFirstAvailableRequest, PlannedSpecificOutpointRequest, SelectionRequest,
};
use txoscope::state::{Availability, OnchainState, UtxoRole};
use txoscope::store::{StateRead, StoreModel, UtxoListing};
use txoscope::utxo::{ManagedUtxo, ObservationConflict};

#[test]
fn errors_integrate_with_standard_error_handling() {
    fn fail() -> Result<(), DomainError> {
        Err(DomainError::InvalidRequest { reason: "duplicate input".into() })?
    }
    let error = fail().unwrap_err();
    assert_eq!(error.to_string(), "invalid request: duplicate input");
    assert_eq!(error, DomainError::InvalidRequest { reason: "duplicate input".into() });
}

#[test]
fn identifiers_preserve_opaque_values() {
    for value in ["", "账户:scope / operation", "  punctuation!?  "] {
        assert_eq!(AccountId::new(value).into_string(), value);
        assert_eq!(WalletScopeId::from(value).as_str(), value);
        assert_eq!(OperationId::from(value.to_owned()).to_string(), value);
    }
}

struct StaticState {
    utxos: Vec<ManagedUtxo>,
}

impl StateRead for StaticState {
    fn model(&self) -> StoreModel {
        unreachable!("the abstract state is only used in proofs")
    }

    fn healthy(&self) -> bool {
        true
    }

    fn utxo_listing(&self) -> UtxoListing {
        unreachable!("the listing order is only used in proofs")
    }

    fn get_account(&self, _account_id: &AccountId) -> DomainResult<Option<Account>> {
        Ok(None)
    }

    fn get_scope(&self, _scope_id: &WalletScopeId) -> DomainResult<Option<WalletScope>> {
        Ok(None)
    }

    fn get_utxo(&self, outpoint: &OutPoint) -> DomainResult<Option<ManagedUtxo>> {
        Ok(self.utxos.iter().find(|utxo| &utxo.outpoint == outpoint).cloned())
    }

    fn get_lock(&self, _outpoint: &OutPoint) -> DomainResult<Option<OperationLock>> {
        Ok(None)
    }

    fn get_operation(&self, _operation_id: &OperationId) -> DomainResult<Option<PersistedOperation>> {
        Ok(None)
    }

    fn get_intent(&self, _operation_id: &OperationId) -> DomainResult<Option<OperationIntent>> {
        Ok(None)
    }

    fn list_utxos(&self) -> DomainResult<Vec<ManagedUtxo>> {
        Ok(self.utxos.clone())
    }

    fn list_operations(&self) -> DomainResult<Vec<PersistedOperation>> {
        Ok(Vec::new())
    }

    fn list_pending_intents(&self) -> DomainResult<Vec<OperationIntent>> {
        Ok(Vec::new())
    }

    fn current_tick(&self) -> DomainResult<u64> {
        Ok(0)
    }
}

#[test]
fn mempool_observation_restores_policy_block_and_unconfirmed_state() {
    let outpoint = OutPoint::new("tx-mempool", 0);
    let state = StaticState { utxos: vec![ManagedUtxo::new(outpoint.clone(), "acct", "scope", 1_000)] };
    let snapshot = ObservationSnapshot::new(42, ObservationScope::Incremental)
        .add_utxo(ObservedUtxo::new(outpoint.clone(), "acct", "scope", 1_000).mempool());

    let plan = ReconciliationPlanner::new(&state).plan(&snapshot).unwrap();

    assert!(plan.actions.contains(&ReconciliationAction::UpdateAvailability {
        outpoint: outpoint.clone(),
        availability: Availability::BlockedByPolicy,
    }));
    assert!(plan.actions.contains(&ReconciliationAction::UpdateOnchainState {
        outpoint,
        new_state: OnchainState::UnconfirmedIncoming,
    }));
}

#[test]
fn spent_utxos_do_not_reopen_on_unspent_observation() {
    let outpoint = OutPoint::new("tx-spent", 0);
    let mut spent = ManagedUtxo::new(outpoint.clone(), "acct", "scope", 1_000);
    spent.mark_spent();
    let state = StaticState { utxos: vec![spent] };
    let snapshot = ObservationSnapshot::new(43, ObservationScope::Incremental)
        .add_utxo(ObservedUtxo::new(outpoint.clone(), "acct", "scope", 1_000).confirmed(101, 43));

    let plan = ReconciliationPlanner::new(&state).plan(&snapshot).unwrap();

    assert!(!plan.actions.iter().any(|action| {
        matches!(
            action,
            ReconciliationAction::UpdateOnchainState { outpoint: candidate, .. }
                if candidate == &outpoint
        )
    }));
    assert!(!plan.actions.iter().any(|action| {
        matches!(
            action,
            ReconciliationAction::UpdateAvailability { outpoint: candidate, .. }
                if candidate == &outpoint
        )
    }));
}

#[test]
fn spent_utxos_keep_existing_conflicts_on_unspent_observation() {
    let outpoint = OutPoint::new("tx-spent-conflict", 0);
    let mut spent = ManagedUtxo::new(outpoint.clone(), "acct", "scope", 1_000);
    spent.mark_spent();
    spent.observation_conflict =
        Some(ObservationConflict { message: "reserved utxo spent by tx-ext".to_string(), recorded_at: 42 });
    let state = StaticState { utxos: vec![spent] };
    let snapshot = ObservationSnapshot::new(44, ObservationScope::Incremental)
        .add_utxo(ObservedUtxo::new(outpoint.clone(), "acct", "scope", 1_000).confirmed(101, 44));

    let plan = ReconciliationPlanner::new(&state).plan(&snapshot).unwrap();

    assert!(!plan
        .actions
        .iter()
        .any(|action| { matches!(action, ReconciliationAction::ClearConflict(candidate) if candidate == &outpoint) }));
}

#[test]
fn btc_send_request_derives_btc_send_locking_and_capabilities() {
    let request = SelectionRequest::from(BtcSendRequest::new("op-btc", "btc", 50_000)).into_operation_request();

    assert_eq!(request.operation_id, "op-btc".into());
    assert_eq!(request.selection.account_id, "btc".into());
    assert_eq!(request.selection.required_capabilities, CapabilitySet::new([Capability::BtcSpend]));
    assert_eq!(request.locking.lock_purpose(), LockPurpose::BtcSend);
    assert_eq!(request.locking.expires_at, None);
    assert_eq!(request.selection.spec, InputSelectionSpec::TargetValue { amount_sats: 50_000 });
}

#[test]
fn planned_specific_outpoint_request_keeps_optional_expiry() {
    let request = SelectionRequest::from(
        PlannedSpecificOutpointRequest::new("op-plan", "rgb", OutPoint::new("txid", 1)).expires_at(42),
    )
    .into_operation_request();

    assert_eq!(request.operation_id, "op-plan".into());
    assert_eq!(request.selection.account_id, "rgb".into());
    assert_eq!(request.locking.lock_purpose(), LockPurpose::PlannedSelection);
    assert_eq!(request.locking.expires_at, Some(42));
    assert_eq!(
        request.selection.spec,
        InputSelectionSpec::ExactOutpoints { outpoints: vec![OutPoint::new("txid", 1)] }
    );
}

#[test]
fn manual_candidate_order_preserves_serialized_lexical_order() {
    let request = SelectionRequest::from(ManualReservationFirstAvailableRequest::new(
        "manual",
        "account",
        vec![OutPoint::new("x", 2), OutPoint::new("x:", 0), OutPoint::new("x", 10)],
        42,
    ))
    .into_operation_request();
    assert_eq!(
        request.selection.spec,
        InputSelectionSpec::FirstSelectable {
            candidates: vec![OutPoint::new("x", 10), OutPoint::new("x", 2), OutPoint::new("x:", 0)],
        }
    );
}

#[test]
fn manual_first_available_request_sorts_candidates_and_sets_expiry() {
    let request = SelectionRequest::from(ManualReservationFirstAvailableRequest::new(
        "manual-1",
        "rgb",
        vec![OutPoint::new("tx-b", 1), OutPoint::new("tx-a", 0)],
        1_234,
    ))
    .into_operation_request();

    assert_eq!(request.operation_id, "manual-1".into());
    assert_eq!(request.selection.account_id, "rgb".into());
    assert_eq!(request.locking.lock_purpose(), LockPurpose::ManualReservation);
    assert_eq!(request.locking.expires_at, Some(1_234));
    assert_eq!(
        request.selection.spec,
        InputSelectionSpec::FirstSelectable { candidates: vec![OutPoint::new("tx-a", 0), OutPoint::new("tx-b", 1)] }
    );
}

#[test]
fn outpoints_round_trip_opaque_transaction_ids() {
    for txid in ["", " ", "交易:opaque:tx", "txid", "x:y:"] {
        for vout in [0, 2, 10, u32::MAX] {
            let outpoint = OutPoint::new(txid, vout);
            assert_eq!(outpoint.to_string().parse::<OutPoint>().unwrap(), outpoint);
        }
    }
}

#[test]
fn outpoint_parse_rejects_missing_or_invalid_output_index() {
    for value in ["", "txid", "txid:", "txid:-1", "txid:4294967296", "txid:no", "txid: 1"] {
        assert!(matches!(value.parse::<OutPoint>(), Err(DomainError::InvalidRequest { .. })));
    }
}

#[test]
fn discovered_utxos_follow_confirmation_spendability_rules() {
    let confirmed = ManagedUtxo::discover_from_observed(
        OutPoint::new("tx-confirmed", 0),
        "acct",
        "scope",
        1_000,
        &ObservedConfirmation::Confirmed { height: 1, timestamp: 2 },
    );
    assert!(confirmed.is_policy_spendable());
    assert!(confirmed.can_be_locked(false));

    let mempool = ManagedUtxo::discover_from_observed(
        OutPoint::new("tx-mempool", 0),
        "acct",
        "scope",
        1_000,
        &ObservedConfirmation::Mempool,
    );
    assert_eq!(mempool.onchain_state, OnchainState::UnconfirmedIncoming);
    assert!(!mempool.is_policy_spendable());
    assert!(!mempool.can_be_locked(false));

    let unknown = ManagedUtxo::discover_from_observed(
        OutPoint::new("tx-unknown", 0),
        "acct",
        "scope",
        1_000,
        &ObservedConfirmation::Unknown,
    );
    assert_eq!(unknown.onchain_state, OnchainState::Unknown);
    assert!(!unknown.is_policy_spendable());
    assert!(!unknown.can_be_locked(false));
}

#[test]
fn reserve_mark_spent_and_mark_missing_follow_core_rules() {
    let mut utxo = ManagedUtxo::new(OutPoint::new("tx", 0), "acct", "scope", 1_000);
    assert!(utxo.can_be_locked(false));

    utxo.reserve("op1", OperationPhase::Selected);
    assert_eq!(utxo.availability, Availability::Reserved);
    assert_eq!(utxo.operation_binding.as_ref().unwrap().operation_id, "op1".into());

    utxo.mark_missing();
    assert_eq!(utxo.availability, Availability::Recovering);

    utxo.mark_spent();
    assert_eq!(utxo.onchain_state, OnchainState::Spent);
    assert_eq!(utxo.availability, Availability::BlockedByL2);
    assert!(utxo.operation_binding.is_none());
}

#[test]
fn release_binding_restores_selectable_or_policy_blocked() {
    let mut healthy = ManagedUtxo::new(OutPoint::new("tx-healthy", 0), "acct", "scope", 1_000);
    healthy.reserve("op1", OperationPhase::Selected);
    healthy.release_binding();
    assert_eq!(healthy.availability, Availability::Selectable);
    assert!(healthy.operation_binding.is_none());

    let mut conflicted = ManagedUtxo::new(OutPoint::new("tx-conflict", 0), "acct", "scope", 1_000);
    conflicted.reserve("op1", OperationPhase::Selected);
    conflicted.observation_conflict = Some(ObservationConflict { message: "mismatch".to_string(), recorded_at: 1 });
    conflicted.release_binding();
    assert_eq!(conflicted.availability, Availability::BlockedByPolicy);
    assert!(conflicted.operation_binding.is_none());

    let mut recovering = ManagedUtxo::new(OutPoint::new("tx-recovering", 0), "acct", "scope", 1_000);
    recovering.availability = Availability::Recovering;
    recovering.reserve("op1", OperationPhase::Selected);
    recovering.mark_missing();
    recovering.release_binding();
    assert_eq!(recovering.availability, Availability::Recovering);
}

#[test]
fn advancing_binding_retains_ownership_until_observed_spent() {
    let mut utxo = ManagedUtxo::new(OutPoint::new("tx-complete", 0), "acct", "scope", 1_000);
    utxo.reserve("op1", OperationPhase::Selected);
    for phase in [OperationPhase::Constructing, OperationPhase::Signed] {
        utxo.advance_binding(phase);
        assert_eq!(utxo.onchain_state, OnchainState::Confirmed);
        assert_eq!(utxo.availability, Availability::Reserved);
        assert_eq!(utxo.operation_binding.as_ref().unwrap().phase, phase);
        assert!(!utxo.is_policy_spendable());
    }
    utxo.advance_binding(OperationPhase::Broadcast);
    assert_eq!(utxo.onchain_state, OnchainState::SpendingInFlight);
    assert_eq!(utxo.availability, Availability::BlockedByL2);
    assert_eq!(utxo.operation_binding.as_ref().unwrap().phase, OperationPhase::Broadcast);

    utxo.mark_spent();
    utxo.advance_binding(OperationPhase::AwaitingConfirmation);
    assert_eq!(utxo.onchain_state, OnchainState::Spent);
    assert_eq!(utxo.availability, Availability::BlockedByL2);
    assert!(utxo.operation_binding.is_none());
}

#[test]
fn capability_codec_preserves_legacy_names() {
    assert_eq!(Capability::from_name("rgb_receive").unwrap(), Capability::SingleTargetReserve);
}

#[test]
fn state_codec_round_trips_current_names() {
    for (value, encoded) in [
        (OnchainState::Unknown, "unknown"),
        (OnchainState::UnconfirmedIncoming, "unconfirmed_incoming"),
        (OnchainState::Confirmed, "confirmed"),
        (OnchainState::SpendingInFlight, "spending_in_flight"),
        (OnchainState::Spent, "spent"),
    ] {
        assert_eq!(value.name(), encoded);
        assert_eq!(OnchainState::from_name(encoded).unwrap(), value);
    }

    for (value, encoded) in [
        (Availability::Unknown, "unknown"),
        (Availability::Selectable, "selectable"),
        (Availability::Reserved, "reserved"),
        (Availability::Locked, "locked"),
        (Availability::BlockedByPolicy, "blocked_by_policy"),
        (Availability::BlockedByL2, "blocked_by_l2"),
        (Availability::Recovering, "recovering"),
    ] {
        assert_eq!(value.name(), encoded);
        assert_eq!(Availability::from_name(encoded).unwrap(), value);
    }

    for (value, encoded) in [
        (UtxoRole::Unknown, "unknown"),
        (UtxoRole::General, "general"),
        (UtxoRole::SpendPreferred, "spend_preferred"),
        (UtxoRole::Reserve, "reserve"),
        (UtxoRole::RecoveryOutput, "recovery_output"),
        (UtxoRole::ConsolidationCandidate, "consolidation_candidate"),
    ] {
        assert_eq!(value.name(), encoded);
        assert_eq!(UtxoRole::from_name(encoded).unwrap(), value);
    }
}

#[test]
fn operation_codec_round_trips_current_names() {
    for (value, encoded) in [
        (LockPurpose::ManualReservation, "manual_reservation"),
        (LockPurpose::BtcSend, "btc_send"),
        (LockPurpose::FeeSupport, "fee_support"),
        (LockPurpose::PlannedSelection, "planned_selection"),
    ] {
        assert_eq!(value.name(), encoded);
        assert_eq!(LockPurpose::from_name(encoded).unwrap(), value);
    }

    for (value, encoded) in [
        (OperationPhase::Selected, "selected"),
        (OperationPhase::Constructing, "constructing"),
        (OperationPhase::Signed, "signed"),
        (OperationPhase::Broadcast, "broadcast"),
        (OperationPhase::AwaitingConfirmation, "awaiting_confirmation"),
        (OperationPhase::AwaitingL2Finality, "awaiting_l2_finality"),
        (OperationPhase::RollingBack, "rolling_back"),
    ] {
        assert_eq!(value.name(), encoded);
        assert_eq!(OperationPhase::from_name(encoded).unwrap(), value);
    }

    for (value, encoded) in [
        (IntentStatus::Pending, "pending"),
        (IntentStatus::Committed, "committed"),
        (IntentStatus::Failed, "failed"),
    ] {
        assert_eq!(value.name(), encoded);
        assert_eq!(IntentStatus::from_name(encoded).unwrap(), value);
    }
}

#[test]
fn lock_purpose_codec_preserves_legacy_aliases() {
    for alias in [
        "single_target_reserve",
        "anchor_with_fee_support",
        "rgb_receive_preparation",
        "rgb_l1_send",
        "channel_funding",
    ] {
        assert_eq!(LockPurpose::from_name(alias).unwrap(), LockPurpose::PlannedSelection);
    }
}
