use txoscope::capability::{Capability, CapabilitySet};
use txoscope::clock::{manual_reservation_id, Clock, RandomReservationIdGenerator, ReservationIdGenerator, UtcClock};
use txoscope::codec::SqliteCodec;
use txoscope::errors::DomainError;
use txoscope::ids::OperationId;
use txoscope::lock::LockPurpose;
use txoscope::memory::InMemoryStateStore;
use txoscope::operation::{OperationPhase, OperationSelection, SelectionEffect};
use txoscope::orchestrator::Orchestrator;
use txoscope::outpoint::OutPoint;
use txoscope::selection_request::BtcSendRequest;
use txoscope::sim::{check_invariants, InvariantChecker, InvariantViolationKind, MetricsDelta, SimMetrics};
use txoscope::state::Availability;
use txoscope::{
    Account, BootstrapAccountConfig, BootstrapConfig, BootstrapScopeConfig, ManagedUtxo, ReserveManualUtxoRequest,
    TxoscopeService, WalletScope,
};

struct FixedClock(u64);

impl Clock for FixedClock {
    fn now_utc_unix_secs(&self) -> u64 {
        self.0
    }
}

struct FixedReservationId;

impl ReservationIdGenerator for FixedReservationId {
    fn generate(&self, now_utc_unix_secs: u64) -> OperationId {
        OperationId::new(format!("fixed-{now_utc_unix_secs}"))
    }
}

fn btc_orchestrator() -> Orchestrator<InMemoryStateStore> {
    let mut orch = Orchestrator::with_store(InMemoryStateStore::default());
    orch.add_account(Account::new(
        "btc",
        "BTC",
        vec!["btc-scope".into()],
        CapabilitySet::new([Capability::BtcSpend, Capability::ReserveSupport, Capability::SingleTargetReserve]),
    ))
    .unwrap();
    orch.add_scope(WalletScope::new(
        "btc-scope",
        "btc",
        "descriptor",
        "external",
        CapabilitySet::new([Capability::BtcSpend, Capability::ReserveSupport, Capability::SingleTargetReserve]),
        0,
    ))
    .unwrap();
    orch
}

fn manual_service(now: u64) -> TxoscopeService<InMemoryStateStore, FixedClock, FixedReservationId> {
    let mut service =
        TxoscopeService::with_store_and_dependencies(InMemoryStateStore::default(), FixedClock(now), FixedReservationId);
    let caps = CapabilitySet::new([Capability::ReserveSupport, Capability::SingleTargetReserve]);
    service
        .bootstrap(BootstrapConfig {
            owner: "owner".to_string(),
            accounts: vec![BootstrapAccountConfig { id: "acct".into(), name: "Acct".to_string(), capabilities: caps }],
            scopes: vec![BootstrapScopeConfig {
                id: "scope".into(),
                account_id: "acct".into(),
                descriptor_ref: "d".to_string(),
                derivation_scope: "e".to_string(),
                capabilities: caps,
                priority: 0,
            }],
        })
        .unwrap();
    service.orchestrator.add_utxo(ManagedUtxo::new(OutPoint::new("tx", 0), "acct", "scope", 1_000)).unwrap();
    service
}

#[test]
fn capability_codec_round_trips_current_names() {
    for (capability, encoded) in [
        (Capability::BtcSpend, "btc_spend"),
        (Capability::BtcReceive, "btc_receive"),
        (Capability::FeeSupport, "fee_support"),
        (Capability::ReserveSupport, "reserve_support"),
        (Capability::SingleTargetReserve, "single_target_reserve"),
        (Capability::L2Settlement, "l2_settlement"),
        (Capability::ConsolidationSource, "consolidation_source"),
        (Capability::ConsolidationTarget, "consolidation_target"),
    ] {
        assert_eq!(capability.name(), encoded);
        assert_eq!(Capability::from_name(encoded).unwrap(), capability);
    }

    let capabilities =
        CapabilitySet::new([Capability::BtcSpend, Capability::SingleTargetReserve, Capability::L2Settlement]);

    let encoded = SqliteCodec::encode_capabilities(&capabilities);
    let decoded = SqliteCodec::decode_capabilities(&encoded).unwrap();

    assert_eq!(decoded, capabilities);
}

#[test]
fn capability_lists_encode_in_declared_order() {
    let capabilities = CapabilitySet::new([Capability::L2Settlement, Capability::BtcSpend, Capability::BtcSpend]);
    assert_eq!(SqliteCodec::encode_capabilities(&capabilities), "btc_spend,l2_settlement");
    assert_eq!(SqliteCodec::encode_capabilities(&CapabilitySet::default()), "");
    assert_eq!(SqliteCodec::decode_capabilities("").unwrap(), CapabilitySet::default());
    assert_eq!(
        SqliteCodec::decode_capabilities("rgb_receive,btc_spend,rgb_receive").unwrap(),
        CapabilitySet::new([Capability::SingleTargetReserve, Capability::BtcSpend])
    );
}

#[test]
fn unknown_capability_names_are_corrupted_state() {
    assert_eq!(
        SqliteCodec::decode_capabilities("btc_spend,bogus,also_bogus"),
        Err(DomainError::CorruptedState(
            "invalid txoscope::capability::Capability value in sqlite row: bogus".to_string()
        ))
    );
    assert_eq!(
        SqliteCodec::decode_capabilities("btc_spend,"),
        Err(DomainError::CorruptedState("invalid txoscope::capability::Capability value in sqlite row: ".to_string()))
    );
}

#[test]
fn persisted_outpoints_must_be_canonical() {
    let outpoint = OutPoint::new(" opaque:tx ", 7);
    assert_eq!(SqliteCodec::decode_outpoint(&outpoint.to_string()).unwrap(), outpoint);
    assert_eq!(
        SqliteCodec::decode_outpoint("tx:07"),
        Err(DomainError::CorruptedState("noncanonical outpoint in sqlite row: tx:07".to_string()))
    );
    match SqliteCodec::decode_outpoint("no-index") {
        Err(DomainError::CorruptedState(message)) => {
            assert!(message.starts_with("invalid outpoint in sqlite row: no-index: invalid request: invalid outpoint"));
        },
        other => panic!("unexpected {other:?}"),
    }
}

#[test]
fn applying_a_selection_twice_changes_nothing_more() {
    let mut orch = btc_orchestrator();
    orch.add_utxo(ManagedUtxo::new(OutPoint::new("tx-a", 0), "btc", "btc-scope", 5_000)).unwrap();
    let selection = orch.propose_operation(BtcSendRequest::new("op", "btc", 1_000)).unwrap();
    orch.apply_selection(&selection).unwrap();
    let tick = orch.current_tick().unwrap();
    let utxo = orch.get_utxo(&OutPoint::new("tx-a", 0)).unwrap();
    let lock = orch.get_lock(&OutPoint::new("tx-a", 0)).unwrap();
    let intent = orch.get_intent(&OperationId::new("op")).unwrap();
    orch.apply_selection(&selection).unwrap();
    assert_eq!(orch.current_tick().unwrap(), tick);
    assert_eq!(orch.get_utxo(&OutPoint::new("tx-a", 0)).unwrap(), utxo);
    assert_eq!(orch.get_lock(&OutPoint::new("tx-a", 0)).unwrap(), lock);
    assert_eq!(orch.get_intent(&OperationId::new("op")).unwrap(), intent);
}

#[test]
fn invariant_checker_reports_inconsistent_outputs_in_order() {
    let mut orch = btc_orchestrator();
    let mut reserved = ManagedUtxo::new(OutPoint::new("tx-r", 0), "btc", "btc-scope", 1_000);
    reserved.availability = Availability::Reserved;
    orch.add_utxo(reserved).unwrap();
    let violations = InvariantChecker.check(3, &orch, &[]).unwrap();
    assert_eq!(violations.len(), 2);
    assert_eq!(violations[0].kind, InvariantViolationKind::ReservedWithoutBinding);
    assert_eq!(violations[1].kind, InvariantViolationKind::ReservedWithoutLock);
    assert_eq!(violations[0].step, 3);
    assert_eq!(violations[0].detail, "tx-r:0");

    let mut orch = btc_orchestrator();
    orch.add_utxo(ManagedUtxo::new(OutPoint::new("tx-u", 1), "btc", "btc-scope", 1_000)).unwrap();
    let mut unconfirmed = ManagedUtxo::new(OutPoint::new("tx-m", 2), "btc", "btc-scope", 1_000);
    unconfirmed.onchain_state = txoscope::OnchainState::UnconfirmedIncoming;
    orch.add_utxo(unconfirmed).unwrap();
    let violations = check_invariants(9, &orch, &[]).unwrap();
    assert_eq!(violations.len(), 1);
    assert_eq!(violations[0].kind, InvariantViolationKind::SelectableWhileUnconfirmed);
    assert_eq!(violations[0].detail, "tx-m:2:UnconfirmedIncoming");
}

#[test]
fn invariant_checker_flags_released_operations_still_holding_inputs() {
    let mut orch = btc_orchestrator();
    orch.add_utxo(ManagedUtxo::new(OutPoint::new("tx-a", 0), "btc", "btc-scope", 5_000)).unwrap();
    let selection = orch.propose_operation(BtcSendRequest::new("op", "btc", 1_000)).unwrap();
    orch.apply_selection(&selection).unwrap();
    let violations = InvariantChecker.check(1, &orch, &[OperationId::new("op")]).unwrap();
    assert_eq!(violations.len(), 2);
    assert_eq!(violations[0].kind, InvariantViolationKind::ReleasedOperationStillBound);
    assert_eq!(violations[0].detail, "op:tx-a:0");
    assert_eq!(violations[1].detail, "op:phase=Selected");

    orch.release_operation(&OperationId::new("op")).unwrap();
    assert!(InvariantChecker.check(2, &orch, &[OperationId::new("op")]).unwrap().is_empty());
}

#[test]
fn metrics_accumulate_each_step() {
    let mut metrics = SimMetrics::default();
    let delta = MetricsDelta { prepare_successes: 2, crash_count: 1, selected_input_count: 3, ..MetricsDelta::default() };
    metrics.apply_delta(&delta);
    metrics.apply_delta(&delta);
    assert_eq!(metrics.prepare_successes, 4);
    assert_eq!(metrics.crash_count, 2);
    assert_eq!(metrics.total_selected_input_count, 6);
    assert_eq!(metrics.prepare_failures, 0);
    assert_eq!(metrics.steps, 2);
}

#[test]
fn manual_reservation_lifetimes_are_clamped() {
    let mut service = manual_service(1_000);
    let short = service
        .reserve_manual_utxo(ReserveManualUtxoRequest {
            target_account_id: "acct".into(),
            outpoint: OutPoint::new("tx", 0),
            ttl_secs: 0,
        })
        .unwrap();
    assert_eq!(short.expires_at, 1_001);
    assert_eq!(short.reservation_id, OperationId::new("fixed-1000"));
    service.release_operation(&short.reservation_id).unwrap();

    let mut service = manual_service(1_000);
    let long = service
        .reserve_manual_utxo(ReserveManualUtxoRequest {
            target_account_id: "acct".into(),
            outpoint: OutPoint::new("tx", 0),
            ttl_secs: u64::MAX,
        })
        .unwrap();
    assert_eq!(long.expires_at, 1_000 + 604_800);

    let mut service = manual_service(u64::MAX - 5);
    let saturated = service
        .reserve_manual_utxo(ReserveManualUtxoRequest {
            target_account_id: "acct".into(),
            outpoint: OutPoint::new("tx", 0),
            ttl_secs: 60,
        })
        .unwrap();
    assert_eq!(saturated.expires_at, u64::MAX);
}

#[test]
fn expired_manual_reservations_are_released_on_read() {
    let mut service = manual_service(1_000);
    let reservation = service
        .reserve_manual_utxo(ReserveManualUtxoRequest {
            target_account_id: "acct".into(),
            outpoint: OutPoint::new("tx", 0),
            ttl_secs: 10,
        })
        .unwrap();
    assert_eq!(service.get_active_manual_reservation_at(&OutPoint::new("tx", 0), 1_009).unwrap(), Some(reservation));
    assert!(!service.is_outpoint_selectable(&OutPoint::new("tx", 0)).unwrap());
    assert_eq!(service.get_active_manual_reservation_at(&OutPoint::new("tx", 0), 1_010).unwrap(), None);
    assert!(service.is_outpoint_selectable(&OutPoint::new("tx", 0)).unwrap());
    assert_eq!(
        service.orchestrator.get_operation(&OperationId::new("fixed-1000")).unwrap().unwrap().phase,
        OperationPhase::RollingBack
    );
}

#[test]
fn random_reservation_ids_carry_time_and_an_alphanumeric_nonce() {
    let generator = RandomReservationIdGenerator;
    let first = generator.generate(1_234).into_string();
    let second = generator.generate(1_234).into_string();
    for id in [&first, &second] {
        let nonce = id.strip_prefix("manual-reservation-1234-").unwrap();
        assert_eq!(nonce.chars().count(), 32);
        assert!(nonce.chars().all(|c| c.is_ascii_alphanumeric()));
    }
    assert_ne!(first, second);
}

#[test]
fn utc_clock_reads_the_current_time() {
    let now = UtcClock.now_utc_unix_secs();
    assert!(now > 1_600_000_000);
    assert!(UtcClock.now_utc_unix_secs() >= now);
}

#[test]
fn lifecycle_errors_name_the_operation() {
    let mut orch = btc_orchestrator();
    orch.add_utxo(ManagedUtxo::new(OutPoint::new("tx-a", 0), "btc", "btc-scope", 5_000)).unwrap();
    assert_eq!(
        orch.release_operation(&OperationId::new("missing")),
        Err(DomainError::OperationNotFound(OperationId::new("missing")))
    );
    assert_eq!(
        orch.verify_planned_inputs(&OperationId::new("missing"), vec![]),
        Err(DomainError::IntentNotFound(OperationId::new("missing")))
    );
    let selection = orch.propose_operation(BtcSendRequest::new("op", "btc", 1_000)).unwrap();
    orch.apply_selection(&selection).unwrap();
    assert_eq!(
        orch.complete_operation(&OperationId::new("op"), OperationPhase::Signed, vec![]),
        Err(DomainError::PlannedInputsMismatch { operation_id: OperationId::new("op") })
    );
    orch.complete_operation(&OperationId::new("op"), OperationPhase::Signed, vec![OutPoint::new("tx-a", 0)]).unwrap();
    assert_eq!(
        orch.complete_operation(&OperationId::new("op"), OperationPhase::Constructing, vec![OutPoint::new("tx-a", 0)]),
        Err(DomainError::InvalidOperationTransition {
            operation_id: OperationId::new("op"),
            from: OperationPhase::Signed,
            to: OperationPhase::Constructing,
        })
    );
    let other = OperationSelection {
        operation_id: "op".into(),
        selected_outpoints: vec![OutPoint::new("tx-a", 0)],
        change_scope_id: "btc-scope".into(),
        effects: vec![SelectionEffect::LockUtxo { outpoint: OutPoint::new("tx-a", 0), purpose: LockPurpose::BtcSend }],
        expires_at: Some(5),
    };
    assert_eq!(
        orch.apply_selection(&other),
        Err(DomainError::IntentConflict { operation_id: OperationId::new("op") })
    );
}

#[test]
fn manual_reservation_ids_join_time_and_nonce() {
    assert_eq!(manual_reservation_id(1_234, "abc").into_string(), "manual-reservation-1234-abc");
    assert_eq!(manual_reservation_id(0, "").into_string(), "manual-reservation-0-");
}

#[test]
fn cleanup_releases_only_operations_older_than_max_age() {
    let mut orch = btc_orchestrator();
    orch.add_utxo(ManagedUtxo::new(OutPoint::new("tx-a", 0), "btc", "btc-scope", 5_000)).unwrap();
    orch.prepare_operation(BtcSendRequest::new("op", "btc", 1_000)).unwrap();
    let updated_at = orch.get_operation(&OperationId::new("op")).unwrap().unwrap().updated_at;

    let age = orch.current_tick().unwrap() - updated_at;
    assert!(age >= 1);
    let report = orch.cleanup_stale_reservations(age).unwrap();
    assert!(report.released_operations.is_empty());
    assert!(report.released_outpoints.is_empty());
    assert_eq!(orch.get_operation(&OperationId::new("op")).unwrap().unwrap().phase, OperationPhase::Selected);

    let age = orch.current_tick().unwrap() - updated_at;
    let report = orch.cleanup_stale_reservations(age - 1).unwrap();
    assert_eq!(report.released_operations, vec![OperationId::new("op")]);
    assert_eq!(report.released_outpoints, vec![OutPoint::new("tx-a", 0)]);
    assert_eq!(orch.get_operation(&OperationId::new("op")).unwrap().unwrap().phase, OperationPhase::RollingBack);
}

#[test]
fn cleanup_reports_released_inputs_grouped_by_operation() {
    let mut orch = btc_orchestrator();
    orch.add_utxo(ManagedUtxo::new(OutPoint::new("tx-a", 0), "btc", "btc-scope", 30_000)).unwrap();
    orch.add_utxo(ManagedUtxo::new(OutPoint::new("tx-a", 1), "btc", "btc-scope", 30_000)).unwrap();
    let first = orch.prepare_operation(BtcSendRequest::new("op-a", "btc", 50_000)).unwrap();
    orch.add_utxo(ManagedUtxo::new(OutPoint::new("tx-b", 0), "btc", "btc-scope", 40_000)).unwrap();
    let second = orch.prepare_operation(BtcSendRequest::new("op-b", "btc", 10_000)).unwrap();
    assert_eq!(first.selected_outpoints.len(), 2);
    assert_eq!(second.selected_outpoints, vec![OutPoint::new("tx-b", 0)]);

    let report = orch.cleanup_stale_reservations(0).unwrap();
    assert_eq!(report.released_operations.len(), 2);
    let mut expected = Vec::new();
    for id in &report.released_operations {
        if *id == OperationId::new("op-a") {
            expected.extend(first.selected_outpoints.iter().cloned());
        } else {
            expected.extend(second.selected_outpoints.iter().cloned());
        }
    }
    assert_eq!(report.released_outpoints, expected);
}

#[test]
fn check_invariants_reports_what_the_checker_reports() {
    let mut orch = btc_orchestrator();
    let mut reserved = ManagedUtxo::new(OutPoint::new("tx-r", 0), "btc", "btc-scope", 1_000);
    reserved.availability = Availability::Reserved;
    orch.add_utxo(reserved).unwrap();
    orch.add_utxo(ManagedUtxo::new(OutPoint::new("tx-a", 0), "btc", "btc-scope", 5_000)).unwrap();
    let selection = orch.propose_operation(BtcSendRequest::new("op", "btc", 1_000)).unwrap();
    orch.apply_selection(&selection).unwrap();
    let released = [OperationId::new("op")];
    let general = InvariantChecker.check(4, &orch, &released).unwrap();
    assert_eq!(general.len(), 4);
    assert_eq!(check_invariants(4, &orch, &released).unwrap(), general);
}
