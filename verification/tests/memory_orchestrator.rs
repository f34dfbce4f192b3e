use txoscope::account::{Account, WalletScope};
use txoscope::capability::{Capability, CapabilitySet};
use txoscope::capability::Capability::{BtcSpend, ReserveSupport, SingleTargetReserve};
use txoscope::errors::DomainError;
use txoscope::ids::OperationId;
use txoscope::lock::LockPurpose;
use txoscope::memory::InMemoryStateStore;
use txoscope::observation::{ObservationScope, ObservationSnapshot, ObservedConfirmation, ObservedUtxo};
use txoscope::operation::{IntentStatus, OperationBinding, OperationPhase, OperationSelection, SelectionEffect};
use txoscope::orchestrator::Orchestrator;
use txoscope::outpoint::OutPoint;
use txoscope::reconciliation::{ReconciliationAction, ReconciliationPlanner};
use txoscope::selection_request::{
    BtcSendRequest, ManualReservationExactRequest, ManualReservationFirstAvailableRequest,
    PlannedExactOutpointsRequest, PlannedSpecificOutpointRequest, SelectionRequest,
};
use txoscope::state::{Availability, OnchainState, UtxoRole};
use txoscope::store::{StateBatch, StateRead, StateStore};
use txoscope::utxo::{ManagedUtxo, ObservationConflict};

pub fn base_store() -> InMemoryStateStore {
    let mut store = InMemoryStateStore::default();

    store
        .put_account(Account::new(
            "btc",
            "BTC",
            vec![],
            CapabilitySet::new([
                Capability::BtcSpend,
                Capability::BtcReceive,
                Capability::ReserveSupport,
            ]),
        ))
        .unwrap();
    store
        .put_account(Account::new(
            "rgb",
            "L2",
            vec![],
            CapabilitySet::new([
                Capability::BtcReceive,
                Capability::SingleTargetReserve,
                Capability::FeeSupport,
                Capability::ReserveSupport,
                Capability::L2Settlement,
            ]),
        ))
        .unwrap();

    store
        .put_scope(WalletScope::new(
            "btc_primary_scope",
            "btc",
            "wpkh(desc-btc)",
            "m/84'/0'/0'/0/*",
            CapabilitySet::new([
                Capability::BtcSpend,
                Capability::BtcReceive,
                Capability::ReserveSupport,
            ]),
            10,
        ))
        .unwrap();

    store
        .put_scope(WalletScope::new(
            "rgb_operational_scope",
            "rgb",
            "wpkh(desc-rgb-op)",
            "m/84'/0'/10'/0/*",
            CapabilitySet::new([
                Capability::BtcReceive,
                Capability::SingleTargetReserve,
                Capability::ReserveSupport,
                Capability::L2Settlement,
            ]),
            10,
        ))
        .unwrap();

    store
        .put_scope(WalletScope::new(
            "rgb_btc_support_scope",
            "rgb",
            "wpkh(desc-rgb-btc)",
            "m/84'/0'/10'/1/*",
            CapabilitySet::new([
                Capability::FeeSupport,
                Capability::ReserveSupport,
                Capability::ConsolidationSource,
                Capability::BtcReceive,
            ]),
            20,
        ))
        .unwrap();

    store
}

pub fn base_orchestrator() -> Orchestrator<InMemoryStateStore> {
    Orchestrator::with_store(base_store())
}

pub fn utxo(txid: &str, vout: u32, account: &str, scope: &str, value_sats: u64) -> ManagedUtxo {
    ManagedUtxo::new(OutPoint::new(txid, vout), account, scope, value_sats)
}

#[test]
fn btc_send_selects_from_btc_scope_and_locks_inputs() {
    let mut orch = base_orchestrator();
    let mut spend = utxo("txa", 0, "btc", "btc_primary_scope", 40_000);
    spend.role = UtxoRole::SpendPreferred;
    orch.add_utxo(spend).unwrap();
    orch.add_utxo(utxo("txb", 1, "btc", "btc_primary_scope", 30_000)).unwrap();

    let selection =
        orch.prepare_operation(BtcSendRequest::new("op-btc-send", "btc", 50_000)).unwrap();

    assert_eq!(selection.change_scope_id, "btc_primary_scope".into());
    assert_eq!(selection.selected_outpoints.len(), 2);
    assert_eq!(
        orch.get_utxo(&OutPoint::new("txa", 0)).unwrap().unwrap().availability,
        Availability::Reserved
    );
}

#[test]
fn btc_send_proposal_is_read_only_until_applied() {
    let mut orch = base_orchestrator();
    let mut spend = utxo("txc", 0, "btc", "btc_primary_scope", 60_000);
    spend.role = UtxoRole::SpendPreferred;
    orch.add_utxo(spend).unwrap();

    let req = BtcSendRequest::new("op-btc-propose", "btc", 50_000);

    let selection = orch.propose_operation(req).unwrap();
    assert_eq!(selection.selected_outpoints, vec![OutPoint::new("txc", 0)]);
    assert_eq!(
        orch.get_utxo(&OutPoint::new("txc", 0)).unwrap().unwrap().availability,
        Availability::Selectable
    );

    orch.apply_selection(&selection).unwrap();
    assert_eq!(
        orch.get_utxo(&OutPoint::new("txc", 0)).unwrap().unwrap().availability,
        Availability::Reserved
    );
}

#[test]
fn apply_selection_is_atomic_when_any_input_is_unavailable() {
    let mut orch = base_orchestrator();
    let mut reserved = utxo("txd", 0, "btc", "btc_primary_scope", 30_000);
    reserved.availability = Availability::Reserved;
    orch.add_utxo(reserved).unwrap();
    orch.add_utxo(utxo("txe", 1, "btc", "btc_primary_scope", 40_000)).unwrap();

    let selection = OperationSelection {
        operation_id: "op-atomic".into(),
        selected_outpoints: vec![OutPoint::new("txd", 0), OutPoint::new("txe", 1)],
        change_scope_id: "btc_primary_scope".into(),
        effects: vec![
            SelectionEffect::LockUtxo {
                outpoint: OutPoint::new("txd", 0),
                purpose: LockPurpose::BtcSend,
            },
            SelectionEffect::LockUtxo {
                outpoint: OutPoint::new("txe", 1),
                purpose: LockPurpose::BtcSend,
            },
        ],
        expires_at: None,
    };

    let err = orch.apply_selection(&selection).unwrap_err();
    assert_eq!(
        err,
        DomainError::UtxoUnavailable {
            outpoint: OutPoint::new("txd", 0),
            availability: Availability::Reserved,
        }
    );
    assert_eq!(
        orch.get_utxo(&OutPoint::new("txd", 0)).unwrap().unwrap().availability,
        Availability::Reserved
    );
    assert_eq!(
        orch.get_utxo(&OutPoint::new("txe", 1)).unwrap().unwrap().availability,
        Availability::Selectable
    );
    assert_eq!(orch.get_utxo(&OutPoint::new("txe", 1)).unwrap().unwrap().operation_binding, None);
}

#[test]
fn apply_selection_is_idempotent_for_same_operation() {
    let mut orch = base_orchestrator();
    orch.add_utxo(utxo("txf", 0, "btc", "btc_primary_scope", 80_000)).unwrap();

    let selection =
        orch.propose_operation(BtcSendRequest::new("op-btc-idempotent", "btc", 50_000)).unwrap();

    orch.apply_selection(&selection).unwrap();
    orch.apply_selection(&selection).unwrap();

    let utxo = orch.get_utxo(&OutPoint::new("txf", 0)).unwrap().unwrap();
    assert_eq!(utxo.availability, Availability::Reserved);
    assert_eq!(utxo.operation_binding.unwrap().operation_id, "op-btc-idempotent".into());
    assert_eq!(
        orch.get_operation(&"op-btc-idempotent".into()).unwrap().unwrap().phase,
        OperationPhase::Selected
    );
    assert!(orch.pending_intents().unwrap().is_empty());
}

#[test]
fn planned_exact_outpoints_preserves_caller_order() {
    let mut orch = base_orchestrator();
    orch.add_utxo(utxo("tx-order-a", 0, "btc", "btc_primary_scope", 20_000)).unwrap();
    orch.add_utxo(utxo("tx-order-b", 1, "btc", "btc_primary_scope", 30_000)).unwrap();

    let selection = orch
        .prepare_operation(PlannedExactOutpointsRequest::new(
            "op-preserve-order",
            "btc",
            vec![OutPoint::new("tx-order-b", 1), OutPoint::new("tx-order-a", 0)],
        ))
        .unwrap();

    assert_eq!(
        selection.selected_outpoints,
        vec![OutPoint::new("tx-order-b", 1), OutPoint::new("tx-order-a", 0)]
    );
}

fn orchestrator(
    account_caps: &[Capability], scopes: &[(&str, &[Capability])],
) -> Orchestrator<InMemoryStateStore> {
    let mut orch = Orchestrator::with_store(InMemoryStateStore::default());
    orch.add_account(Account::new(
        "account",
        "Account",
        vec![],
        CapabilitySet::from_slice(account_caps),
    ))
    .unwrap();
    for (priority, (id, caps)) in scopes.iter().enumerate() {
        orch.add_scope(WalletScope::new(
            *id,
            "account",
            "descriptor",
            "external",
            CapabilitySet::from_slice(caps),
            priority as u32,
        ))
        .unwrap();
        orch.add_utxo(utxo(id, 0, "account", id, 10_000 + priority as u64)).unwrap();
    }
    orch
}

fn requests() -> Vec<(SelectionRequest, Vec<Capability>)> {
    vec![
        (BtcSendRequest::new("op", "account", 1).into(), vec![BtcSpend]),
        (
            PlannedExactOutpointsRequest::new("op", "account", vec![OutPoint::new("allowed", 0)])
                .into(),
            vec![ReserveSupport],
        ),
        (
            PlannedSpecificOutpointRequest::new("op", "account", OutPoint::new("allowed", 0))
                .into(),
            vec![ReserveSupport],
        ),
        (
            ManualReservationExactRequest::new("op", "account", OutPoint::new("allowed", 0), 100)
                .into(),
            vec![ReserveSupport, SingleTargetReserve],
        ),
        (
            ManualReservationFirstAvailableRequest::new(
                "op",
                "account",
                vec![OutPoint::new("allowed", 0)],
                100,
            )
            .into(),
            vec![ReserveSupport, SingleTargetReserve],
        ),
    ]
}

#[test]
fn every_request_requires_each_capability_on_account_and_scope() {
    for (request, required) in requests() {
        for missing in &required {
            let partial: Vec<_> = required.iter().copied().filter(|c| c != missing).collect();
            let scope_error = match &request {
                SelectionRequest::BtcSend(_)
                | SelectionRequest::ManualReservationFirstAvailable(_) => {
                    DomainError::NoEligibleScope { account_id: "account".into() }
                },
                _ => DomainError::MissingCapabilities { scope_id: "allowed".into() },
            };
            for (mut orch, expected) in [
                (
                    orchestrator(&partial, &[("allowed", &required)]),
                    DomainError::MissingAccountCapabilities { account_id: "account".into() },
                ),
                (orchestrator(&required, &[("allowed", &partial)]), scope_error),
            ] {
                assert_eq!(
                    orch.prepare_operation(request.clone()),
                    Err(expected),
                    "{request:?}, missing {missing:?}"
                );
                assert!(orch.get_lock(&OutPoint::new("allowed", 0)).unwrap().is_none());
                assert!(orch.list_operations().unwrap().is_empty());
                assert!(orch.pending_intents().unwrap().is_empty());
                assert_eq!(
                    orch.get_utxo(&OutPoint::new("allowed", 0)).unwrap().unwrap().availability,
                    Availability::Selectable
                );
            }
        }
        let mut orch = orchestrator(&required, &[("allowed", &required)]);
        assert_eq!(
            orch.prepare_operation(request).unwrap().selected_outpoints,
            vec![OutPoint::new("allowed", 0)]
        );
    }
}

#[test]
fn btc_send_excludes_unauthorized_inputs_and_change_even_with_better_priority_and_value() {
    let orch = orchestrator(&[BtcSpend], &[("blocked", &[]), ("allowed", &[BtcSpend])]);
    let selection = orch.propose_operation(BtcSendRequest::new("op", "account", 1)).unwrap();
    assert_eq!(selection.selected_outpoints, vec![OutPoint::new("allowed", 0)]);
    assert_eq!(selection.change_scope_id, "allowed".into());
    assert_eq!(
        orch.propose_operation(BtcSendRequest::new("op", "account", 15_000)),
        Err(DomainError::InsufficientFunds)
    );
}

#[test]
fn exact_requests_reject_ineligible_scope_despite_another_eligible_scope() {
    for (request, required) in requests().into_iter().skip(1).take(3) {
        let mut orch = orchestrator(&required, &[("allowed", &[]), ("other", &required)]);
        assert_eq!(
            orch.prepare_operation(request),
            Err(DomainError::MissingCapabilities { scope_id: "allowed".into() })
        );
        assert!(orch.get_lock(&OutPoint::new("allowed", 0)).unwrap().is_none());
        assert!(orch.pending_intents().unwrap().is_empty());
    }
}

#[test]
fn first_available_skips_ineligible_scopes_and_rejects_only_ineligible_candidates() {
    let caps = [ReserveSupport, SingleTargetReserve];
    let orch = orchestrator(&caps, &[("a-blocked", &[ReserveSupport]), ("z-allowed", &caps)]);
    let selection = orch
        .propose_operation(ManualReservationFirstAvailableRequest::new(
            "op",
            "account",
            vec![OutPoint::new("a-blocked", 0), OutPoint::new("z-allowed", 0)],
            100,
        ))
        .unwrap();
    assert_eq!(selection.selected_outpoints, vec![OutPoint::new("z-allowed", 0)]);
    assert_eq!(selection.change_scope_id, "z-allowed".into());
    assert_eq!(
        orch.propose_operation(ManualReservationFirstAvailableRequest::new(
            "op",
            "account",
            vec![OutPoint::new("a-blocked", 0)],
            100
        )),
        Err(DomainError::NoCandidateAvailable)
    );
}

#[test]
fn capabilities_cannot_be_combined_across_scopes() {
    let orch = orchestrator(
        &[ReserveSupport, SingleTargetReserve],
        &[("allowed", &[ReserveSupport]), ("other", &[SingleTargetReserve])],
    );
    for (request, expected) in [
        (
            SelectionRequest::from(ManualReservationExactRequest::new(
                "op",
                "account",
                OutPoint::new("allowed", 0),
                100,
            )),
            DomainError::MissingCapabilities { scope_id: "allowed".into() },
        ),
        (
            ManualReservationFirstAvailableRequest::new(
                "op",
                "account",
                vec![OutPoint::new("allowed", 0), OutPoint::new("other", 0)],
                100,
            )
            .into(),
            DomainError::NoEligibleScope { account_id: "account".into() },
        ),
    ] {
        assert_eq!(orch.propose_operation(request), Err(expected));
    }
}

#[test]
fn mixed_exact_inputs_fail_without_reserving_the_eligible_input() {
    let mut orch =
        orchestrator(&[ReserveSupport], &[("allowed", &[ReserveSupport]), ("blocked", &[])]);
    assert_eq!(
        orch.prepare_operation(PlannedExactOutpointsRequest::new(
            "op",
            "account",
            vec![OutPoint::new("allowed", 0), OutPoint::new("blocked", 0)]
        )),
        Err(DomainError::MissingCapabilities { scope_id: "blocked".into() })
    );
    for outpoint in [OutPoint::new("allowed", 0), OutPoint::new("blocked", 0)] {
        assert!(orch.get_lock(&outpoint).unwrap().is_none());
        assert_eq!(
            orch.get_utxo(&outpoint).unwrap().unwrap().availability,
            Availability::Selectable
        );
    }
    assert!(orch.list_operations().unwrap().is_empty());
    assert!(orch.pending_intents().unwrap().is_empty());
}

#[test]
fn account_without_scopes_has_no_eligible_selection() {
    for (request, required) in requests() {
        let mut orch = orchestrator(&required, &[]);
        orch.add_utxo(utxo("allowed", 0, "account", "allowed", 10_000)).unwrap();
        let expected = match &request {
            SelectionRequest::BtcSend(_) | SelectionRequest::ManualReservationFirstAvailable(_) => {
                DomainError::NoEligibleScope { account_id: "account".into() }
            },
            _ => DomainError::ScopeNotFound("allowed".into()),
        };
        assert_eq!(orch.propose_operation(request), Err(expected));
    }
}

#[test]
fn exact_capability_error_is_independent_of_eligible_siblings() {
    for (request, required) in requests().into_iter().skip(1).take(3) {
        for scopes in
            [vec![("allowed", &[][..])], vec![("allowed", &[][..]), ("other", required.as_slice())]]
        {
            let orch = orchestrator(&required, &scopes);
            assert_eq!(
                orch.propose_operation(request.clone()),
                Err(DomainError::MissingCapabilities { scope_id: "allowed".into() })
            );
        }
    }
}

#[test]
fn empty_exact_request_is_invalid_even_without_eligible_scopes() {
    for scopes in [vec![], vec![("blocked", &[][..])]] {
        let orch = orchestrator(&[ReserveSupport], &scopes);
        assert_eq!(
            orch.propose_operation(PlannedExactOutpointsRequest::new("op", "account", vec![])),
            Err(DomainError::InvalidRequest {
                reason: "exact selection requires at least one outpoint".into()
            })
        );
    }
}

fn explicit_selection(
    purpose: LockPurpose,
) -> OperationSelection {
    OperationSelection {
        operation_id: "explicit".into(),
        selected_outpoints: vec![OutPoint::new("allowed", 0)],
        change_scope_id: "allowed".into(),
        effects: vec![SelectionEffect::LockUtxo { outpoint: OutPoint::new("allowed", 0), purpose }],
        expires_at: Some(100),
    }
}

#[test]
fn direct_apply_checks_every_purposes_account_input_and_change_capabilities() {
    for (purpose, required) in [
        (LockPurpose::BtcSend, vec![BtcSpend]),
        (LockPurpose::PlannedSelection, vec![ReserveSupport]),
        (LockPurpose::ManualReservation, vec![ReserveSupport, SingleTargetReserve]),
    ] {
        for missing in &required {
            let partial: Vec<_> = required.iter().copied().filter(|cap| cap != missing).collect();
            for (mut orch, change, expected) in [
                (
                    orchestrator(&partial, &[("allowed", &required)]),
                    "allowed",
                    DomainError::MissingAccountCapabilities { account_id: "account".into() },
                ),
                (
                    orchestrator(&required, &[("allowed", &partial), ("other", &required)]),
                    "other",
                    DomainError::MissingCapabilities { scope_id: "allowed".into() },
                ),
                (
                    orchestrator(&required, &[("allowed", &required), ("change", &partial)]),
                    "change",
                    DomainError::MissingCapabilities { scope_id: "change".into() },
                ),
            ] {
                let mut selection = explicit_selection(purpose);
                selection.change_scope_id = change.into();
                assert_eq!(orch.apply_selection(&selection), Err(expected));
                assert!(orch.get_lock(&OutPoint::new("allowed", 0)).unwrap().is_none());
                assert!(orch.list_operations().unwrap().is_empty());
                assert_eq!(
                    orch.get_intent(&"explicit".into()).unwrap().unwrap().status,
                    IntentStatus::Failed
                );
            }
        }
        let mut orch = orchestrator(&required, &[("allowed", &required)]);
        let selection = explicit_selection(purpose);
        orch.apply_selection(&selection).unwrap();
        orch.apply_selection(&selection).unwrap();
        assert_eq!(orch.get_lock(&OutPoint::new("allowed", 0)).unwrap().unwrap().purpose, purpose);
    }
}

#[test]
fn application_commit_and_recovery_revalidate_revoked_capabilities() {
    for (request, required) in requests() {
        for revoke_account in [false, true] {
            for path in 0..3 {
                let mut orch = orchestrator(&required, &[("allowed", &required)]);
                let selection = orch.propose_operation(request.clone()).unwrap();
                if path != 0 {
                    orch.persist_selection_intent(selection.clone()).unwrap();
                }
                if revoke_account {
                    orch.add_account(Account::new(
                        "account",
                        "Account",
                        vec!["allowed".into()],
                        CapabilitySet::default(),
                    ))
                    .unwrap();
                } else {
                    orch.add_scope(WalletScope::new(
                        "allowed",
                        "account",
                        "descriptor",
                        "external",
                        CapabilitySet::default(),
                        0,
                    ))
                    .unwrap();
                }
                if path == 2 {
                    let report = orch.recover_pending_intents().unwrap();
                    assert_eq!(
                        report.failed_operations,
                        vec![OperationId::from("op")]
                    );
                    assert!(report.replayed_operations.is_empty());
                } else {
                    let result = if path == 0 {
                        orch.apply_selection(&selection)
                    } else {
                        orch.commit_recorded_intent(&"op".into())
                    };
                    let expected = if revoke_account {
                        DomainError::MissingAccountCapabilities { account_id: "account".into() }
                    } else {
                        DomainError::MissingCapabilities { scope_id: "allowed".into() }
                    };
                    assert_eq!(result, Err(expected));
                }
                assert!(orch.get_lock(&OutPoint::new("allowed", 0)).unwrap().is_none());
                assert!(orch.list_operations().unwrap().is_empty());
                assert_eq!(
                    orch.get_intent(&"op".into()).unwrap().unwrap().status,
                    IntentStatus::Failed
                );
            }
        }
    }
}

#[test]
fn crafted_selection_cannot_omit_or_duplicate_lock_effects() {
    for case in 0..5 {
        let mut orch = orchestrator(&[BtcSpend], &[("allowed", &[BtcSpend]), ("blocked", &[])]);
        let mut selection = explicit_selection(LockPurpose::BtcSend);
        match case {
            0 => selection.effects.clear(),
            1 => selection.selected_outpoints.push(OutPoint::new("blocked", 0)),
            2 => selection.effects.push(SelectionEffect::LockUtxo {
                outpoint: OutPoint::new("blocked", 0),
                purpose: LockPurpose::BtcSend,
            }),
            3 => selection.effects.push(selection.effects[0].clone()),
            _ => selection.selected_outpoints.push(OutPoint::new("allowed", 0)),
        }
        assert!(matches!(orch.apply_selection(&selection), Err(DomainError::CorruptedState(_))));
        assert!(orch.get_lock(&OutPoint::new("allowed", 0)).unwrap().is_none());
        assert!(orch.get_lock(&OutPoint::new("blocked", 0)).unwrap().is_none());
        assert!(orch.list_operations().unwrap().is_empty());
    }
}

#[test]
fn memory_batch_rejects_capability_bypass_without_orchestrator() {
    let mut store = base_store();
    store.put_utxo(utxo("allowed", 0, "btc", "btc_primary_scope", 50_000)).unwrap();
    store
        .put_scope(WalletScope::new(
            "btc_primary_scope",
            "btc",
            "descriptor",
            "external",
            CapabilitySet::default(),
            0,
        ))
        .unwrap();
    let mut selection = explicit_selection(LockPurpose::BtcSend);
    selection.change_scope_id = "btc_primary_scope".into();
    let tick = store.current_tick().unwrap();
    assert_eq!(
        store.apply_batch(StateBatch {
            selection,
            phase: OperationPhase::Selected,
            owner: "test".into()
        }),
        Err(DomainError::MissingCapabilities { scope_id: "btc_primary_scope".into() })
    );
    assert_eq!(store.current_tick().unwrap(), tick);
    assert!(store.get_lock(&OutPoint::new("allowed", 0)).unwrap().is_none());
    assert!(store.list_operations().unwrap().is_empty());
}

#[test]
fn memory_replay_rejects_rollback_and_different_lock_identity() {
    for mode in 0..3 {
        let mut store = base_store();
        store.put_utxo(utxo("allowed", 0, "rgb", "rgb_operational_scope", 50_000)).unwrap();
        let mut selection = explicit_selection(LockPurpose::ManualReservation);
        selection.change_scope_id = "rgb_operational_scope".into();
        let mut batch =
            StateBatch { selection, phase: OperationPhase::Selected, owner: "test".into() };
        store.apply_batch(batch.clone()).unwrap();
        match mode {
            0 => {
                store.release_operation(&"explicit".into(), OperationPhase::RollingBack).unwrap();
            },
            1 => {
                batch.selection.effects = vec![SelectionEffect::LockUtxo {
                    outpoint: OutPoint::new("allowed", 0),
                    purpose: LockPurpose::PlannedSelection,
                }];
            },
            _ => {
                batch.selection.expires_at = Some(200);
            },
        }
        let previous = store.get_lock(&OutPoint::new("allowed", 0)).unwrap();
        let tick = store.current_tick().unwrap();
        let result = store.apply_batch(batch);
        if mode == 0 {
            assert!(matches!(result, Err(DomainError::InvalidOperationTransition { .. })));
        } else {
            assert!(matches!(result, Err(DomainError::IntentConflict { .. })));
        }
        assert_eq!(store.get_lock(&OutPoint::new("allowed", 0)).unwrap(), previous);
        assert_eq!(store.current_tick().unwrap(), tick);
    }
}

#[test]
fn test_discovery_tracks_generic_observed_utxo() {
    let mut store = base_store();

    let op = OutPoint::new("tx1", 0);
    let observed =
        ObservedUtxo::new(op.clone(), "rgb", "rgb_operational_scope", 10000).confirmed(100, 1000);

    let snapshot = ObservationSnapshot::new(1000, ObservationScope::Incremental).add_utxo(observed);

    let plan = ReconciliationPlanner::new(&store).plan(&snapshot).unwrap();
    store.apply_reconciliation(plan).unwrap();

    let utxo = store.get_utxo(&op).unwrap().unwrap();
    assert_eq!(utxo.account_id, "rgb".into());
    assert_eq!(utxo.scope_id, "rgb_operational_scope".into());
    assert_eq!(utxo.onchain_state, OnchainState::Confirmed);
}

#[test]
fn test_conflict_persistence() {
    let mut store = base_store();
    let op = OutPoint::new("tx1", 0);

    // Setup a reserved UTXO
    let mut utxo = ManagedUtxo::new(op.clone(), "btc", "btc_primary_scope", 50000);
    utxo.availability = Availability::Reserved;
    store.put_utxo(utxo).unwrap();

    // Observe it as spent
    let observed =
        ObservedUtxo::new(op.clone(), "btc", "btc_primary_scope", 50000).spent("tx_spending");

    let snapshot = ObservationSnapshot::new(2000, ObservationScope::Incremental).add_utxo(observed);

    let plan = ReconciliationPlanner::new(&store).plan(&snapshot).unwrap();
    store.apply_reconciliation(plan).unwrap();

    let utxo = store.get_utxo(&op).unwrap().unwrap();
    assert_eq!(utxo.onchain_state, OnchainState::Spent);
    let conflict = utxo.observation_conflict.unwrap();
    assert!(conflict.message.contains("spent by tx_spending"));
    assert_eq!(conflict.recorded_at, 2000);
}

#[test]
fn test_no_resurrection_after_spend() {
    let mut store = base_store();
    let op = OutPoint::new("tx1", 0);

    // Setup a reserved UTXO bound to an operation
    let mut utxo = ManagedUtxo::new(op.clone(), "btc", "btc_primary_scope", 50000);
    utxo.availability = Availability::Reserved;
    utxo.operation_binding = Some(OperationBinding {
        operation_id: "op1".into(),
        phase: OperationPhase::Selected,
    });
    store.put_utxo(utxo).unwrap();

    // 1. Reconcile as spent
    let observed = ObservedUtxo::new(op.clone(), "btc", "btc_primary_scope", 50000).spent("tx_ext");
    let snapshot = ObservationSnapshot::new(3000, ObservationScope::Incremental).add_utxo(observed);
    let plan = ReconciliationPlanner::new(&store).plan(&snapshot).unwrap();
    store.apply_reconciliation(plan).unwrap();

    let utxo_after_reconcile = store.get_utxo(&op).unwrap().unwrap();
    assert_eq!(utxo_after_reconcile.onchain_state, OnchainState::Spent);

    // 2. Release operation (cleanup)
    store.release_operation(&"op1".into(), OperationPhase::RollingBack).unwrap();

    // 3. Verify it is NOT selectable
    let utxo_after_release = store.get_utxo(&op).unwrap().unwrap();
    assert_eq!(utxo_after_release.onchain_state, OnchainState::Spent);
    assert_ne!(utxo_after_release.availability, Availability::Selectable);
}

#[test]
fn spent_utxo_does_not_reopen_when_later_observed_unspent() {
    let mut store = base_store();
    let op = OutPoint::new("tx-reopen", 0);

    let mut utxo = ManagedUtxo::new(op.clone(), "btc", "btc_primary_scope", 50_000);
    utxo.mark_spent();
    store.put_utxo(utxo).unwrap();

    let snapshot = ObservationSnapshot::new(3_100, ObservationScope::Incremental).add_utxo(
        ObservedUtxo::new(op.clone(), "btc", "btc_primary_scope", 50_000).confirmed(101, 3_100),
    );

    let plan = ReconciliationPlanner::new(&store).plan(&snapshot).unwrap();
    store.apply_reconciliation(plan).unwrap();

    let persisted = store.get_utxo(&op).unwrap().unwrap();
    assert_eq!(persisted.onchain_state, OnchainState::Spent);
    assert_eq!(persisted.availability, Availability::BlockedByL2);
}

#[test]
fn test_incremental_snapshot_does_not_mark_missing() {
    let mut store = base_store();
    let op1 = OutPoint::new("tx1", 0);
    let op2 = OutPoint::new("tx2", 0);

    store.put_utxo(ManagedUtxo::new(op1.clone(), "btc", "btc_primary_scope", 10000)).unwrap();
    store.put_utxo(ManagedUtxo::new(op2.clone(), "btc", "btc_primary_scope", 20000)).unwrap();

    // Snapshot only contains op1
    let snapshot = ObservationSnapshot::new(4000, ObservationScope::Incremental)
        .add_utxo(ObservedUtxo::new(op1.clone(), "btc", "btc_primary_scope", 10000));

    let plan = ReconciliationPlanner::new(&store).plan(&snapshot).unwrap();
    store.apply_reconciliation(plan).unwrap();

    // op2 should still be selectable
    let utxo2 = store.get_utxo(&op2).unwrap().unwrap();
    assert_eq!(utxo2.availability, Availability::Selectable);

    // Now a FULL snapshot missing op2
    let snapshot_full = ObservationSnapshot::new(4001, ObservationScope::Full)
        .add_utxo(ObservedUtxo::new(op1.clone(), "btc", "btc_primary_scope", 10000));

    let plan_full = ReconciliationPlanner::new(&store).plan(&snapshot_full).unwrap();
    store.apply_reconciliation(plan_full).unwrap();

    // op2 should now be Recovering (Missing)
    let utxo2_full = store.get_utxo(&op2).unwrap().unwrap();
    assert_eq!(utxo2_full.availability, Availability::Recovering);
}

#[test]
fn test_recovery_from_missing_and_conflict() {
    let mut store = base_store();
    let op = OutPoint::new("tx1", 0);

    // 1. Setup a UTXO in Recovering state with a conflict
    let mut utxo = ManagedUtxo::new(op.clone(), "btc", "btc_primary_scope", 10000);
    utxo.availability = Availability::Recovering;
    utxo.observation_conflict = Some(ObservationConflict {
        message: "Old conflict".to_string(),
        recorded_at: 100,
    });
    store.put_utxo(utxo).unwrap();

    // 2. Observe it as healthy (Unspent + Confirmed)
    let observed =
        ObservedUtxo::new(op.clone(), "btc", "btc_primary_scope", 10000).confirmed(100, 1000);
    let snapshot = ObservationSnapshot::new(2000, ObservationScope::Incremental).add_utxo(observed);

    let plan = ReconciliationPlanner::new(&store).plan(&snapshot).unwrap();
    store.apply_reconciliation(plan).unwrap();

    // 3. Verify it is healed
    let utxo_healed = store.get_utxo(&op).unwrap().unwrap();
    assert_eq!(utxo_healed.availability, Availability::Selectable);
    assert!(utxo_healed.observation_conflict.is_none());
    assert_eq!(utxo_healed.onchain_state, OnchainState::Confirmed);
}

#[test]
fn test_unknown_confirmation_discovery() {
    let mut store = base_store();
    let op = OutPoint::new("tx1", 0);

    // Observed with Unknown confirmation
    let observed = ObservedUtxo::new(op.clone(), "btc", "btc_primary_scope", 10000);
    assert_eq!(observed.confirmation, ObservedConfirmation::Unknown);

    let snapshot = ObservationSnapshot::new(1000, ObservationScope::Incremental).add_utxo(observed);

    let plan = ReconciliationPlanner::new(&store).plan(&snapshot).unwrap();
    store.apply_reconciliation(plan).unwrap();

    let utxo = store.get_utxo(&op).unwrap().unwrap();
    assert_eq!(utxo.onchain_state, OnchainState::Unknown);
    assert_eq!(utxo.availability, Availability::BlockedByPolicy);
}

#[test]
fn test_observed_metadata_mismatch_blocks_selection_without_rewriting_local_state() {
    let mut store = base_store();
    let op = OutPoint::new("tx-meta", 0);

    store.put_utxo(ManagedUtxo::new(op.clone(), "btc", "btc_primary_scope", 50_000)).unwrap();

    let snapshot = ObservationSnapshot::new(5000, ObservationScope::Incremental).add_utxo(
        ObservedUtxo::new(op.clone(), "rgb", "rgb_operational_scope", 60_000).confirmed(101, 5000),
    );

    let plan = ReconciliationPlanner::new(&store).plan(&snapshot).unwrap();
    store.apply_reconciliation(plan).unwrap();

    let utxo = store.get_utxo(&op).unwrap().unwrap();
    assert_eq!(utxo.account_id, "btc".into());
    assert_eq!(utxo.scope_id, "btc_primary_scope".into());
    assert_eq!(utxo.value_sats, 50_000);
    assert_eq!(utxo.availability, Availability::BlockedByPolicy);
    assert!(utxo
        .observation_conflict
        .as_ref()
        .is_some_and(|conflict| conflict.message.contains("Observed metadata mismatch")));
}

#[test]
fn spent_reconcile_clears_binding_and_lock_for_reserved_utxo() {
    let mut store = base_store();
    let op = OutPoint::new("tx-spent", 0);

    store.put_utxo(ManagedUtxo::new(op.clone(), "rgb", "rgb_operational_scope", 50_000)).unwrap();
    store
        .apply_batch(StateBatch {
            selection: OperationSelection {
                operation_id: "op-spent".into(),
                selected_outpoints: vec![op.clone()],
                change_scope_id: "rgb_operational_scope".into(),
                effects: vec![SelectionEffect::LockUtxo {
                    outpoint: op.clone(),
                    purpose: LockPurpose::PlannedSelection,
                }],
                expires_at: None,
            },
            phase: OperationPhase::Selected,
            owner: "test".to_string(),
        })
        .unwrap();

    let snapshot = ObservationSnapshot::new(6000, ObservationScope::Incremental).add_utxo(
        ObservedUtxo::new(op.clone(), "rgb", "rgb_operational_scope", 50_000).spent("tx-ext"),
    );
    store
        .apply_reconciliation(ReconciliationPlanner::new(&store).plan(&snapshot).unwrap())
        .unwrap();

    let utxo = store.get_utxo(&op).unwrap().unwrap();
    assert!(utxo.operation_binding.is_none());
    assert_eq!(utxo.availability, Availability::BlockedByL2);
    assert!(store.get_lock(&op).unwrap().is_none());
}

#[test]
fn releasing_conflicted_reservation_restores_blocked_by_policy() {
    let mut store = base_store();
    let op = OutPoint::new("tx-conflicted", 0);

    store.put_utxo(ManagedUtxo::new(op.clone(), "rgb", "rgb_operational_scope", 50_000)).unwrap();
    store
        .apply_batch(StateBatch {
            selection: OperationSelection {
                operation_id: "op-conflicted".into(),
                selected_outpoints: vec![op.clone()],
                change_scope_id: "rgb_operational_scope".into(),
                effects: vec![SelectionEffect::LockUtxo {
                    outpoint: op.clone(),
                    purpose: LockPurpose::PlannedSelection,
                }],
                expires_at: None,
            },
            phase: OperationPhase::Selected,
            owner: "test".to_string(),
        })
        .unwrap();

    let snapshot = ObservationSnapshot::new(6100, ObservationScope::Incremental).add_utxo(
        ObservedUtxo::new(op.clone(), "btc", "btc_primary_scope", 60_000).confirmed(101, 6100),
    );
    store
        .apply_reconciliation(ReconciliationPlanner::new(&store).plan(&snapshot).unwrap())
        .unwrap();
    store.release_operation(&"op-conflicted".into(), OperationPhase::RollingBack).unwrap();

    let utxo = store.get_utxo(&op).unwrap().unwrap();
    assert!(utxo.operation_binding.is_none());
    assert_eq!(utxo.availability, Availability::BlockedByPolicy);
    assert!(utxo.observation_conflict.is_some());
}

#[test]
fn recover_pending_intents_replays_and_commits_selection() {
    let mut store = base_store();
    store.put_utxo(utxo("txr1", 0, "btc", "btc_primary_scope", 70_000)).unwrap();

    let selection = Orchestrator::<InMemoryStateStore>::with_store(store.clone())
        .propose_operation(BtcSendRequest::new("op-recover", "btc", 50_000))
        .unwrap();

    store.persist_intent(selection).unwrap();

    let mut orch = Orchestrator::<InMemoryStateStore>::with_store(store);
    let report = orch.recover_pending_intents().unwrap();

    assert_eq!(report.replayed_operations, vec![OperationId::from("op-recover")]);
    assert!(report.failed_operations.is_empty());
    assert_eq!(
        orch.get_utxo(&OutPoint::new("txr1", 0)).unwrap().unwrap().availability,
        Availability::Reserved
    );
    assert!(orch.pending_intents().unwrap().is_empty());
    assert_eq!(
        orch.get_operation(&"op-recover".into()).unwrap().unwrap().phase,
        OperationPhase::Selected
    );
}

#[test]
fn cleanup_stale_reservations_releases_selected_operation() {
    let mut orch = Orchestrator::<InMemoryStateStore>::with_store(base_store());
    orch.add_utxo(utxo("txc1", 0, "btc", "btc_primary_scope", 90_000)).unwrap();

    let selection =
        orch.prepare_operation(BtcSendRequest::new("op-cleanup", "btc", 50_000)).unwrap();
    assert_eq!(selection.selected_outpoints, vec![OutPoint::new("txc1", 0)]);

    let max_age = 0;
    let report = orch.cleanup_stale_reservations(max_age).unwrap();

    assert_eq!(report.released_operations, vec![OperationId::from("op-cleanup")]);
    assert_eq!(report.released_outpoints, vec![OutPoint::new("txc1", 0)]);
    assert_eq!(
        orch.get_utxo(&OutPoint::new("txc1", 0)).unwrap().unwrap().availability,
        Availability::Selectable
    );
    assert_eq!(
        orch.get_operation(&"op-cleanup".into()).unwrap().unwrap().phase,
        OperationPhase::RollingBack
    );
}

#[test]
fn prepare_pending_operation_persists_pending_intent_without_locking_utxo() {
    let mut orch = Orchestrator::<InMemoryStateStore>::with_store(base_store());
    orch.add_utxo(utxo("txp1", 0, "btc", "btc_primary_scope", 80_000)).unwrap();

    let selection =
        orch.prepare_pending_operation(BtcSendRequest::new("op-pending", "btc", 50_000)).unwrap();

    assert_eq!(selection.selected_outpoints, vec![OutPoint::new("txp1", 0)]);
    assert_eq!(
        orch.get_utxo(&OutPoint::new("txp1", 0)).unwrap().unwrap().availability,
        Availability::Selectable
    );
    assert_eq!(
        orch.get_intent(&"op-pending".into()).unwrap().unwrap().status,
        IntentStatus::Pending
    );
    assert!(orch.get_operation(&"op-pending".into()).unwrap().is_none());
}

#[test]
fn commit_recorded_intent_replays_pending_selection() {
    let mut orch = Orchestrator::<InMemoryStateStore>::with_store(base_store());
    orch.add_utxo(utxo("txp2", 0, "btc", "btc_primary_scope", 80_000)).unwrap();

    orch.prepare_pending_operation(BtcSendRequest::new("op-commit", "btc", 50_000)).unwrap();

    orch.commit_recorded_intent(&"op-commit".into()).unwrap();

    assert_eq!(
        orch.get_utxo(&OutPoint::new("txp2", 0)).unwrap().unwrap().availability,
        Availability::Reserved
    );
    assert_eq!(
        orch.get_intent(&"op-commit".into()).unwrap().unwrap().status,
        IntentStatus::Committed
    );
    assert_eq!(
        orch.get_operation(&"op-commit".into()).unwrap().unwrap().phase,
        OperationPhase::Selected
    );
}

#[test]
fn fail_recorded_intent_marks_pending_selection_failed() {
    let mut orch = Orchestrator::<InMemoryStateStore>::with_store(base_store());
    orch.add_utxo(utxo("txp3", 0, "btc", "btc_primary_scope", 80_000)).unwrap();

    orch.prepare_pending_operation(BtcSendRequest::new("op-fail", "btc", 50_000)).unwrap();

    orch.fail_recorded_intent(&"op-fail".into()).unwrap();

    assert_eq!(
        orch.get_utxo(&OutPoint::new("txp3", 0)).unwrap().unwrap().availability,
        Availability::Selectable
    );
    assert_eq!(orch.get_intent(&"op-fail".into()).unwrap().unwrap().status, IntentStatus::Failed);
    assert!(orch.get_operation(&"op-fail".into()).unwrap().is_none());
}

#[test]
fn persist_intent_rejects_reusing_operation_id_for_different_selection() {
    let mut store = base_store();
    store.put_utxo(utxo("txi1", 0, "btc", "btc_primary_scope", 60_000)).unwrap();
    store.put_utxo(utxo("txi2", 0, "btc", "btc_primary_scope", 70_000)).unwrap();

    store
        .persist_intent(OperationSelection {
            operation_id: "op-reused".into(),
            selected_outpoints: vec![OutPoint::new("txi1", 0)],
            change_scope_id: "btc_primary_scope".into(),
            effects: vec![SelectionEffect::LockUtxo {
                outpoint: OutPoint::new("txi1", 0),
                purpose: LockPurpose::BtcSend,
            }],
            expires_at: None,
        })
        .unwrap();

    let err = store
        .persist_intent(OperationSelection {
            operation_id: "op-reused".into(),
            selected_outpoints: vec![OutPoint::new("txi2", 0)],
            change_scope_id: "btc_primary_scope".into(),
            effects: vec![SelectionEffect::LockUtxo {
                outpoint: OutPoint::new("txi2", 0),
                purpose: LockPurpose::BtcSend,
            }],
            expires_at: None,
        })
        .unwrap_err();

    assert_eq!(err, DomainError::IntentConflict { operation_id: "op-reused".into() });
}

#[test]
fn complete_operation_verifies_planned_inputs_and_allows_monotonic_phase_advance() {
    let mut orch = Orchestrator::<InMemoryStateStore>::with_store(base_store());
    orch.add_utxo(utxo("txdone", 0, "btc", "btc_primary_scope", 80_000)).unwrap();

    orch.prepare_operation(BtcSendRequest::new("op-complete", "btc", 50_000)).unwrap();

    let err = orch
        .complete_operation(
            &"op-complete".into(),
            OperationPhase::Signed,
            vec![OutPoint::new("wrong", 0)],
        )
        .unwrap_err();
    assert_eq!(err, DomainError::PlannedInputsMismatch { operation_id: "op-complete".into() });

    let completed = orch
        .complete_operation(
            &"op-complete".into(),
            OperationPhase::Signed,
            vec![OutPoint::new("txdone", 0)],
        )
        .unwrap();
    assert_eq!(completed, vec![OutPoint::new("txdone", 0)]);
    assert_eq!(
        orch.get_utxo(&OutPoint::new("txdone", 0)).unwrap().unwrap().availability,
        Availability::Reserved
    );
    assert_eq!(
        orch.get_utxo(&OutPoint::new("txdone", 0)).unwrap().unwrap().onchain_state,
        OnchainState::Confirmed
    );
    assert_eq!(
        orch.get_operation(&"op-complete".into()).unwrap().unwrap().phase,
        OperationPhase::Signed
    );

    let advanced = orch
        .complete_operation(
            &"op-complete".into(),
            OperationPhase::Broadcast,
            Vec::<OutPoint>::new(),
        )
        .unwrap();
    assert_eq!(advanced, vec![OutPoint::new("txdone", 0)]);
    assert_eq!(
        orch.get_operation(&"op-complete".into()).unwrap().unwrap().phase,
        OperationPhase::Broadcast
    );
}

#[test]
fn rejected_replay_releases_previously_applied_pending_batch() {
    for purpose in [
        LockPurpose::BtcSend,
        LockPurpose::PlannedSelection,
        LockPurpose::ManualReservation,
        LockPurpose::FeeSupport,
    ] {
        for path in 0..3 {
            let mut store = base_store();
            let mut account = store.get_account(&"btc".into()).unwrap().unwrap();
            account.capabilities = CapabilitySet::new([
                Capability::BtcSpend,
                Capability::ReserveSupport,
                Capability::SingleTargetReserve,
                Capability::FeeSupport,
            ]);
            store.put_account(account.clone()).unwrap();
            store
                .put_scope(WalletScope::new(
                    "btc_primary_scope",
                    "btc",
                    "descriptor",
                    "external",
                    account.capabilities,
                    0,
                ))
                .unwrap();
            store.put_utxo(utxo("crash", 0, "btc", "btc_primary_scope", 50_000)).unwrap();
            let selection = OperationSelection {
                operation_id: "crash".into(),
                selected_outpoints: vec![OutPoint::new("crash", 0)],
                change_scope_id: "btc_primary_scope".into(),
                effects: vec![SelectionEffect::LockUtxo {
                    outpoint: OutPoint::new("crash", 0),
                    purpose,
                }],
                expires_at: Some(100),
            };
            store.persist_intent(selection.clone()).unwrap();
            store
                .apply_batch(StateBatch {
                    selection,
                    phase: OperationPhase::Selected,
                    owner: "test".into(),
                })
                .unwrap();
            store
                .put_scope(WalletScope::new(
                    "btc_primary_scope",
                    "btc",
                    "descriptor",
                    "external",
                    CapabilitySet::default(),
                    0,
                ))
                .unwrap();
            let mut orch = Orchestrator::with_store(store);
            assert_eq!(
                orch.complete_operation(
                    &"crash".into(),
                    OperationPhase::Constructing,
                    vec![OutPoint::new("crash", 0)]
                ),
                Err(DomainError::IntentNotCommitted("crash".into()))
            );
            match path {
                0 => {
                    assert!(matches!(
                        orch.commit_recorded_intent(&"crash".into()),
                        Err(DomainError::MissingCapabilities { .. })
                    ));
                },
                1 => {
                    assert_eq!(
                        orch.recover_pending_intents().unwrap().failed_operations,
                        vec![OperationId::from("crash")]
                    );
                },
                _ => {
                    orch.fail_recorded_intent(&"crash".into()).unwrap();
                },
            }
            assert!(orch.get_lock(&OutPoint::new("crash", 0)).unwrap().is_none());
            assert_eq!(
                orch.get_utxo(&OutPoint::new("crash", 0)).unwrap().unwrap().availability,
                Availability::Selectable
            );
            assert_eq!(
                orch.get_operation(&"crash".into()).unwrap().unwrap().phase,
                OperationPhase::RollingBack
            );
            assert_eq!(
                orch.get_intent(&"crash".into()).unwrap().unwrap().status,
                IntentStatus::Failed
            );
            assert_eq!(
                orch.complete_operation(
                    &"crash".into(),
                    OperationPhase::Constructing,
                    vec![OutPoint::new("crash", 0)]
                ),
                Err(DomainError::IntentNotCommitted("crash".into()))
            );
        }
    }
}

#[test]
fn recovery_does_not_reapply_a_batch_rolled_back_before_failure_status_was_written() {
    let mut store = base_store();
    store.put_utxo(utxo("rollback", 0, "btc", "btc_primary_scope", 50_000)).unwrap();
    let selection = Orchestrator::with_store(store.clone())
        .propose_operation(BtcSendRequest::new("rollback", "btc", 1))
        .unwrap();
    store.persist_intent(selection.clone()).unwrap();
    store
        .apply_batch(StateBatch {
            selection,
            phase: OperationPhase::Selected,
            owner: "test".into(),
        })
        .unwrap();
    store.release_operation(&"rollback".into(), OperationPhase::RollingBack).unwrap();
    assert_eq!(
        store.get_intent(&"rollback".into()).unwrap().unwrap().status,
        IntentStatus::Pending
    );
    let mut orch = Orchestrator::with_store(store);
    assert_eq!(
        orch.recover_pending_intents().unwrap().failed_operations,
        vec![OperationId::from("rollback")]
    );
    assert!(orch.get_lock(&OutPoint::new("rollback", 0)).unwrap().is_none());
    assert_eq!(orch.get_intent(&"rollback".into()).unwrap().unwrap().status, IntentStatus::Failed);
}

#[test]
fn rejecting_an_intent_cannot_release_a_committed_reservation() {
    let mut store = base_store();
    store.put_utxo(utxo("committed", 0, "btc", "btc_primary_scope", 50_000)).unwrap();
    let selection = Orchestrator::with_store(store.clone())
        .propose_operation(BtcSendRequest::new("committed", "btc", 1))
        .unwrap();
    store.persist_intent(selection.clone()).unwrap();
    store
        .apply_batch(StateBatch {
            selection,
            phase: OperationPhase::Selected,
            owner: "test".into(),
        })
        .unwrap();
    store.mark_intent_committed(&"committed".into()).unwrap();
    assert_eq!(
        store.mark_intent_failed(&"committed".into()),
        Err(DomainError::IntentNotPending("committed".into()))
    );
    assert!(store.get_lock(&OutPoint::new("committed", 0)).unwrap().is_some());
    assert_eq!(
        store.get_intent(&"committed".into()).unwrap().unwrap().status,
        IntentStatus::Committed
    );
}

#[test]
fn recovery_retries_authorized_intent_after_rejecting_pending_holder() {
    for (plan_id, send_id) in [("a-plan", "b-send"), ("b-plan", "a-send")] {
        let mut store = base_store();
        store.put_utxo(utxo("shared", 0, "btc", "btc_primary_scope", 50_000)).unwrap();
        let orch = Orchestrator::with_store(store.clone());
        let plan = orch
            .propose_operation(PlannedSpecificOutpointRequest::new(
                plan_id,
                "btc",
                OutPoint::new("shared", 0),
            ))
            .unwrap();
        let send = orch.propose_operation(BtcSendRequest::new(send_id, "btc", 1)).unwrap();
        store.persist_intent(plan).unwrap();
        store.persist_intent(send.clone()).unwrap();
        store
            .apply_batch(StateBatch {
                selection: send,
                phase: OperationPhase::Selected,
                owner: "test".into(),
            })
            .unwrap();
        let mut account = store.get_account(&"btc".into()).unwrap().unwrap();
        account.capabilities = CapabilitySet::new([Capability::ReserveSupport]);
        store.put_account(account).unwrap();
        let mut orch = Orchestrator::with_store(store);
        assert!(matches!(
            orch.commit_recorded_intent(&plan_id.into()),
            Err(DomainError::UtxoUnavailable { .. })
        ));
        assert_eq!(
            orch.get_intent(&plan_id.into()).unwrap().unwrap().status,
            IntentStatus::Pending
        );
        let report = orch.recover_pending_intents().unwrap();
        assert_eq!(report.replayed_operations, vec![OperationId::from(plan_id)]);
        assert_eq!(report.failed_operations, vec![OperationId::from(send_id)]);
        assert_eq!(
            orch.get_lock(&OutPoint::new("shared", 0)).unwrap().unwrap().operation_id,
            plan_id.into()
        );
        assert!(orch.pending_intents().unwrap().is_empty());
    }
}

#[test]
fn replaying_an_applied_batch_keeps_lock_owner_and_creation_tick() {
    let mut store = base_store();
    store.put_utxo(utxo("allowed", 0, "rgb", "rgb_operational_scope", 50_000)).unwrap();
    let mut selection = explicit_selection(LockPurpose::ManualReservation);
    selection.change_scope_id = "rgb_operational_scope".into();
    let batch = StateBatch { selection, phase: OperationPhase::Selected, owner: "first".into() };
    store.apply_batch(batch.clone()).unwrap();
    let lock = store.get_lock(&OutPoint::new("allowed", 0)).unwrap().unwrap();
    let output = store.get_utxo(&OutPoint::new("allowed", 0)).unwrap();
    assert_eq!(lock.owner, "first");

    let tick = store.current_tick().unwrap();
    let replay = StateBatch { owner: "second".into(), ..batch };
    store.apply_batch(replay).unwrap();
    assert_eq!(store.get_lock(&OutPoint::new("allowed", 0)).unwrap().unwrap(), lock);
    assert_eq!(store.get_utxo(&OutPoint::new("allowed", 0)).unwrap(), output);
    assert_eq!(store.current_tick().unwrap(), tick + 1);
}

#[test]
fn unmentioned_reserved_output_is_reported_only_by_a_full_snapshot() {
    let mut store = base_store();
    let seen = OutPoint::new("tx1", 0);
    let unmentioned = OutPoint::new("tx2", 0);
    store.put_utxo(ManagedUtxo::new(seen.clone(), "btc", "btc_primary_scope", 10_000)).unwrap();
    let mut reserved = ManagedUtxo::new(unmentioned.clone(), "btc", "btc_primary_scope", 20_000);
    reserved.availability = Availability::Reserved;
    store.put_utxo(reserved).unwrap();

    let incremental = ObservationSnapshot::new(5_000, ObservationScope::Incremental)
        .add_utxo(ObservedUtxo::new(seen.clone(), "btc", "btc_primary_scope", 10_000));
    let plan = ReconciliationPlanner::new(&store).plan(&incremental).unwrap();
    assert!(plan.actions.iter().all(|a| !matches!(a,
        ReconciliationAction::MarkMissing(o) if *o == unmentioned)));
    assert!(plan.actions.iter().all(|a| !matches!(a,
        ReconciliationAction::ReportConflict { outpoint, .. } if *outpoint == unmentioned)));

    let full = ObservationSnapshot::new(5_001, ObservationScope::Full)
        .add_utxo(ObservedUtxo::new(seen.clone(), "btc", "btc_primary_scope", 10_000));
    let plan = ReconciliationPlanner::new(&store).plan(&full).unwrap();
    assert!(plan.actions.contains(&ReconciliationAction::ReportConflict {
        outpoint: unmentioned.clone(),
        message: "Reserved UTXO missing from full snapshot".into(),
        recorded_at: 5_001,
    }));
    assert!(plan.actions.contains(&ReconciliationAction::MarkMissing(unmentioned)));
}
