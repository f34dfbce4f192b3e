use txoscope::account::{Account, WalletScope};
use txoscope::asset_service::{
    AssetInputCandidate, AssetSelectionRequest, PlanAssetSelectionRequest, SelectionConstraints,
};
use txoscope::capability::{Capability, CapabilitySet};
use txoscope::clock::{Clock, RandomReservationIdGenerator};
use txoscope::errors::DomainError;
use txoscope::ids::{OperationId, WalletScopeId};
use txoscope::lock::LockPurpose;
use txoscope::memory::InMemoryStateStore;
use txoscope::operation::{OperationPhase, OperationSelection, SelectionEffect};
use txoscope::outpoint::OutPoint;
use txoscope::selection_request::ManualReservationExactRequest;
use txoscope::service::{
    ApplyExplicitSelectionRequest, BootstrapAccountConfig, BootstrapConfig, BootstrapScopeConfig,
    PlanExactOutpointsRequest, ReserveFirstAvailableManualUtxoRequest, ReserveManualUtxoRequest,
    TxoscopeService,
};
use txoscope::state::Availability;
use txoscope::utxo::ManagedUtxo;

struct FixedClock(u64);

impl Clock for FixedClock {
    fn now_utc_unix_secs(&self) -> u64 {
        self.0
    }
}

fn parsed_outpoint(value: &str) -> OutPoint {
    value.parse().unwrap()
}

fn service_with_mixed_utxos() -> TxoscopeService<InMemoryStateStore> {
    let mut service = TxoscopeService::with_store(InMemoryStateStore::default());
    service
        .bootstrap(BootstrapConfig {
            owner: "test-owner".to_string(),
            accounts: vec![
                BootstrapAccountConfig {
                    id: "btc".into(),
                    name: "BTC".to_string(),
                    capabilities: CapabilitySet::new([
                        Capability::BtcSpend,
                        Capability::ReserveSupport,
                        Capability::BtcReceive,
                        Capability::FeeSupport,
                    ]),
                },
                BootstrapAccountConfig {
                    id: "rgb".into(),
                    name: "RGB".to_string(),
                    capabilities: CapabilitySet::new([
                        Capability::BtcReceive,
                        Capability::FeeSupport,
                        Capability::L2Settlement,
                        Capability::ReserveSupport,
                        Capability::SingleTargetReserve,
                    ]),
                },
            ],
            scopes: vec![
                BootstrapScopeConfig {
                    id: "btc-scope".into(),
                    account_id: "btc".into(),
                    descriptor_ref: "bdk".to_string(),
                    derivation_scope: "external".to_string(),
                    capabilities: CapabilitySet::new([
                        Capability::BtcSpend,
                        Capability::ReserveSupport,
                        Capability::BtcReceive,
                        Capability::FeeSupport,
                    ]),
                    priority: 0,
                },
                BootstrapScopeConfig {
                    id: "rgb-scope".into(),
                    account_id: "rgb".into(),
                    descriptor_ref: "rgb".to_string(),
                    derivation_scope: "rgb".to_string(),
                    capabilities: CapabilitySet::new([
                        Capability::BtcReceive,
                        Capability::FeeSupport,
                        Capability::L2Settlement,
                        Capability::ReserveSupport,
                        Capability::SingleTargetReserve,
                    ]),
                    priority: 0,
                },
            ],
        })
        .unwrap();
    service
        .orchestrator
        .add_utxo(ManagedUtxo::new(OutPoint::new("tx-rgb", 0), "rgb", "rgb-scope", 25_000))
        .unwrap();
    service
        .orchestrator
        .add_utxo(ManagedUtxo::new(OutPoint::new("tx-btc", 1), "btc", "btc-scope", 40_000))
        .unwrap();
    service
}

#[test]
fn asset_fee_inputs_require_fee_support_on_account_and_scope() {
    for missing_on_account in [false, true] {
        let mut service = service_with_mixed_utxos();
        service
            .orchestrator
            .add_scope(WalletScope::new(
                "fee",
                "rgb",
                "descriptor",
                "external",
                CapabilitySet::new([Capability::ReserveSupport, Capability::FeeSupport]),
                0,
            ))
            .unwrap();
        service
            .orchestrator
            .add_utxo(ManagedUtxo::new(OutPoint::new("fee", 0), "rgb", "fee", 50_000))
            .unwrap();
        if missing_on_account {
            service
                .orchestrator
                .add_account(Account::new(
                    "rgb",
                    "RGB",
                    vec!["rgb-scope".into(), "fee".into()],
                    CapabilitySet::new([Capability::ReserveSupport]),
                ))
                .unwrap();
        } else {
            service
                .orchestrator
                .add_scope(WalletScope::new(
                    "fee",
                    "rgb",
                    "descriptor",
                    "external",
                    CapabilitySet::new([Capability::ReserveSupport]),
                    0,
                ))
                .unwrap();
        }
        let mut req = AssetSelectionRequest {
            target_account_id: "rgb".into(),
            candidates: vec![
                AssetInputCandidate {
                    outpoint: parsed_outpoint("tx-rgb:0"),
                    asset_amount: 10_000,
                },
                AssetInputCandidate { outpoint: parsed_outpoint("fee:0"), asset_amount: 0 },
            ],
            asset_amount: 1,
            required_value_sats: 40_000,
            constraints: SelectionConstraints {
                exact_outpoints: None,
                allow_asset_merge: false,
                allow_fee_support: true,
            },
        };
        assert_eq!(
            service.preview_asset_selection(&req),
            Err(DomainError::InsufficientValue { needed: 40_000, have: 25_000 })
        );
        assert!(matches!(
            service.plan_asset_selection(PlanAssetSelectionRequest {
                operation_id: "auto-denied".into(),
                selection: req.clone()
            }),
            Err(DomainError::InsufficientValue { .. })
        ));
        req.constraints.exact_outpoints =
            Some(vec![parsed_outpoint("tx-rgb:0"), parsed_outpoint("fee:0")]);
        let expected = if missing_on_account {
            DomainError::MissingAccountCapabilities { account_id: "rgb".into() }
        } else {
            DomainError::MissingCapabilities { scope_id: "fee".into() }
        };
        assert_eq!(service.preview_asset_selection(&req), Err(expected.clone()));
        assert_eq!(
            service.plan_asset_selection(PlanAssetSelectionRequest {
                operation_id: "exact-denied".into(),
                selection: req
            }),
            Err(expected)
        );
        assert!(service.orchestrator.get_lock(&parsed_outpoint("tx-rgb:0")).unwrap().is_none());
        assert!(service.orchestrator.get_lock(&parsed_outpoint("fee:0")).unwrap().is_none());
    }
}

#[test]
fn asset_plan_preserves_fee_role_without_requiring_it_on_carrier_change() {
    let mut service = service_with_mixed_utxos();
    service
        .orchestrator
        .add_scope(WalletScope::new(
            "rgb-scope",
            "rgb",
            "descriptor",
            "external",
            CapabilitySet::new([Capability::ReserveSupport]),
            0,
        ))
        .unwrap();
    service
        .orchestrator
        .add_scope(WalletScope::new(
            "fee",
            "rgb",
            "descriptor",
            "external",
            CapabilitySet::new([Capability::ReserveSupport, Capability::FeeSupport]),
            0,
        ))
        .unwrap();
    service
        .orchestrator
        .add_utxo(ManagedUtxo::new(OutPoint::new("fee", 0), "rgb", "fee", 50_000))
        .unwrap();
    let mut req = AssetSelectionRequest {
        target_account_id: "rgb".into(),
        candidates: vec![
            AssetInputCandidate { outpoint: parsed_outpoint("tx-rgb:0"), asset_amount: 10_000 },
            AssetInputCandidate { outpoint: parsed_outpoint("fee:0"), asset_amount: 0 },
        ],
        asset_amount: 1,
        required_value_sats: 40_000,
        constraints: SelectionConstraints {
            exact_outpoints: Some(vec![parsed_outpoint("tx-rgb:0"), parsed_outpoint("fee:0")]),
            allow_asset_merge: false,
            allow_fee_support: false,
        },
    };
    assert!(matches!(
        service.preview_asset_selection(&req),
        Err(DomainError::UtxoPolicyBlocked { .. })
    ));
    req.constraints.exact_outpoints = None;
    req.constraints.allow_fee_support = true;
    assert_eq!(
        service.preview_asset_selection(&req).unwrap(),
        vec![parsed_outpoint("tx-rgb:0"), parsed_outpoint("fee:0")]
    );
    let planned = service
        .plan_asset_selection(PlanAssetSelectionRequest {
            operation_id: "fee-plan".into(),
            selection: req,
        })
        .unwrap();
    assert_eq!(planned.change_scope_id, WalletScopeId::new("rgb-scope"));
    assert_eq!(
        service.orchestrator.get_lock(&parsed_outpoint("fee:0")).unwrap().unwrap().purpose,
        LockPurpose::FeeSupport
    );
    let intent =
        service.orchestrator.get_intent(&OperationId::new("fee-plan")).unwrap().unwrap();
    assert_eq!(
        intent.selection.effects[1],
        SelectionEffect::LockUtxo {
            outpoint: parsed_outpoint("fee:0"),
            purpose: LockPurpose::FeeSupport
        }
    );
}

#[test]
fn explicit_selection_enforces_input_and_change_capabilities_atomically() {
    for case in 0..4 {
        let mut service = service_with_mixed_utxos();
        let mut change_scope_id = WalletScopeId::new("btc-scope");
        let expected = match case {
            0 => {
                service
                    .orchestrator
                    .add_account(Account::new(
                        "rgb",
                        "RGB",
                        vec!["rgb-scope".into()],
                        CapabilitySet::default(),
                    ))
                    .unwrap();
                DomainError::MissingAccountCapabilities { account_id: "rgb".into() }
            },
            1 => {
                service
                    .orchestrator
                    .add_scope(WalletScope::new(
                        "rgb-scope",
                        "rgb",
                        "descriptor",
                        "external",
                        CapabilitySet::default(),
                        0,
                    ))
                    .unwrap();
                DomainError::MissingCapabilities { scope_id: "rgb-scope".into() }
            },
            2 => {
                service
                    .orchestrator
                    .add_scope(WalletScope::new(
                        "change",
                        "btc",
                        "descriptor",
                        "external",
                        CapabilitySet::default(),
                        0,
                    ))
                    .unwrap();
                change_scope_id = "change".into();
                DomainError::MissingCapabilities { scope_id: "change".into() }
            },
            _ => {
                service
                    .orchestrator
                    .add_account(Account::new(
                        "change-account",
                        "Change",
                        vec![],
                        CapabilitySet::default(),
                    ))
                    .unwrap();
                service
                    .orchestrator
                    .add_scope(WalletScope::new(
                        "change",
                        "change-account",
                        "descriptor",
                        "external",
                        CapabilitySet::new([Capability::ReserveSupport]),
                        0,
                    ))
                    .unwrap();
                change_scope_id = "change".into();
                DomainError::MissingAccountCapabilities { account_id: "change-account".into() }
            },
        };
        assert_eq!(
            service.apply_explicit_selection(ApplyExplicitSelectionRequest {
                operation_id: "denied".into(),
                selected_outpoints: vec![
                    parsed_outpoint("tx-btc:1"),
                    parsed_outpoint("tx-rgb:0")
                ],
                change_scope_id,
                expires_at: None,
            }),
            Err(expected)
        );
        for outpoint in [parsed_outpoint("tx-btc:1"), parsed_outpoint("tx-rgb:0")] {
            assert!(service.orchestrator.get_lock(&outpoint).unwrap().is_none());
            assert_eq!(
                service.orchestrator.get_utxo(&outpoint).unwrap().unwrap().availability,
                Availability::Selectable
            );
        }
        assert!(service.orchestrator.list_operations().unwrap().is_empty());
    }
}

#[test]
fn asset_preview_validates_duplicates_and_expires_locks_before_capability_denial() {
    for revoke_account in [false, true] {
        let mut service = service_with_mixed_utxos();
        service
            .orchestrator
            .prepare_operation(ManualReservationExactRequest::new(
                "expired",
                "rgb",
                parsed_outpoint("tx-rgb:0"),
                0,
            ))
            .unwrap();
        if revoke_account {
            service
                .orchestrator
                .add_account(Account::new(
                    "rgb",
                    "RGB",
                    vec!["rgb-scope".into()],
                    CapabilitySet::default(),
                ))
                .unwrap();
        } else {
            service
                .orchestrator
                .add_scope(WalletScope::new(
                    "rgb-scope",
                    "rgb",
                    "descriptor",
                    "external",
                    CapabilitySet::default(),
                    0,
                ))
                .unwrap();
        }
        let candidate =
            AssetInputCandidate { outpoint: parsed_outpoint("tx-rgb:0"), asset_amount: 10_000 };
        let mut req = AssetSelectionRequest {
            target_account_id: "rgb".into(),
            candidates: vec![candidate.clone(), candidate],
            asset_amount: 1,
            required_value_sats: 1,
            constraints: SelectionConstraints {
                exact_outpoints: None,
                allow_asset_merge: false,
                allow_fee_support: false,
            },
        };
        assert_eq!(
            service.preview_asset_selection(&req),
            Err(DomainError::InvalidRequest { reason: "duplicate asset candidate".into() })
        );
        assert!(service.orchestrator.get_lock(&parsed_outpoint("tx-rgb:0")).unwrap().is_some());
        req.candidates.pop();
        let expected = if revoke_account {
            DomainError::MissingAccountCapabilities { account_id: "rgb".into() }
        } else {
            DomainError::NoEligibleScope { account_id: "rgb".into() }
        };
        assert_eq!(service.preview_asset_selection(&req), Err(expected));
        assert!(service.orchestrator.get_lock(&parsed_outpoint("tx-rgb:0")).unwrap().is_none());
        assert!(service.is_outpoint_selectable(&parsed_outpoint("tx-rgb:0")).unwrap());
        req.constraints.exact_outpoints =
            Some(vec![parsed_outpoint("tx-rgb:0"), parsed_outpoint("tx-rgb:0")]);
        assert_eq!(
            service.preview_asset_selection(&req),
            Err(DomainError::InvalidRequest { reason: "duplicate exact input".into() })
        );
    }
}

#[test]
fn asset_preview_and_plan_report_no_capable_scopes() {
    let mut service = service_with_mixed_utxos();
    service
        .orchestrator
        .add_scope(WalletScope::new(
            "rgb-scope",
            "rgb",
            "descriptor",
            "external",
            CapabilitySet::default(),
            0,
        ))
        .unwrap();
    let mut req = AssetSelectionRequest {
        target_account_id: "rgb".into(),
        candidates: vec![AssetInputCandidate {
            outpoint: parsed_outpoint("tx-rgb:0"),
            asset_amount: 10_000,
        }],
        asset_amount: 1,
        required_value_sats: 1,
        constraints: SelectionConstraints {
            exact_outpoints: None,
            allow_asset_merge: false,
            allow_fee_support: false,
        },
    };
    let expected = DomainError::NoEligibleScope { account_id: "rgb".into() };
    assert_eq!(service.preview_asset_selection(&req), Err(expected.clone()));
    assert_eq!(
        service.plan_asset_selection(PlanAssetSelectionRequest {
            operation_id: "denied".into(),
            selection: req.clone()
        }),
        Err(expected)
    );
    req.constraints.exact_outpoints = Some(vec![]);
    let expected = DomainError::InvalidRequest {
        reason: "exact asset selection requires at least one outpoint".into(),
    };
    assert_eq!(service.preview_asset_selection(&req), Err(expected.clone()));
    assert_eq!(
        service.plan_asset_selection(PlanAssetSelectionRequest {
            operation_id: "empty-denied".into(),
            selection: req.clone()
        }),
        Err(expected)
    );
    req.constraints.exact_outpoints = Some(vec![parsed_outpoint("tx-rgb:0")]);
    assert_eq!(
        service.preview_asset_selection(&req),
        Err(DomainError::MissingCapabilities { scope_id: "rgb-scope".into() })
    );
    assert!(service.orchestrator.get_lock(&parsed_outpoint("tx-rgb:0")).unwrap().is_none());
    assert!(service.get_planned_selection(&OperationId::new("denied")).unwrap().is_none());
}

#[test]
fn asset_preview_and_plan_exclude_unauthorized_scopes() {
    let mut service = service_with_mixed_utxos();
    service
        .orchestrator
        .add_scope(WalletScope::new(
            "blocked",
            "rgb",
            "descriptor",
            "external",
            CapabilitySet::default(),
            0,
        ))
        .unwrap();
    service
        .orchestrator
        .add_utxo(ManagedUtxo::new(OutPoint::new("blocked", 0), "rgb", "blocked", 50_000))
        .unwrap();
    let mut req = AssetSelectionRequest {
        target_account_id: "rgb".into(),
        candidates: vec![
            AssetInputCandidate {
                outpoint: parsed_outpoint("blocked:0"),
                asset_amount: 10_000,
            },
            AssetInputCandidate { outpoint: parsed_outpoint("tx-rgb:0"), asset_amount: 10_000 },
        ],
        asset_amount: 5_000,
        required_value_sats: 10_000,
        constraints: SelectionConstraints {
            exact_outpoints: None,
            allow_asset_merge: false,
            allow_fee_support: true,
        },
    };
    assert_eq!(
        service.preview_asset_selection(&req).unwrap(),
        vec![parsed_outpoint("tx-rgb:0")]
    );
    let planned = service
        .plan_asset_selection(PlanAssetSelectionRequest {
            operation_id: "authorized".into(),
            selection: req.clone(),
        })
        .unwrap();
    assert_eq!(planned.selected_outpoints, vec![parsed_outpoint("tx-rgb:0")]);
    assert_eq!(planned.change_scope_id, WalletScopeId::new("rgb-scope"));
    assert!(service.orchestrator.get_lock(&parsed_outpoint("blocked:0")).unwrap().is_none());
    service.release_operation(&OperationId::new("authorized")).unwrap();

    req.constraints.exact_outpoints = Some(vec![parsed_outpoint("blocked:0")]);
    let expected = DomainError::MissingCapabilities { scope_id: "blocked".into() };
    assert_eq!(service.preview_asset_selection(&req), Err(expected.clone()));
    assert_eq!(
        service.plan_asset_selection(PlanAssetSelectionRequest {
            operation_id: "denied".into(),
            selection: req.clone()
        }),
        Err(expected)
    );
    assert!(service.get_planned_selection(&OperationId::new("denied")).unwrap().is_none());

    req.constraints.exact_outpoints = None;
    req.candidates[0].asset_amount = 0;
    req.required_value_sats = 40_000;
    assert_eq!(
        service.preview_asset_selection(&req),
        Err(DomainError::InsufficientValue { needed: 40_000, have: 25_000 })
    );
    assert!(matches!(
        service.plan_asset_selection(PlanAssetSelectionRequest {
            operation_id: "no-support".into(),
            selection: req
        }),
        Err(DomainError::InsufficientValue { .. })
    ));
}

#[test]
fn asset_preview_and_plan_require_account_reserve_support() {
    let mut service = service_with_mixed_utxos();
    service
        .orchestrator
        .add_account(Account::new(
            "rgb",
            "RGB",
            vec!["rgb-scope".into()],
            CapabilitySet::default(),
        ))
        .unwrap();
    let req = AssetSelectionRequest {
        target_account_id: "rgb".into(),
        candidates: vec![AssetInputCandidate {
            outpoint: parsed_outpoint("tx-rgb:0"),
            asset_amount: 10_000,
        }],
        asset_amount: 5_000,
        required_value_sats: 10_000,
        constraints: SelectionConstraints {
            exact_outpoints: None,
            allow_asset_merge: false,
            allow_fee_support: false,
        },
    };
    let expected = DomainError::MissingAccountCapabilities { account_id: "rgb".into() };
    assert_eq!(service.preview_asset_selection(&req), Err(expected.clone()));
    assert_eq!(
        service.plan_asset_selection(PlanAssetSelectionRequest {
            operation_id: "denied".into(),
            selection: req
        }),
        Err(expected)
    );
    assert!(service.orchestrator.get_lock(&parsed_outpoint("tx-rgb:0")).unwrap().is_none());
    assert!(service.get_planned_selection(&OperationId::new("denied")).unwrap().is_none());
}

#[test]
fn asset_selection_skips_reserved_anchor_and_locks_the_available_one() {
    let mut service = service_with_mixed_utxos();
    service
        .orchestrator
        .add_utxo(ManagedUtxo::new(OutPoint::new("small", 0), "rgb", "rgb-scope", 15_000))
        .unwrap();
    service
        .reserve_manual_utxo(ReserveManualUtxoRequest {
            target_account_id: "rgb".into(),
            outpoint: parsed_outpoint("tx-rgb:0"),
            ttl_secs: 600,
        })
        .unwrap();
    let request = AssetSelectionRequest {
        target_account_id: "rgb".into(),
        candidates: vec![
            AssetInputCandidate { outpoint: parsed_outpoint("tx-rgb:0"), asset_amount: 20_000 },
            AssetInputCandidate { outpoint: parsed_outpoint("small:0"), asset_amount: 10_000 },
        ],
        asset_amount: 5_000,
        required_value_sats: 10_000,
        constraints: SelectionConstraints {
            exact_outpoints: None,
            allow_asset_merge: false,
            allow_fee_support: false,
        },
    };
    assert_eq!(
        service.preview_asset_selection(&request).unwrap(),
        vec![parsed_outpoint("small:0")]
    );
    assert!(service.is_outpoint_selectable(&parsed_outpoint("small:0")).unwrap());
    let plan = service
        .plan_asset_selection(PlanAssetSelectionRequest {
            operation_id: "funding".into(),
            selection: request.clone(),
        })
        .unwrap();
    assert_eq!(plan.selected_outpoints, vec![parsed_outpoint("small:0")]);
    assert!(matches!(
        service.plan_asset_selection(PlanAssetSelectionRequest {
            operation_id: "other".into(),
            selection: request
        }),
        Err(DomainError::NoEligibleAssetCandidates { .. })
    ));
    assert!(service.orchestrator.get_operation(&OperationId::new("other")).unwrap().is_none());
}

#[test]
fn asset_selection_merges_anchors_with_allocation_free_support() {
    let mut service = service_with_mixed_utxos();
    for (txid, value) in [("anchor2", 15_000), ("support", 30_000)] {
        service
            .orchestrator
            .add_utxo(ManagedUtxo::new(OutPoint::new(txid, 0), "rgb", "rgb-scope", value))
            .unwrap();
    }
    let mut request = AssetSelectionRequest {
        target_account_id: "rgb".into(),
        candidates: vec![
            AssetInputCandidate { outpoint: parsed_outpoint("tx-rgb:0"), asset_amount: 3_000 },
            AssetInputCandidate { outpoint: parsed_outpoint("anchor2:0"), asset_amount: 2_000 },
            AssetInputCandidate { outpoint: parsed_outpoint("support:0"), asset_amount: 0 },
        ],
        asset_amount: 5_000,
        required_value_sats: 60_000,
        constraints: SelectionConstraints {
            exact_outpoints: None,
            allow_asset_merge: false,
            allow_fee_support: true,
        },
    };
    assert!(matches!(
        service.preview_asset_selection(&request),
        Err(DomainError::InsufficientAsset { .. })
    ));
    request.constraints = SelectionConstraints {
        exact_outpoints: None,
        allow_asset_merge: true,
        allow_fee_support: true,
    };
    assert_eq!(
        service.preview_asset_selection(&request).unwrap(),
        vec![
            parsed_outpoint("tx-rgb:0"),
            parsed_outpoint("anchor2:0"),
            parsed_outpoint("support:0")
        ]
    );
    request.required_value_sats = 70_001;
    assert!(matches!(
        service.preview_asset_selection(&request),
        Err(DomainError::InsufficientValue { .. })
    ));
}

#[test]
fn asset_selection_rejects_duplicates_and_foreign_accounts_without_locks() {
    let mut service = service_with_mixed_utxos();
    let mut request = AssetSelectionRequest {
        target_account_id: "rgb".into(),
        candidates: vec![AssetInputCandidate {
            outpoint: parsed_outpoint("tx-btc:1"),
            asset_amount: 10,
        }],
        asset_amount: 1,
        required_value_sats: 1,
        constraints: SelectionConstraints {
            exact_outpoints: None,
            allow_asset_merge: false,
            allow_fee_support: false,
        },
    };
    let error = service.preview_asset_selection(&request).unwrap_err();
    let DomainError::NoEligibleAssetCandidates { rejections } = error else {
        panic!("expected excluded candidate diagnostics");
    };
    assert_eq!(rejections.len(), 1);
    assert_eq!(rejections[0].outpoint, parsed_outpoint("tx-btc:1"));
    assert!(rejections[0].reason.to_string().contains("belongs to account btc"));
    request.candidates[0].outpoint = parsed_outpoint("missing:0");
    let DomainError::NoEligibleAssetCandidates { rejections } =
        service.preview_asset_selection(&request).unwrap_err()
    else {
        panic!("expected unknown candidate diagnostics");
    };
    assert_eq!(rejections[0].reason, DomainError::UtxoNotFound(parsed_outpoint("missing:0")));
    request.constraints.exact_outpoints = Some(vec![parsed_outpoint("missing:0")]);
    assert_eq!(
        service.preview_asset_selection(&request),
        Err(DomainError::UtxoNotFound(parsed_outpoint("missing:0")))
    );
    request.constraints.exact_outpoints = None;
    request.candidates.push(request.candidates[0].clone());
    assert!(matches!(
        service.plan_asset_selection(PlanAssetSelectionRequest {
            operation_id: "invalid".into(),
            selection: request
        }),
        Err(DomainError::InvalidRequest { .. })
    ));
    assert!(service
        .orchestrator
        .get_operation(&OperationId::new("invalid"))
        .unwrap()
        .is_none());
    assert!(service.is_outpoint_selectable(&parsed_outpoint("tx-btc:1")).unwrap());
}

#[test]
fn invalid_selection_requests_preserve_expired_reservations_and_state() {
    for case in 0..7 {
        let mut service = service_with_mixed_utxos();
        service
            .orchestrator
            .prepare_operation(ManualReservationExactRequest::new(
                "expired",
                "rgb",
                parsed_outpoint("tx-rgb:0"),
                0,
            ))
            .unwrap();
        let tick = service.orchestrator.current_tick().unwrap();
        let operations = service.orchestrator.list_operations().unwrap();
        let intent = service.orchestrator.get_intent(&OperationId::new("expired")).unwrap();
        let inputs: Vec<_> = [parsed_outpoint("tx-rgb:0"), parsed_outpoint("tx-btc:1")]
            .into_iter()
            .map(|outpoint| {
                (
                    outpoint.clone(),
                    service.orchestrator.get_utxo(&outpoint).unwrap(),
                    service.orchestrator.get_lock(&outpoint).unwrap(),
                )
            })
            .collect();
        let selected_outpoints = if case % 2 == 0 {
            Vec::new()
        } else {
            vec![parsed_outpoint("tx-rgb:0"), parsed_outpoint("tx-rgb:0")]
        };
        let result = match case {
            0 | 1 => service.apply_explicit_selection(ApplyExplicitSelectionRequest {
                operation_id: "invalid".into(),
                selected_outpoints,
                change_scope_id: "rgb-scope".into(),
                expires_at: None,
            }),
            2 | 3 => service.plan_exact_outpoints(PlanExactOutpointsRequest {
                operation_id: "invalid".into(),
                target_account_id: "rgb".into(),
                selected_outpoints,
            }),
            _ => {
                let candidate = AssetInputCandidate {
                    outpoint: parsed_outpoint("tx-rgb:0"),
                    asset_amount: 10,
                };
                let req = AssetSelectionRequest {
                    target_account_id: "rgb".into(),
                    candidates: if case == 4 {
                        vec![candidate.clone(), candidate]
                    } else {
                        vec![candidate]
                    },
                    asset_amount: 1,
                    required_value_sats: 1,
                    constraints: SelectionConstraints {
                        exact_outpoints: (case != 4).then_some(selected_outpoints),
                        allow_asset_merge: false,
                        allow_fee_support: false,
                    },
                };
                assert!(matches!(
                    service.preview_asset_selection(&req),
                    Err(DomainError::InvalidRequest { .. })
                ));
                service.plan_asset_selection(PlanAssetSelectionRequest {
                    operation_id: "invalid".into(),
                    selection: req,
                })
            },
        };
        assert!(matches!(result, Err(DomainError::InvalidRequest { .. })), "case {case}");
        assert_eq!(service.orchestrator.current_tick().unwrap(), tick);
        assert_eq!(service.orchestrator.list_operations().unwrap(), operations);
        assert_eq!(
            service.orchestrator.get_intent(&OperationId::new("expired")).unwrap(),
            intent
        );
        assert!(service
            .orchestrator
            .get_intent(&OperationId::new("invalid"))
            .unwrap()
            .is_none());
        for (outpoint, utxo, lock) in inputs {
            assert_eq!(service.orchestrator.get_utxo(&outpoint).unwrap(), utxo);
            assert_eq!(service.orchestrator.get_lock(&outpoint).unwrap(), lock);
        }
    }
}

#[test]
fn asset_selection_keeps_serialized_outpoint_order_for_equal_value_carriers() {
    let mut service = service_with_mixed_utxos();
    for vout in [2, 10] {
        service
            .orchestrator
            .add_utxo(ManagedUtxo::new(OutPoint::new("same", vout), "rgb", "rgb-scope", 50_000))
            .unwrap();
    }
    let request = AssetSelectionRequest {
        target_account_id: "rgb".into(),
        candidates: [2, 10]
            .into_iter()
            .map(|vout| AssetInputCandidate {
                outpoint: OutPoint::new("same", vout),
                asset_amount: 10,
            })
            .collect(),
        asset_amount: 1,
        required_value_sats: 1,
        constraints: SelectionConstraints {
            exact_outpoints: None,
            allow_asset_merge: false,
            allow_fee_support: false,
        },
    };
    let expected = vec![OutPoint::new("same", 10)];
    assert_eq!(service.preview_asset_selection(&request).unwrap(), expected);
    assert_eq!(
        service
            .plan_asset_selection(PlanAssetSelectionRequest {
                operation_id: "ordered".into(),
                selection: request
            })
            .unwrap()
            .selected_outpoints,
        expected
    );
    assert!(service.is_outpoint_selectable(&OutPoint::new("same", 2)).unwrap());
}

#[test]
fn advanced_manual_operations_survive_the_original_reservation_expiry() {
    for phase in [
        OperationPhase::Constructing,
        OperationPhase::Signed,
        OperationPhase::Broadcast,
        OperationPhase::AwaitingConfirmation,
        OperationPhase::AwaitingL2Finality,
    ] {
        let mut service = TxoscopeService {
            orchestrator: service_with_mixed_utxos().orchestrator,
            clock: FixedClock(1_000),
            reservation_ids: RandomReservationIdGenerator,
        };
        let reservation = service
            .reserve_manual_utxo(ReserveManualUtxoRequest {
                target_account_id: "rgb".into(),
                outpoint: parsed_outpoint("tx-rgb:0"),
                ttl_secs: 1,
            })
            .unwrap();
        assert_eq!(reservation.expires_at, 1_001);
        assert_eq!(
            service.get_active_manual_reservation(&parsed_outpoint("tx-rgb:0")).unwrap(),
            Some(reservation.clone())
        );
        service
            .complete_operation(
                &reservation.reservation_id,
                phase,
                vec![parsed_outpoint("tx-rgb:0")],
            )
            .unwrap();
        service.clock.0 = 1_002;

        assert_eq!(service.get_manual_reservation(&parsed_outpoint("tx-rgb:0")).unwrap(), None);
        assert_eq!(
            service.get_active_manual_reservation(&parsed_outpoint("tx-rgb:0")).unwrap(),
            None
        );
        assert_eq!(
            service
                .reserve_first_available_manual_utxo(ReserveFirstAvailableManualUtxoRequest {
                    target_account_id: "rgb".into(),
                    candidate_outpoints: vec![parsed_outpoint("tx-rgb:0")],
                    ttl_secs: 1,
                })
                .unwrap(),
            None
        );
        assert!(service.cleanup_stale_reservations(0).unwrap().released_operations.is_empty());
        assert!(!service.is_outpoint_selectable(&parsed_outpoint("tx-rgb:0")).unwrap());
        let operation =
            service.orchestrator.get_operation(&reservation.reservation_id).unwrap().unwrap();
        assert_eq!(operation.phase, phase);
        assert_eq!(operation.expires_at, None);
        let lock =
            service.orchestrator.get_lock(&parsed_outpoint("tx-rgb:0")).unwrap().unwrap();
        assert_eq!(lock.operation_id, reservation.reservation_id);
        assert_eq!(lock.expires_at, None);
        let binding = service
            .orchestrator
            .get_utxo(&parsed_outpoint("tx-rgb:0"))
            .unwrap()
            .unwrap()
            .operation_binding
            .unwrap();
        assert_eq!(binding.operation_id, reservation.reservation_id);
        assert_eq!(binding.phase, phase);
    }
}

#[test]
fn get_manual_reservation_reports_missing_expiry_as_corrupted_state() {
    let mut service = TxoscopeService::with_store(InMemoryStateStore::default());
    service
        .bootstrap(BootstrapConfig {
            owner: "test-owner".to_string(),
            accounts: vec![BootstrapAccountConfig {
                id: "btc".into(),
                name: "BTC".to_string(),
                capabilities: CapabilitySet::new([
                    Capability::BtcSpend,
                    Capability::ReserveSupport,
                    Capability::SingleTargetReserve,
                    Capability::BtcReceive,
                ]),
            }],
            scopes: vec![BootstrapScopeConfig {
                id: "btc-scope".into(),
                account_id: "btc".into(),
                descriptor_ref: "bdk".to_string(),
                derivation_scope: "external".to_string(),
                capabilities: CapabilitySet::new([
                    Capability::BtcSpend,
                    Capability::ReserveSupport,
                    Capability::SingleTargetReserve,
                    Capability::BtcReceive,
                ]),
                priority: 0,
            }],
        })
        .unwrap();
    service
        .orchestrator
        .add_utxo(ManagedUtxo::new(OutPoint::new("tx-manual", 0), "btc", "btc-scope", 25_000))
        .unwrap();
    service
        .orchestrator
        .apply_selection(&OperationSelection {
            operation_id: "manual-corrupt".into(),
            selected_outpoints: vec![parsed_outpoint("tx-manual:0")],
            change_scope_id: "btc-scope".into(),
            effects: vec![SelectionEffect::LockUtxo {
                outpoint: parsed_outpoint("tx-manual:0"),
                purpose: LockPurpose::ManualReservation,
            }],
            expires_at: None,
        })
        .unwrap();

    let err = service.get_manual_reservation(&parsed_outpoint("tx-manual:0")).unwrap_err();
    assert!(matches!(
        err,
        DomainError::CorruptedState(message)
            if message.contains("manual reservation lock")
                && message.contains("tx-manual:0")
    ));
}

#[test]
fn apply_explicit_selection_locks_mixed_account_inputs() {
    let mut service = service_with_mixed_utxos();

    let selection = service
        .apply_explicit_selection(ApplyExplicitSelectionRequest {
            operation_id: "mixed-top-up".into(),
            selected_outpoints: vec![parsed_outpoint("tx-rgb:0"), parsed_outpoint("tx-btc:1")],
            change_scope_id: "btc-scope".into(),
            expires_at: None,
        })
        .unwrap();

    assert_eq!(
        selection.selected_outpoints,
        vec![parsed_outpoint("tx-rgb:0"), parsed_outpoint("tx-btc:1")]
    );
    assert_eq!(selection.change_scope_id, WalletScopeId::new("btc-scope"));
    assert!(service
        .verify_planned_inputs(
            &OperationId::new("mixed-top-up"),
            vec![parsed_outpoint("tx-rgb:0"), parsed_outpoint("tx-btc:1")]
        )
        .is_ok());
    for outpoint in [parsed_outpoint("tx-rgb:0"), parsed_outpoint("tx-btc:1")] {
        let utxo = service.orchestrator.get_utxo(&outpoint).unwrap().unwrap();
        assert_eq!(utxo.availability, Availability::Reserved);
        assert!(utxo.operation_binding.as_ref().is_some_and(|binding| {
            binding.operation_id == OperationId::new("mixed-top-up")
                && binding.phase == OperationPhase::Selected
        }));
        let lock = service.orchestrator.get_lock(&outpoint).unwrap().unwrap();
        assert_eq!(lock.operation_id, OperationId::new("mixed-top-up"));
        assert_eq!(lock.purpose, LockPurpose::PlannedSelection);
    }
}

#[test]
fn apply_explicit_selection_rejects_empty_inputs() {
    let mut service = service_with_mixed_utxos();

    let err = service
        .apply_explicit_selection(ApplyExplicitSelectionRequest {
            operation_id: "empty-top-up".into(),
            selected_outpoints: Vec::new(),
            change_scope_id: "btc-scope".into(),
            expires_at: None,
        })
        .unwrap_err();

    assert!(matches!(
        err,
        DomainError::InvalidRequest { reason: message }
            if message.contains("explicit selection")
                && message.contains("at least one outpoint")
    ));
    assert!(service
        .orchestrator
        .get_operation(&OperationId::new("empty-top-up"))
        .unwrap()
        .is_none());
}

#[test]
fn apply_explicit_selection_rejects_duplicate_inputs() {
    let mut service = service_with_mixed_utxos();

    let err = service
        .apply_explicit_selection(ApplyExplicitSelectionRequest {
            operation_id: "duplicate-top-up".into(),
            selected_outpoints: vec![parsed_outpoint("tx-rgb:0"), parsed_outpoint("tx-rgb:0")],
            change_scope_id: "btc-scope".into(),
            expires_at: None,
        })
        .unwrap_err();

    assert!(matches!(
        err,
        DomainError::InvalidRequest { reason: message }
            if message.contains("duplicate outpoint")
                && message.contains("tx-rgb:0")
    ));
    assert!(service
        .orchestrator
        .get_operation(&OperationId::new("duplicate-top-up"))
        .unwrap()
        .is_none());
}

#[test]
fn apply_explicit_selection_rejects_unknown_change_scope() {
    let mut service = service_with_mixed_utxos();

    let err = service
        .apply_explicit_selection(ApplyExplicitSelectionRequest {
            operation_id: "unknown-change-scope".into(),
            selected_outpoints: vec![parsed_outpoint("tx-rgb:0")],
            change_scope_id: "missing-scope".into(),
            expires_at: None,
        })
        .unwrap_err();

    assert!(
        matches!(err, DomainError::ScopeNotFound(scope) if scope == WalletScopeId::new("missing-scope"))
    );
    assert!(service
        .orchestrator
        .get_operation(&OperationId::new("unknown-change-scope"))
        .unwrap()
        .is_none());
}
