//! Account- and scope-aware UTXO observation, reconciliation, selection,
//! reservation and operation lifecycle management.
pub mod text;
pub mod ids;
pub mod state;
pub mod capability;
pub mod outpoint;
pub mod errors;
pub mod lock;
pub mod operation;
pub mod account;
pub mod observation;
pub mod utxo;
pub mod utxo_status;
pub mod sorting;
pub mod asset_selection;
pub mod table;
pub mod reconciliation;
pub mod store;
pub mod validation;
pub mod replay;
pub mod memory;
pub mod selection_request;
pub mod selector;
pub mod selector_laws;
pub mod orchestrator;
pub mod clock;
pub mod service;
pub mod asset_service;
pub mod sim;
pub mod codec;
pub mod selection_laws;

pub use account::{Account, DerivationScope, DescriptorRef, WalletScope};
pub use asset_selection::{AssetCandidate, AssetSelectionConstraints, AssetSelectionPolicy};
pub use asset_service::{AssetInputCandidate, AssetSelectionRequest, PlanAssetSelectionRequest, SelectionConstraints};
pub use capability::{Capability, CapabilitySet};
pub use clock::{Clock, RandomReservationIdGenerator, ReservationIdGenerator, UtcClock};
pub use errors::{AssetCandidateRejection, DomainError, DomainResult};
pub use ids::{AccountId, OperationId, WalletScopeId};
pub use lock::LockPurpose;
pub use observation::{
    ObservationScope, ObservationSnapshot, ObservationSource, ObservedConfirmation, ObservedSpendStatus, ObservedUtxo,
};
pub use operation::{OperationBinding, OperationPhase};
pub use orchestrator::CleanupReport;
pub use outpoint::OutPoint;
pub use service::{
    ApplyExplicitSelectionRequest, BootstrapAccountConfig, BootstrapConfig, BootstrapScopeConfig, ManagedUtxoInfo,
    ManualReservation, PlanExactOutpointsRequest, PlannedSelection, ReconcileSummary,
    ReserveFirstAvailableManualUtxoRequest, ReserveManualUtxoRequest, ReserveSpecificUtxoRequest, TxoscopeService,
};
pub use state::{Availability, OnchainState, UtxoRole};
pub use utxo::{ManagedUtxo, ObservationConflict};
pub use utxo_status::{UtxoLockStatus, UtxoStatus};
