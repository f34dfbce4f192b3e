//! Typed selection requests and the operation requests they normalize to.
use vstd::prelude::*;

use crate::ids::{AccountId, IntoAccountId, IntoOperationId, OperationId};
use crate::lock::LockPurpose;
use crate::operation::{
    outpoints_model, InputSelectionRequest, InputSelectionSpec, OperationPurpose,
    OperationRequest, SelectionLockPolicy, SpecModel,
};
use crate::outpoint::OutPoint;
use crate::sorting::{insertion_sort, sort_by_insertion};

verus! {

/// Capabilities are required on both the account and each selected scope.
/// BTC sends require `BtcSpend`; planned selections require `ReserveSupport`;
/// manual reservations require both `ReserveSupport` and `SingleTargetReserve`.
#[derive(Debug, Clone, PartialEq, Eq)]
#[non_exhaustive]
pub enum SelectionRequest {
    BtcSend(BtcSendRequest),
    PlannedExactOutpoints(PlannedExactOutpointsRequest),
    PlannedSpecificOutpoint(PlannedSpecificOutpointRequest),
    ManualReservationExact(ManualReservationExactRequest),
    ManualReservationFirstAvailable(ManualReservationFirstAvailableRequest),
}

/// Send bitcoin: select inputs worth at least `amount_sats`.
#[derive(Debug, Clone, PartialEq, Eq)]
#[non_exhaustive]
pub struct BtcSendRequest {
    pub operation_id: OperationId,
    pub account_id: AccountId,
    pub amount_sats: u64,
}

/// Plan an operation over exactly these outputs.
#[derive(Debug, Clone, PartialEq, Eq)]
#[non_exhaustive]
pub struct PlannedExactOutpointsRequest {
    pub operation_id: OperationId,
    pub account_id: AccountId,
    pub outpoints: Vec<OutPoint>,
}

/// Plan an operation over one output, optionally expiring.
#[derive(Debug, Clone, PartialEq, Eq)]
#[non_exhaustive]
pub struct PlannedSpecificOutpointRequest {
    pub operation_id: OperationId,
    pub account_id: AccountId,
    pub outpoint: OutPoint,
    pub expires_at: Option<u64>,
}

/// Reserve one output by hand until `expires_at`.
#[derive(Debug, Clone, PartialEq, Eq)]
#[non_exhaustive]
pub struct ManualReservationExactRequest {
    pub reservation_id: OperationId,
    pub account_id: AccountId,
    pub outpoint: OutPoint,
    pub expires_at: u64,
}

/// Reserve by hand the first selectable of several outputs until `expires_at`.
#[derive(Debug, Clone, PartialEq, Eq)]
#[non_exhaustive]
pub struct ManualReservationFirstAvailableRequest {
    pub reservation_id: OperationId,
    pub account_id: AccountId,
    pub candidate_outpoints: Vec<OutPoint>,
    pub expires_at: u64,
}

impl BtcSendRequest {
    pub fn new<O: IntoOperationId, A: IntoAccountId>(operation_id: O, account_id: A, amount_sats: u64) -> (r:
        Self)
        ensures
            r.operation_id@ == operation_id.operation_text(),
            r.account_id@ == account_id.account_text(),
            r.amount_sats == amount_sats,
    {
        BtcSendRequest {
            operation_id: operation_id.into_operation_id(),
            account_id: account_id.into_account_id(),
            amount_sats,
        }
    }
}

impl PlannedExactOutpointsRequest {
    pub fn new<O: IntoOperationId, A: IntoAccountId>(
        operation_id: O,
        account_id: A,
        outpoints: Vec<OutPoint>,
    ) -> (r: Self)
        ensures
            r.operation_id@ == operation_id.operation_text(),
            r.account_id@ == account_id.account_text(),
            r.outpoints == outpoints,
    {
        PlannedExactOutpointsRequest {
            operation_id: operation_id.into_operation_id(),
            account_id: account_id.into_account_id(),
            outpoints,
        }
    }
}

impl PlannedSpecificOutpointRequest {
    /// A request without expiry.
    pub fn new<O: IntoOperationId, A: IntoAccountId>(operation_id: O, account_id: A, outpoint: OutPoint) -> (r:
        Self)
        ensures
            r.operation_id@ == operation_id.operation_text(),
            r.account_id@ == account_id.account_text(),
            r.outpoint == outpoint,
            r.expires_at == None::<u64>,
    {
        PlannedSpecificOutpointRequest {
            operation_id: operation_id.into_operation_id(),
            account_id: account_id.into_account_id(),
            outpoint,
            expires_at: None,
        }
    }

    /// The same request, expiring at `expires_at`.
    pub fn expires_at(self, expires_at: u64) -> (r: Self)
        ensures
            r == (PlannedSpecificOutpointRequest { expires_at: Some(expires_at), ..self }),
    {
        let mut s = self;
        s.expires_at = Some(expires_at);
        s
    }
}

impl ManualReservationExactRequest {
    pub fn new<O: IntoOperationId, A: IntoAccountId>(
        reservation_id: O,
        account_id: A,
        outpoint: OutPoint,
        expires_at: u64,
    ) -> (r: Self)
        ensures
            r.reservation_id@ == reservation_id.operation_text(),
            r.account_id@ == account_id.account_text(),
            r.outpoint == outpoint,
            r.expires_at == expires_at,
    {
        ManualReservationExactRequest {
            reservation_id: reservation_id.into_operation_id(),
            account_id: account_id.into_account_id(),
            outpoint,
            expires_at,
        }
    }
}

impl ManualReservationFirstAvailableRequest {
    pub fn new<O: IntoOperationId, A: IntoAccountId>(
        reservation_id: O,
        account_id: A,
        candidate_outpoints: Vec<OutPoint>,
        expires_at: u64,
    ) -> (r: Self)
        ensures
            r.reservation_id@ == reservation_id.operation_text(),
            r.account_id@ == account_id.account_text(),
            r.candidate_outpoints == candidate_outpoints,
            r.expires_at == expires_at,
    {
        ManualReservationFirstAvailableRequest {
            reservation_id: reservation_id.into_operation_id(),
            account_id: account_id.into_account_id(),
            candidate_outpoints,
            expires_at,
        }
    }
}

/// Values that are, or become, a selection request.
pub trait IntoSelectionRequest {
    spec fn selection_request(&self) -> SelectionRequest;

    fn into_selection_request(self) -> (r: SelectionRequest)
        ensures
            r == self.selection_request(),
    ;
}

impl IntoSelectionRequest for SelectionRequest {
    open spec fn selection_request(&self) -> SelectionRequest {
        *self
    }

    fn into_selection_request(self) -> (r: SelectionRequest) {
        self
    }
}

impl IntoSelectionRequest for BtcSendRequest {
    open spec fn selection_request(&self) -> SelectionRequest {
        SelectionRequest::BtcSend(*self)
    }

    fn into_selection_request(self) -> (r: SelectionRequest) {
        SelectionRequest::BtcSend(self)
    }
}

impl IntoSelectionRequest for PlannedExactOutpointsRequest {
    open spec fn selection_request(&self) -> SelectionRequest {
        SelectionRequest::PlannedExactOutpoints(*self)
    }

    fn into_selection_request(self) -> (r: SelectionRequest) {
        SelectionRequest::PlannedExactOutpoints(self)
    }
}

impl IntoSelectionRequest for PlannedSpecificOutpointRequest {
    open spec fn selection_request(&self) -> SelectionRequest {
        SelectionRequest::PlannedSpecificOutpoint(*self)
    }

    fn into_selection_request(self) -> (r: SelectionRequest) {
        SelectionRequest::PlannedSpecificOutpoint(self)
    }
}

impl IntoSelectionRequest for ManualReservationExactRequest {
    open spec fn selection_request(&self) -> SelectionRequest {
        SelectionRequest::ManualReservationExact(*self)
    }

    fn into_selection_request(self) -> (r: SelectionRequest) {
        SelectionRequest::ManualReservationExact(self)
    }
}

impl IntoSelectionRequest for ManualReservationFirstAvailableRequest {
    open spec fn selection_request(&self) -> SelectionRequest {
        SelectionRequest::ManualReservationFirstAvailable(*self)
    }

    fn into_selection_request(self) -> (r: SelectionRequest) {
        SelectionRequest::ManualReservationFirstAvailable(self)
    }
}

impl From<BtcSendRequest> for SelectionRequest {
    fn from(value: BtcSendRequest) -> (r: Self) {
        SelectionRequest::BtcSend(value)
    }
}

impl vstd::std_specs::convert::FromSpecImpl<BtcSendRequest> for SelectionRequest {
    open spec fn obeys_from_spec() -> bool {
        true
    }

    open spec fn from_spec(v: BtcSendRequest) -> SelectionRequest {
        SelectionRequest::BtcSend(v)
    }
}

impl From<PlannedExactOutpointsRequest> for SelectionRequest {
    fn from(value: PlannedExactOutpointsRequest) -> (r: Self) {
        SelectionRequest::PlannedExactOutpoints(value)
    }
}

impl vstd::std_specs::convert::FromSpecImpl<PlannedExactOutpointsRequest> for SelectionRequest {
    open spec fn obeys_from_spec() -> bool {
        true
    }

    open spec fn from_spec(v: PlannedExactOutpointsRequest) -> SelectionRequest {
        SelectionRequest::PlannedExactOutpoints(v)
    }
}

impl From<PlannedSpecificOutpointRequest> for SelectionRequest {
    fn from(value: PlannedSpecificOutpointRequest) -> (r: Self) {
        SelectionRequest::PlannedSpecificOutpoint(value)
    }
}

impl vstd::std_specs::convert::FromSpecImpl<PlannedSpecificOutpointRequest> for SelectionRequest {
    open spec fn obeys_from_spec() -> bool {
        true
    }

    open spec fn from_spec(v: PlannedSpecificOutpointRequest) -> SelectionRequest {
        SelectionRequest::PlannedSpecificOutpoint(v)
    }
}

impl From<ManualReservationExactRequest> for SelectionRequest {
    fn from(value: ManualReservationExactRequest) -> (r: Self) {
        SelectionRequest::ManualReservationExact(value)
    }
}

impl vstd::std_specs::convert::FromSpecImpl<ManualReservationExactRequest> for SelectionRequest {
    open spec fn obeys_from_spec() -> bool {
        true
    }

    open spec fn from_spec(v: ManualReservationExactRequest) -> SelectionRequest {
        SelectionRequest::ManualReservationExact(v)
    }
}

impl From<ManualReservationFirstAvailableRequest> for SelectionRequest {
    fn from(value: ManualReservationFirstAvailableRequest) -> (r: Self) {
        SelectionRequest::ManualReservationFirstAvailable(value)
    }
}

impl vstd::std_specs::convert::FromSpecImpl<ManualReservationFirstAvailableRequest> for SelectionRequest {
    open spec fn obeys_from_spec() -> bool {
        true
    }

    open spec fn from_spec(v: ManualReservationFirstAvailableRequest) -> SelectionRequest {
        SelectionRequest::ManualReservationFirstAvailable(v)
    }
}

/// The normalized request: its operation, account, how inputs are chosen, and the lock policy;
/// the required capabilities are those of the lock purpose.
pub open spec fn request_is(
    r: OperationRequest,
    operation_id: Seq<char>,
    account_id: Seq<char>,
    spec: SpecModel,
    purpose: OperationPurpose,
    expires_at: Option<u64>,
) -> bool {
    &&& r.operation_id@ == operation_id
    &&& r.selection.account_id@ == account_id
    &&& r.selection.spec@ == spec
    &&& r.selection.required_capabilities@ == purpose.spec_lock_purpose().required_set()
    &&& r.locking.purpose == purpose
    &&& r.locking.expires_at == expires_at
}

/// The parts of a normalized request.
pub struct RequestModel {
    pub operation_id: Seq<char>,
    pub account_id: Seq<char>,
    pub spec: SpecModel,
    pub purpose: OperationPurpose,
    pub expires_at: Option<u64>,
}

/// What a selection request normalizes to: operation, account, how inputs are
/// chosen, the lock purpose and the lock expiry.
pub open spec fn request_view(req: SelectionRequest) -> RequestModel {
    match req {
        SelectionRequest::BtcSend(q) => RequestModel {
            operation_id: q.operation_id@,
            account_id: q.account_id@,
            spec: SpecModel::TargetValue { amount_sats: q.amount_sats },
            purpose: OperationPurpose::BtcSend,
            expires_at: None,
        },
        SelectionRequest::PlannedExactOutpoints(q) => RequestModel {
            operation_id: q.operation_id@,
            account_id: q.account_id@,
            spec: SpecModel::ExactOutpoints { outpoints: outpoints_model(q.outpoints@) },
            purpose: OperationPurpose::PlannedSelection,
            expires_at: None,
        },
        SelectionRequest::PlannedSpecificOutpoint(q) => RequestModel {
            operation_id: q.operation_id@,
            account_id: q.account_id@,
            spec: SpecModel::ExactOutpoints { outpoints: seq![q.outpoint@] },
            purpose: OperationPurpose::PlannedSelection,
            expires_at: q.expires_at,
        },
        SelectionRequest::ManualReservationExact(q) => RequestModel {
            operation_id: q.reservation_id@,
            account_id: q.account_id@,
            spec: SpecModel::ExactOutpoints { outpoints: seq![q.outpoint@] },
            purpose: OperationPurpose::ManualReservation,
            expires_at: Some(q.expires_at),
        },
        SelectionRequest::ManualReservationFirstAvailable(q) => RequestModel {
            operation_id: q.reservation_id@,
            account_id: q.account_id@,
            spec: SpecModel::FirstSelectable {
                candidates: outpoints_model(sort_by_insertion(q.candidate_outpoints@)),
            },
            purpose: OperationPurpose::ManualReservation,
            expires_at: Some(q.expires_at),
        },
    }
}

/// `r` is the normalized form of `req`; the required capabilities are those of the lock purpose.
pub open spec fn normalized(req: SelectionRequest, r: OperationRequest) -> bool {
    let v = request_view(req);
    request_is(r, v.operation_id, v.account_id, v.spec, v.purpose, v.expires_at)
}

impl SelectionRequest {
    /// Normalizes the request: the selection strategy, the capabilities its
    /// lock purpose requires, and how the chosen inputs are locked. Manual
    /// first-available candidates are tried in `txid:vout` text order.
    pub fn into_operation_request(self) -> (r: OperationRequest)
        ensures
            normalized(self, r),
    {
        match self {
            SelectionRequest::BtcSend(req) => OperationRequest::new(
                req.operation_id,
                InputSelectionRequest::new(
                    req.account_id,
                    InputSelectionSpec::TargetValue { amount_sats: req.amount_sats },
                    LockPurpose::BtcSend.required_capabilities(),
                ),
                SelectionLockPolicy::new(OperationPurpose::BtcSend, None),
            ),
            SelectionRequest::PlannedExactOutpoints(req) => OperationRequest::new(
                req.operation_id,
                InputSelectionRequest::new(
                    req.account_id,
                    InputSelectionSpec::ExactOutpoints { outpoints: req.outpoints },
                    LockPurpose::PlannedSelection.required_capabilities(),
                ),
                SelectionLockPolicy::new(OperationPurpose::PlannedSelection, None),
            ),
            SelectionRequest::PlannedSpecificOutpoint(req) => {
                let outpoints = vec![req.outpoint];
                assert(outpoints_model(outpoints@) =~= seq![req.outpoint@]);
                OperationRequest::new(
                    req.operation_id,
                    InputSelectionRequest::new(
                        req.account_id,
                        InputSelectionSpec::ExactOutpoints { outpoints },
                        LockPurpose::PlannedSelection.required_capabilities(),
                    ),
                    SelectionLockPolicy::new(OperationPurpose::PlannedSelection, req.expires_at),
                )
            },
            SelectionRequest::ManualReservationExact(req) => {
                let outpoints = vec![req.outpoint];
                assert(outpoints_model(outpoints@) =~= seq![req.outpoint@]);
                OperationRequest::new(
                    req.reservation_id,
                    InputSelectionRequest::new(
                        req.account_id,
                        InputSelectionSpec::ExactOutpoints { outpoints },
                        LockPurpose::ManualReservation.required_capabilities(),
                    ),
                    SelectionLockPolicy::new(OperationPurpose::ManualReservation, Some(req.expires_at)),
                )
            },
            SelectionRequest::ManualReservationFirstAvailable(req) => {
                let candidates = insertion_sort(req.candidate_outpoints);
                OperationRequest::new(
                    req.reservation_id,
                    InputSelectionRequest::new(
                        req.account_id,
                        InputSelectionSpec::FirstSelectable { candidates },
                        LockPurpose::ManualReservation.required_capabilities(),
                    ),
                    SelectionLockPolicy::new(OperationPurpose::ManualReservation, Some(req.expires_at)),
                )
            },
        }
    }
}

} // verus!
