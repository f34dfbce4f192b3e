//! Locks that hold an output for an operation.
use vstd::prelude::*;

use crate::capability::{Capability, CapabilitySet};
use crate::ids::{AccountId, OperationId, WalletScopeId};
use crate::text::str_eq;

verus! {

/// Why an output is locked.
#[derive(Clone, Copy, Debug, PartialEq, Eq, Structural)]
pub enum LockPurpose {
    ManualReservation,
    BtcSend,
    /// A planned allocation-free input supplying bitcoin fees.
    FeeSupport,
    PlannedSelection,
}

impl LockPurpose {
    /// The persisted name of each variant.
    pub open spec fn name_text(self) -> Seq<char> {
        match self {
            LockPurpose::ManualReservation => "manual_reservation"@,
            LockPurpose::BtcSend => "btc_send"@,
            LockPurpose::FeeSupport => "fee_support"@,
            LockPurpose::PlannedSelection => "planned_selection"@,
        }
    }

    /// The variant a persisted name denotes, including legacy aliases.
    pub open spec fn parse_name(s: Seq<char>) -> Option<LockPurpose> {
        if s == "manual_reservation"@ {
            Some(LockPurpose::ManualReservation)
        } else if s == "btc_send"@ {
            Some(LockPurpose::BtcSend)
        } else if s == "fee_support"@ {
            Some(LockPurpose::FeeSupport)
        } else if s == "planned_selection"@ {
            Some(LockPurpose::PlannedSelection)
        } else if s == "single_target_reserve"@ {
            Some(LockPurpose::PlannedSelection)
        } else if s == "anchor_with_fee_support"@ {
            Some(LockPurpose::PlannedSelection)
        } else if s == "rgb_receive_preparation"@ {
            Some(LockPurpose::PlannedSelection)
        } else if s == "rgb_l1_send"@ {
            Some(LockPurpose::PlannedSelection)
        } else if s == "channel_funding"@ {
            Some(LockPurpose::PlannedSelection)
        } else {
            None
        }
    }

    /// The name of the variant as written in diagnostics.
    pub open spec fn debug_text(self) -> Seq<char> {
        match self {
            LockPurpose::ManualReservation => "ManualReservation"@,
            LockPurpose::BtcSend => "BtcSend"@,
            LockPurpose::FeeSupport => "FeeSupport"@,
            LockPurpose::PlannedSelection => "PlannedSelection"@,
        }
    }

    /// The persisted name of this variant.
    pub fn name(self) -> (r: &'static str)
        ensures
            r@ == self.name_text(),
    {
        match self {
            LockPurpose::ManualReservation => "manual_reservation",
            LockPurpose::BtcSend => "btc_send",
            LockPurpose::FeeSupport => "fee_support",
            LockPurpose::PlannedSelection => "planned_selection",
        }
    }

    /// Reads a persisted name, accepting legacy aliases.
    pub fn from_name(s: &str) -> (r: Option<LockPurpose>)
        ensures
            r == LockPurpose::parse_name(s@),
    {
        if str_eq(s, "manual_reservation") {
            return Some(LockPurpose::ManualReservation);
        }
        if str_eq(s, "btc_send") {
            return Some(LockPurpose::BtcSend);
        }
        if str_eq(s, "fee_support") {
            return Some(LockPurpose::FeeSupport);
        }
        if str_eq(s, "planned_selection") {
            return Some(LockPurpose::PlannedSelection);
        }
        if str_eq(s, "single_target_reserve") {
            return Some(LockPurpose::PlannedSelection);
        }
        if str_eq(s, "anchor_with_fee_support") {
            return Some(LockPurpose::PlannedSelection);
        }
        if str_eq(s, "rgb_receive_preparation") {
            return Some(LockPurpose::PlannedSelection);
        }
        if str_eq(s, "rgb_l1_send") {
            return Some(LockPurpose::PlannedSelection);
        }
        if str_eq(s, "channel_funding") {
            return Some(LockPurpose::PlannedSelection);
        }
        None
    }

    /// The name of this variant as written in diagnostics.
    pub fn debug_name(self) -> (r: &'static str)
        ensures
            r@ == self.debug_text(),
    {
        match self {
            LockPurpose::ManualReservation => "ManualReservation",
            LockPurpose::BtcSend => "BtcSend",
            LockPurpose::FeeSupport => "FeeSupport",
            LockPurpose::PlannedSelection => "PlannedSelection",
        }
    }

    /// Every variant reads back from its persisted name.
    pub proof fn lemma_name_round_trip(self)
        ensures
            LockPurpose::parse_name(self.name_text()) == Some(self),
    {
        reveal_strlit("anchor_with_fee_support");
        reveal_strlit("btc_send");
        reveal_strlit("channel_funding");
        reveal_strlit("fee_support");
        reveal_strlit("manual_reservation");
        reveal_strlit("planned_selection");
        reveal_strlit("rgb_l1_send");
        reveal_strlit("rgb_receive_preparation");
        reveal_strlit("single_target_reserve");
        match self {
            LockPurpose::ManualReservation => {
            },
            LockPurpose::BtcSend => {
                assert("btc_send"@.len() != "manual_reservation"@.len());
            },
            LockPurpose::FeeSupport => {
                assert("fee_support"@.len() != "manual_reservation"@.len());
                assert("fee_support"@.len() != "btc_send"@.len());
            },
            LockPurpose::PlannedSelection => {
                assert("planned_selection"@.len() != "manual_reservation"@.len());
                assert("planned_selection"@.len() != "btc_send"@.len());
                assert("planned_selection"@.len() != "fee_support"@.len());
            },
        }
    }
}

impl View for LockPurpose {
    type V = LockPurpose;

    open spec fn view(&self) -> LockPurpose {
        *self
    }
}

impl LockPurpose {
    /// The capabilities an input locked for this purpose needs, on its account and scope.
    pub open spec fn required_set(self) -> Set<Capability> {
        match self {
            LockPurpose::BtcSend => set![Capability::BtcSpend],
            LockPurpose::PlannedSelection => set![Capability::ReserveSupport],
            LockPurpose::FeeSupport => set![Capability::ReserveSupport, Capability::FeeSupport],
            LockPurpose::ManualReservation => {
                set![Capability::ReserveSupport, Capability::SingleTargetReserve]
            },
        }
    }

    /// The capabilities the change scope needs for this purpose. Fee support is
    /// an input role; the resulting change remains a planned output.
    pub open spec fn required_change_set(self) -> Set<Capability> {
        match self {
            LockPurpose::FeeSupport => LockPurpose::PlannedSelection.required_set(),
            other => other.required_set(),
        }
    }

    pub fn required_capabilities(self) -> (r: CapabilitySet)
        ensures
            r@ == self.required_set(),
    {
        let mut r = CapabilitySet::empty();
        match self {
            LockPurpose::BtcSend => {
                r.insert(Capability::BtcSpend);
            },
            LockPurpose::PlannedSelection => {
                r.insert(Capability::ReserveSupport);
            },
            LockPurpose::FeeSupport => {
                r.insert(Capability::ReserveSupport);
                r.insert(Capability::FeeSupport);
            },
            LockPurpose::ManualReservation => {
                r.insert(Capability::ReserveSupport);
                r.insert(Capability::SingleTargetReserve);
            },
        }
        assert(r@ =~= self.required_set());
        r
    }

    pub fn required_change_capabilities(self) -> (r: CapabilitySet)
        ensures
            r@ == self.required_change_set(),
    {
        match self {
            LockPurpose::FeeSupport => LockPurpose::PlannedSelection.required_capabilities(),
            other => other.required_capabilities(),
        }
    }
}

/// An output held for an operation.
#[derive(Debug, Clone, PartialEq, Eq)]
pub struct OperationLock {
    pub operation_id: OperationId,
    pub account_id: AccountId,
    pub scope_id: WalletScopeId,
    pub purpose: LockPurpose,
    pub owner: String,
    pub created_at: u64,
    pub expires_at: Option<u64>,
}

/// The value of an `OperationLock`.
pub struct LockModel {
    pub operation_id: Seq<char>,
    pub account_id: Seq<char>,
    pub scope_id: Seq<char>,
    pub purpose: LockPurpose,
    pub owner: Seq<char>,
    pub created_at: u64,
    pub expires_at: Option<u64>,
}

impl View for OperationLock {
    type V = LockModel;

    open spec fn view(&self) -> LockModel {
        LockModel {
            operation_id: self.operation_id@,
            account_id: self.account_id@,
            scope_id: self.scope_id@,
            purpose: self.purpose,
            owner: self.owner@,
            created_at: self.created_at,
            expires_at: self.expires_at,
        }
    }
}

impl OperationLock {
    /// A copy with the same value.
    pub fn dup(&self) -> (r: Self)
        ensures
            r@ == self@,
    {
        OperationLock {
            operation_id: self.operation_id.dup(),
            account_id: self.account_id.dup(),
            scope_id: self.scope_id.dup(),
            purpose: self.purpose,
            owner: self.owner.clone(),
            created_at: self.created_at,
            expires_at: self.expires_at,
        }
    }
}

} // verus!
