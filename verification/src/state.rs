use vstd::prelude::*;

use crate::text::str_eq;

verus! {

/// What is known of an output on chain.
#[derive(Clone, Copy, Debug, PartialEq, Eq, Structural)]
pub enum OnchainState {
    Unknown,
    UnconfirmedIncoming,
    Confirmed,
    SpendingInFlight,
    Spent,
}

impl OnchainState {
    /// The persisted name of each variant.
    pub open spec fn name_text(self) -> Seq<char> {
        match self {
            OnchainState::Unknown => "unknown"@,
            OnchainState::UnconfirmedIncoming => "unconfirmed_incoming"@,
            OnchainState::Confirmed => "confirmed"@,
            OnchainState::SpendingInFlight => "spending_in_flight"@,
            OnchainState::Spent => "spent"@,
        }
    }

    /// The variant a persisted name denotes, including legacy aliases.
    pub open spec fn parse_name(s: Seq<char>) -> Option<OnchainState> {
        if s == "unknown"@ {
            Some(OnchainState::Unknown)
        } else if s == "unconfirmed_incoming"@ {
            Some(OnchainState::UnconfirmedIncoming)
        } else if s == "confirmed"@ {
            Some(OnchainState::Confirmed)
        } else if s == "spending_in_flight"@ {
            Some(OnchainState::SpendingInFlight)
        } else if s == "spent"@ {
            Some(OnchainState::Spent)
        } else {
            None
        }
    }

    /// The name of the variant as written in diagnostics.
    pub open spec fn debug_text(self) -> Seq<char> {
        match self {
            OnchainState::Unknown => "Unknown"@,
            OnchainState::UnconfirmedIncoming => "UnconfirmedIncoming"@,
            OnchainState::Confirmed => "Confirmed"@,
            OnchainState::SpendingInFlight => "SpendingInFlight"@,
            OnchainState::Spent => "Spent"@,
        }
    }

    /// The persisted name of this variant.
    pub fn name(self) -> (r: &'static str)
        ensures
            r@ == self.name_text(),
    {
        match self {
            OnchainState::Unknown => "unknown",
            OnchainState::UnconfirmedIncoming => "unconfirmed_incoming",
            OnchainState::Confirmed => "confirmed",
            OnchainState::SpendingInFlight => "spending_in_flight",
            OnchainState::Spent => "spent",
        }
    }

    /// Reads a persisted name, accepting legacy aliases.
    pub fn from_name(s: &str) -> (r: Option<OnchainState>)
        ensures
            r == OnchainState::parse_name(s@),
    {
        if str_eq(s, "unknown") {
            return Some(OnchainState::Unknown);
        }
        if str_eq(s, "unconfirmed_incoming") {
            return Some(OnchainState::UnconfirmedIncoming);
        }
        if str_eq(s, "confirmed") {
            return Some(OnchainState::Confirmed);
        }
        if str_eq(s, "spending_in_flight") {
            return Some(OnchainState::SpendingInFlight);
        }
        if str_eq(s, "spent") {
            return Some(OnchainState::Spent);
        }
        None
    }

    /// The name of this variant as written in diagnostics.
    pub fn debug_name(self) -> (r: &'static str)
        ensures
            r@ == self.debug_text(),
    {
        match self {
            OnchainState::Unknown => "Unknown",
            OnchainState::UnconfirmedIncoming => "UnconfirmedIncoming",
            OnchainState::Confirmed => "Confirmed",
            OnchainState::SpendingInFlight => "SpendingInFlight",
            OnchainState::Spent => "Spent",
        }
    }

    /// Every variant reads back from its persisted name.
    pub proof fn lemma_name_round_trip(self)
        ensures
            OnchainState::parse_name(self.name_text()) == Some(self),
    {
        reveal_strlit("confirmed");
        reveal_strlit("spending_in_flight");
        reveal_strlit("spent");
        reveal_strlit("unconfirmed_incoming");
        reveal_strlit("unknown");
        match self {
            OnchainState::Unknown => {
            },
            OnchainState::UnconfirmedIncoming => {
                assert("unconfirmed_incoming"@.len() != "unknown"@.len());
            },
            OnchainState::Confirmed => {
                assert("confirmed"@.len() != "unknown"@.len());
                assert("confirmed"@.len() != "unconfirmed_incoming"@.len());
            },
            OnchainState::SpendingInFlight => {
                assert("spending_in_flight"@.len() != "unknown"@.len());
                assert("spending_in_flight"@.len() != "unconfirmed_incoming"@.len());
                assert("spending_in_flight"@.len() != "confirmed"@.len());
            },
            OnchainState::Spent => {
                assert("spent"@.len() != "unknown"@.len());
                assert("spent"@.len() != "unconfirmed_incoming"@.len());
                assert("spent"@.len() != "confirmed"@.len());
                assert("spent"@.len() != "spending_in_flight"@.len());
            },
        }
    }
}

impl View for OnchainState {
    type V = OnchainState;

    open spec fn view(&self) -> OnchainState {
        *self
    }
}

/// Whether an output may be selected, and why not.
#[derive(Clone, Copy, Debug, PartialEq, Eq, Structural)]
pub enum Availability {
    Unknown,
    Selectable,
    Reserved,
    Locked,
    BlockedByPolicy,
    BlockedByL2,
    Recovering,
}

impl Availability {
    /// The persisted name of each variant.
    pub open spec fn name_text(self) -> Seq<char> {
        match self {
            Availability::Unknown => "unknown"@,
            Availability::Selectable => "selectable"@,
            Availability::Reserved => "reserved"@,
            Availability::Locked => "locked"@,
            Availability::BlockedByPolicy => "blocked_by_policy"@,
            Availability::BlockedByL2 => "blocked_by_l2"@,
            Availability::Recovering => "recovering"@,
        }
    }

    /// The variant a persisted name denotes, including legacy aliases.
    pub open spec fn parse_name(s: Seq<char>) -> Option<Availability> {
        if s == "unknown"@ {
            Some(Availability::Unknown)
        } else if s == "selectable"@ {
            Some(Availability::Selectable)
        } else if s == "reserved"@ {
            Some(Availability::Reserved)
        } else if s == "locked"@ {
            Some(Availability::Locked)
        } else if s == "blocked_by_policy"@ {
            Some(Availability::BlockedByPolicy)
        } else if s == "blocked_by_l2"@ {
            Some(Availability::BlockedByL2)
        } else if s == "recovering"@ {
            Some(Availability::Recovering)
        } else {
            None
        }
    }

    /// The name of the variant as written in diagnostics.
    pub open spec fn debug_text(self) -> Seq<char> {
        match self {
            Availability::Unknown => "Unknown"@,
            Availability::Selectable => "Selectable"@,
            Availability::Reserved => "Reserved"@,
            Availability::Locked => "Locked"@,
            Availability::BlockedByPolicy => "BlockedByPolicy"@,
            Availability::BlockedByL2 => "BlockedByL2"@,
            Availability::Recovering => "Recovering"@,
        }
    }

    /// The persisted name of this variant.
    pub fn name(self) -> (r: &'static str)
        ensures
            r@ == self.name_text(),
    {
        match self {
            Availability::Unknown => "unknown",
            Availability::Selectable => "selectable",
            Availability::Reserved => "reserved",
            Availability::Locked => "locked",
            Availability::BlockedByPolicy => "blocked_by_policy",
            Availability::BlockedByL2 => "blocked_by_l2",
            Availability::Recovering => "recovering",
        }
    }

    /// Reads a persisted name, accepting legacy aliases.
    pub fn from_name(s: &str) -> (r: Option<Availability>)
        ensures
            r == Availability::parse_name(s@),
    {
        if str_eq(s, "unknown") {
            return Some(Availability::Unknown);
        }
        if str_eq(s, "selectable") {
            return Some(Availability::Selectable);
        }
        if str_eq(s, "reserved") {
            return Some(Availability::Reserved);
        }
        if str_eq(s, "locked") {
            return Some(Availability::Locked);
        }
        if str_eq(s, "blocked_by_policy") {
            return Some(Availability::BlockedByPolicy);
        }
        if str_eq(s, "blocked_by_l2") {
            return Some(Availability::BlockedByL2);
        }
        if str_eq(s, "recovering") {
            return Some(Availability::Recovering);
        }
        None
    }

    /// The name of this variant as written in diagnostics.
    pub fn debug_name(self) -> (r: &'static str)
        ensures
            r@ == self.debug_text(),
    {
        match self {
            Availability::Unknown => "Unknown",
            Availability::Selectable => "Selectable",
            Availability::Reserved => "Reserved",
            Availability::Locked => "Locked",
            Availability::BlockedByPolicy => "BlockedByPolicy",
            Availability::BlockedByL2 => "BlockedByL2",
            Availability::Recovering => "Recovering",
        }
    }

    /// Every variant reads back from its persisted name.
    pub proof fn lemma_name_round_trip(self)
        ensures
            Availability::parse_name(self.name_text()) == Some(self),
    {
        reveal_strlit("blocked_by_l2");
        reveal_strlit("blocked_by_policy");
        reveal_strlit("locked");
        reveal_strlit("recovering");
        reveal_strlit("reserved");
        reveal_strlit("selectable");
        reveal_strlit("unknown");
        match self {
            Availability::Unknown => {
            },
            Availability::Selectable => {
                assert("selectable"@.len() != "unknown"@.len());
            },
            Availability::Reserved => {
                assert("reserved"@.len() != "unknown"@.len());
                assert("reserved"@.len() != "selectable"@.len());
            },
            Availability::Locked => {
                assert("locked"@.len() != "unknown"@.len());
                assert("locked"@.len() != "selectable"@.len());
                assert("locked"@.len() != "reserved"@.len());
            },
            Availability::BlockedByPolicy => {
                assert("blocked_by_policy"@.len() != "unknown"@.len());
                assert("blocked_by_policy"@.len() != "selectable"@.len());
                assert("blocked_by_policy"@.len() != "reserved"@.len());
                assert("blocked_by_policy"@.len() != "locked"@.len());
            },
            Availability::BlockedByL2 => {
                assert("blocked_by_l2"@.len() != "unknown"@.len());
                assert("blocked_by_l2"@.len() != "selectable"@.len());
                assert("blocked_by_l2"@.len() != "reserved"@.len());
                assert("blocked_by_l2"@.len() != "locked"@.len());
                assert("blocked_by_l2"@.len() != "blocked_by_policy"@.len());
            },
            Availability::Recovering => {
                assert("recovering"@.len() != "unknown"@.len());
                assert("recovering"@[0] != "selectable"@[0]);
                assert("recovering"@.len() != "reserved"@.len());
                assert("recovering"@.len() != "locked"@.len());
                assert("recovering"@.len() != "blocked_by_policy"@.len());
                assert("recovering"@.len() != "blocked_by_l2"@.len());
            },
        }
    }
}

impl View for Availability {
    type V = Availability;

    open spec fn view(&self) -> Availability {
        *self
    }
}

/// The role an output plays in selection preference.
#[derive(Clone, Copy, Debug, PartialEq, Eq, Structural)]
pub enum UtxoRole {
    Unknown,
    General,
    SpendPreferred,
    Reserve,
    RecoveryOutput,
    ConsolidationCandidate,
}

impl UtxoRole {
    /// The persisted name of each variant.
    pub open spec fn name_text(self) -> Seq<char> {
        match self {
            UtxoRole::Unknown => "unknown"@,
            UtxoRole::General => "general"@,
            UtxoRole::SpendPreferred => "spend_preferred"@,
            UtxoRole::Reserve => "reserve"@,
            UtxoRole::RecoveryOutput => "recovery_output"@,
            UtxoRole::ConsolidationCandidate => "consolidation_candidate"@,
        }
    }

    /// The variant a persisted name denotes, including legacy aliases.
    pub open spec fn parse_name(s: Seq<char>) -> Option<UtxoRole> {
        if s == "unknown"@ {
            Some(UtxoRole::Unknown)
        } else if s == "general"@ {
            Some(UtxoRole::General)
        } else if s == "spend_preferred"@ {
            Some(UtxoRole::SpendPreferred)
        } else if s == "reserve"@ {
            Some(UtxoRole::Reserve)
        } else if s == "recovery_output"@ {
            Some(UtxoRole::RecoveryOutput)
        } else if s == "consolidation_candidate"@ {
            Some(UtxoRole::ConsolidationCandidate)
        } else {
            None
        }
    }

    /// The name of the variant as written in diagnostics.
    pub open spec fn debug_text(self) -> Seq<char> {
        match self {
            UtxoRole::Unknown => "Unknown"@,
            UtxoRole::General => "General"@,
            UtxoRole::SpendPreferred => "SpendPreferred"@,
            UtxoRole::Reserve => "Reserve"@,
            UtxoRole::RecoveryOutput => "RecoveryOutput"@,
            UtxoRole::ConsolidationCandidate => "ConsolidationCandidate"@,
        }
    }

    /// The persisted name of this variant.
    pub fn name(self) -> (r: &'static str)
        ensures
            r@ == self.name_text(),
    {
        match self {
            UtxoRole::Unknown => "unknown",
            UtxoRole::General => "general",
            UtxoRole::SpendPreferred => "spend_preferred",
            UtxoRole::Reserve => "reserve",
            UtxoRole::RecoveryOutput => "recovery_output",
            UtxoRole::ConsolidationCandidate => "consolidation_candidate",
        }
    }

    /// Reads a persisted name, accepting legacy aliases.
    pub fn from_name(s: &str) -> (r: Option<UtxoRole>)
        ensures
            r == UtxoRole::parse_name(s@),
    {
        if str_eq(s, "unknown") {
            return Some(UtxoRole::Unknown);
        }
        if str_eq(s, "general") {
            return Some(UtxoRole::General);
        }
        if str_eq(s, "spend_preferred") {
            return Some(UtxoRole::SpendPreferred);
        }
        if str_eq(s, "reserve") {
            return Some(UtxoRole::Reserve);
        }
        if str_eq(s, "recovery_output") {
            return Some(UtxoRole::RecoveryOutput);
        }
        if str_eq(s, "consolidation_candidate") {
            return Some(UtxoRole::ConsolidationCandidate);
        }
        None
    }

    /// The name of this variant as written in diagnostics.
    pub fn debug_name(self) -> (r: &'static str)
        ensures
            r@ == self.debug_text(),
    {
        match self {
            UtxoRole::Unknown => "Unknown",
            UtxoRole::General => "General",
            UtxoRole::SpendPreferred => "SpendPreferred",
            UtxoRole::Reserve => "Reserve",
            UtxoRole::RecoveryOutput => "RecoveryOutput",
            UtxoRole::ConsolidationCandidate => "ConsolidationCandidate",
        }
    }

    /// Every variant reads back from its persisted name.
    pub proof fn lemma_name_round_trip(self)
        ensures
            UtxoRole::parse_name(self.name_text()) == Some(self),
    {
        reveal_strlit("consolidation_candidate");
        reveal_strlit("general");
        reveal_strlit("recovery_output");
        reveal_strlit("reserve");
        reveal_strlit("spend_preferred");
        reveal_strlit("unknown");
        match self {
            UtxoRole::Unknown => {
            },
            UtxoRole::General => {
                assert("general"@[0] != "unknown"@[0]);
            },
            UtxoRole::SpendPreferred => {
                assert("spend_preferred"@.len() != "unknown"@.len());
                assert("spend_preferred"@.len() != "general"@.len());
            },
            UtxoRole::Reserve => {
                assert("reserve"@[0] != "unknown"@[0]);
                assert("reserve"@[0] != "general"@[0]);
                assert("reserve"@.len() != "spend_preferred"@.len());
            },
            UtxoRole::RecoveryOutput => {
                assert("recovery_output"@.len() != "unknown"@.len());
                assert("recovery_output"@.len() != "general"@.len());
                assert("recovery_output"@[0] != "spend_preferred"@[0]);
                assert("recovery_output"@.len() != "reserve"@.len());
            },
            UtxoRole::ConsolidationCandidate => {
                assert("consolidation_candidate"@.len() != "unknown"@.len());
                assert("consolidation_candidate"@.len() != "general"@.len());
                assert("consolidation_candidate"@.len() != "spend_preferred"@.len());
                assert("consolidation_candidate"@.len() != "reserve"@.len());
                assert("consolidation_candidate"@.len() != "recovery_output"@.len());
            },
        }
    }
}

impl View for UtxoRole {
    type V = UtxoRole;

    open spec fn view(&self) -> UtxoRole {
        *self
    }
}

} // verus!
