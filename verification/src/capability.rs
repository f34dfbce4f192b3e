use vstd::prelude::*;

use crate::text::str_eq;

verus! {

/// Account and scope capability flags. New flags may be added; downstream matches must include a wildcard arm for future capabilities.
#[derive(Clone, Copy, Debug, PartialEq, Eq, PartialOrd, Ord, Hash, Structural)]
#[non_exhaustive]
pub enum Capability {
    BtcSpend,
    BtcReceive,
    /// Allows allocation-free inputs to supply bitcoin value in asset selection.
    FeeSupport,
    ReserveSupport,
    SingleTargetReserve,
    L2Settlement,
    ConsolidationSource,
    ConsolidationTarget,
}

impl Capability {
    /// The persisted name of each variant.
    pub open spec fn name_text(self) -> Seq<char> {
        match self {
            Capability::BtcSpend => "btc_spend"@,
            Capability::BtcReceive => "btc_receive"@,
            Capability::FeeSupport => "fee_support"@,
            Capability::ReserveSupport => "reserve_support"@,
            Capability::SingleTargetReserve => "single_target_reserve"@,
            Capability::L2Settlement => "l2_settlement"@,
            Capability::ConsolidationSource => "consolidation_source"@,
            Capability::ConsolidationTarget => "consolidation_target"@,
        }
    }

    /// The variant a persisted name denotes, including legacy aliases.
    pub open spec fn parse_name(s: Seq<char>) -> Option<Capability> {
        if s == "btc_spend"@ {
            Some(Capability::BtcSpend)
        } else if s == "btc_receive"@ {
            Some(Capability::BtcReceive)
        } else if s == "fee_support"@ {
            Some(Capability::FeeSupport)
        } else if s == "reserve_support"@ {
            Some(Capability::ReserveSupport)
        } else if s == "single_target_reserve"@ {
            Some(Capability::SingleTargetReserve)
        } else if s == "rgb_receive"@ {
            Some(Capability::SingleTargetReserve)
        } else if s == "l2_settlement"@ {
            Some(Capability::L2Settlement)
        } else if s == "consolidation_source"@ {
            Some(Capability::ConsolidationSource)
        } else if s == "consolidation_target"@ {
            Some(Capability::ConsolidationTarget)
        } else {
            None
        }
    }

    /// The name of the variant as written in diagnostics.
    pub open spec fn debug_text(self) -> Seq<char> {
        match self {
            Capability::BtcSpend => "BtcSpend"@,
            Capability::BtcReceive => "BtcReceive"@,
            Capability::FeeSupport => "FeeSupport"@,
            Capability::ReserveSupport => "ReserveSupport"@,
            Capability::SingleTargetReserve => "SingleTargetReserve"@,
            Capability::L2Settlement => "L2Settlement"@,
            Capability::ConsolidationSource => "ConsolidationSource"@,
            Capability::ConsolidationTarget => "ConsolidationTarget"@,
        }
    }

    /// The persisted name of this variant.
    pub fn name(self) -> (r: &'static str)
        ensures
            r@ == self.name_text(),
    {
        match self {
            Capability::BtcSpend => "btc_spend",
            Capability::BtcReceive => "btc_receive",
            Capability::FeeSupport => "fee_support",
            Capability::ReserveSupport => "reserve_support",
            Capability::SingleTargetReserve => "single_target_reserve",
            Capability::L2Settlement => "l2_settlement",
            Capability::ConsolidationSource => "consolidation_source",
            Capability::ConsolidationTarget => "consolidation_target",
        }
    }

    /// Reads a persisted name, accepting legacy aliases.
    pub fn from_name(s: &str) -> (r: Option<Capability>)
        ensures
            r == Capability::parse_name(s@),
    {
        if str_eq(s, "btc_spend") {
            return Some(Capability::BtcSpend);
        }
        if str_eq(s, "btc_receive") {
            return Some(Capability::BtcReceive);
        }
        if str_eq(s, "fee_support") {
            return Some(Capability::FeeSupport);
        }
        if str_eq(s, "reserve_support") {
            return Some(Capability::ReserveSupport);
        }
        if str_eq(s, "single_target_reserve") {
            return Some(Capability::SingleTargetReserve);
        }
        if str_eq(s, "rgb_receive") {
            return Some(Capability::SingleTargetReserve);
        }
        if str_eq(s, "l2_settlement") {
            return Some(Capability::L2Settlement);
        }
        if str_eq(s, "consolidation_source") {
            return Some(Capability::ConsolidationSource);
        }
        if str_eq(s, "consolidation_target") {
            return Some(Capability::ConsolidationTarget);
        }
        None
    }

    /// The name of this variant as written in diagnostics.
    pub fn debug_name(self) -> (r: &'static str)
        ensures
            r@ == self.debug_text(),
    {
        match self {
            Capability::BtcSpend => "BtcSpend",
            Capability::BtcReceive => "BtcReceive",
            Capability::FeeSupport => "FeeSupport",
            Capability::ReserveSupport => "ReserveSupport",
            Capability::SingleTargetReserve => "SingleTargetReserve",
            Capability::L2Settlement => "L2Settlement",
            Capability::ConsolidationSource => "ConsolidationSource",
            Capability::ConsolidationTarget => "ConsolidationTarget",
        }
    }

    /// Every variant reads back from its persisted name.
    pub proof fn lemma_name_round_trip(self)
        ensures
            Capability::parse_name(self.name_text()) == Some(self),
    {
        reveal_strlit("btc_receive");
        reveal_strlit("btc_spend");
        reveal_strlit("consolidation_source");
        reveal_strlit("consolidation_target");
        reveal_strlit("fee_support");
        reveal_strlit("l2_settlement");
        reveal_strlit("reserve_support");
        reveal_strlit("rgb_receive");
        reveal_strlit("single_target_reserve");
        match self {
            Capability::BtcSpend => {
            },
            Capability::BtcReceive => {
                assert("btc_receive"@.len() != "btc_spend"@.len());
            },
            Capability::FeeSupport => {
                assert("fee_support"@.len() != "btc_spend"@.len());
                assert("fee_support"@[0] != "btc_receive"@[0]);
            },
            Capability::ReserveSupport => {
                assert("reserve_support"@.len() != "btc_spend"@.len());
                assert("reserve_support"@.len() != "btc_receive"@.len());
                assert("reserve_support"@.len() != "fee_support"@.len());
            },
            Capability::SingleTargetReserve => {
                assert("single_target_reserve"@.len() != "btc_spend"@.len());
                assert("single_target_reserve"@.len() != "btc_receive"@.len());
                assert("single_target_reserve"@.len() != "fee_support"@.len());
                assert("single_target_reserve"@.len() != "reserve_support"@.len());
            },
            Capability::L2Settlement => {
                assert("l2_settlement"@.len() != "btc_spend"@.len());
                assert("l2_settlement"@.len() != "btc_receive"@.len());
                assert("l2_settlement"@.len() != "fee_support"@.len());
                assert("l2_settlement"@.len() != "reserve_support"@.len());
                assert("l2_settlement"@.len() != "single_target_reserve"@.len());
                assert("l2_settlement"@.len() != "rgb_receive"@.len());
            },
            Capability::ConsolidationSource => {
                assert("consolidation_source"@.len() != "btc_spend"@.len());
                assert("consolidation_source"@.len() != "btc_receive"@.len());
                assert("consolidation_source"@.len() != "fee_support"@.len());
                assert("consolidation_source"@.len() != "reserve_support"@.len());
                assert("consolidation_source"@.len() != "single_target_reserve"@.len());
                assert("consolidation_source"@.len() != "rgb_receive"@.len());
                assert("consolidation_source"@.len() != "l2_settlement"@.len());
            },
            Capability::ConsolidationTarget => {
                assert("consolidation_target"@.len() != "btc_spend"@.len());
                assert("consolidation_target"@.len() != "btc_receive"@.len());
                assert("consolidation_target"@.len() != "fee_support"@.len());
                assert("consolidation_target"@.len() != "reserve_support"@.len());
                assert("consolidation_target"@.len() != "single_target_reserve"@.len());
                assert("consolidation_target"@.len() != "rgb_receive"@.len());
                assert("consolidation_target"@.len() != "l2_settlement"@.len());
                assert("consolidation_target"@[14] != "consolidation_source"@[14]);
            },
        }
    }
}

impl View for Capability {
    type V = Capability;

    open spec fn view(&self) -> Capability {
        *self
    }
}

/// A set of capabilities, kept as one flag per capability.
#[derive(Clone, Copy, Debug, PartialEq, Eq, Structural)]
pub struct CapabilitySet {
    btc_spend: bool,
    btc_receive: bool,
    fee_support: bool,
    reserve_support: bool,
    single_target_reserve: bool,
    l2_settlement: bool,
    consolidation_source: bool,
    consolidation_target: bool,
}

/// Every capability, in their declared order.
pub open spec fn all_capabilities() -> Seq<Capability> {
    seq![Capability::BtcSpend, Capability::BtcReceive, Capability::FeeSupport, Capability::ReserveSupport, Capability::SingleTargetReserve, Capability::L2Settlement, Capability::ConsolidationSource, Capability::ConsolidationTarget]
}

impl CapabilitySet {
    /// Whether the flag of `c` is set.
    pub closed spec fn has(self, c: Capability) -> bool {
        match c {
            Capability::BtcSpend => self.btc_spend,
            Capability::BtcReceive => self.btc_receive,
            Capability::FeeSupport => self.fee_support,
            Capability::ReserveSupport => self.reserve_support,
            Capability::SingleTargetReserve => self.single_target_reserve,
            Capability::L2Settlement => self.l2_settlement,
            Capability::ConsolidationSource => self.consolidation_source,
            Capability::ConsolidationTarget => self.consolidation_target,
        }
    }

    /// The members, in the declared order of capabilities.
    pub open spec fn ordered(self) -> Seq<Capability> {
        all_capabilities().filter(|c: Capability| self@.contains(c))
    }

    /// The empty set.
    pub fn empty() -> (r: Self)
        ensures
            r@ == Set::<Capability>::empty(),
    {
        let r = CapabilitySet { btc_spend: false, btc_receive: false, fee_support: false, reserve_support: false, single_target_reserve: false, l2_settlement: false, consolidation_source: false, consolidation_target: false };
        assert(r@ =~= Set::<Capability>::empty());
        r
    }

    /// The set of the given capabilities.
    pub fn new<const N: usize>(capabilities: [Capability; N]) -> (r: Self)
        ensures
            r@ == capabilities@.to_set(),
    {
        Self::from_slice(capabilities.as_slice())
    }

    /// The set of the capabilities in a slice.
    pub fn from_slice(capabilities: &[Capability]) -> (r: Self)
        ensures
            r@ == capabilities@.to_set(),
    {
        let mut r = Self::empty();
        let mut i: usize = 0;
        while i < capabilities.len()
            invariant
                i <= capabilities@.len(),
                r@ == capabilities@.take(i as int).to_set(),
            decreases capabilities@.len() - i,
        {
            let ghost before = r@;
            r.insert(capabilities[i]);
            proof {
                assert(capabilities@.take(i + 1) =~= capabilities@.take(i as int).push(capabilities@[i as int]));
                capabilities@.take(i as int).lemma_push_to_set_commute(capabilities@[i as int]);
            }
            i = i + 1;
        }
        assert(capabilities@.take(i as int) =~= capabilities@);
        r
    }

    pub fn contains(&self, capability: &Capability) -> (r: bool)
        ensures
            r == self@.contains(*capability),
    {
        match capability {
            Capability::BtcSpend => self.btc_spend,
            Capability::BtcReceive => self.btc_receive,
            Capability::FeeSupport => self.fee_support,
            Capability::ReserveSupport => self.reserve_support,
            Capability::SingleTargetReserve => self.single_target_reserve,
            Capability::L2Settlement => self.l2_settlement,
            Capability::ConsolidationSource => self.consolidation_source,
            Capability::ConsolidationTarget => self.consolidation_target,
        }
    }

    pub fn contains_all(&self, required: &CapabilitySet) -> (r: bool)
        ensures
            r == required@.subset_of(self@),
    {
        let r = (!required.btc_spend || self.btc_spend) && (!required.btc_receive || self.btc_receive) && (!required.fee_support || self.fee_support) && (!required.reserve_support || self.reserve_support) && (!required.single_target_reserve || self.single_target_reserve) && (!required.l2_settlement || self.l2_settlement) && (!required.consolidation_source || self.consolidation_source) && (!required.consolidation_target || self.consolidation_target);
        proof {
            if r {
                assert forall|c: Capability| required@.contains(c) implies self@.contains(c) by {
                    match c {
                        Capability::BtcSpend => {},
                        Capability::BtcReceive => {},
                        Capability::FeeSupport => {},
                        Capability::ReserveSupport => {},
                        Capability::SingleTargetReserve => {},
                        Capability::L2Settlement => {},
                        Capability::ConsolidationSource => {},
                        Capability::ConsolidationTarget => {},
                    }
                }
            } else {
                if required.btc_spend && !self.btc_spend {
                    assert(required@.contains(Capability::BtcSpend) && !self@.contains(Capability::BtcSpend));
                }
                if required.btc_receive && !self.btc_receive {
                    assert(required@.contains(Capability::BtcReceive) && !self@.contains(Capability::BtcReceive));
                }
                if required.fee_support && !self.fee_support {
                    assert(required@.contains(Capability::FeeSupport) && !self@.contains(Capability::FeeSupport));
                }
                if required.reserve_support && !self.reserve_support {
                    assert(required@.contains(Capability::ReserveSupport) && !self@.contains(Capability::ReserveSupport));
                }
                if required.single_target_reserve && !self.single_target_reserve {
                    assert(required@.contains(Capability::SingleTargetReserve) && !self@.contains(Capability::SingleTargetReserve));
                }
                if required.l2_settlement && !self.l2_settlement {
                    assert(required@.contains(Capability::L2Settlement) && !self@.contains(Capability::L2Settlement));
                }
                if required.consolidation_source && !self.consolidation_source {
                    assert(required@.contains(Capability::ConsolidationSource) && !self@.contains(Capability::ConsolidationSource));
                }
                if required.consolidation_target && !self.consolidation_target {
                    assert(required@.contains(Capability::ConsolidationTarget) && !self@.contains(Capability::ConsolidationTarget));
                }
            }
        }
        r
    }

    pub fn insert(&mut self, capability: Capability)
        ensures
            final(self)@ == old(self)@.insert(capability),
    {
        match capability {
            Capability::BtcSpend => self.btc_spend = true,
            Capability::BtcReceive => self.btc_receive = true,
            Capability::FeeSupport => self.fee_support = true,
            Capability::ReserveSupport => self.reserve_support = true,
            Capability::SingleTargetReserve => self.single_target_reserve = true,
            Capability::L2Settlement => self.l2_settlement = true,
            Capability::ConsolidationSource => self.consolidation_source = true,
            Capability::ConsolidationTarget => self.consolidation_target = true,
        }
        assert(final(self)@ =~= old(self)@.insert(capability));
    }

    /// Adds every member of `other`.
    pub fn insert_all(&mut self, other: &CapabilitySet)
        ensures
            final(self)@ == old(self)@.union(other@),
    {
        self.btc_spend = self.btc_spend || other.btc_spend;
        self.btc_receive = self.btc_receive || other.btc_receive;
        self.fee_support = self.fee_support || other.fee_support;
        self.reserve_support = self.reserve_support || other.reserve_support;
        self.single_target_reserve = self.single_target_reserve || other.single_target_reserve;
        self.l2_settlement = self.l2_settlement || other.l2_settlement;
        self.consolidation_source = self.consolidation_source || other.consolidation_source;
        self.consolidation_target = self.consolidation_target || other.consolidation_target;
        assert(final(self)@ =~= old(self)@.union(other@));
    }

    /// The members, in the declared order of capabilities.
    pub fn iter(&self) -> (r: Vec<Capability>)
        ensures
            r@ == self.ordered(),
    {
        let mut r: Vec<Capability> = Vec::new();
        if self.btc_spend {
            r.push(Capability::BtcSpend);
        }
        if self.btc_receive {
            r.push(Capability::BtcReceive);
        }
        if self.fee_support {
            r.push(Capability::FeeSupport);
        }
        if self.reserve_support {
            r.push(Capability::ReserveSupport);
        }
        if self.single_target_reserve {
            r.push(Capability::SingleTargetReserve);
        }
        if self.l2_settlement {
            r.push(Capability::L2Settlement);
        }
        if self.consolidation_source {
            r.push(Capability::ConsolidationSource);
        }
        if self.consolidation_target {
            r.push(Capability::ConsolidationTarget);
        }
        proof {
            reveal_with_fuel(Seq::<Capability>::filter, 9);
            assert(r@ =~= self.ordered());
        }
        r
    }
}

impl View for CapabilitySet {
    type V = Set<Capability>;

    open spec fn view(&self) -> Set<Capability> {
        Set::new(|c: Capability| self.has(c))
    }
}

impl Default for CapabilitySet {
    fn default() -> (r: Self)
        ensures
            r@ == Set::<Capability>::empty(),
    {
        Self::empty()
    }
}

impl From<Vec<Capability>> for CapabilitySet {
    fn from(value: Vec<Capability>) -> (r: Self)
    {
        Self::from_slice(value.as_slice())
    }
}

impl vstd::std_specs::convert::FromSpecImpl<Vec<Capability>> for CapabilitySet {
    open spec fn obeys_from_spec() -> bool {
        true
    }

    open spec fn from_spec(v: Vec<Capability>) -> CapabilitySet {
        CapabilitySet::spec_from_set(v@.to_set())
    }
}

impl CapabilitySet {
    /// The set value with the given members.
    pub closed spec fn spec_from_set(s: Set<Capability>) -> CapabilitySet {
        CapabilitySet { btc_spend: s.contains(Capability::BtcSpend), btc_receive: s.contains(Capability::BtcReceive), fee_support: s.contains(Capability::FeeSupport), reserve_support: s.contains(Capability::ReserveSupport), single_target_reserve: s.contains(Capability::SingleTargetReserve), l2_settlement: s.contains(Capability::L2Settlement), consolidation_source: s.contains(Capability::ConsolidationSource), consolidation_target: s.contains(Capability::ConsolidationTarget) }
    }

    /// A set value is determined by its members.
    pub proof fn lemma_view_determines(a: CapabilitySet, b: CapabilitySet)
        requires
            a@ == b@,
        ensures
            a == b,
    {
        assert(a@.contains(Capability::BtcSpend) == b@.contains(Capability::BtcSpend));
        assert(a@.contains(Capability::BtcSpend) == a.has(Capability::BtcSpend));
        assert(b@.contains(Capability::BtcSpend) == b.has(Capability::BtcSpend));
        assert(a@.contains(Capability::BtcReceive) == b@.contains(Capability::BtcReceive));
        assert(a@.contains(Capability::BtcReceive) == a.has(Capability::BtcReceive));
        assert(b@.contains(Capability::BtcReceive) == b.has(Capability::BtcReceive));
        assert(a@.contains(Capability::FeeSupport) == b@.contains(Capability::FeeSupport));
        assert(a@.contains(Capability::FeeSupport) == a.has(Capability::FeeSupport));
        assert(b@.contains(Capability::FeeSupport) == b.has(Capability::FeeSupport));
        assert(a@.contains(Capability::ReserveSupport) == b@.contains(Capability::ReserveSupport));
        assert(a@.contains(Capability::ReserveSupport) == a.has(Capability::ReserveSupport));
        assert(b@.contains(Capability::ReserveSupport) == b.has(Capability::ReserveSupport));
        assert(a@.contains(Capability::SingleTargetReserve) == b@.contains(Capability::SingleTargetReserve));
        assert(a@.contains(Capability::SingleTargetReserve) == a.has(Capability::SingleTargetReserve));
        assert(b@.contains(Capability::SingleTargetReserve) == b.has(Capability::SingleTargetReserve));
        assert(a@.contains(Capability::L2Settlement) == b@.contains(Capability::L2Settlement));
        assert(a@.contains(Capability::L2Settlement) == a.has(Capability::L2Settlement));
        assert(b@.contains(Capability::L2Settlement) == b.has(Capability::L2Settlement));
        assert(a@.contains(Capability::ConsolidationSource) == b@.contains(Capability::ConsolidationSource));
        assert(a@.contains(Capability::ConsolidationSource) == a.has(Capability::ConsolidationSource));
        assert(b@.contains(Capability::ConsolidationSource) == b.has(Capability::ConsolidationSource));
        assert(a@.contains(Capability::ConsolidationTarget) == b@.contains(Capability::ConsolidationTarget));
        assert(a@.contains(Capability::ConsolidationTarget) == a.has(Capability::ConsolidationTarget));
        assert(b@.contains(Capability::ConsolidationTarget) == b.has(Capability::ConsolidationTarget));
    }
}

} // verus!
