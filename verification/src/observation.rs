//! Normalized wallet and indexer facts about outputs.
use vstd::prelude::*;

use crate::ids::{IntoAccountId, IntoScopeId, Text};
use crate::outpoint::{OutPoint, OutPointModel};
use crate::state::{Availability, OnchainState};

verus! {

#[derive(Debug, Clone, Copy, PartialEq, Eq, Structural)]
pub enum ObservationScope {
    /// The snapshot contains all UTXOs known to the source for the given accounts/scopes.
    /// UTXOs managed by txoscope but missing from this snapshot should be considered disappeared.
    Full,
    /// The snapshot contains only a subset of UTXOs (e.g., a single transaction or a delta).
    /// Missing UTXOs should be ignored.
    Incremental,
}

#[derive(Debug, Clone, Copy, PartialEq, Eq, Structural)]
pub enum ObservedConfirmation {
    Unknown,
    Mempool,
    Confirmed { height: u64, timestamp: u64 },
}

/// The on-chain state an observed confirmation records.
pub open spec fn confirmation_state(c: ObservedConfirmation) -> OnchainState {
    match c {
        ObservedConfirmation::Unknown => OnchainState::Unknown,
        ObservedConfirmation::Mempool => OnchainState::UnconfirmedIncoming,
        ObservedConfirmation::Confirmed { .. } => OnchainState::Confirmed,
    }
}

/// The availability an observed confirmation allows: only confirmed outputs are selectable.
pub open spec fn confirmation_availability(c: ObservedConfirmation) -> Availability {
    match c {
        ObservedConfirmation::Confirmed { .. } => Availability::Selectable,
        _ => Availability::BlockedByPolicy,
    }
}

impl ObservedConfirmation {
    pub fn onchain_state(&self) -> (r: OnchainState)
        ensures
            r == confirmation_state(*self),
    {
        match self {
            ObservedConfirmation::Unknown => OnchainState::Unknown,
            ObservedConfirmation::Mempool => OnchainState::UnconfirmedIncoming,
            ObservedConfirmation::Confirmed { .. } => OnchainState::Confirmed,
        }
    }

    pub fn availability(&self) -> (r: Availability)
        ensures
            r == confirmation_availability(*self),
    {
        match self {
            ObservedConfirmation::Confirmed { .. } => Availability::Selectable,
            _ => Availability::BlockedByPolicy,
        }
    }
}

impl<'a> From<&'a ObservedConfirmation> for OnchainState {
    fn from(value: &'a ObservedConfirmation) -> Self {
        value.onchain_state()
    }
}

impl<'a> vstd::std_specs::convert::FromSpecImpl<&'a ObservedConfirmation> for OnchainState {
    open spec fn obeys_from_spec() -> bool {
        true
    }

    open spec fn from_spec(v: &'a ObservedConfirmation) -> OnchainState {
        confirmation_state(*v)
    }
}

impl<'a> From<&'a ObservedConfirmation> for Availability {
    fn from(value: &'a ObservedConfirmation) -> Self {
        value.availability()
    }
}

impl<'a> vstd::std_specs::convert::FromSpecImpl<&'a ObservedConfirmation> for Availability {
    open spec fn obeys_from_spec() -> bool {
        true
    }

    open spec fn from_spec(v: &'a ObservedConfirmation) -> Availability {
        confirmation_availability(*v)
    }
}

#[derive(Debug, Clone, PartialEq, Eq)]
pub enum ObservedSpendStatus {
    Unknown,
    Unspent,
    Spent { spending_txid: String },
    /// The indexer explicitly reports this outpoint as no longer existing in its history.
    Missing,
}

pub enum SpendModel {
    Unknown,
    Unspent,
    Spent { spending_txid: Seq<char> },
    Missing,
}

impl View for ObservedSpendStatus {
    type V = SpendModel;

    open spec fn view(&self) -> SpendModel {
        match self {
            ObservedSpendStatus::Unknown => SpendModel::Unknown,
            ObservedSpendStatus::Unspent => SpendModel::Unspent,
            ObservedSpendStatus::Spent { spending_txid } => SpendModel::Spent {
                spending_txid: spending_txid@,
            },
            ObservedSpendStatus::Missing => SpendModel::Missing,
        }
    }
}

#[derive(Debug, Clone, PartialEq, Eq)]
pub struct ObservedUtxo {
    pub outpoint: OutPoint,
    pub account_id: crate::ids::AccountId,
    pub scope_id: crate::ids::WalletScopeId,
    pub value_sats: u64,
    pub confirmation: ObservedConfirmation,
    pub spend_status: ObservedSpendStatus,
}

pub struct ObservedModel {
    pub outpoint: OutPointModel,
    pub account_id: Seq<char>,
    pub scope_id: Seq<char>,
    pub value_sats: u64,
    pub confirmation: ObservedConfirmation,
    pub spend_status: SpendModel,
}

impl View for ObservedUtxo {
    type V = ObservedModel;

    open spec fn view(&self) -> ObservedModel {
        ObservedModel {
            outpoint: self.outpoint@,
            account_id: self.account_id@,
            scope_id: self.scope_id@,
            value_sats: self.value_sats,
            confirmation: self.confirmation,
            spend_status: self.spend_status@,
        }
    }
}

impl ObservedSpendStatus {
    pub fn dup(&self) -> (r: Self)
        ensures
            r@ == self@,
    {
        match self {
            ObservedSpendStatus::Unknown => ObservedSpendStatus::Unknown,
            ObservedSpendStatus::Unspent => ObservedSpendStatus::Unspent,
            ObservedSpendStatus::Spent { spending_txid } => ObservedSpendStatus::Spent {
                spending_txid: spending_txid.clone(),
            },
            ObservedSpendStatus::Missing => ObservedSpendStatus::Missing,
        }
    }
}

impl ObservedUtxo {
    /// An unspent observation of unknown confirmation.
    pub fn new<A: IntoAccountId, S: IntoScopeId>(
        outpoint: OutPoint,
        account_id: A,
        scope_id: S,
        value_sats: u64,
    ) -> (r: Self)
        ensures
            r@ == (ObservedModel {
                outpoint: outpoint@,
                account_id: account_id.account_text(),
                scope_id: scope_id.scope_text(),
                value_sats,
                confirmation: ObservedConfirmation::Unknown,
                spend_status: SpendModel::Unspent,
            }),
    {
        ObservedUtxo {
            outpoint,
            account_id: account_id.into_account_id(),
            scope_id: scope_id.into_scope_id(),
            value_sats,
            confirmation: ObservedConfirmation::Unknown,
            spend_status: ObservedSpendStatus::Unspent,
        }
    }

    pub fn confirmed(self, height: u64, timestamp: u64) -> (r: Self)
        ensures
            r@ == (ObservedModel {
                confirmation: ObservedConfirmation::Confirmed { height, timestamp },
                ..self@
            }),
    {
        let mut s = self;
        s.confirmation = ObservedConfirmation::Confirmed { height, timestamp };
        s
    }

    pub fn mempool(self) -> (r: Self)
        ensures
            r@ == (ObservedModel { confirmation: ObservedConfirmation::Mempool, ..self@ }),
    {
        let mut s = self;
        s.confirmation = ObservedConfirmation::Mempool;
        s
    }

    pub fn spent<T: Text>(self, spending_txid: T) -> (r: Self)
        ensures
            r@ == (ObservedModel {
                spend_status: SpendModel::Spent { spending_txid: spending_txid.text() },
                ..self@
            }),
    {
        let mut s = self;
        s.spend_status = ObservedSpendStatus::Spent { spending_txid: spending_txid.into_text() };
        s
    }

    pub fn dup(&self) -> (r: Self)
        ensures
            r@ == self@,
    {
        ObservedUtxo {
            outpoint: self.outpoint.dup(),
            account_id: self.account_id.dup(),
            scope_id: self.scope_id.dup(),
            value_sats: self.value_sats,
            confirmation: self.confirmation,
            spend_status: self.spend_status.dup(),
        }
    }
}

#[derive(Debug, Clone, PartialEq, Eq)]
pub struct ObservationSnapshot {
    pub timestamp: u64,
    pub scope: ObservationScope,
    pub utxos: Vec<ObservedUtxo>,
}

pub struct SnapshotModel {
    pub timestamp: u64,
    pub scope: ObservationScope,
    pub utxos: Seq<ObservedModel>,
}

impl View for ObservationSnapshot {
    type V = SnapshotModel;

    open spec fn view(&self) -> SnapshotModel {
        SnapshotModel {
            timestamp: self.timestamp,
            scope: self.scope,
            utxos: self.utxos@.map_values(|u: ObservedUtxo| u@),
        }
    }
}

impl ObservationSnapshot {
    pub fn new(timestamp: u64, scope: ObservationScope) -> (r: Self)
        ensures
            r@ == (SnapshotModel { timestamp, scope, utxos: Seq::empty() }),
    {
        let r = ObservationSnapshot { timestamp, scope, utxos: Vec::new() };
        assert(r@.utxos =~= Seq::<ObservedModel>::empty());
        r
    }

    pub fn add_utxo(self, utxo: ObservedUtxo) -> (r: Self)
        ensures
            r@ == (SnapshotModel { utxos: self@.utxos.push(utxo@), ..self@ }),
    {
        let mut s = self;
        let ghost before = s.utxos@;
        s.utxos.push(utxo);
        assert(s.utxos@.map_values(|u: ObservedUtxo| u@) =~= before.map_values(
            |u: ObservedUtxo| u@,
        ).push(utxo@));
        s
    }
}

/// A source of observation snapshots, such as a wallet or an indexer.
pub trait ObservationSource {
    type Error: core::fmt::Debug;

    fn collect_snapshot(&self) -> Result<ObservationSnapshot, Self::Error>;
}

} // verus!
