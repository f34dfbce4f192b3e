//! Accounts and the wallet scopes they own.
use vstd::prelude::*;

use crate::capability::{Capability, CapabilitySet};
use crate::ids::{AccountId, IntoAccountId, IntoScopeId, Text, WalletScopeId};

verus! {

/// The values of a list of scope identities.
pub open spec fn scope_ids_model(s: Seq<WalletScopeId>) -> Seq<Seq<char>> {
    s.map_values(|id: WalletScopeId| id@)
}

/// A copy of a list of scope identities.
pub fn clone_scope_ids(v: &Vec<WalletScopeId>) -> (r: Vec<WalletScopeId>)
    ensures
        scope_ids_model(r@) == scope_ids_model(v@),
{
    let mut r: Vec<WalletScopeId> = Vec::new();
    let mut i: usize = 0;
    while i < v.len()
        invariant
            i <= v@.len(),
            r@.len() == i,
            forall|k: int| 0 <= k < i ==> #[trigger] r@[k]@ == v@[k]@,
        decreases v@.len() - i,
    {
        r.push(v[i].dup());
        i = i + 1;
    }
    assert(scope_ids_model(r@) =~= scope_ids_model(v@));
    r
}

#[derive(Debug, Clone, PartialEq, Eq)]
pub struct Account {
    pub id: AccountId,
    pub name: String,
    pub scopes: Vec<WalletScopeId>,
    pub capabilities: CapabilitySet,
}

pub struct AccountModel {
    pub id: Seq<char>,
    pub name: Seq<char>,
    pub scopes: Seq<Seq<char>>,
    pub capabilities: Set<Capability>,
}

impl View for Account {
    type V = AccountModel;

    open spec fn view(&self) -> AccountModel {
        AccountModel {
            id: self.id@,
            name: self.name@,
            scopes: scope_ids_model(self.scopes@),
            capabilities: self.capabilities@,
        }
    }
}

impl Account {
    pub fn new<A: IntoAccountId, N: Text>(
        id: A,
        name: N,
        scopes: Vec<WalletScopeId>,
        capabilities: CapabilitySet,
    ) -> (r: Self)
        ensures
            r@ == (AccountModel {
                id: id.account_text(),
                name: name.text(),
                scopes: scope_ids_model(scopes@),
                capabilities: capabilities@,
            }),
    {
        Account { id: id.into_account_id(), name: name.into_text(), scopes, capabilities }
    }

    pub fn dup(&self) -> (r: Self)
        ensures
            r@ == self@,
    {
        Account {
            id: self.id.dup(),
            name: self.name.clone(),
            scopes: clone_scope_ids(&self.scopes),
            capabilities: self.capabilities,
        }
    }
}

#[derive(Debug, Clone, PartialEq, Eq)]
pub struct DescriptorRef(pub String);

#[derive(Debug, Clone, PartialEq, Eq)]
pub struct DerivationScope(pub String);

#[derive(Debug, Clone, PartialEq, Eq)]
pub struct WalletScope {
    pub id: WalletScopeId,
    pub account_id: AccountId,
    pub descriptor_ref: DescriptorRef,
    pub derivation_scope: DerivationScope,
    pub capabilities: CapabilitySet,
    pub priority: u32,
}

pub struct ScopeModel {
    pub id: Seq<char>,
    pub account_id: Seq<char>,
    pub descriptor_ref: Seq<char>,
    pub derivation_scope: Seq<char>,
    pub capabilities: Set<Capability>,
    pub priority: u32,
}

impl View for WalletScope {
    type V = ScopeModel;

    open spec fn view(&self) -> ScopeModel {
        ScopeModel {
            id: self.id@,
            account_id: self.account_id@,
            descriptor_ref: self.descriptor_ref.0@,
            derivation_scope: self.derivation_scope.0@,
            capabilities: self.capabilities@,
            priority: self.priority,
        }
    }
}

impl WalletScope {
    pub fn new<S: IntoScopeId, A: IntoAccountId, D: Text, E: Text>(
        id: S,
        account_id: A,
        descriptor_ref: D,
        derivation_scope: E,
        capabilities: CapabilitySet,
        priority: u32,
    ) -> (r: Self)
        ensures
            r@ == (ScopeModel {
                id: id.scope_text(),
                account_id: account_id.account_text(),
                descriptor_ref: descriptor_ref.text(),
                derivation_scope: derivation_scope.text(),
                capabilities: capabilities@,
                priority,
            }),
    {
        WalletScope {
            id: id.into_scope_id(),
            account_id: account_id.into_account_id(),
            descriptor_ref: DescriptorRef(descriptor_ref.into_text()),
            derivation_scope: DerivationScope(derivation_scope.into_text()),
            capabilities,
            priority,
        }
    }

    pub fn dup(&self) -> (r: Self)
        ensures
            r@ == self@,
    {
        WalletScope {
            id: self.id.dup(),
            account_id: self.account_id.dup(),
            descriptor_ref: DescriptorRef(self.descriptor_ref.0.clone()),
            derivation_scope: DerivationScope(self.derivation_scope.0.clone()),
            capabilities: self.capabilities,
            priority: self.priority,
        }
    }
}

} // verus!
