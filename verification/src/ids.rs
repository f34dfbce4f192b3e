//! Opaque domain identities. Values are preserved without validation or normalization.
use vstd::prelude::*;

verus! {

/// Text that can become an identity or a label: `&str` and `String`.
pub trait Text {
    spec fn text(&self) -> Seq<char>;

    fn into_text(self) -> (r: String)
        ensures
            r@ == self.text(),
    ;
}

impl<'a> Text for &'a str {
    open spec fn text(&self) -> Seq<char> {
        (*self)@
    }

    fn into_text(self) -> (r: String) {
        self.to_owned()
    }
}

impl Text for String {
    open spec fn text(&self) -> Seq<char> {
        self@
    }

    fn into_text(self) -> (r: String) {
        self
    }
}

/// An opaque account identity.
#[derive(Clone, Debug, PartialEq, Eq, PartialOrd, Ord, Hash)]
pub struct AccountId(String);

/// An opaque wallet scope identity.
#[derive(Clone, Debug, PartialEq, Eq, PartialOrd, Ord, Hash)]
pub struct WalletScopeId(String);

/// An opaque operation identity, including manual reservations.
#[derive(Clone, Debug, PartialEq, Eq, PartialOrd, Ord, Hash)]
pub struct OperationId(String);

impl View for AccountId {
    type V = Seq<char>;

    closed spec fn view(&self) -> Seq<char> {
        self.0@
    }
}

impl View for WalletScopeId {
    type V = Seq<char>;

    closed spec fn view(&self) -> Seq<char> {
        self.0@
    }
}

impl View for OperationId {
    type V = Seq<char>;

    closed spec fn view(&self) -> Seq<char> {
        self.0@
    }
}

/// Values that name an account: text or an `AccountId`.
pub trait IntoAccountId {
    spec fn account_text(&self) -> Seq<char>;

    fn into_account_id(self) -> (r: AccountId)
        ensures
            r@ == self.account_text(),
    ;
}

/// Values that name a wallet scope: text or a `WalletScopeId`.
pub trait IntoScopeId {
    spec fn scope_text(&self) -> Seq<char>;

    fn into_scope_id(self) -> (r: WalletScopeId)
        ensures
            r@ == self.scope_text(),
    ;
}

/// Values that name an operation: text or an `OperationId`.
pub trait IntoOperationId {
    spec fn operation_text(&self) -> Seq<char>;

    fn into_operation_id(self) -> (r: OperationId)
        ensures
            r@ == self.operation_text(),
    ;
}

impl AccountId {
    /// Preserves the opaque value without validation or normalization.
    pub fn new<T: Text>(value: T) -> (r: Self)
        ensures
            r@ == value.text(),
    {
        AccountId(value.into_text())
    }

    /// Borrows the original identifier value.
    pub fn as_str(&self) -> (r: &str)
        ensures
            r@ == self@,
    {
        self.0.as_str()
    }

    /// Consumes the identifier and returns its original value.
    pub fn into_string(self) -> (r: String)
        ensures
            r@ == self@,
    {
        self.0
    }

    /// The original value as a new string.
    pub fn to_string(&self) -> (r: String)
        ensures
            r@ == self@,
    {
        self.0.clone()
    }

    /// A copy with the same value.
    pub fn dup(&self) -> (r: Self)
        ensures
            r@ == self@,
    {
        AccountId(self.0.clone())
    }

    /// Compares the values of two identities.
    pub fn same(&self, other: &Self) -> (r: bool)
        ensures
            r == (self@ == other@),
    {
        self.0 == other.0
    }
}

impl WalletScopeId {
    /// Preserves the opaque value without validation or normalization.
    pub fn new<T: Text>(value: T) -> (r: Self)
        ensures
            r@ == value.text(),
    {
        WalletScopeId(value.into_text())
    }

    /// Borrows the original identifier value.
    pub fn as_str(&self) -> (r: &str)
        ensures
            r@ == self@,
    {
        self.0.as_str()
    }

    /// Consumes the identifier and returns its original value.
    pub fn into_string(self) -> (r: String)
        ensures
            r@ == self@,
    {
        self.0
    }

    /// The original value as a new string.
    pub fn to_string(&self) -> (r: String)
        ensures
            r@ == self@,
    {
        self.0.clone()
    }

    /// A copy with the same value.
    pub fn dup(&self) -> (r: Self)
        ensures
            r@ == self@,
    {
        WalletScopeId(self.0.clone())
    }

    /// Compares the values of two identities.
    pub fn same(&self, other: &Self) -> (r: bool)
        ensures
            r == (self@ == other@),
    {
        self.0 == other.0
    }
}

impl OperationId {
    /// Preserves the opaque value without validation or normalization.
    pub fn new<T: Text>(value: T) -> (r: Self)
        ensures
            r@ == value.text(),
    {
        OperationId(value.into_text())
    }

    /// Borrows the original identifier value.
    pub fn as_str(&self) -> (r: &str)
        ensures
            r@ == self@,
    {
        self.0.as_str()
    }

    /// Consumes the identifier and returns its original value.
    pub fn into_string(self) -> (r: String)
        ensures
            r@ == self@,
    {
        self.0
    }

    /// The original value as a new string.
    pub fn to_string(&self) -> (r: String)
        ensures
            r@ == self@,
    {
        self.0.clone()
    }

    /// A copy with the same value.
    pub fn dup(&self) -> (r: Self)
        ensures
            r@ == self@,
    {
        OperationId(self.0.clone())
    }

    /// Compares the values of two identities.
    pub fn same(&self, other: &Self) -> (r: bool)
        ensures
            r == (self@ == other@),
    {
        self.0 == other.0
    }
}

impl<'a> IntoAccountId for &'a str {
    open spec fn account_text(&self) -> Seq<char> {
        (*self)@
    }

    fn into_account_id(self) -> (r: AccountId) {
        AccountId::new(self)
    }
}

impl IntoAccountId for String {
    open spec fn account_text(&self) -> Seq<char> {
        self@
    }

    fn into_account_id(self) -> (r: AccountId) {
        AccountId::new(self)
    }
}

impl IntoAccountId for AccountId {
    open spec fn account_text(&self) -> Seq<char> {
        self@
    }

    fn into_account_id(self) -> (r: AccountId) {
        self
    }
}

impl<'a> IntoScopeId for &'a str {
    open spec fn scope_text(&self) -> Seq<char> {
        (*self)@
    }

    fn into_scope_id(self) -> (r: WalletScopeId) {
        WalletScopeId::new(self)
    }
}

impl IntoScopeId for String {
    open spec fn scope_text(&self) -> Seq<char> {
        self@
    }

    fn into_scope_id(self) -> (r: WalletScopeId) {
        WalletScopeId::new(self)
    }
}

impl IntoScopeId for WalletScopeId {
    open spec fn scope_text(&self) -> Seq<char> {
        self@
    }

    fn into_scope_id(self) -> (r: WalletScopeId) {
        self
    }
}

impl<'a> IntoOperationId for &'a str {
    open spec fn operation_text(&self) -> Seq<char> {
        (*self)@
    }

    fn into_operation_id(self) -> (r: OperationId) {
        OperationId::new(self)
    }
}

impl IntoOperationId for String {
    open spec fn operation_text(&self) -> Seq<char> {
        self@
    }

    fn into_operation_id(self) -> (r: OperationId) {
        OperationId::new(self)
    }
}

impl IntoOperationId for OperationId {
    open spec fn operation_text(&self) -> Seq<char> {
        self@
    }

    fn into_operation_id(self) -> (r: OperationId) {
        self
    }
}

impl<'a> From<&'a str> for AccountId {
    fn from(value: &'a str) -> Self {
        AccountId::new(value)
    }
}

impl From<String> for AccountId {
    fn from(value: String) -> Self {
        AccountId::new(value)
    }
}

impl<'a> From<&'a str> for WalletScopeId {
    fn from(value: &'a str) -> Self {
        WalletScopeId::new(value)
    }
}

impl From<String> for WalletScopeId {
    fn from(value: String) -> Self {
        WalletScopeId::new(value)
    }
}

impl<'a> From<&'a str> for OperationId {
    fn from(value: &'a str) -> Self {
        OperationId::new(value)
    }
}

impl From<String> for OperationId {
    fn from(value: String) -> Self {
        OperationId::new(value)
    }
}

impl<'a> vstd::std_specs::convert::FromSpecImpl<&'a str> for AccountId {
    /// Conversion keeps the text; no claim is made beyond the view.
    open spec fn obeys_from_spec() -> bool {
        false
    }

    open spec fn from_spec(v: &'a str) -> AccountId {
        choose|r: AccountId| r@ == (*v)@
    }
}

impl vstd::std_specs::convert::FromSpecImpl<String> for AccountId {
    /// Conversion keeps the text; no claim is made beyond the view.
    open spec fn obeys_from_spec() -> bool {
        false
    }

    open spec fn from_spec(v: String) -> AccountId {
        choose|r: AccountId| r@ == v@
    }
}

impl<'a> vstd::std_specs::convert::FromSpecImpl<&'a str> for WalletScopeId {
    /// Conversion keeps the text; no claim is made beyond the view.
    open spec fn obeys_from_spec() -> bool {
        false
    }

    open spec fn from_spec(v: &'a str) -> WalletScopeId {
        choose|r: WalletScopeId| r@ == (*v)@
    }
}

impl vstd::std_specs::convert::FromSpecImpl<String> for WalletScopeId {
    /// Conversion keeps the text; no claim is made beyond the view.
    open spec fn obeys_from_spec() -> bool {
        false
    }

    open spec fn from_spec(v: String) -> WalletScopeId {
        choose|r: WalletScopeId| r@ == v@
    }
}

impl<'a> vstd::std_specs::convert::FromSpecImpl<&'a str> for OperationId {
    /// Conversion keeps the text; no claim is made beyond the view.
    open spec fn obeys_from_spec() -> bool {
        false
    }

    open spec fn from_spec(v: &'a str) -> OperationId {
        choose|r: OperationId| r@ == (*v)@
    }
}

impl vstd::std_specs::convert::FromSpecImpl<String> for OperationId {
    /// Conversion keeps the text; no claim is made beyond the view.
    open spec fn obeys_from_spec() -> bool {
        false
    }

    open spec fn from_spec(v: String) -> OperationId {
        choose|r: OperationId| r@ == v@
    }
}

} // verus!
