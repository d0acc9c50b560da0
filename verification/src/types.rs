//! Plain data of the registry: identities, errors, records and store keys.

use vstd::prelude::*;
use vstd::string::StringExecFns;

verus! {

/// Why an operation was rejected.
#[derive(Clone, Copy, Debug, PartialEq, Eq, Structural)]
pub enum Error {
    /// The fee handed over is below the required fee.
    InsufficientFee,
    /// The caller is not the identity the operation is reserved for.
    Unauthorized,
    /// A fee is negative, a name or symbol is empty or too long, an initial
    /// supply is not positive, or a counter would overflow.
    InvalidParameters,
    /// No record is stored under the given index or identity.
    TokenNotFound,
    /// The record already carries a metadata URI.
    MetadataAlreadySet,
    /// The factory configuration already exists.
    AlreadyInitialized,
    /// The amount to burn exceeds what is left of the supply.
    BurnAmountExceedsBalance,
    /// The record does not allow burns by its creator.
    ClawbackDisabled,
    /// The amount to burn is zero or negative.
    InvalidBurnAmount,
}

impl Error {
    /// The number under which the error is reported to callers.
    pub open spec fn spec_code(self) -> u32 {
        match self {
            Error::InsufficientFee => 1,
            Error::Unauthorized => 2,
            Error::InvalidParameters => 3,
            Error::TokenNotFound => 4,
            Error::MetadataAlreadySet => 5,
            Error::AlreadyInitialized => 6,
            Error::BurnAmountExceedsBalance => 7,
            Error::ClawbackDisabled => 8,
            Error::InvalidBurnAmount => 9,
        }
    }

    /// The number under which the error is reported to callers.
    #[verifier::when_used_as_spec(spec_code)]
    pub fn code(self) -> (c: u32)
        ensures
            c == self.spec_code(),
    {
        match self {
            Error::InsufficientFee => 1,
            Error::Unauthorized => 2,
            Error::InvalidParameters => 3,
            Error::TokenNotFound => 4,
            Error::MetadataAlreadySet => 5,
            Error::AlreadyInitialized => 6,
            Error::BurnAmountExceedsBalance => 7,
            Error::ClawbackDisabled => 8,
            Error::InvalidBurnAmount => 9,
        }
    }

    /// The error reported under `code`, if there is one.
    pub fn from_code(code: u32) -> (e: Option<Error>)
        ensures
            match e {
                Some(err) => err.spec_code() == code,
                None => forall|err: Error| err.spec_code() != code,
            },
    {
        match code {
            1 => Some(Error::InsufficientFee),
            2 => Some(Error::Unauthorized),
            3 => Some(Error::InvalidParameters),
            4 => Some(Error::TokenNotFound),
            5 => Some(Error::MetadataAlreadySet),
            6 => Some(Error::AlreadyInitialized),
            7 => Some(Error::BurnAmountExceedsBalance),
            8 => Some(Error::ClawbackDisabled),
            9 => Some(Error::InvalidBurnAmount),
            _ => None,
        }
    }
}

/// An identity: an administrator, a creator, a holder or a token.
///
/// Two addresses are the same identity exactly when their keys are the same
/// text.
#[derive(Debug, PartialEq, Eq, Hash)]
pub struct Address {
    key: String,
}

impl View for Address {
    type V = Seq<char>;

    closed spec fn view(&self) -> Seq<char> {
        self.key@
    }
}

impl Clone for Address {
    fn clone(&self) -> (copy: Address)
        ensures
            copy@ == self@,
    {
        Address { key: self.key.clone() }
    }
}

impl Address {
    /// The identity with the given key.
    pub fn new(key: String) -> (address: Address)
        ensures
            address@ == key@,
    {
        Address { key }
    }

    /// The identity with the given key.
    pub fn from_str(key: &str) -> (address: Address)
        ensures
            address@ == key@,
    {
        Address { key: String::from_str(key) }
    }

    /// The key of the identity.
    pub fn as_str(&self) -> (key: &str)
        ensures
            key@ == self@,
    {
        self.key.as_str()
    }

    /// Whether both addresses are the same identity.
    pub fn same_as(&self, other: &Address) -> (same: bool)
        ensures
            same == (self@ == other@),
    {
        self.key == other.key
    }
}

/// The factory configuration as a value of the model.
#[verifier::ext_equal]
pub struct FactoryConfig {
    pub admin: Seq<char>,
    pub treasury: Seq<char>,
    pub base_fee: i128,
    pub metadata_fee: i128,
}

/// The factory configuration: who administers the factory, who collects the
/// fees, and what issuing a token costs.
#[derive(Debug, PartialEq, Eq)]
pub struct FactoryState {
    pub admin: Address,
    pub treasury: Address,
    pub base_fee: i128,
    pub metadata_fee: i128,
}

impl View for FactoryState {
    type V = FactoryConfig;

    open spec fn view(&self) -> FactoryConfig {
        FactoryConfig {
            admin: self.admin@,
            treasury: self.treasury@,
            base_fee: self.base_fee,
            metadata_fee: self.metadata_fee,
        }
    }
}

impl Clone for FactoryState {
    fn clone(&self) -> (copy: FactoryState)
        ensures
            copy@ == self@,
    {
        FactoryState {
            admin: self.admin.clone(),
            treasury: self.treasury.clone(),
            base_fee: self.base_fee,
            metadata_fee: self.metadata_fee,
        }
    }
}

/// A token record as a value of the model.
#[verifier::ext_equal]
pub struct TokenRecord {
    pub address: Seq<char>,
    pub creator: Seq<char>,
    pub name: Seq<char>,
    pub symbol: Seq<char>,
    pub decimals: u32,
    pub total_supply: i128,
    pub total_burned: i128,
    pub burn_count: u32,
    pub metadata_uri: Option<Seq<char>>,
    pub clawback_enabled: bool,
    pub created_at: u64,
}

/// What the registry knows of one issued token.
#[derive(Debug, PartialEq, Eq)]
pub struct TokenInfo {
    /// The identity of the token on the ledger that holds its balances.
    pub address: Address,
    /// Who issued the token.
    pub creator: Address,
    pub name: String,
    pub symbol: String,
    pub decimals: u32,
    /// What is left of the issued supply.
    pub total_supply: i128,
    /// What has been burned of the issued supply.
    pub total_burned: i128,
    /// How many burns the record has seen.
    pub burn_count: u32,
    /// Where the metadata lives; written at most once.
    pub metadata_uri: Option<String>,
    /// Whether the creator may burn from any holder.
    pub clawback_enabled: bool,
    /// When the record was created.
    pub created_at: u64,
}

/// The text of an optional string.
pub open spec fn text_of(s: Option<String>) -> Option<Seq<char>> {
    match s {
        Some(t) => Some(t@),
        None => None,
    }
}

/// A copy of an optional string.
pub fn copy_text(s: &Option<String>) -> (copy: Option<String>)
    ensures
        text_of(copy) == text_of(*s),
{
    match s {
        Some(t) => Some(t.clone()),
        None => None,
    }
}

impl View for TokenInfo {
    type V = TokenRecord;

    open spec fn view(&self) -> TokenRecord {
        TokenRecord {
            address: self.address@,
            creator: self.creator@,
            name: self.name@,
            symbol: self.symbol@,
            decimals: self.decimals,
            total_supply: self.total_supply,
            total_burned: self.total_burned,
            burn_count: self.burn_count,
            metadata_uri: text_of(self.metadata_uri),
            clawback_enabled: self.clawback_enabled,
            created_at: self.created_at,
        }
    }
}

impl Clone for TokenInfo {
    fn clone(&self) -> (copy: TokenInfo)
        ensures
            copy@ == self@,
    {
        TokenInfo {
            address: self.address.clone(),
            creator: self.creator.clone(),
            name: self.name.clone(),
            symbol: self.symbol.clone(),
            decimals: self.decimals,
            total_supply: self.total_supply,
            total_burned: self.total_burned,
            burn_count: self.burn_count,
            metadata_uri: copy_text(&self.metadata_uri),
            clawback_enabled: self.clawback_enabled,
            created_at: self.created_at,
        }
    }
}

/// A key of the store as a value of the model.
pub enum Key {
    Admin,
    Treasury,
    BaseFee,
    MetadataFee,
    TokenCount,
    Token(u32),
    TokenByAddress(Seq<char>),
}

/// The keys under which the registry keeps its state.
#[derive(Debug, PartialEq, Eq)]
pub enum DataKey {
    Admin,
    Treasury,
    BaseFee,
    MetadataFee,
    TokenCount,
    /// The record at a position of the index.
    Token(u32),
    /// The record of the token with this identity.
    TokenByAddress(Address),
}

impl View for DataKey {
    type V = Key;

    open spec fn view(&self) -> Key {
        match self {
            DataKey::Admin => Key::Admin,
            DataKey::Treasury => Key::Treasury,
            DataKey::BaseFee => Key::BaseFee,
            DataKey::MetadataFee => Key::MetadataFee,
            DataKey::TokenCount => Key::TokenCount,
            DataKey::Token(index) => Key::Token(*index),
            DataKey::TokenByAddress(address) => Key::TokenByAddress(address@),
        }
    }
}

impl Clone for DataKey {
    fn clone(&self) -> (copy: DataKey)
        ensures
            copy@ == self@,
    {
        match self {
            DataKey::Admin => DataKey::Admin,
            DataKey::Treasury => DataKey::Treasury,
            DataKey::BaseFee => DataKey::BaseFee,
            DataKey::MetadataFee => DataKey::MetadataFee,
            DataKey::TokenCount => DataKey::TokenCount,
            DataKey::Token(index) => DataKey::Token(*index),
            DataKey::TokenByAddress(address) => DataKey::TokenByAddress(address.clone()),
        }
    }
}

impl DataKey {
    /// Whether both keys name the same slot of the store.
    pub fn same_as(&self, other: &DataKey) -> (same: bool)
        ensures
            same == (self@ == other@),
    {
        match (self, other) {
            (DataKey::Admin, DataKey::Admin) => true,
            (DataKey::Treasury, DataKey::Treasury) => true,
            (DataKey::BaseFee, DataKey::BaseFee) => true,
            (DataKey::MetadataFee, DataKey::MetadataFee) => true,
            (DataKey::TokenCount, DataKey::TokenCount) => true,
            (DataKey::Token(i), DataKey::Token(j)) => *i == *j,
            (DataKey::TokenByAddress(a), DataKey::TokenByAddress(b)) => a.same_as(b),
            _ => false,
        }
    }
}

} // verus!
