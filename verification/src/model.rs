//! The registry as a mathematical state machine: what the store holds, and
//! what each operation makes of it.

use crate::types::{Error, FactoryConfig, Key, TokenRecord};
use vstd::prelude::*;

verus! {

/// The longest name a token may have, in characters.
pub const MAX_NAME_LENGTH: usize = 32;

/// The longest symbol a token may have, in characters.
pub const MAX_SYMBOL_LENGTH: usize = 12;

/// A name, a symbol and an initial supply that a token may be issued with.
pub open spec fn valid_token_parameters(
    name: Seq<char>,
    symbol: Seq<char>,
    initial_supply: i128,
) -> bool {
    &&& 0 < name.len() <= MAX_NAME_LENGTH
    &&& 0 < symbol.len() <= MAX_SYMBOL_LENGTH
    &&& initial_supply > 0
}

/// What issuing a token costs: the base fee, and the metadata fee on top
/// where the token comes with metadata.
pub open spec fn fee_due(base_fee: i128, metadata_fee: i128, with_metadata: bool) -> int {
    base_fee + if with_metadata {
        metadata_fee as int
    } else {
        0
    }
}

impl TokenRecord {
    /// The record of a token that has just been issued.
    pub open spec fn issued(
        address: Seq<char>,
        creator: Seq<char>,
        name: Seq<char>,
        symbol: Seq<char>,
        decimals: u32,
        initial_supply: i128,
        metadata_uri: Option<Seq<char>>,
        created_at: u64,
    ) -> TokenRecord {
        TokenRecord {
            address,
            creator,
            name,
            symbol,
            decimals,
            total_supply: initial_supply,
            total_burned: 0,
            burn_count: 0,
            metadata_uri,
            clawback_enabled: false,
            created_at,
        }
    }

    /// Everything that was ever issued of the token: what is left and what
    /// was burned.
    pub open spec fn issued_supply(self) -> int {
        self.total_supply + self.total_burned
    }

    /// What an amount handed to a burn does to the counters: the reason why
    /// the burn is refused, or the record after it.
    pub open spec fn burned(self, amount: i128) -> Result<TokenRecord, Error> {
        if amount <= 0 {
            Err(Error::InvalidBurnAmount)
        } else if amount > self.total_supply {
            Err(Error::BurnAmountExceedsBalance)
        } else if self.total_burned + amount > i128::MAX || self.burn_count == u32::MAX {
            Err(Error::InvalidParameters)
        } else {
            Ok(
                TokenRecord {
                    total_supply: (self.total_supply - amount) as i128,
                    total_burned: (self.total_burned + amount) as i128,
                    burn_count: (self.burn_count + 1) as u32,
                    ..self
                },
            )
        }
    }

    /// What a change of the supply does to the counters: a negative change
    /// is a burn and is counted as one. `None` where a counter would
    /// overflow.
    pub open spec fn supply_changed(self, amount_change: i128) -> Option<TokenRecord> {
        if !(i128::MIN <= self.total_supply + amount_change <= i128::MAX) {
            None
        } else if amount_change >= 0 {
            Some(TokenRecord { total_supply: (self.total_supply + amount_change) as i128, ..self })
        } else if self.total_burned - amount_change > i128::MAX || self.burn_count == u32::MAX {
            None
        } else {
            Some(
                TokenRecord {
                    total_supply: (self.total_supply + amount_change) as i128,
                    total_burned: (self.total_burned - amount_change) as i128,
                    burn_count: (self.burn_count + 1) as u32,
                    ..self
                },
            )
        }
    }

    /// A record as the registry may hold it: nothing negative, name and
    /// symbol within their bounds.
    pub open spec fn well_formed(self) -> bool {
        &&& self.total_supply >= 0
        &&& self.total_burned >= 0
        &&& 0 < self.name.len() <= MAX_NAME_LENGTH
        &&& 0 < self.symbol.len() <= MAX_SYMBOL_LENGTH
    }
}

/// The amounts of a batch of burns, in the order of the batch.
pub open spec fn amounts_of<A>(burns: Seq<(A, i128)>) -> Seq<i128> {
    Seq::new(burns.len(), |i: int| burns[i].1)
}

/// What the store holds.
#[verifier::ext_equal]
pub struct State {
    pub admin: Option<Seq<char>>,
    pub treasury: Option<Seq<char>>,
    pub base_fee: Option<i128>,
    pub metadata_fee: Option<i128>,
    pub token_count: Option<u32>,
    /// The records by position.
    pub tokens: Map<u32, TokenRecord>,
    /// The records by the identity of their token.
    pub tokens_by_address: Map<Seq<char>, TokenRecord>,
}

impl State {
    /// The store that holds nothing.
    pub open spec fn empty() -> State {
        State {
            admin: None,
            treasury: None,
            base_fee: None,
            metadata_fee: None,
            token_count: None,
            tokens: Map::empty(),
            tokens_by_address: Map::empty(),
        }
    }

    /// Whether something is stored under the key.
    pub open spec fn has(self, key: Key) -> bool {
        match key {
            Key::Admin => self.admin is Some,
            Key::Treasury => self.treasury is Some,
            Key::BaseFee => self.base_fee is Some,
            Key::MetadataFee => self.metadata_fee is Some,
            Key::TokenCount => self.token_count is Some,
            Key::Token(index) => self.tokens.contains_key(index),
            Key::TokenByAddress(address) => self.tokens_by_address.contains_key(address),
        }
    }

    /// How many tokens were issued: zero until the first one.
    pub open spec fn count(self) -> u32 {
        match self.token_count {
            Some(count) => count,
            None => 0,
        }
    }

    /// Whether the whole factory configuration is there.
    pub open spec fn initialized(self) -> bool {
        &&& self.admin is Some
        &&& self.treasury is Some
        &&& self.base_fee is Some
        &&& self.metadata_fee is Some
    }

    /// The factory configuration.
    pub open spec fn config(self) -> FactoryConfig
        recommends
            self.initialized(),
    {
        FactoryConfig {
            admin: self.admin.unwrap(),
            treasury: self.treasury.unwrap(),
            base_fee: self.base_fee.unwrap(),
            metadata_fee: self.metadata_fee.unwrap(),
        }
    }

    /// What issuing a token costs, with or without metadata.
    pub open spec fn required_fee(self, with_metadata: bool) -> int
        recommends
            self.initialized(),
    {
        fee_due(self.base_fee.unwrap(), self.metadata_fee.unwrap(), with_metadata)
    }

    /// The record at a position: there is none at or beyond the count.
    pub open spec fn token_at(self, index: u32) -> Option<TokenRecord> {
        if index < self.count() && self.tokens.contains_key(index) {
            Some(self.tokens[index])
        } else {
            None
        }
    }

    /// The record of the token with the given identity.
    pub open spec fn token_of(self, address: Seq<char>) -> Option<TokenRecord> {
        if self.tokens_by_address.contains_key(address) {
            Some(self.tokens_by_address[address])
        } else {
            None
        }
    }

    /// The positions with `record` in place of every record of the same
    /// token.
    pub open spec fn tokens_with(self, record: TokenRecord) -> Map<u32, TokenRecord> {
        Map::new(
            |index: u32| self.tokens.contains_key(index),
            |index: u32|
                if self.tokens[index].address == record.address {
                    record
                } else {
                    self.tokens[index]
                },
        )
    }

    /// The store after `record` was written under `address` and to every
    /// position that holds a record of the same token.
    pub open spec fn put_record(self, address: Seq<char>, record: TokenRecord) -> State {
        State {
            tokens: self.tokens_with(record),
            tokens_by_address: self.tokens_by_address.insert(address, record),
            ..self
        }
    }

    /// Creating the factory configuration.
    pub open spec fn initialize(
        self,
        admin: Seq<char>,
        treasury: Seq<char>,
        base_fee: i128,
        metadata_fee: i128,
    ) -> Result<State, Error> {
        if self.admin is Some {
            Err(Error::AlreadyInitialized)
        } else if base_fee < 0 || metadata_fee < 0 {
            Err(Error::InvalidParameters)
        } else {
            Ok(
                State {
                    admin: Some(admin),
                    treasury: Some(treasury),
                    base_fee: Some(base_fee),
                    metadata_fee: Some(metadata_fee),
                    ..self
                },
            )
        }
    }

    /// Changing one fee, both or none.
    pub open spec fn update_fees(
        self,
        caller: Seq<char>,
        base_fee: Option<i128>,
        metadata_fee: Option<i128>,
    ) -> Result<State, Error> {
        if self.admin != Some(caller) {
            Err(Error::Unauthorized)
        } else if (base_fee is Some && base_fee.unwrap() < 0) || (metadata_fee is Some
            && metadata_fee.unwrap() < 0) {
            Err(Error::InvalidParameters)
        } else {
            Ok(
                State {
                    base_fee: if base_fee is Some {
                        base_fee
                    } else {
                        self.base_fee
                    },
                    metadata_fee: if metadata_fee is Some {
                        metadata_fee
                    } else {
                        self.metadata_fee
                    },
                    ..self
                },
            )
        }
    }

    /// Whether a request to issue a token passes validation and pays enough.
    pub open spec fn check_token_request(
        self,
        name: Seq<char>,
        symbol: Seq<char>,
        initial_supply: i128,
        with_metadata: bool,
        fee_payment: i128,
    ) -> Result<(), Error> {
        if !valid_token_parameters(name, symbol, initial_supply) {
            Err(Error::InvalidParameters)
        } else if fee_payment < self.required_fee(with_metadata) {
            Err(Error::InsufficientFee)
        } else {
            Ok(())
        }
    }

    /// Whether there is room for one more token under an identity that the
    /// registry has not seen.
    pub open spec fn can_register(self, token_address: Seq<char>) -> bool {
        &&& self.count() < u32::MAX
        &&& !self.tokens_by_address.contains_key(token_address)
    }

    /// Issuing a token whose ledger object already exists under
    /// `token_address`.
    pub open spec fn create_token(
        self,
        creator: Seq<char>,
        name: Seq<char>,
        symbol: Seq<char>,
        decimals: u32,
        initial_supply: i128,
        metadata_uri: Option<Seq<char>>,
        fee_payment: i128,
        token_address: Seq<char>,
        created_at: u64,
    ) -> Result<State, Error> {
        match self.check_token_request(
            name,
            symbol,
            initial_supply,
            metadata_uri is Some,
            fee_payment,
        ) {
            Err(e) => Err(e),
            Ok(_) => {
                let record = TokenRecord::issued(
                    token_address,
                    creator,
                    name,
                    symbol,
                    decimals,
                    initial_supply,
                    metadata_uri,
                    created_at,
                );
                Ok(
                    State {
                        token_count: Some((self.count() + 1) as u32),
                        tokens: self.tokens.insert(self.count(), record),
                        tokens_by_address: self.tokens_by_address.insert(token_address, record),
                        ..self
                    },
                )
            },
        }
    }

    /// Writing the metadata URI of the record at a position, once.
    pub open spec fn set_metadata(self, index: u32, metadata_uri: Seq<char>) -> Result<
        State,
        Error,
    > {
        match self.token_at(index) {
            None => Err(Error::TokenNotFound),
            Some(record) => if record.metadata_uri is Some {
                Err(Error::MetadataAlreadySet)
            } else {
                Ok(
                    self.put_record(
                        record.address,
                        TokenRecord { metadata_uri: Some(metadata_uri), ..record },
                    ),
                )
            },
        }
    }

    /// A holder burning from the supply of a token.
    pub open spec fn burn(self, token_address: Seq<char>, amount: i128) -> Result<State, Error> {
        if amount <= 0 {
            Err(Error::InvalidBurnAmount)
        } else {
            match self.token_of(token_address) {
                None => Err(Error::TokenNotFound),
                Some(record) => match record.burned(amount) {
                    Err(e) => Err(e),
                    Ok(next) => Ok(self.put_record(token_address, next)),
                },
            }
        }
    }

    /// Several burns from the supply of one token, one after the other: the
    /// first that is refused refuses them all.
    pub open spec fn burn_batch(self, token_address: Seq<char>, amounts: Seq<i128>) -> Result<
        State,
        Error,
    >
        decreases amounts.len(),
    {
        if amounts.len() == 0 {
            Ok(self)
        } else {
            match self.burn(token_address, amounts[0]) {
                Err(e) => Err(e),
                Ok(next) => next.burn_batch(token_address, amounts.drop_first()),
            }
        }
    }

    /// The creator of a token burning from its supply.
    pub open spec fn admin_burn(
        self,
        token_address: Seq<char>,
        admin: Seq<char>,
        amount: i128,
    ) -> Result<State, Error> {
        match self.token_of(token_address) {
            None => Err(Error::TokenNotFound),
            Some(record) => if record.creator != admin {
                Err(Error::Unauthorized)
            } else if !record.clawback_enabled {
                Err(Error::ClawbackDisabled)
            } else {
                match record.burned(amount) {
                    Err(e) => Err(e),
                    Ok(next) => Ok(self.put_record(token_address, next)),
                }
            },
        }
    }

    /// The creator of a token allowing or forbidding burns by the creator.
    pub open spec fn set_clawback(
        self,
        token_address: Seq<char>,
        admin: Seq<char>,
        enabled: bool,
    ) -> Result<State, Error> {
        match self.token_of(token_address) {
            None => Err(Error::TokenNotFound),
            Some(record) => if record.creator != admin {
                Err(Error::Unauthorized)
            } else {
                Ok(
                    self.put_record(
                        token_address,
                        TokenRecord { clawback_enabled: enabled, ..record },
                    ),
                )
            },
        }
    }

    /// Writing a second record of the same token over a first leaves what
    /// writing the second alone leaves.
    pub proof fn lemma_put_record_twice(
        self,
        address: Seq<char>,
        first: TokenRecord,
        second: TokenRecord,
    )
        requires
            first.address == second.address,
        ensures
            self.put_record(address, first).put_record(address, second) == self.put_record(
                address,
                second,
            ),
    {
        let one = self.put_record(address, first);
        let two = one.put_record(address, second);
        let direct = self.put_record(address, second);
        assert(two.tokens =~= direct.tokens);
        assert(two.tokens_by_address =~= direct.tokens_by_address);
    }

    /// What an operation leaves behind: the new store where it succeeds, the
    /// old one where it is refused.
    pub open spec fn after(self, outcome: Result<State, Error>) -> State {
        match outcome {
            Ok(next) => next,
            Err(_) => self,
        }
    }

    /// An operation that was to make `outcome` of this store has answered
    /// `result` and left `after` behind: on success all of its writes, on
    /// refusal its error and none of them.
    pub open spec fn commits<T>(
        self,
        outcome: Result<State, Error>,
        result: Result<T, Error>,
        after: State,
    ) -> bool {
        match outcome {
            Ok(next) => result is Ok && after == next,
            Err(e) => result is Err && result->Err_0 == e && after == self,
        }
    }
}

} // verus!
