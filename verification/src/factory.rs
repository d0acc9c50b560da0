//! The operations of the registry. Each one validates first and writes
//! last, so that a refusal leaves the store as it was.

use crate::events::{Event, Report};
use crate::laws::{lemma_apply_keeps_consistent, lemma_empty_is_consistent, Operation};
use crate::model::{amounts_of, State};
use crate::storage;
use crate::storage::Storage;
use crate::types::{text_of, Address, DataKey, Error, FactoryState, TokenInfo};
use crate::validation::{
    apply_burn, check_burn_amount, check_caller, check_fee, check_fee_change, check_fee_payment,
    check_metadata_unset, check_token_parameters,
};
use vstd::prelude::*;

verus! {

/// A token factory: the registry together with the store it lives in.
#[derive(Debug, PartialEq, Eq)]
pub struct TokenFactory {
    storage: Storage,
}

impl Clone for TokenFactory {
    fn clone(&self) -> (copy: TokenFactory)
        ensures
            copy@ == self@,
    {
        TokenFactory { storage: self.storage.clone() }
    }
}

impl View for TokenFactory {
    type V = State;

    closed spec fn view(&self) -> State {
        self.storage@
    }
}

impl TokenFactory {
    /// A factory over an empty store.
    pub fn new() -> (factory: TokenFactory)
        ensures
            factory@ == State::empty(),
            factory@.consistent(),
    {
        proof {
            lemma_empty_is_consistent();
        }
        TokenFactory { storage: Storage::new() }
    }

    /// A factory over a store that was kept elsewhere.
    pub fn from_storage(storage: Storage) -> (factory: TokenFactory)
        ensures
            factory@ == storage@,
    {
        TokenFactory { storage }
    }

    /// The store of the factory.
    pub fn storage(&self) -> (storage: &Storage)
        ensures
            storage@ == self@,
    {
        &self.storage
    }

    /// The store of the factory, to be kept elsewhere.
    pub fn into_storage(self) -> (storage: Storage)
        ensures
            storage@ == self@,
    {
        self.storage
    }

    /// Whether the whole factory configuration is there.
    pub fn is_initialized(&self) -> (initialized: bool)
        ensures
            initialized == self@.initialized(),
    {
        storage::has_admin(&self.storage) && storage::has(
            &self.storage,
            &DataKey::Treasury,
        ) && storage::has(&self.storage, &DataKey::BaseFee) && storage::has(
            &self.storage,
            &DataKey::MetadataFee,
        )
    }

    /// Creates the factory configuration, once.
    ///
    /// Refused with `AlreadyInitialized` where an administrator is stored,
    /// else with `InvalidParameters` where a fee is negative.
    pub fn initialize(
        &mut self,
        admin: Address,
        treasury: Address,
        base_fee: i128,
        metadata_fee: i128,
    ) -> (result: Result<(), Error>)
        ensures
            old(self)@.commits(
                old(self)@.initialize(admin@, treasury@, base_fee, metadata_fee),
                result,
                final(self)@,
            ),
            old(self)@.consistent() ==> final(self)@.consistent() && old(self)@.evolves_to(
                final(self)@,
            ),
    {
        proof {
            if self@.consistent() {
                lemma_apply_keeps_consistent(
                    self@,
                    Operation::Initialize {
                        admin: admin@,
                        treasury: treasury@,
                        base_fee,
                        metadata_fee,
                    },
                );
            }
        }
        if storage::has_admin(&self.storage) {
            return Err(Error::AlreadyInitialized);
        }
        check_fee(base_fee)?;
        check_fee(metadata_fee)?;
        storage::set_admin(&mut self.storage, &admin);
        storage::set_treasury(&mut self.storage, &treasury);
        storage::set_base_fee(&mut self.storage, base_fee);
        storage::set_metadata_fee(&mut self.storage, metadata_fee);
        Ok(())
    }

    /// The factory configuration.
    pub fn get_state(&self) -> (state: FactoryState)
        requires
            self@.initialized(),
        ensures
            state@ == self@.config(),
    {
        storage::get_factory_state(&self.storage)
    }

    /// Changes one fee, both or none, on behalf of the administrator.
    ///
    /// `admin` is the caller as the host has authenticated it. Refused with
    /// `Unauthorized` where the caller is not the administrator, else with
    /// `InvalidParameters` where a given fee is negative.
    pub fn update_fees(
        &mut self,
        admin: Address,
        base_fee: Option<i128>,
        metadata_fee: Option<i128>,
    ) -> (result: Result<(), Error>)
        requires
            old(self)@.initialized(),
        ensures
            old(self)@.commits(
                old(self)@.update_fees(admin@, base_fee, metadata_fee),
                result,
                final(self)@,
            ),
            old(self)@.consistent() ==> final(self)@.consistent() && old(self)@.evolves_to(
                final(self)@,
            ),
    {
        proof {
            if self@.consistent() {
                lemma_apply_keeps_consistent(
                    self@,
                    Operation::UpdateFees {
                        caller: admin@,
                        new_base_fee: base_fee,
                        new_metadata_fee: metadata_fee,
                    },
                );
            }
        }
        let current_admin = storage::get_admin(&self.storage);
        check_caller(&admin, &current_admin)?;
        check_fee_change(base_fee)?;
        check_fee_change(metadata_fee)?;
        if let Some(fee) = base_fee {
            storage::set_base_fee(&mut self.storage, fee);
        }
        if let Some(fee) = metadata_fee {
            storage::set_metadata_fee(&mut self.storage, fee);
        }
        Ok(())
    }

    /// How many tokens were issued.
    pub fn get_token_count(&self) -> (count: u32)
        ensures
            count == self@.count(),
    {
        storage::get_token_count(&self.storage)
    }

    /// The record at a position; `TokenNotFound` where there is none or the
    /// position is not below the count.
    pub fn get_token_info(&self, index: u32) -> (result: Result<TokenInfo, Error>)
        ensures
            match self@.token_at(index) {
                Some(record) => result is Ok && result->Ok_0@ == record,
                None => result is Err && result->Err_0 == Error::TokenNotFound,
            },
    {
        if index >= storage::get_token_count(&self.storage) {
            return Err(Error::TokenNotFound);
        }
        match storage::get_token_info(&self.storage, index) {
            Some(info) => Ok(info),
            None => Err(Error::TokenNotFound),
        }
    }

    /// The record of the token with the given identity; `TokenNotFound`
    /// where the registry holds none.
    pub fn get_token_info_by_address(&self, token_address: Address) -> (result: Result<
        TokenInfo,
        Error,
    >)
        ensures
            match self@.token_of(token_address@) {
                Some(record) => result is Ok && result->Ok_0@ == record,
                None => result is Err && result->Err_0 == Error::TokenNotFound,
            },
    {
        match storage::get_token_info_by_address(&self.storage, &token_address) {
            Some(info) => Ok(info),
            None => Err(Error::TokenNotFound),
        }
    }

    /// Whether a request to issue a token would be accepted: to be asked
    /// before the ledger is told to provision the token.
    ///
    /// Refused with `InvalidParameters` where the name or the symbol is
    /// empty or too long or the initial supply is not positive, else with
    /// `InsufficientFee` where the payment is below the base fee plus, for a
    /// token with metadata, the metadata fee.
    pub fn check_token_request(
        &self,
        name: &String,
        symbol: &String,
        initial_supply: i128,
        with_metadata: bool,
        fee_payment: i128,
    ) -> (result: Result<(), Error>)
        requires
            self@.initialized(),
        ensures
            result == self@.check_token_request(
                name@,
                symbol@,
                initial_supply,
                with_metadata,
                fee_payment,
            ),
    {
        check_token_parameters(name, symbol, initial_supply)?;
        check_fee_payment(
            storage::get_base_fee(&self.storage),
            storage::get_metadata_fee(&self.storage),
            with_metadata,
            fee_payment,
        )
    }

    /// Issues a token: validates the request, then enters the record at the
    /// next position and under the identity of the token, and counts it.
    ///
    /// `token_address` is the identity under which the ledger has
    /// provisioned the new token, so the registry has not seen it before;
    /// `created_at` is the time of the ledger. Refused as
    /// [`TokenFactory::check_token_request`] refuses.
    pub fn create_token(
        &mut self,
        creator: Address,
        name: String,
        symbol: String,
        decimals: u32,
        initial_supply: i128,
        metadata_uri: Option<String>,
        fee_payment: i128,
        token_address: Address,
        created_at: u64,
    ) -> (result: Result<Address, Error>)
        requires
            old(self)@.initialized(),
            old(self)@.can_register(token_address@),
        ensures
            old(self)@.commits(
                old(self)@.create_token(
                    creator@,
                    name@,
                    symbol@,
                    decimals,
                    initial_supply,
                    text_of(metadata_uri),
                    fee_payment,
                    token_address@,
                    created_at,
                ),
                result,
                final(self)@,
            ),
            result is Ok ==> result->Ok_0@ == token_address@,
            old(self)@.consistent() ==> final(self)@.consistent() && old(self)@.evolves_to(
                final(self)@,
            ),
    {
        proof {
            if self@.consistent() {
                lemma_apply_keeps_consistent(
                    self@,
                    Operation::CreateToken {
                        creator: creator@,
                        name: name@,
                        symbol: symbol@,
                        decimals,
                        initial_supply,
                        metadata_uri: text_of(metadata_uri),
                        fee_payment,
                        token_address: token_address@,
                        created_at,
                    },
                );
            }
        }
        self.check_token_request(
            &name,
            &symbol,
            initial_supply,
            metadata_uri.is_some(),
            fee_payment,
        )?;
        let index = storage::get_token_count(&self.storage);
        let info = TokenInfo {
            address: token_address.clone(),
            creator,
            name,
            symbol,
            decimals,
            total_supply: initial_supply,
            total_burned: 0,
            burn_count: 0,
            metadata_uri,
            clawback_enabled: false,
            created_at,
        };
        storage::set_token_info(&mut self.storage, index, &info);
        storage::set_token_info_by_address(&mut self.storage, &token_address, &info);
        storage::increment_token_count(&mut self.storage);
        Ok(token_address)
    }

    /// Writes the metadata URI of the record at a position, once.
    ///
    /// Refused with `TokenNotFound` where there is no record at the
    /// position, else with `MetadataAlreadySet` where the record has a
    /// metadata URI.
    pub fn set_metadata(&mut self, index: u32, metadata_uri: String) -> (result: Result<
        (),
        Error,
    >)
        ensures
            old(self)@.commits(
                old(self)@.set_metadata(index, metadata_uri@),
                result,
                final(self)@,
            ),
            old(self)@.consistent() ==> final(self)@.consistent() && old(self)@.evolves_to(
                final(self)@,
            ),
    {
        proof {
            if self@.consistent() {
                lemma_apply_keeps_consistent(
                    self@,
                    Operation::SetMetadata {
                        index,
                        uri: metadata_uri@,
                    },
                );
            }
        }
        let info = self.get_token_info(index)?;
        check_metadata_unset(&info.metadata_uri)?;
        let updated = TokenInfo {
            address: info.address,
            creator: info.creator,
            name: info.name,
            symbol: info.symbol,
            decimals: info.decimals,
            total_supply: info.total_supply,
            total_burned: info.total_burned,
            burn_count: info.burn_count,
            metadata_uri: Some(metadata_uri),
            clawback_enabled: info.clawback_enabled,
            created_at: info.created_at,
        };
        storage::put_token_info(&mut self.storage, &updated.address, &updated);
        Ok(())
    }

    /// Burns `amount` from the supply of a token on behalf of the holder
    /// `from`, whom the host has authenticated.
    ///
    /// Refused with `InvalidBurnAmount` where the amount is not positive,
    /// else with `TokenNotFound` where the registry holds no such token,
    /// else with `BurnAmountExceedsBalance` where the amount exceeds what is
    /// left of the supply, else with `InvalidParameters` where a counter
    /// would overflow. Where the burn is accepted, the event to publish is
    /// returned.
    pub fn burn(&mut self, token_address: Address, from: Address, amount: i128) -> (result:
        Result<Event, Error>)
        ensures
            old(self)@.commits(old(self)@.burn(token_address@, amount), result, final(self)@),
            result is Ok ==> result->Ok_0@ == (Report::Burn {
                token: token_address@,
                from: from@,
                amount,
            }),
            old(self)@.consistent() ==> final(self)@.consistent() && old(self)@.evolves_to(
                final(self)@,
            ),
    {
        proof {
            if self@.consistent() {
                lemma_apply_keeps_consistent(
                    self@,
                    Operation::Burn {
                        token_address: token_address@,
                        amount,
                    },
                );
            }
        }
        check_burn_amount(amount)?;
        let info = match storage::get_token_info_by_address(&self.storage, &token_address) {
            Some(info) => info,
            None => {
                return Err(Error::TokenNotFound);
            },
        };
        let burned = apply_burn(&info, amount)?;
        storage::put_token_info(&mut self.storage, &token_address, &burned);
        Ok(Event::Burn { token: token_address, from, amount })
    }

    /// Burns from the supply of a token on behalf of several holders, all or
    /// none: the burns are taken one after the other as
    /// [`TokenFactory::burn`] takes them, and the first that is refused
    /// refuses the batch, with its error and with nothing written. Where the
    /// batch is accepted, the events to publish are returned, one for each
    /// burn and in the order of the batch.
    pub fn burn_batch(&mut self, token_address: Address, burns: Vec<(Address, i128)>) -> (result:
        Result<Vec<Event>, Error>)
        ensures
            old(self)@.commits(
                old(self)@.burn_batch(token_address@, amounts_of(burns@)),
                result,
                final(self)@,
            ),
            result is Ok ==> result->Ok_0@.len() == burns@.len(),
            result is Ok ==> forall|i: int|
                0 <= i < burns@.len() ==> (#[trigger] result->Ok_0@[i])@ == (Report::Burn {
                    token: token_address@,
                    from: burns@[i].0@,
                    amount: burns@[i].1,
                }),
            old(self)@.consistent() ==> final(self)@.consistent() && old(self)@.evolves_to(
                final(self)@,
            ),
    {
        proof {
            if self@.consistent() {
                lemma_apply_keeps_consistent(
                    self@,
                    Operation::BurnBatch {
                        token_address: token_address@,
                        amounts: amounts_of(burns@),
                    },
                );
            }
        }
        let ghost before = self@;
        let ghost token = token_address@;
        let ghost amounts = amounts_of(burns@);
        let mut events: Vec<Event> = Vec::new();
        if burns.len() == 0 {
            return Ok(events);
        }
        let mut current = match storage::get_token_info_by_address(
            &self.storage,
            &token_address,
        ) {
            Some(info) => info,
            None => {
                check_burn_amount(burns[0].1)?;
                return Err(Error::TokenNotFound);
            },
        };
        let ghost first = current@;
        let ghost reached = before;
        proof {
            assert(amounts.skip(0) =~= amounts);
        }
        let mut i: usize = 0;
        while i < burns.len()
            invariant
                i <= burns.len(),
                events@.len() == i,
                forall|j: int|
                    0 <= j < i ==> (#[trigger] events@[j])@ == (Report::Burn {
                        token: token_address@,
                        from: burns@[j].0@,
                        amount: burns@[j].1,
                    }),
                self@ == before,
                token == token_address@,
                amounts == amounts_of(burns@),
                before.token_of(token) == Some(first),
                current@.address == first.address,
                i == 0 ==> reached == before && current@ == first,
                i > 0 ==> reached == before.put_record(token, current@),
                before.burn_batch(token, amounts) == reached.burn_batch(
                    token,
                    amounts.skip(i as int),
                ),
            decreases burns.len() - i,
        {
            let ghost rest = amounts.skip(i as int);
            proof {
                assert(rest.len() > 0);
                assert(rest[0] == burns@[i as int].1);
                assert(rest.drop_first() =~= amounts.skip(i + 1));
                assert(reached.token_of(token) == Some(current@));
            }
            match apply_burn(&current, burns[i].1) {
                Err(e) => {
                    return Err(e);
                },
                Ok(next) => {
                    proof {
                        let stepped = reached.put_record(token, next@);
                        assert(reached.burn(token, rest[0]) == Ok::<State, Error>(stepped));
                        if i > 0 {
                            before.lemma_put_record_twice(token, current@, next@);
                        }
                        reached = stepped;
                    }
                    current = next;
                },
            }
            events.push(
                Event::Burn {
                    token: token_address.clone(),
                    from: burns[i].0.clone(),
                    amount: burns[i].1,
                },
            );
            i += 1;
        }
        proof {
            assert(amounts.skip(i as int).len() == 0);
        }
        storage::put_token_info(&mut self.storage, &token_address, &current);
        Ok(events)
    }

    /// Burns from the supply of a token on behalf of the creator, who may
    /// take from any holder where the record allows it.
    ///
    /// `admin` is the caller as the host has authenticated it. Refused with
    /// `TokenNotFound` where the registry holds no such token, else with
    /// `Unauthorized` where the caller is not its creator, else with
    /// `ClawbackDisabled` where the record does not allow it, else as
    /// [`TokenFactory::burn`] refuses an amount. Where the burn is accepted,
    /// the event to publish is returned: it is of another kind than the
    /// event of a burn by a holder.
    pub fn admin_burn(
        &mut self,
        token_address: Address,
        admin: Address,
        from: Address,
        amount: i128,
    ) -> (result: Result<Event, Error>)
        ensures
            old(self)@.commits(
                old(self)@.admin_burn(token_address@, admin@, amount),
                result,
                final(self)@,
            ),
            result is Ok ==> result->Ok_0@ == (Report::AdminBurn {
                token: token_address@,
                admin: admin@,
                from: from@,
                amount,
            }),
            old(self)@.consistent() ==> final(self)@.consistent() && old(self)@.evolves_to(
                final(self)@,
            ),
    {
        proof {
            if self@.consistent() {
                lemma_apply_keeps_consistent(
                    self@,
                    Operation::AdminBurn {
                        token_address: token_address@,
                        admin: admin@,
                        amount,
                    },
                );
            }
        }
        let info = match storage::get_token_info_by_address(&self.storage, &token_address) {
            Some(info) => info,
            None => {
                return Err(Error::TokenNotFound);
            },
        };
        check_caller(&admin, &info.creator)?;
        if !info.clawback_enabled {
            return Err(Error::ClawbackDisabled);
        }
        let burned = apply_burn(&info, amount)?;
        storage::put_token_info(&mut self.storage, &token_address, &burned);
        Ok(Event::AdminBurn { token: token_address, admin, from, amount })
    }

    /// Allows or forbids burns by the creator of a token.
    ///
    /// `admin` is the caller as the host has authenticated it. Refused with
    /// `TokenNotFound` where the registry holds no such token, else with
    /// `Unauthorized` where the caller is not its creator. Where the flag is
    /// written, the event to publish is returned.
    pub fn set_clawback(
        &mut self,
        token_address: Address,
        admin: Address,
        enabled: bool,
    ) -> (result: Result<Event, Error>)
        ensures
            old(self)@.commits(
                old(self)@.set_clawback(token_address@, admin@, enabled),
                result,
                final(self)@,
            ),
            result is Ok ==> result->Ok_0@ == (Report::Clawback {
                token: token_address@,
                admin: admin@,
                enabled,
            }),
            old(self)@.consistent() ==> final(self)@.consistent() && old(self)@.evolves_to(
                final(self)@,
            ),
    {
        proof {
            if self@.consistent() {
                lemma_apply_keeps_consistent(
                    self@,
                    Operation::SetClawback {
                        token_address: token_address@,
                        admin: admin@,
                        enabled,
                    },
                );
            }
        }
        let info = match storage::get_token_info_by_address(&self.storage, &token_address) {
            Some(info) => info,
            None => {
                return Err(Error::TokenNotFound);
            },
        };
        check_caller(&admin, &info.creator)?;
        let updated = TokenInfo {
            address: info.address,
            creator: info.creator,
            name: info.name,
            symbol: info.symbol,
            decimals: info.decimals,
            total_supply: info.total_supply,
            total_burned: info.total_burned,
            burn_count: info.burn_count,
            metadata_uri: info.metadata_uri,
            clawback_enabled: enabled,
            created_at: info.created_at,
        };
        storage::put_token_info(&mut self.storage, &token_address, &updated);
        Ok(Event::Clawback { token: token_address, admin, enabled })
    }
}

} // verus!
