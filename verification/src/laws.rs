//! What holds of the registry in every state it can reach, and across every
//! sequence of operations.

use crate::model::State;
use crate::types::{Error, TokenRecord};
use vstd::prelude::*;

verus! {

/// An operation of the registry with its arguments.
pub enum Operation {
    Initialize { admin: Seq<char>, treasury: Seq<char>, base_fee: i128, metadata_fee: i128 },
    UpdateFees { caller: Seq<char>, new_base_fee: Option<i128>, new_metadata_fee: Option<i128> },
    CreateToken {
        creator: Seq<char>,
        name: Seq<char>,
        symbol: Seq<char>,
        decimals: u32,
        initial_supply: i128,
        metadata_uri: Option<Seq<char>>,
        fee_payment: i128,
        token_address: Seq<char>,
        created_at: u64,
    },
    SetMetadata { index: u32, uri: Seq<char> },
    Burn { token_address: Seq<char>, amount: i128 },
    BurnBatch { token_address: Seq<char>, amounts: Seq<i128> },
    AdminBurn { token_address: Seq<char>, admin: Seq<char>, amount: i128 },
    SetClawback { token_address: Seq<char>, admin: Seq<char>, enabled: bool },
}

impl TokenRecord {
    /// `later` is this record at a later time: the same token, the same
    /// issued supply, no counter lower, and the metadata URI as it was if
    /// there was one.
    pub open spec fn grows_into(self, later: TokenRecord) -> bool {
        &&& later.address == self.address
        &&& later.creator == self.creator
        &&& later.name == self.name
        &&& later.symbol == self.symbol
        &&& later.decimals == self.decimals
        &&& later.created_at == self.created_at
        &&& later.issued_supply() == self.issued_supply()
        &&& later.total_burned >= self.total_burned
        &&& later.burn_count >= self.burn_count
        &&& self.metadata_uri is Some ==> later.metadata_uri == self.metadata_uri
    }
}

impl State {
    /// Position `index` holds the record that is stored for `address`.
    pub open spec fn holds_at(self, index: u32, address: Seq<char>) -> bool {
        &&& index < self.count()
        &&& self.tokens.contains_key(index)
        &&& self.tokens_by_address.contains_key(address)
        &&& self.tokens[index] == self.tokens_by_address[address]
    }

    /// The invariant of the registry.
    ///
    /// The configuration is there as a whole or not at all, with no
    /// negative fee. The positions below the count, and no others, hold a
    /// record. Every record is well formed and is the same by position and
    /// by identity: what a position holds is stored for the identity of its
    /// token, and what is stored for an identity is the record of that token
    /// and stands at some position.
    pub open spec fn consistent(self) -> bool {
        &&& self.initialized() || (self.admin is None && self.treasury is None
            && self.base_fee is None && self.metadata_fee is None)
        &&& self.initialized() ==> self.base_fee.unwrap() >= 0 && self.metadata_fee.unwrap() >= 0
        &&& forall|index: u32| #[trigger]
            self.tokens.contains_key(index) <==> index < self.count()
        &&& forall|index: u32|
            index < self.count() ==> (#[trigger] self.tokens[index]).well_formed()
                && self.holds_at(index, self.tokens[index].address)
        &&& forall|address: Seq<char>| #[trigger]
            self.tokens_by_address.contains_key(address) ==> self.tokens_by_address[address].address
                == address && exists|index: u32| self.holds_at(index, address)
    }

    /// `later` is this store at a later time: no fewer tokens, the same
    /// administrator and treasury if there were any, and every record grown
    /// into the one that stands in its place.
    pub open spec fn evolves_to(self, later: State) -> bool {
        &&& later.count() >= self.count()
        &&& self.admin is Some ==> later.admin == self.admin
        &&& self.treasury is Some ==> later.treasury == self.treasury
        &&& forall|index: u32| #[trigger]
            self.tokens.contains_key(index) ==> later.tokens.contains_key(index)
                && self.tokens[index].grows_into(later.tokens[index])
        &&& forall|address: Seq<char>| #[trigger]
            self.tokens_by_address.contains_key(address) ==> later.tokens_by_address.contains_key(
                address,
            ) && self.tokens_by_address[address].grows_into(later.tokens_by_address[address])
    }

    /// Whether the operation may be started on this store: the factory is
    /// initialized where the operation reads its configuration, and a token
    /// to be issued comes under an identity that is new, with room left for
    /// it.
    pub open spec fn admits(self, op: Operation) -> bool {
        match op {
            Operation::UpdateFees { .. } => self.initialized(),
            Operation::CreateToken { token_address, .. } => self.initialized()
                && self.can_register(token_address),
            _ => true,
        }
    }

    /// What the operation makes of this store, or why it is refused.
    pub open spec fn outcome(self, op: Operation) -> Result<State, Error> {
        match op {
            Operation::Initialize { admin, treasury, base_fee, metadata_fee } => self.initialize(
                admin,
                treasury,
                base_fee,
                metadata_fee,
            ),
            Operation::UpdateFees { caller, new_base_fee, new_metadata_fee } => self.update_fees(
                caller,
                new_base_fee,
                new_metadata_fee,
            ),
            Operation::CreateToken {
                creator,
                name,
                symbol,
                decimals,
                initial_supply,
                metadata_uri,
                fee_payment,
                token_address,
                created_at,
            } => self.create_token(
                creator,
                name,
                symbol,
                decimals,
                initial_supply,
                metadata_uri,
                fee_payment,
                token_address,
                created_at,
            ),
            Operation::SetMetadata { index, uri } => self.set_metadata(index, uri),
            Operation::Burn { token_address, amount } => self.burn(token_address, amount),
            Operation::BurnBatch { token_address, amounts } => self.burn_batch(
                token_address,
                amounts,
            ),
            Operation::AdminBurn { token_address, admin, amount } => self.admin_burn(
                token_address,
                admin,
                amount,
            ),
            Operation::SetClawback { token_address, admin, enabled } => self.set_clawback(
                token_address,
                admin,
                enabled,
            ),
        }
    }

    /// The store after the operation: as it was where the operation may not
    /// be started or is refused.
    pub open spec fn apply(self, op: Operation) -> State {
        if self.admits(op) {
            self.after(self.outcome(op))
        } else {
            self
        }
    }

    /// The store after a sequence of operations, one after the other.
    pub open spec fn run(self, ops: Seq<Operation>) -> State
        decreases ops.len(),
    {
        if ops.len() == 0 {
            self
        } else {
            self.run(ops.drop_last()).apply(ops.last())
        }
    }
}

/// The empty store meets the invariant.
pub proof fn lemma_empty_is_consistent()
    ensures
        State::empty().consistent(),
{
}

/// A store is a later time of itself.
pub proof fn lemma_evolves_reflexive(state: State)
    ensures
        state.evolves_to(state),
{
}

/// A later time of a later time is a later time.
pub proof fn lemma_evolves_transitive(first: State, second: State, third: State)
    requires
        first.evolves_to(second),
        second.evolves_to(third),
    ensures
        first.evolves_to(third),
{
    assert forall|index: u32| #[trigger]
        first.tokens.contains_key(index) implies third.tokens.contains_key(index)
        && first.tokens[index].grows_into(third.tokens[index]) by {
        assert(second.tokens.contains_key(index));
    }
    assert forall|address: Seq<char>| #[trigger]
        first.tokens_by_address.contains_key(address) implies third.tokens_by_address.contains_key(
        address,
    ) && first.tokens_by_address[address].grows_into(third.tokens_by_address[address]) by {
        assert(second.tokens_by_address.contains_key(address));
    }
}

/// Writing a grown record in place of the one stored for a token keeps the
/// invariant and moves the store to a later time.
proof fn lemma_put_grown_record(state: State, address: Seq<char>, record: TokenRecord)
    requires
        state.consistent(),
        state.tokens_by_address.contains_key(address),
        state.tokens_by_address[address].grows_into(record),
        record.well_formed(),
    ensures
        state.put_record(address, record).consistent(),
        state.evolves_to(state.put_record(address, record)),
{
    let next = state.put_record(address, record);
    let current = state.tokens_by_address[address];
    assert(current.address == address);
    assert(next.count() == state.count());
    assert forall|index: u32| index < next.count() implies (#[trigger]
        next.tokens[index]).well_formed() && next.holds_at(index, next.tokens[index].address) by {
        assert(state.tokens.contains_key(index));
        assert(state.holds_at(index, state.tokens[index].address));
    }
    assert forall|other: Seq<char>| #[trigger]
        next.tokens_by_address.contains_key(other) implies next.tokens_by_address[other].address
        == other && exists|index: u32| next.holds_at(index, other) by {
        assert(state.tokens_by_address.contains_key(other));
        let index = choose|index: u32| state.holds_at(index, other);
        assert(state.holds_at(index, other));
        assert(next.holds_at(index, other));
    }
    assert forall|index: u32| #[trigger]
        state.tokens.contains_key(index) implies next.tokens.contains_key(index)
        && state.tokens[index].grows_into(next.tokens[index]) by {
        assert(state.holds_at(index, state.tokens[index].address));
    }
}

/// A burn keeps the invariant and moves the store to a later time.
proof fn lemma_burn_step(state: State, token_address: Seq<char>, amount: i128)
    requires
        state.consistent(),
    ensures
        state.after(state.burn(token_address, amount)).consistent(),
        state.evolves_to(state.after(state.burn(token_address, amount))),
{
    if let Ok(next) = state.burn(token_address, amount) {
        let record = state.tokens_by_address[token_address];
        let burned = record.burned(amount)->Ok_0;
        assert(state.holds_at(
            choose|index: u32| state.holds_at(index, token_address),
            token_address,
        ));
        assert(record.well_formed());
        lemma_put_grown_record(state, token_address, burned);
    }
}

/// A batch of burns keeps the invariant and moves the store to a later
/// time.
proof fn lemma_burn_batch_steps(state: State, token_address: Seq<char>, amounts: Seq<i128>)
    requires
        state.consistent(),
    ensures
        state.after(state.burn_batch(token_address, amounts)).consistent(),
        state.evolves_to(state.after(state.burn_batch(token_address, amounts))),
    decreases amounts.len(),
{
    if amounts.len() > 0 {
        lemma_burn_step(state, token_address, amounts[0]);
        if let Ok(next) = state.burn(token_address, amounts[0]) {
            lemma_burn_batch_steps(next, token_address, amounts.drop_first());
            let last = next.after(next.burn_batch(token_address, amounts.drop_first()));
            lemma_evolves_transitive(state, next, last);
        }
    }
}

/// Entering a well-formed record under a new identity, at the position of
/// the count, keeps the invariant and moves the store to a later time.
proof fn lemma_enter_record(state: State, next: State, record: TokenRecord)
    requires
        state.consistent(),
        state.can_register(record.address),
        record.well_formed(),
        next == (State {
            token_count: Some((state.count() + 1) as u32),
            tokens: state.tokens.insert(state.count(), record),
            tokens_by_address: state.tokens_by_address.insert(record.address, record),
            ..state
        }),
    ensures
        next.consistent(),
        state.evolves_to(next),
{
    let address = record.address;
    let position = state.count();
    assert(!state.tokens.contains_key(position));
    assert(next.count() == position + 1);
    assert forall|index: u32| #[trigger]
        next.tokens.contains_key(index) <==> index < next.count() by {
        assert(state.tokens.contains_key(index) <==> index < state.count());
    }
    assert forall|index: u32| index < next.count() implies (#[trigger]
        next.tokens[index]).well_formed() && next.holds_at(index, next.tokens[index].address) by {
        if index < position {
            assert(state.tokens.contains_key(index));
            assert(state.holds_at(index, state.tokens[index].address));
        }
    }
    assert forall|other: Seq<char>| #[trigger]
        next.tokens_by_address.contains_key(other) implies next.tokens_by_address[other].address
        == other && exists|index: u32| next.holds_at(index, other) by {
        if other == address {
            assert(next.holds_at(position, other));
        } else {
            assert(state.tokens_by_address.contains_key(other));
            let index = choose|index: u32| state.holds_at(index, other);
            assert(state.holds_at(index, other));
            assert(next.holds_at(index, other));
        }
    }
    assert forall|index: u32| #[trigger]
        state.tokens.contains_key(index) implies next.tokens.contains_key(index)
        && state.tokens[index].grows_into(next.tokens[index]) by {
        assert(index < state.count());
    }
}

/// A change of the configuration alone, to a whole one without a negative
/// fee, keeps the invariant.
proof fn lemma_configure(state: State, next: State)
    requires
        state.consistent(),
        next.initialized(),
        next.base_fee.unwrap() >= 0,
        next.metadata_fee.unwrap() >= 0,
        next.token_count == state.token_count,
        next.tokens == state.tokens,
        next.tokens_by_address == state.tokens_by_address,
    ensures
        next.consistent(),
{
    assert forall|index: u32| index < next.count() implies (#[trigger]
        next.tokens[index]).well_formed() && next.holds_at(index, next.tokens[index].address) by {
        assert(state.holds_at(index, state.tokens[index].address));
    }
    assert forall|other: Seq<char>| #[trigger]
        next.tokens_by_address.contains_key(other) implies next.tokens_by_address[other].address
        == other && exists|index: u32| next.holds_at(index, other) by {
        let index = choose|index: u32| state.holds_at(index, other);
        assert(state.holds_at(index, other));
        assert(next.holds_at(index, other));
    }
}

/// Every operation keeps the invariant and moves the store to a later time.
pub proof fn lemma_apply_keeps_consistent(state: State, op: Operation)
    requires
        state.consistent(),
    ensures
        state.apply(op).consistent(),
        state.evolves_to(state.apply(op)),
{
    if !state.admits(op) {
        return ;
    }
    match op {
        Operation::Initialize { .. } => {
            if let Ok(next) = state.outcome(op) {
                lemma_configure(state, next);
            }
        },
        Operation::UpdateFees { .. } => {
            if let Ok(next) = state.outcome(op) {
                lemma_configure(state, next);
            }
        },
        Operation::CreateToken {
            creator,
            name,
            symbol,
            decimals,
            initial_supply,
            metadata_uri,
            fee_payment,
            token_address,
            created_at,
        } => {
            if let Ok(next) = state.outcome(op) {
                lemma_enter_record(
                    state,
                    next,
                    TokenRecord::issued(
                        token_address,
                        creator,
                        name,
                        symbol,
                        decimals,
                        initial_supply,
                        metadata_uri,
                        created_at,
                    ),
                );
            }
        },
        Operation::SetMetadata { index, uri } => {
            if let Ok(next) = state.set_metadata(index, uri) {
                let record = state.tokens[index];
                assert(record.well_formed() && state.holds_at(index, record.address));
                lemma_put_grown_record(
                    state,
                    record.address,
                    TokenRecord { metadata_uri: Some(uri), ..record },
                );
            }
        },
        Operation::Burn { token_address, amount } => {
            lemma_burn_step(state, token_address, amount);
        },
        Operation::BurnBatch { token_address, amounts } => {
            lemma_burn_batch_steps(state, token_address, amounts);
        },
        Operation::AdminBurn { token_address, admin, amount } => {
            if let Ok(next) = state.admin_burn(token_address, admin, amount) {
                let record = state.tokens_by_address[token_address];
                assert(state.holds_at(
                    choose|index: u32| state.holds_at(index, token_address),
                    token_address,
                ));
                assert(record.well_formed());
                lemma_put_grown_record(state, token_address, record.burned(amount)->Ok_0);
            }
        },
        Operation::SetClawback { token_address, admin, enabled } => {
            if let Ok(next) = state.set_clawback(token_address, admin, enabled) {
                let record = state.tokens_by_address[token_address];
                assert(state.holds_at(
                    choose|index: u32| state.holds_at(index, token_address),
                    token_address,
                ));
                assert(record.well_formed());
                lemma_put_grown_record(
                    state,
                    token_address,
                    TokenRecord { clawback_enabled: enabled, ..record },
                );
            }
        },
    }
}

/// Every sequence of operations keeps the invariant and moves the store to
/// a later time.
pub proof fn lemma_run_keeps_consistent(state: State, ops: Seq<Operation>)
    requires
        state.consistent(),
    ensures
        state.run(ops).consistent(),
        state.evolves_to(state.run(ops)),
    decreases ops.len(),
{
    if ops.len() > 0 {
        let middle = state.run(ops.drop_last());
        lemma_run_keeps_consistent(state, ops.drop_last());
        lemma_apply_keeps_consistent(middle, ops.last());
        lemma_evolves_transitive(state, middle, middle.apply(ops.last()));
    }
}

/// Every store that a sequence of operations makes of the empty store meets
/// the invariant.
pub proof fn lemma_reachable_is_consistent(ops: Seq<Operation>)
    ensures
        State::empty().run(ops).consistent(),
{
    lemma_run_keeps_consistent(State::empty(), ops);
}

/// Atomicity: an operation that is refused, or that may not be started,
/// leaves the store as it was; one that is accepted leaves exactly the store
/// that it is to make.
pub proof fn lemma_all_or_nothing(state: State, op: Operation)
    ensures
        state.admits(op) && state.outcome(op) is Ok ==> state.outcome(op) == Ok::<State, Error>(
            state.apply(op),
        ),
        !state.admits(op) || state.outcome(op) is Err ==> state.apply(op) == state,
{
}

/// A request that passes the check before the ledger provisions the token
/// is accepted once the token exists: nothing that was provisioned is left
/// without its record.
pub proof fn lemma_checked_request_is_accepted(
    state: State,
    creator: Seq<char>,
    name: Seq<char>,
    symbol: Seq<char>,
    decimals: u32,
    initial_supply: i128,
    metadata_uri: Option<Seq<char>>,
    fee_payment: i128,
    token_address: Seq<char>,
    created_at: u64,
)
    requires
        state.check_token_request(name, symbol, initial_supply, metadata_uri is Some, fee_payment)
            is Ok,
    ensures
        state.create_token(
            creator,
            name,
            symbol,
            decimals,
            initial_supply,
            metadata_uri,
            fee_payment,
            token_address,
            created_at,
        ) is Ok,
{
}

/// Writing the clawback flag that a record has already is accepted and
/// changes nothing.
pub proof fn lemma_set_clawback_is_idempotent(
    state: State,
    token_address: Seq<char>,
    admin: Seq<char>,
    enabled: bool,
)
    requires
        state.consistent(),
        state.set_clawback(token_address, admin, enabled) is Ok,
    ensures
        state.token_of(token_address).unwrap().clawback_enabled == enabled ==> state.set_clawback(
            token_address,
            admin,
            enabled,
        ) == Ok::<State, Error>(state),
        state.set_clawback(token_address, admin, enabled)->Ok_0.set_clawback(
            token_address,
            admin,
            enabled,
        ) == state.set_clawback(token_address, admin, enabled),
{
    let record = state.tokens_by_address[token_address];
    let once = state.set_clawback(token_address, admin, enabled)->Ok_0;
    let written = TokenRecord { clawback_enabled: enabled, ..record };
    assert(once.tokens_by_address[token_address] == written);
    let twice = once.set_clawback(token_address, admin, enabled)->Ok_0;
    state.lemma_put_record_twice(token_address, written, written);
    assert(twice == once);
    if record.clawback_enabled == enabled {
        assert(written == record);
        assert forall|index: u32| state.tokens.contains_key(index) implies #[trigger]
            once.tokens[index] == state.tokens[index] by {
            assert(state.holds_at(index, state.tokens[index].address));
        }
        assert(once.tokens =~= state.tokens);
        assert(once.tokens_by_address =~= state.tokens_by_address);
        assert(once == state);
    }
}

/// Dual-index agreement: in a store that meets the invariant, every
/// position below the count holds a record, and looking that record up by
/// the identity of its token gives the same record.
pub proof fn lemma_dual_index_agreement(state: State, index: u32)
    requires
        state.consistent(),
        index < state.count(),
    ensures
        state.token_at(index) is Some,
        state.token_of(state.token_at(index).unwrap().address) == state.token_at(index),
{
    assert(state.tokens.contains_key(index));
    assert(state.holds_at(index, state.tokens[index].address));
}

/// In a store that meets the invariant, every record that is stored for an
/// identity is the record of that token and stands at a position below the
/// count.
pub proof fn lemma_identity_has_position(state: State, token_address: Seq<char>) -> (index: u32)
    requires
        state.consistent(),
        state.token_of(token_address) is Some,
    ensures
        state.token_of(token_address).unwrap().address == token_address,
        state.token_at(index) == state.token_of(token_address),
{
    assert(state.tokens_by_address.contains_key(token_address));
    let index = choose|index: u32| state.holds_at(index, token_address);
    assert(state.holds_at(index, token_address));
    index
}

/// A token that was issued stands at the position of the old count and
/// under its identity, with its whole supply unburned, and the count has
/// grown by exactly one.
pub proof fn lemma_issue_enters_record(
    state: State,
    creator: Seq<char>,
    name: Seq<char>,
    symbol: Seq<char>,
    decimals: u32,
    initial_supply: i128,
    metadata_uri: Option<Seq<char>>,
    fee_payment: i128,
    token_address: Seq<char>,
    created_at: u64,
) -> (next: State)
    requires
        state.count() < u32::MAX,
        state.create_token(
            creator,
            name,
            symbol,
            decimals,
            initial_supply,
            metadata_uri,
            fee_payment,
            token_address,
            created_at,
        ) is Ok,
    ensures
        state.create_token(
            creator,
            name,
            symbol,
            decimals,
            initial_supply,
            metadata_uri,
            fee_payment,
            token_address,
            created_at,
        ) == Ok::<State, Error>(next),
        next.count() == state.count() + 1,
        next.token_at(state.count()) == next.token_of(token_address),
        next.token_of(token_address) is Some,
        next.token_of(token_address).unwrap().total_supply == initial_supply,
        next.token_of(token_address).unwrap().total_burned == 0,
        next.token_of(token_address).unwrap().burn_count == 0,
        next.token_of(token_address).unwrap().issued_supply() == initial_supply,
{
    state.create_token(
        creator,
        name,
        symbol,
        decimals,
        initial_supply,
        metadata_uri,
        fee_payment,
        token_address,
        created_at,
    )->Ok_0
}

/// Supply conservation: across every sequence of operations a token keeps
/// its record, what was issued of it stays what is left plus what was
/// burned, and what was burned never shrinks.
pub proof fn lemma_supply_is_conserved(
    state: State,
    ops: Seq<Operation>,
    token_address: Seq<char>,
)
    requires
        state.consistent(),
        state.token_of(token_address) is Some,
    ensures
        state.run(ops).token_of(token_address) is Some,
        state.run(ops).token_of(token_address).unwrap().issued_supply() == state.token_of(
            token_address,
        ).unwrap().issued_supply(),
        state.run(ops).token_of(token_address).unwrap().total_burned >= state.token_of(
            token_address,
        ).unwrap().total_burned,
        state.run(ops).token_of(token_address).unwrap().total_supply >= 0,
{
    lemma_run_keeps_consistent(state, ops);
    assert(state.tokens_by_address.contains_key(token_address));
    let later = state.run(ops);
    assert(later.tokens_by_address.contains_key(token_address));
    let index = lemma_identity_has_position(later, token_address);
    assert(later.tokens[index].well_formed());
}

/// Monotonic counters: across every sequence of operations the count of
/// tokens never decreases, and neither does the count of burns of any
/// token.
pub proof fn lemma_counters_never_decrease(
    state: State,
    ops: Seq<Operation>,
    token_address: Seq<char>,
)
    requires
        state.consistent(),
    ensures
        state.run(ops).count() >= state.count(),
        state.token_of(token_address) is Some ==> state.run(ops).token_of(token_address) is Some
            && state.run(ops).token_of(token_address).unwrap().burn_count >= state.token_of(
            token_address,
        ).unwrap().burn_count,
{
    lemma_run_keeps_consistent(state, ops);
    if state.token_of(token_address) is Some {
        assert(state.tokens_by_address.contains_key(token_address));
    }
}

/// A metadata URI is written once: across every sequence of operations a
/// record that has one keeps it.
pub proof fn lemma_metadata_is_final(state: State, ops: Seq<Operation>, token_address: Seq<char>)
    requires
        state.consistent(),
        state.token_of(token_address) is Some,
        state.token_of(token_address).unwrap().metadata_uri is Some,
    ensures
        state.run(ops).token_of(token_address) is Some,
        state.run(ops).token_of(token_address).unwrap().metadata_uri == state.token_of(
            token_address,
        ).unwrap().metadata_uri,
{
    lemma_run_keeps_consistent(state, ops);
    assert(state.tokens_by_address.contains_key(token_address));
}

/// The configuration is created once: across every sequence of operations
/// an initialized factory stays initialized, with the administrator and the
/// treasury it was given and with no negative fee.
pub proof fn lemma_configuration_is_kept(state: State, ops: Seq<Operation>)
    requires
        state.consistent(),
        state.initialized(),
    ensures
        state.run(ops).initialized(),
        state.run(ops).admin == state.admin,
        state.run(ops).treasury == state.treasury,
        state.run(ops).base_fee.unwrap() >= 0,
        state.run(ops).metadata_fee.unwrap() >= 0,
{
    lemma_run_keeps_consistent(state, ops);
}

/// The sum of the amounts.
pub open spec fn total_of(amounts: Seq<i128>) -> int
    decreases amounts.len(),
{
    if amounts.len() == 0 {
        0
    } else {
        amounts[0] + total_of(amounts.drop_first())
    }
}

/// A batch of burns that is accepted takes the sum of its amounts from what
/// is left of the supply, adds it to what was burned, and counts one burn
/// for each amount.
pub proof fn lemma_batch_totals(state: State, token_address: Seq<char>, amounts: Seq<i128>)
    requires
        state.token_of(token_address) is Some,
        state.burn_batch(token_address, amounts) is Ok,
    ensures
        ({
            let before = state.token_of(token_address).unwrap();
            let after = state.burn_batch(token_address, amounts)->Ok_0.token_of(token_address);
            &&& after is Some
            &&& after.unwrap().total_supply == before.total_supply - total_of(amounts)
            &&& after.unwrap().total_burned == before.total_burned + total_of(amounts)
            &&& after.unwrap().burn_count == before.burn_count + amounts.len()
        }),
    decreases amounts.len(),
{
    if amounts.len() > 0 {
        let next = state.burn(token_address, amounts[0])->Ok_0;
        lemma_batch_totals(next, token_address, amounts.drop_first());
    }
}

/// A burn does to the counters what a change of the supply by the negated
/// amount does, wherever the amount is positive and within the supply.
pub proof fn lemma_burn_is_supply_change(record: TokenRecord, amount: i128)
    requires
        0 < amount <= record.total_supply,
    ensures
        match record.supply_changed((-amount) as i128) {
            Some(next) => record.burned(amount) == Ok::<TokenRecord, Error>(next),
            None => record.burned(amount) == Err::<TokenRecord, Error>(Error::InvalidParameters),
        },
{
}

} // verus!
