//! The keyed store behind the registry: five scalars, and the token records
//! under two kinds of key, by position and by identity.
//!
//! The two kinds of key are independent here. Keeping a record the same
//! under both is the business of the operations of the factory, which write
//! through [`put_token_info`].

use crate::assoc::{
    first_match, lemma_lookup_absent, lemma_lookup_at, lemma_lookup_push, lemma_lookup_rewrite,
    lemma_lookup_update, lookup,
};
use crate::model::State;
use crate::types::{Address, DataKey, FactoryState, Key, TokenInfo, TokenRecord};
use crate::validation::apply_supply_change;
use vstd::prelude::*;

verus! {

/// A token record under one of its keys.
#[derive(Debug, PartialEq, Eq)]
struct Entry {
    key: DataKey,
    info: TokenInfo,
}

/// The store.
///
/// Two stores are equal under `==` where they hold the same entries, the
/// records in the order in which their keys were first written; stores that
/// are equal hold the same under every key.
#[derive(Debug, PartialEq, Eq)]
pub struct Storage {
    admin: Option<Address>,
    treasury: Option<Address>,
    base_fee: Option<i128>,
    metadata_fee: Option<i128>,
    token_count: Option<u32>,
    records: Vec<Entry>,
}

/// The identity behind an optional address.
pub open spec fn identity_of(address: Option<Address>) -> Option<Seq<char>> {
    match address {
        Some(a) => Some(a@),
        None => None,
    }
}

/// The record behind an optional token info.
pub open spec fn record_of(info: Option<TokenInfo>) -> Option<TokenRecord> {
    match info {
        Some(i) => Some(i@),
        None => None,
    }
}

/// The entries as pairs of the model.
spec fn pairs(records: Seq<Entry>) -> Seq<(Key, TokenRecord)> {
    Seq::new(records.len(), |i: int| (records[i].key@, records[i].info@))
}

impl View for Storage {
    type V = State;

    closed spec fn view(&self) -> State {
        State {
            admin: identity_of(self.admin),
            treasury: identity_of(self.treasury),
            base_fee: self.base_fee,
            metadata_fee: self.metadata_fee,
            token_count: self.token_count,
            tokens: Map::new(
                |index: u32| lookup(pairs(self.records@), Key::Token(index)) is Some,
                |index: u32| lookup(pairs(self.records@), Key::Token(index)).unwrap(),
            ),
            tokens_by_address: Map::new(
                |address: Seq<char>|
                    lookup(pairs(self.records@), Key::TokenByAddress(address)) is Some,
                |address: Seq<char>|
                    lookup(pairs(self.records@), Key::TokenByAddress(address)).unwrap(),
            ),
        }
    }
}

/// A copy of an optional address.
fn copy_identity(address: &Option<Address>) -> (copy: Option<Address>)
    ensures
        identity_of(copy) == identity_of(*address),
{
    match address {
        Some(a) => Some(a.clone()),
        None => None,
    }
}

impl Clone for Storage {
    fn clone(&self) -> (copy: Storage)
        ensures
            copy@ == self@,
    {
        let mut records: Vec<Entry> = Vec::new();
        let mut i: usize = 0;
        while i < self.records.len()
            invariant
                i <= self.records.len(),
                records@.len() == i,
                forall|j: int|
                    0 <= j < i ==> (#[trigger] pairs(records@)[j]) == pairs(self.records@)[j],
            decreases self.records.len() - i,
        {
            let ghost copied = pairs(records@);
            records.push(
                Entry { key: self.records[i].key.clone(), info: self.records[i].info.clone() },
            );
            proof {
                assert(pairs(records@) =~= copied.push(pairs(self.records@)[i as int]));
            }
            i += 1;
        }
        proof {
            assert(pairs(records@) =~= pairs(self.records@));
        }
        Storage {
            admin: copy_identity(&self.admin),
            treasury: copy_identity(&self.treasury),
            base_fee: self.base_fee,
            metadata_fee: self.metadata_fee,
            token_count: self.token_count,
            records,
        }
    }
}

/// Where the first entry with the key stands.
fn find(records: &Vec<Entry>, key: &DataKey) -> (position: Option<usize>)
    ensures
        match position {
            Some(i) => first_match(pairs(records@), key@, i as int),
            None => forall|j: int|
                0 <= j < records.len() ==> (#[trigger] pairs(records@)[j]).0 != key@,
        },
{
    let mut i: usize = 0;
    while i < records.len()
        invariant
            i <= records.len(),
            forall|j: int| 0 <= j < i ==> (#[trigger] pairs(records@)[j]).0 != key@,
        decreases records.len() - i,
    {
        if records[i].key.same_as(key) {
            return Some(i);
        }
        i += 1;
    }
    None
}

/// The record stored under a key.
fn read(storage: &Storage, key: &DataKey) -> (info: Option<TokenInfo>)
    ensures
        record_of(info) == lookup(pairs(storage.records@), key@),
{
    match find(&storage.records, key) {
        Some(i) => {
            proof {
                lemma_lookup_at(pairs(storage.records@), key@, i as int);
            }
            Some(storage.records[i].info.clone())
        },
        None => {
            proof {
                lemma_lookup_absent(pairs(storage.records@), key@);
            }
            None
        },
    }
}

/// Stores a record under a key, in place of what was there.
fn write(storage: &mut Storage, key: DataKey, info: TokenInfo)
    ensures
        final(storage).admin == old(storage).admin,
        final(storage).treasury == old(storage).treasury,
        final(storage).base_fee == old(storage).base_fee,
        final(storage).metadata_fee == old(storage).metadata_fee,
        final(storage).token_count == old(storage).token_count,
        forall|other: Key| #[trigger]
            lookup(pairs(final(storage).records@), other) == if other == key@ {
                Some(info@)
            } else {
                lookup(pairs(old(storage).records@), other)
            },
{
    let ghost before = pairs(storage.records@);
    let ghost k = key@;
    let ghost v = info@;
    match find(&storage.records, &key) {
        Some(i) => {
            storage.records.set(i, Entry { key, info });
            proof {
                assert(pairs(storage.records@) =~= before.update(i as int, (k, v)));
                assert forall|other: Key| #[trigger]
                    lookup(pairs(storage.records@), other) == if other == k {
                        Some(v)
                    } else {
                        lookup(before, other)
                    } by {
                    lemma_lookup_update(before, k, i as int, v, other);
                }
            }
        },
        None => {
            storage.records.push(Entry { key, info });
            proof {
                assert(pairs(storage.records@) =~= before.push((k, v)));
                assert forall|other: Key| #[trigger]
                    lookup(pairs(storage.records@), other) == if other == k {
                        Some(v)
                    } else {
                        lookup(before, other)
                    } by {
                    lemma_lookup_push(before, k, v, other);
                }
            }
        },
    }
}

impl Storage {
    /// The store that holds nothing.
    pub fn new() -> (storage: Storage)
        ensures
            storage@ == State::empty(),
    {
        let storage = Storage {
            admin: None,
            treasury: None,
            base_fee: None,
            metadata_fee: None,
            token_count: None,
            records: Vec::new(),
        };
        proof {
            assert forall|other: Key| lookup(pairs(storage.records@), other) is None by {
                lemma_lookup_absent(pairs(storage.records@), other);
            }
            assert(storage@.tokens =~= Map::<u32, TokenRecord>::empty());
            assert(storage@.tokens_by_address =~= Map::<Seq<char>, TokenRecord>::empty());
        }
        storage
    }
}

/// Whether something is stored under the key.
pub fn has(storage: &Storage, key: &DataKey) -> (present: bool)
    ensures
        present == storage@.has(key@),
{
    match key {
        DataKey::Admin => storage.admin.is_some(),
        DataKey::Treasury => storage.treasury.is_some(),
        DataKey::BaseFee => storage.base_fee.is_some(),
        DataKey::MetadataFee => storage.metadata_fee.is_some(),
        DataKey::TokenCount => storage.token_count.is_some(),
        DataKey::Token(_) => read(storage, key).is_some(),
        DataKey::TokenByAddress(_) => read(storage, key).is_some(),
    }
}

/// The administrator.
pub fn get_admin(storage: &Storage) -> (admin: Address)
    requires
        storage@.admin is Some,
    ensures
        admin@ == storage@.admin.unwrap(),
{
    storage.admin.as_ref().unwrap().clone()
}

/// Stores the administrator.
pub fn set_admin(storage: &mut Storage, admin: &Address)
    ensures
        final(storage)@ == (State { admin: Some(admin@), ..old(storage)@ }),
{
    storage.admin = Some(admin.clone());
}

/// Whether an administrator is stored.
pub fn has_admin(storage: &Storage) -> (present: bool)
    ensures
        present == (storage@.admin is Some),
{
    storage.admin.is_some()
}

/// The treasury.
pub fn get_treasury(storage: &Storage) -> (treasury: Address)
    requires
        storage@.treasury is Some,
    ensures
        treasury@ == storage@.treasury.unwrap(),
{
    storage.treasury.as_ref().unwrap().clone()
}

/// Stores the treasury.
pub fn set_treasury(storage: &mut Storage, treasury: &Address)
    ensures
        final(storage)@ == (State { treasury: Some(treasury@), ..old(storage)@ }),
{
    storage.treasury = Some(treasury.clone());
}

/// The base fee.
pub fn get_base_fee(storage: &Storage) -> (fee: i128)
    requires
        storage@.base_fee is Some,
    ensures
        fee == storage@.base_fee.unwrap(),
{
    storage.base_fee.unwrap()
}

/// Stores the base fee.
pub fn set_base_fee(storage: &mut Storage, fee: i128)
    ensures
        final(storage)@ == (State { base_fee: Some(fee), ..old(storage)@ }),
{
    storage.base_fee = Some(fee);
}

/// The metadata fee.
pub fn get_metadata_fee(storage: &Storage) -> (fee: i128)
    requires
        storage@.metadata_fee is Some,
    ensures
        fee == storage@.metadata_fee.unwrap(),
{
    storage.metadata_fee.unwrap()
}

/// Stores the metadata fee.
pub fn set_metadata_fee(storage: &mut Storage, fee: i128)
    ensures
        final(storage)@ == (State { metadata_fee: Some(fee), ..old(storage)@ }),
{
    storage.metadata_fee = Some(fee);
}

/// How many tokens were issued: zero until the first one.
pub fn get_token_count(storage: &Storage) -> (count: u32)
    ensures
        count == storage@.count(),
{
    match storage.token_count {
        Some(count) => count,
        None => 0,
    }
}

/// The record stored at a position.
pub fn get_token_info(storage: &Storage, index: u32) -> (info: Option<TokenInfo>)
    ensures
        record_of(info) == if storage@.tokens.contains_key(index) {
            Some(storage@.tokens[index])
        } else {
            None
        },
{
    read(storage, &DataKey::Token(index))
}

/// Stores a record at a position. What is stored by identity stays as it
/// is.
pub fn set_token_info(storage: &mut Storage, index: u32, info: &TokenInfo)
    ensures
        final(storage)@ == (State {
            tokens: old(storage)@.tokens.insert(index, info@),
            ..old(storage)@
        }),
{
    write(storage, DataKey::Token(index), info.clone());
    proof {
        let after = storage@;
        let before = old(storage)@;
        assert(after.tokens =~= before.tokens.insert(index, info@));
        assert(after.tokens_by_address =~= before.tokens_by_address);
    }
}

/// Counts one more token and returns the new count.
pub fn increment_token_count(storage: &mut Storage) -> (count: u32)
    requires
        old(storage)@.count() < u32::MAX,
    ensures
        count == old(storage)@.count() + 1,
        final(storage)@ == (State { token_count: Some(count), ..old(storage)@ }),
{
    let count = get_token_count(storage) + 1;
    storage.token_count = Some(count);
    count
}

/// The factory configuration.
pub fn get_factory_state(storage: &Storage) -> (state: FactoryState)
    requires
        storage@.initialized(),
    ensures
        state@ == storage@.config(),
{
    FactoryState {
        admin: get_admin(storage),
        treasury: get_treasury(storage),
        base_fee: get_base_fee(storage),
        metadata_fee: get_metadata_fee(storage),
    }
}

/// The record stored for the token with the given identity.
pub fn get_token_info_by_address(storage: &Storage, token_address: &Address) -> (info: Option<
    TokenInfo,
>)
    ensures
        record_of(info) == storage@.token_of(token_address@),
{
    read(storage, &DataKey::TokenByAddress(token_address.clone()))
}

/// Stores a record for the token with the given identity. What is stored by
/// position stays as it is.
pub fn set_token_info_by_address(storage: &mut Storage, token_address: &Address, info: &TokenInfo)
    ensures
        final(storage)@ == (State {
            tokens_by_address: old(storage)@.tokens_by_address.insert(token_address@, info@),
            ..old(storage)@
        }),
{
    write(storage, DataKey::TokenByAddress(token_address.clone()), info.clone());
    proof {
        let after = storage@;
        let before = old(storage)@;
        assert(after.tokens =~= before.tokens);
        assert(after.tokens_by_address =~= before.tokens_by_address.insert(
            token_address@,
            info@,
        ));
    }
}

/// What a change of the supply makes of the store: nothing where the token
/// is unknown or a counter would overflow, else the changed record under
/// the identity of the token.
pub open spec fn supply_updated(state: State, token_address: Seq<char>, amount_change: i128)
    -> Option<State> {
    match state.token_of(token_address) {
        None => None,
        Some(record) => match record.supply_changed(amount_change) {
            None => None,
            Some(next) => Some(
                State {
                    tokens_by_address: state.tokens_by_address.insert(token_address, next),
                    ..state
                },
            ),
        },
    }
}

/// Changes the supply of a token in the record stored by identity; a
/// negative change is counted as a burn. `None`, and nothing written, where
/// the token is unknown or a counter would overflow.
pub fn update_token_supply(storage: &mut Storage, token_address: &Address, amount_change: i128)
    -> (updated: Option<()>)
    ensures
        match supply_updated(old(storage)@, token_address@, amount_change) {
            Some(next) => updated is Some && final(storage)@ == next,
            None => updated is None && final(storage)@ == old(storage)@,
        },
{
    let info = get_token_info_by_address(storage, token_address)?;
    let changed = apply_supply_change(&info, amount_change)?;
    set_token_info_by_address(storage, token_address, &changed);
    Some(())
}

/// What rewriting the positions with `record` makes of one entry.
spec fn synced(record: TokenRecord) -> spec_fn(Key, TokenRecord) -> TokenRecord {
    |key: Key, current: TokenRecord|
        if key is Token && current.address == record.address {
            record
        } else {
            current
        }
}

/// Writes `info` to every position that holds a record of the same token.
fn sync_positions(storage: &mut Storage, info: &TokenInfo)
    ensures
        final(storage)@ == (State { tokens: old(storage)@.tokens_with(info@), ..old(storage)@ }),
{
    let ghost before = pairs(storage.records@);
    let ghost g = synced(info@);
    let mut i: usize = 0;
    while i < storage.records.len()
        invariant
            i <= storage.records.len(),
            storage.records.len() == before.len(),
            storage.admin == old(storage).admin,
            storage.treasury == old(storage).treasury,
            storage.base_fee == old(storage).base_fee,
            storage.metadata_fee == old(storage).metadata_fee,
            storage.token_count == old(storage).token_count,
            g == synced(info@),
            forall|j: int|
                0 <= j < i ==> (#[trigger] pairs(storage.records@)[j]).0 == before[j].0
                    && pairs(storage.records@)[j].1 == g(before[j].0, before[j].1),
            forall|j: int|
                i <= j < before.len() ==> (#[trigger] pairs(storage.records@)[j]) == before[j],
        decreases storage.records.len() - i,
    {
        let ghost current = pairs(storage.records@);
        proof {
            assert(current[i as int] == before[i as int]);
        }
        let is_position = match &storage.records[i].key {
            DataKey::Token(_) => true,
            _ => false,
        };
        if is_position && storage.records[i].info.address.same_as(&info.address) {
            let key = storage.records[i].key.clone();
            storage.records.set(i, Entry { key, info: info.clone() });
            proof {
                assert(pairs(storage.records@) =~= current.update(
                    i as int,
                    (before[i as int].0, info@),
                ));
            }
        }
        proof {
            let now = pairs(storage.records@);
            assert(now[i as int].0 == before[i as int].0);
            assert(now[i as int].1 == g(before[i as int].0, before[i as int].1));
            assert forall|j: int| 0 <= j < i implies (#[trigger] now[j]).0 == before[j].0
                && now[j].1 == g(before[j].0, before[j].1) by {
                assert(now[j] == current[j]);
            }
            assert forall|j: int| i < j < before.len() implies (#[trigger] now[j])
                == before[j] by {
                assert(now[j] == current[j]);
            }
        }
        i += 1;
    }
    proof {
        let after = pairs(storage.records@);
        assert forall|other: Key| #[trigger]
            lookup(after, other) == match lookup(before, other) {
                Some(v) => Some(g(other, v)),
                None => None,
            } by {
            lemma_lookup_rewrite(before, after, g, other);
        }
        assert(storage@.tokens =~= old(storage)@.tokens_with(info@));
        assert(storage@.tokens_by_address =~= old(storage)@.tokens_by_address);
    }
}

/// Stores a record for the token with the given identity, and at every
/// position that holds a record of the same token.
pub fn put_token_info(storage: &mut Storage, token_address: &Address, info: &TokenInfo)
    ensures
        final(storage)@ == old(storage)@.put_record(token_address@, info@),
{
    set_token_info_by_address(storage, token_address, info);
    sync_positions(storage, info);
}

} // verus!
