//! A fee-gated registry of token records.
//!
//! The registry is a state machine over a small keyed store: a factory
//! configuration (administrator, treasury, two fees) and an indexed, aliased
//! collection of token records. Every operation either commits all of its
//! writes or leaves the store untouched.
//!
//! The host that runs the registry authenticates callers, provisions the
//! ledger object of a new token, tells the time and publishes events; the
//! registry takes what the host found as plain values and hands back what
//! the host is to publish.

pub mod assoc;
pub mod events;
pub mod factory;
pub mod laws;
pub mod model;
pub mod storage;
pub mod types;
pub mod validation;

pub use crate::events::Event;
pub use crate::factory::TokenFactory;
pub use crate::storage::Storage;
pub use crate::types::{Address, DataKey, Error, FactoryState, TokenInfo};
