//! The checks every operation makes before it writes: fees, callers,
//! amounts, counters and fields that are written once.

use crate::model::{fee_due, valid_token_parameters, MAX_NAME_LENGTH, MAX_SYMBOL_LENGTH};
use crate::types::{copy_text, Address, Error, TokenInfo};
use vstd::prelude::*;
use vstd::string::StrSliceExecFns;

verus! {

/// The verdict of a check: `error` where `refused`, consent otherwise.
pub open spec fn verdict(refused: bool, error: Error) -> Result<(), Error> {
    if refused {
        Err(error)
    } else {
        Ok(())
    }
}

/// A fee must not be negative.
pub fn check_fee(fee: i128) -> (checked: Result<(), Error>)
    ensures
        checked == verdict(fee < 0, Error::InvalidParameters),
{
    if fee < 0 {
        Err(Error::InvalidParameters)
    } else {
        Ok(())
    }
}

/// A fee that is to replace the current one must not be negative; a fee
/// that is left as it is needs no check.
pub fn check_fee_change(fee: Option<i128>) -> (checked: Result<(), Error>)
    ensures
        checked == verdict(fee is Some && fee.unwrap() < 0, Error::InvalidParameters),
{
    match fee {
        Some(value) => check_fee(value),
        None => Ok(()),
    }
}

/// The caller must be the identity that the operation is reserved for.
pub fn check_caller(caller: &Address, required: &Address) -> (checked: Result<(), Error>)
    ensures
        checked == verdict(caller@ != required@, Error::Unauthorized),
{
    if caller.same_as(required) {
        Ok(())
    } else {
        Err(Error::Unauthorized)
    }
}

/// An amount to burn must be positive.
pub fn check_burn_amount(amount: i128) -> (checked: Result<(), Error>)
    ensures
        checked == verdict(amount <= 0, Error::InvalidBurnAmount),
{
    if amount <= 0 {
        Err(Error::InvalidBurnAmount)
    } else {
        Ok(())
    }
}

/// An amount to burn must not exceed the balance it is taken from.
pub fn check_balance(balance: i128, amount: i128) -> (checked: Result<(), Error>)
    ensures
        checked == verdict(amount > balance, Error::BurnAmountExceedsBalance),
{
    if amount > balance {
        Err(Error::BurnAmountExceedsBalance)
    } else {
        Ok(())
    }
}

/// A metadata URI can be written only where there is none.
pub fn check_metadata_unset(current: &Option<String>) -> (checked: Result<(), Error>)
    ensures
        checked == verdict(current is Some, Error::MetadataAlreadySet),
{
    match current {
        Some(_) => Err(Error::MetadataAlreadySet),
        None => Ok(()),
    }
}

/// A token needs a name and a symbol, neither empty nor longer than its
/// bound, and a positive initial supply.
pub fn check_token_parameters(name: &String, symbol: &String, initial_supply: i128) -> (checked:
    Result<(), Error>)
    ensures
        checked == verdict(
            !valid_token_parameters(name@, symbol@, initial_supply),
            Error::InvalidParameters,
        ),
{
    let name_length: usize = name.as_str().unicode_len();
    let symbol_length: usize = symbol.as_str().unicode_len();
    if name_length == 0 || name_length > MAX_NAME_LENGTH {
        Err(Error::InvalidParameters)
    } else if symbol_length == 0 || symbol_length > MAX_SYMBOL_LENGTH {
        Err(Error::InvalidParameters)
    } else if initial_supply <= 0 {
        Err(Error::InvalidParameters)
    } else {
        Ok(())
    }
}

/// What issuing a token costs, where the sum can be represented.
pub fn required_fee(base_fee: i128, metadata_fee: i128, with_metadata: bool) -> (fee: Option<i128>)
    ensures
        match fee {
            Some(value) => value == fee_due(base_fee, metadata_fee, with_metadata),
            None => !(i128::MIN <= fee_due(base_fee, metadata_fee, with_metadata) <= i128::MAX),
        },
{
    if with_metadata {
        base_fee.checked_add(metadata_fee)
    } else {
        Some(base_fee)
    }
}

/// The fee handed over must cover what issuing the token costs.
pub fn check_fee_payment(
    base_fee: i128,
    metadata_fee: i128,
    with_metadata: bool,
    fee_payment: i128,
) -> (checked: Result<(), Error>)
    ensures
        checked == verdict(
            fee_payment < fee_due(base_fee, metadata_fee, with_metadata),
            Error::InsufficientFee,
        ),
{
    match required_fee(base_fee, metadata_fee, with_metadata) {
        Some(fee) => if fee_payment < fee {
            Err(Error::InsufficientFee)
        } else {
            Ok(())
        },
        None => if base_fee < 0 {
            Ok(())
        } else {
            Err(Error::InsufficientFee)
        },
    }
}

/// The record after a burn of `amount`, or the reason why the burn is
/// refused: the amount is not positive, it exceeds what is left of the
/// supply, or a counter would overflow.
pub fn apply_burn(info: &TokenInfo, amount: i128) -> (burned: Result<TokenInfo, Error>)
    ensures
        match info@.burned(amount) {
            Ok(next) => burned is Ok && burned.unwrap()@ == next,
            Err(e) => burned is Err && burned.unwrap_err() == e,
        },
{
    if amount <= 0 {
        return Err(Error::InvalidBurnAmount);
    }
    if amount > info.total_supply {
        return Err(Error::BurnAmountExceedsBalance);
    }
    let total_burned = match info.total_burned.checked_add(amount) {
        Some(value) => value,
        None => {
            return Err(Error::InvalidParameters);
        },
    };
    let burn_count = match info.burn_count.checked_add(1) {
        Some(value) => value,
        None => {
            return Err(Error::InvalidParameters);
        },
    };
    Ok(
        TokenInfo {
            address: info.address.clone(),
            creator: info.creator.clone(),
            name: info.name.clone(),
            symbol: info.symbol.clone(),
            decimals: info.decimals,
            total_supply: info.total_supply - amount,
            total_burned,
            burn_count,
            metadata_uri: copy_text(&info.metadata_uri),
            clawback_enabled: info.clawback_enabled,
            created_at: info.created_at,
        },
    )
}

/// The record after its supply changed by `amount_change`, a negative change
/// being counted as a burn; `None` where a counter would overflow.
pub fn apply_supply_change(info: &TokenInfo, amount_change: i128) -> (changed: Option<TokenInfo>)
    ensures
        match info@.supply_changed(amount_change) {
            Some(next) => changed is Some && changed.unwrap()@ == next,
            None => changed is None,
        },
{
    let total_supply = info.total_supply.checked_add(amount_change)?;
    let mut total_burned = info.total_burned;
    let mut burn_count = info.burn_count;
    if amount_change < 0 {
        total_burned = info.total_burned.checked_sub(amount_change)?;
        burn_count = info.burn_count.checked_add(1)?;
    }
    Some(
        TokenInfo {
            address: info.address.clone(),
            creator: info.creator.clone(),
            name: info.name.clone(),
            symbol: info.symbol.clone(),
            decimals: info.decimals,
            total_supply,
            total_burned,
            burn_count,
            metadata_uri: copy_text(&info.metadata_uri),
            clawback_enabled: info.clawback_enabled,
            created_at: info.created_at,
        },
    )
}

} // verus!
