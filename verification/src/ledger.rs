//! Moves of value between the raw balances of two accounts. A move happens
//! whole or not at all.

use crate::account::{Account, AccountState};
use crate::error::VaultError;
use vstd::prelude::*;

verus! {

/// What `transfer` does to the pair of accounts, or why it does nothing.
pub open spec fn transfer_outcome(
    from: AccountState,
    to: AccountState,
    amount: u64,
    reserve_floor: u64,
) -> Result<(AccountState, AccountState), VaultError> {
    if amount > from.available(reserve_floor) {
        Err(VaultError::InsufficientFunds)
    } else if to.balance + amount > u64::MAX {
        Err(VaultError::ArithmeticOverflow)
    } else {
        Ok(
            (
                from.with_balance((from.balance - amount) as u64),
                to.with_balance((to.balance + amount) as u64),
            ),
        )
    }
}

/// What `sweep` does to the pair of accounts, or why it does nothing.
pub open spec fn sweep_outcome(from: AccountState, to: AccountState) -> Result<
    (AccountState, AccountState),
    VaultError,
> {
    if to.balance + from.balance > u64::MAX {
        Err(VaultError::ArithmeticOverflow)
    } else {
        Ok((from.with_balance(0), to.with_balance((to.balance + from.balance) as u64)))
    }
}

/// Moves `amount` from `from` to `to`, unless that would leave `from` with
/// less than `reserve_floor` or `to` with more than a balance can hold.
pub fn transfer(from: &mut Account, to: &mut Account, amount: u64, reserve_floor: u64) -> (res:
    Result<(), VaultError>)
    ensures
        match res {
            Ok(_) => transfer_outcome(old(from)@, old(to)@, amount, reserve_floor) == Ok::<
                (AccountState, AccountState),
                VaultError,
            >((final(from)@, final(to)@)),
            Err(reason) => {
                &&& transfer_outcome(old(from)@, old(to)@, amount, reserve_floor) == Err::<
                    (AccountState, AccountState),
                    VaultError,
                >(reason)
                &&& *final(from) == *old(from)
                &&& *final(to) == *old(to)
            },
        },
{
    if from.balance < reserve_floor || from.balance - reserve_floor < amount {
        return Err(VaultError::InsufficientFunds);
    }
    if amount > u64::MAX - to.balance {
        return Err(VaultError::ArithmeticOverflow);
    }
    from.balance = from.balance - amount;
    to.balance = to.balance + amount;
    Ok(())
}

/// Moves the whole raw balance of `from` to `to` and leaves `from` with
/// nothing. No reserve floor is looked at.
pub fn sweep(from: &mut Account, to: &mut Account) -> (res: Result<(), VaultError>)
    ensures
        match res {
            Ok(_) => sweep_outcome(old(from)@, old(to)@) == Ok::<
                (AccountState, AccountState),
                VaultError,
            >((final(from)@, final(to)@)),
            Err(reason) => {
                &&& sweep_outcome(old(from)@, old(to)@) == Err::<
                    (AccountState, AccountState),
                    VaultError,
                >(reason)
                &&& *final(from) == *old(from)
                &&& *final(to) == *old(to)
            },
        },
{
    if from.balance > u64::MAX - to.balance {
        return Err(VaultError::ArithmeticOverflow);
    }
    to.balance = to.balance + from.balance;
    from.balance = 0;
    Ok(())
}

} // verus!
