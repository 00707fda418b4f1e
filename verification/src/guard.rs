//! The two authorization checks. Neither changes anything; an operation makes
//! them before it touches a balance.

use crate::account::{Account, AccountState};
use crate::error::{Denial, VaultError};
use crate::identity::Identity;
use vstd::prelude::*;

verus! {

/// Whether the account is under the authority of the program `program`.
pub open spec fn owned_by(account: AccountState, program: Seq<u8>) -> bool {
    account.owner == program
}

/// Demands that `account` co-signed the transaction.
pub fn require_signer(account: &Account) -> (res: Result<(), VaultError>)
    ensures
        res == if account.is_signer {
            Ok::<(), VaultError>(())
        } else {
            Err::<(), VaultError>(VaultError::NotAuthorized(Denial::MissingSigner))
        },
{
    if account.is_signer {
        Ok(())
    } else {
        Err(VaultError::NotAuthorized(Denial::MissingSigner))
    }
}

/// Demands that `account` is under the authority of the program `program_id`.
pub fn require_owned_by_program(account: &Account, program_id: &Identity) -> (res: Result<
    (),
    VaultError,
>)
    ensures
        res == if owned_by(account@, program_id@) {
            Ok::<(), VaultError>(())
        } else {
            Err::<(), VaultError>(VaultError::NotAuthorized(Denial::ForeignOwner))
        },
{
    if account.owner == *program_id {
        Ok(())
    } else {
        Err(VaultError::NotAuthorized(Denial::ForeignOwner))
    }
}

} // verus!
