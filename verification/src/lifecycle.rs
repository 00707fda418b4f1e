//! The three operations on a vault: create, withdraw, donate.
//!
//! Each operation takes the program's own identity, the accounts of the
//! transaction in the order the operation expects, and a payload. It makes its
//! checks in a fixed order and stops at the first that fails; only when all
//! have passed does it change an account. A rejected operation leaves every
//! account as it was.

use crate::account::{states, Account, AccountState};
use crate::error::{Denial, VaultError};
use crate::guard::{owned_by, require_owned_by_program, require_signer};
use crate::identity::Identity;
use crate::ledger::{sweep, sweep_outcome, transfer, transfer_outcome};
use crate::record::{
    decode_record, decode_request, encode_record, lemma_with_amount, Vault, WithdrawRequest,
};
use vstd::prelude::*;

verus! {

/// `data` with its first bytes replaced by `bytes`.
pub open spec fn overwrite_front(data: Seq<u8>, bytes: Seq<u8>) -> Seq<u8> {
    bytes + data.skip(bytes.len() as int)
}

/// What Create does to the accounts `[storage, creator]`, or why it is rejected.
///
/// The creator must have signed, the storage account must be the program's
/// and hold at least its reserve floor; the payload must be a vault record,
/// and the storage account must have room for it. The record is then stored
/// at the front of the storage account with a tracked balance of zero,
/// whatever the payload declared.
pub open spec fn create_outcome(
    program: Seq<u8>,
    accounts: Seq<AccountState>,
    payload: Seq<u8>,
) -> Result<Seq<AccountState>, VaultError> {
    if accounts.len() < 2 {
        Err(VaultError::NotEnoughAccounts)
    } else if !accounts[1].is_signer {
        Err(VaultError::NotAuthorized(Denial::MissingSigner))
    } else if !owned_by(accounts[0], program) {
        Err(VaultError::NotAuthorized(Denial::ForeignOwner))
    } else if accounts[0].balance < accounts[0].reserve_floor {
        Err(VaultError::InsufficientFunds)
    } else if decode_record(payload) is None {
        Err(VaultError::MalformedInstruction)
    } else {
        let fresh = encode_record(decode_record(payload).unwrap().with_amount(0));
        if fresh.len() > accounts[0].data.len() {
            Err(VaultError::RecordTooLarge)
        } else {
            Ok(accounts.update(0, accounts[0].with_data(overwrite_front(accounts[0].data, fresh))))
        }
    }
}

/// What Withdraw does to the accounts `[storage, creator]`, or why it is rejected.
///
/// The creator must have signed, the storage account must be the program's
/// and hold a vault record, and the creator must be that record's
/// administrator; the payload must be a withdraw request. The amount asked for
/// may exceed neither the tracked balance nor what the storage account holds
/// above its reserve floor. It then leaves the storage account, reaches the
/// creator, and is taken off the tracked balance.
pub open spec fn withdraw_outcome(
    program: Seq<u8>,
    accounts: Seq<AccountState>,
    payload: Seq<u8>,
) -> Result<Seq<AccountState>, VaultError> {
    if accounts.len() < 2 {
        Err(VaultError::NotEnoughAccounts)
    } else if !accounts[1].is_signer {
        Err(VaultError::NotAuthorized(Denial::MissingSigner))
    } else if !owned_by(accounts[0], program) {
        Err(VaultError::NotAuthorized(Denial::ForeignOwner))
    } else if decode_record(accounts[0].data) is None {
        Err(VaultError::CorruptRecord)
    } else if decode_record(accounts[0].data).unwrap().admin != accounts[1].key {
        Err(VaultError::NotAuthorized(Denial::NotAdmin))
    } else if decode_request(payload) is None {
        Err(VaultError::MalformedInstruction)
    } else {
        let vault = decode_record(accounts[0].data).unwrap();
        let amount = decode_request(payload).unwrap();
        if amount > vault.amount {
            Err(VaultError::InsufficientFunds)
        } else {
            match transfer_outcome(accounts[0], accounts[1], amount, accounts[0].reserve_floor) {
                Err(reason) => Err(reason),
                Ok((storage, creator)) => Ok(
                    accounts.update(
                        0,
                        storage.with_data(
                            encode_record(vault.with_amount((vault.amount - amount) as u64)),
                        ),
                    ).update(1, creator),
                ),
            }
        }
    }
}

/// What Donate does to the accounts `[campaign, source, initiator]`, or why it
/// is rejected.
///
/// The campaign and source accounts must be the program's, the initiator must
/// have signed, and the campaign account must hold a vault record. The whole
/// raw balance of the source account then goes to the campaign account and is
/// added to the tracked balance.
///
/// Two things about Donate are weaknesses that are known and kept. The
/// initiator only signs: the funds are those of the source account, and
/// nothing shows that whoever funded it agrees. And the source account is
/// emptied with no look at its reserve floor, so it may be left with less than
/// the runtime demands for its storage.
pub open spec fn donate_outcome(program: Seq<u8>, accounts: Seq<AccountState>) -> Result<
    Seq<AccountState>,
    VaultError,
> {
    if accounts.len() < 3 {
        Err(VaultError::NotEnoughAccounts)
    } else if !owned_by(accounts[0], program) {
        Err(VaultError::NotAuthorized(Denial::ForeignOwner))
    } else if !owned_by(accounts[1], program) {
        Err(VaultError::NotAuthorized(Denial::ForeignOwner))
    } else if !accounts[2].is_signer {
        Err(VaultError::NotAuthorized(Denial::MissingSigner))
    } else if decode_record(accounts[0].data) is None {
        Err(VaultError::CorruptRecord)
    } else {
        let vault = decode_record(accounts[0].data).unwrap();
        let delta = accounts[1].balance;
        if vault.amount + delta > u64::MAX {
            Err(VaultError::ArithmeticOverflow)
        } else {
            match sweep_outcome(accounts[1], accounts[0]) {
                Err(reason) => Err(reason),
                Ok((source, campaign)) => Ok(
                    accounts.update(
                        0,
                        campaign.with_data(
                            encode_record(vault.with_amount((vault.amount + delta) as u64)),
                        ),
                    ).update(1, source),
                ),
            }
        }
    }
}

/// Replaces the first bytes of `data` by `bytes`.
fn write_front(data: &mut Vec<u8>, bytes: &[u8])
    requires
        bytes@.len() <= old(data)@.len(),
    ensures
        final(data)@ == overwrite_front(old(data)@, bytes@),
{
    let total: usize = bytes.len();
    let mut at: usize = 0;
    while at < total
        invariant
            at <= total == bytes@.len() <= data@.len(),
            data@.len() == old(data)@.len(),
            data@ == overwrite_front(old(data)@, bytes@.subrange(0, at as int)),
        decreases total - at,
    {
        data[at] = bytes[at];
        at = at + 1;
        assert(data@ =~= overwrite_front(old(data)@, bytes@.subrange(0, at as int)));
    }
    assert(bytes@.subrange(0, total as int) =~= bytes@);
}

/// Create: stores the vault record of the payload in `accounts[0]`, with a
/// tracked balance of zero.
pub fn create_vault(program_id: &Identity, accounts: &mut Vec<Account>, payload: &[u8]) -> (res:
    Result<(), VaultError>)
    ensures
        match res {
            Ok(_) => create_outcome(program_id@, states(old(accounts)@), payload@) == Ok::<
                Seq<AccountState>,
                VaultError,
            >(states(final(accounts)@)),
            Err(reason) => {
                &&& create_outcome(program_id@, states(old(accounts)@), payload@) == Err::<
                    Seq<AccountState>,
                    VaultError,
                >(reason)
                &&& final(accounts)@ == old(accounts)@
            },
        },
{
    if accounts.len() < 2 {
        return Err(VaultError::NotEnoughAccounts);
    }
    require_signer(&accounts[1])?;
    require_owned_by_program(&accounts[0], program_id)?;
    if accounts[0].balance < accounts[0].reserve_floor {
        return Err(VaultError::InsufficientFunds);
    }
    let mut vault = match Vault::decode(payload) {
        Ok(vault) => vault,
        Err(_) => {
            return Err(VaultError::MalformedInstruction);
        },
    };
    let ghost declared = vault@;
    vault.amount = 0;
    proof {
        lemma_with_amount(declared, 0);
        assert(vault@ == declared.with_amount(0));
    }
    let fresh = match vault.encode() {
        Some(bytes) => bytes,
        None => vstd::pervasive::unreached(),
    };
    if fresh.len() > accounts[0].data.len() {
        return Err(VaultError::RecordTooLarge);
    }
    write_front(&mut accounts[0].data, fresh.as_slice());
    proof {
        let before = states(old(accounts)@);
        assert(states(accounts@) =~= before.update(
            0,
            before[0].with_data(overwrite_front(before[0].data, fresh@)),
        ));
    }
    Ok(())
}

/// Withdraw: moves the amount that the payload asks for from `accounts[0]` to
/// its administrator `accounts[1]`.
pub fn withdraw(program_id: &Identity, accounts: &mut Vec<Account>, payload: &[u8]) -> (res:
    Result<(), VaultError>)
    ensures
        match res {
            Ok(_) => withdraw_outcome(program_id@, states(old(accounts)@), payload@) == Ok::<
                Seq<AccountState>,
                VaultError,
            >(states(final(accounts)@)),
            Err(reason) => {
                &&& withdraw_outcome(program_id@, states(old(accounts)@), payload@) == Err::<
                    Seq<AccountState>,
                    VaultError,
                >(reason)
                &&& final(accounts)@ == old(accounts)@
            },
        },
{
    if accounts.len() < 2 {
        return Err(VaultError::NotEnoughAccounts);
    }
    require_signer(&accounts[1])?;
    require_owned_by_program(&accounts[0], program_id)?;
    let mut vault = match Vault::decode(accounts[0].data.as_slice()) {
        Ok(vault) => vault,
        Err(_) => {
            return Err(VaultError::CorruptRecord);
        },
    };
    if !(vault.admin == accounts[1].key) {
        return Err(VaultError::NotAuthorized(Denial::NotAdmin));
    }
    let request = match WithdrawRequest::decode(payload) {
        Ok(request) => request,
        Err(_) => {
            return Err(VaultError::MalformedInstruction);
        },
    };
    if request.amount > vault.amount {
        return Err(VaultError::InsufficientFunds);
    }
    let reserve_floor: u64 = accounts[0].reserve_floor;
    let moved = {
        let (head, tail) = accounts.as_mut_slice().split_at_mut(1);
        transfer(&mut head[0], &mut tail[0], request.amount, reserve_floor)
    };
    if let Err(reason) = moved {
        assert(accounts@ =~= old(accounts)@);
        return Err(reason);
    }
    let ghost stored = vault@;
    vault.amount = vault.amount - request.amount;
    proof {
        lemma_with_amount(stored, vault.amount);
        assert(vault@ == stored.with_amount(vault.amount));
    }
    let fresh = match vault.encode() {
        Some(bytes) => bytes,
        None => vstd::pervasive::unreached(),
    };
    write_front(&mut accounts[0].data, fresh.as_slice());
    proof {
        let before = states(old(accounts)@);
        let moved = transfer_outcome(before[0], before[1], request.amount, reserve_floor).unwrap();
        assert(overwrite_front(before[0].data, fresh@) =~= fresh@);
        assert(states(accounts@) =~= before.update(0, moved.0.with_data(fresh@)).update(
            1,
            moved.1,
        ));
    }
    Ok(())
}

/// Donate: moves the whole raw balance of `accounts[1]` to the vault in
/// `accounts[0]`. The operation has no payload; what is passed is not read.
pub fn donate(program_id: &Identity, accounts: &mut Vec<Account>, payload: &[u8]) -> (res: Result<
    (),
    VaultError,
>)
    ensures
        match res {
            Ok(_) => donate_outcome(program_id@, states(old(accounts)@)) == Ok::<
                Seq<AccountState>,
                VaultError,
            >(states(final(accounts)@)),
            Err(reason) => {
                &&& donate_outcome(program_id@, states(old(accounts)@)) == Err::<
                    Seq<AccountState>,
                    VaultError,
                >(reason)
                &&& final(accounts)@ == old(accounts)@
            },
        },
{
    if accounts.len() < 3 {
        return Err(VaultError::NotEnoughAccounts);
    }
    require_owned_by_program(&accounts[0], program_id)?;
    require_owned_by_program(&accounts[1], program_id)?;
    require_signer(&accounts[2])?;
    let mut vault = match Vault::decode(accounts[0].data.as_slice()) {
        Ok(vault) => vault,
        Err(_) => {
            return Err(VaultError::CorruptRecord);
        },
    };
    let delta: u64 = accounts[1].balance;
    if delta > u64::MAX - vault.amount {
        return Err(VaultError::ArithmeticOverflow);
    }
    let moved = {
        let (head, tail) = accounts.as_mut_slice().split_at_mut(1);
        sweep(&mut tail[0], &mut head[0])
    };
    if let Err(reason) = moved {
        assert(accounts@ =~= old(accounts)@);
        return Err(reason);
    }
    let ghost stored = vault@;
    vault.amount = vault.amount + delta;
    proof {
        lemma_with_amount(stored, vault.amount);
        assert(vault@ == stored.with_amount(vault.amount));
    }
    let fresh = match vault.encode() {
        Some(bytes) => bytes,
        None => vstd::pervasive::unreached(),
    };
    write_front(&mut accounts[0].data, fresh.as_slice());
    proof {
        let before = states(old(accounts)@);
        let moved = sweep_outcome(before[1], before[0]).unwrap();
        assert(overwrite_front(before[0].data, fresh@) =~= fresh@);
        assert(states(accounts@) =~= before.update(0, moved.1.with_data(fresh@)).update(
            1,
            moved.0,
        ));
    }
    Ok(())
}

} // verus!
