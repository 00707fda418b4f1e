//! What holds of the operations on every input.

use crate::account::AccountState;
use crate::error::{Denial, VaultError};
use crate::guard::owned_by;
use crate::lifecycle::{create_outcome, donate_outcome, overwrite_front, withdraw_outcome};
use crate::record::{
    decode_record, decode_request, encode_record, encode_request, lemma_decode_of_encode,
    lemma_with_amount, VaultRecord,
};
use crate::wire::{lemma_capacity_values, lemma_le_bytes_len, lemma_le_value_of_bytes};
use vstd::prelude::*;

verus! {

/// Encoding a valid record and decoding the result gives the record back.
pub proof fn round_trip(record: VaultRecord)
    requires
        record.valid(),
    ensures
        decode_record(encode_record(record)) == Some(record),
{
    lemma_decode_of_encode(record);
}

/// What decodes is a valid record, and the bytes it was decoded from are its
/// wire form: no two byte strings decode to the same record.
pub proof fn decoding_is_exact(bytes: Seq<u8>)
    requires
        decode_record(bytes) is Some,
    ensures
        decode_record(bytes).unwrap().valid(),
        encode_record(decode_record(bytes).unwrap()) == bytes,
{
}

/// Encoding a withdraw request and decoding the result gives the amount back.
pub proof fn request_round_trip(amount: u64)
    ensures
        decode_request(encode_request(amount)) == Some(amount),
{
    lemma_le_bytes_len(amount as nat, 8);
    lemma_capacity_values();
    lemma_le_value_of_bytes(amount as nat, 8);
}

/// Whatever amount the payload of a Create declares, the record that a
/// successful Create stores is the declared one with a tracked balance of
/// zero. It stands at the front of the storage account, and is all that the
/// account stores when the account has just the size of the record.
pub proof fn create_zeroes_tracked_amount(
    program: Seq<u8>,
    accounts: Seq<AccountState>,
    payload: Seq<u8>,
)
    requires
        create_outcome(program, accounts, payload) is Ok,
    ensures
        ({
            let after = create_outcome(program, accounts, payload).unwrap();
            let declared = decode_record(payload).unwrap();
            let stored = declared.with_amount(0);
            &&& stored.amount == 0
            &&& payload.len() <= after[0].data.len()
            &&& decode_record(after[0].data.take(payload.len() as int)) == Some(stored)
            &&& accounts[0].data.len() == payload.len() ==> decode_record(after[0].data) == Some(
                stored,
            )
        }),
{
    let after = create_outcome(program, accounts, payload).unwrap();
    let declared = decode_record(payload).unwrap();
    let stored = declared.with_amount(0);
    lemma_with_amount(declared, 0);
    lemma_decode_of_encode(stored);
    let fresh = encode_record(stored);
    assert(after[0].data == overwrite_front(accounts[0].data, fresh));
    assert(after[0].data.take(payload.len() as int) =~= fresh);
    if accounts[0].data.len() == payload.len() {
        assert(after[0].data =~= fresh);
    }
}

/// A Create that is authorized is rejected for want of funds when the storage
/// account holds less than its reserve floor.
pub proof fn create_requires_reserve(
    program: Seq<u8>,
    accounts: Seq<AccountState>,
    payload: Seq<u8>,
)
    requires
        accounts.len() >= 2,
        accounts[1].is_signer,
        owned_by(accounts[0], program),
        accounts[0].balance < accounts[0].reserve_floor,
    ensures
        create_outcome(program, accounts, payload) == Err::<Seq<AccountState>, VaultError>(
            VaultError::InsufficientFunds,
        ),
{
}

/// A Withdraw by anyone but the administrator that the vault records is
/// rejected as not authorized. When that one has signed and the storage
/// account is the program's, the reason is that it is not the administrator.
pub proof fn withdraw_needs_the_admin(
    program: Seq<u8>,
    accounts: Seq<AccountState>,
    payload: Seq<u8>,
)
    requires
        accounts.len() >= 2,
        decode_record(accounts[0].data) is Some,
        decode_record(accounts[0].data).unwrap().admin != accounts[1].key,
    ensures
        withdraw_outcome(program, accounts, payload) is Err,
        withdraw_outcome(program, accounts, payload)->Err_0 is NotAuthorized,
        accounts[1].is_signer && owned_by(accounts[0], program) ==> withdraw_outcome(
            program,
            accounts,
            payload,
        ) == Err::<Seq<AccountState>, VaultError>(VaultError::NotAuthorized(Denial::NotAdmin)),
{
}

/// A successful Withdraw takes the amount asked for off the raw balance of the
/// storage account and off the tracked balance, and adds it to the raw balance
/// of the administrator. Nothing else about the vault or the accounts changes.
pub proof fn withdraw_balance_law(program: Seq<u8>, accounts: Seq<AccountState>, payload: Seq<u8>)
    requires
        withdraw_outcome(program, accounts, payload) is Ok,
    ensures
        ({
            let after = withdraw_outcome(program, accounts, payload).unwrap();
            let amount = decode_request(payload).unwrap();
            let before = decode_record(accounts[0].data).unwrap();
            &&& after.len() == accounts.len()
            &&& after[0].balance == accounts[0].balance - amount
            &&& after[1].balance == accounts[1].balance + amount
            &&& decode_record(after[0].data) is Some
            &&& decode_record(after[0].data).unwrap().amount == before.amount - amount
            &&& decode_record(after[0].data).unwrap() == before.with_amount(
                decode_record(after[0].data).unwrap().amount,
            )
            &&& after[0] == accounts[0].with_balance(after[0].balance).with_data(after[0].data)
            &&& after[1] == accounts[1].with_balance(after[1].balance)
            &&& forall|at: int| 2 <= at < accounts.len() ==> after[at] == accounts[at]
        }),
{
    let amount = decode_request(payload).unwrap();
    let before = decode_record(accounts[0].data).unwrap();
    let left = before.with_amount((before.amount - amount) as u64);
    lemma_with_amount(before, left.amount);
    lemma_decode_of_encode(left);
}

/// A Withdraw that has passed every check of authority and shape is rejected
/// for want of funds when it asks for more than the storage account holds
/// above its reserve floor.
pub proof fn withdraw_floor_law(program: Seq<u8>, accounts: Seq<AccountState>, payload: Seq<u8>)
    requires
        accounts.len() >= 2,
        accounts[1].is_signer,
        owned_by(accounts[0], program),
        decode_record(accounts[0].data) is Some,
        decode_record(accounts[0].data).unwrap().admin == accounts[1].key,
        decode_request(payload) is Some,
        decode_request(payload).unwrap() > accounts[0].available(accounts[0].reserve_floor),
    ensures
        withdraw_outcome(program, accounts, payload) == Err::<Seq<AccountState>, VaultError>(
            VaultError::InsufficientFunds,
        ),
{
}

/// A successful Donate leaves the source account with nothing, and adds what
/// the source account held to the raw balance of the campaign account and to
/// the tracked balance. Nothing else about the vault or the accounts changes.
pub proof fn donate_sweep_law(program: Seq<u8>, accounts: Seq<AccountState>)
    requires
        donate_outcome(program, accounts) is Ok,
    ensures
        ({
            let after = donate_outcome(program, accounts).unwrap();
            let before = decode_record(accounts[0].data).unwrap();
            &&& after.len() == accounts.len()
            &&& after[1].balance == 0
            &&& after[0].balance == accounts[0].balance + accounts[1].balance
            &&& decode_record(after[0].data) is Some
            &&& decode_record(after[0].data).unwrap().amount == before.amount
                + accounts[1].balance
            &&& decode_record(after[0].data).unwrap() == before.with_amount(
                decode_record(after[0].data).unwrap().amount,
            )
            &&& after[0] == accounts[0].with_balance(after[0].balance).with_data(after[0].data)
            &&& after[1] == accounts[1].with_balance(0)
            &&& forall|at: int| 2 <= at < accounts.len() ==> after[at] == accounts[at]
        }),
{
    let before = decode_record(accounts[0].data).unwrap();
    let grown = before.with_amount((before.amount + accounts[1].balance) as u64);
    lemma_with_amount(before, grown.amount);
    lemma_decode_of_encode(grown);
}

/// Whether the tracked balance of the vault in `storage` is what the account
/// holds above its reserve floor.
pub open spec fn in_step(storage: AccountState) -> bool {
    &&& decode_record(storage.data) is Some
    &&& decode_record(storage.data).unwrap().amount == storage.available(storage.reserve_floor)
}

/// Withdraw keeps the tracked balance in step with the raw balance.
pub proof fn withdraw_keeps_step(program: Seq<u8>, accounts: Seq<AccountState>, payload: Seq<u8>)
    requires
        withdraw_outcome(program, accounts, payload) is Ok,
        in_step(accounts[0]),
    ensures
        in_step(withdraw_outcome(program, accounts, payload).unwrap()[0]),
{
    withdraw_balance_law(program, accounts, payload);
}

/// Donate keeps the tracked balance in step with the raw balance.
pub proof fn donate_keeps_step(program: Seq<u8>, accounts: Seq<AccountState>)
    requires
        donate_outcome(program, accounts) is Ok,
        in_step(accounts[0]),
    ensures
        in_step(donate_outcome(program, accounts).unwrap()[0]),
{
    donate_sweep_law(program, accounts);
}

/// A vault is in step right after Create exactly when the storage account
/// holds its reserve floor and not more, and has just the size of the record.
pub proof fn create_starts_in_step(program: Seq<u8>, accounts: Seq<AccountState>, payload: Seq<u8>)
    requires
        create_outcome(program, accounts, payload) is Ok,
        accounts[0].data.len() == payload.len(),
    ensures
        in_step(create_outcome(program, accounts, payload).unwrap()[0]) <==> accounts[0].balance
            == accounts[0].reserve_floor,
{
    create_zeroes_tracked_amount(program, accounts, payload);
}

} // verus!
