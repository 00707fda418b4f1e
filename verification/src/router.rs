//! From an instruction to the operation that it names.

use crate::account::{states, Account, AccountState};
use crate::error::VaultError;
use crate::identity::Identity;
use crate::lifecycle::{
    create_outcome, create_vault, donate, donate_outcome, withdraw, withdraw_outcome,
};
use vstd::prelude::*;

verus! {

/// The operations that an instruction can name.
#[derive(Clone, Copy, Debug, PartialEq, Eq)]
pub enum Operation {
    Create,
    Withdraw,
    Donate,
}

/// The operation that an opcode stands for, if it stands for one.
pub open spec fn operation_of(opcode: u8) -> Option<Operation> {
    if opcode == 0 {
        Some(Operation::Create)
    } else if opcode == 1 {
        Some(Operation::Withdraw)
    } else if opcode == 2 {
        Some(Operation::Donate)
    } else {
        None
    }
}

/// The operation and the payload of an instruction: its first byte names the
/// operation, the bytes after it are the payload. An empty instruction and an
/// unknown opcode are malformed.
pub open spec fn parse_instruction(data: Seq<u8>) -> Result<(Operation, Seq<u8>), VaultError> {
    if data.len() == 0 {
        Err(VaultError::MalformedInstruction)
    } else {
        match operation_of(data[0]) {
            Some(operation) => Ok((operation, data.skip(1))),
            None => Err(VaultError::MalformedInstruction),
        }
    }
}

/// What an instruction does to the accounts, or why it is rejected.
pub open spec fn process_outcome(
    program: Seq<u8>,
    accounts: Seq<AccountState>,
    data: Seq<u8>,
) -> Result<Seq<AccountState>, VaultError> {
    match parse_instruction(data) {
        Err(reason) => Err(reason),
        Ok((Operation::Create, payload)) => create_outcome(program, accounts, payload),
        Ok((Operation::Withdraw, payload)) => withdraw_outcome(program, accounts, payload),
        Ok((Operation::Donate, _)) => donate_outcome(program, accounts),
    }
}

impl Operation {
    /// The operation that `opcode` stands for.
    pub fn from_opcode(opcode: u8) -> (found: Option<Operation>)
        ensures
            found == operation_of(opcode),
    {
        if opcode == 0 {
            Some(Operation::Create)
        } else if opcode == 1 {
            Some(Operation::Withdraw)
        } else if opcode == 2 {
            Some(Operation::Donate)
        } else {
            None
        }
    }
}

/// Splits an instruction into its operation and its payload. The payload is
/// not looked at.
pub fn route(instruction_data: &[u8]) -> (res: Result<(Operation, &[u8]), VaultError>)
    ensures
        match res {
            Ok((operation, payload)) => parse_instruction(instruction_data@) == Ok::<
                (Operation, Seq<u8>),
                VaultError,
            >((operation, payload@)),
            Err(reason) => parse_instruction(instruction_data@) == Err::<
                (Operation, Seq<u8>),
                VaultError,
            >(reason),
        },
{
    if instruction_data.len() == 0 {
        return Err(VaultError::MalformedInstruction);
    }
    match Operation::from_opcode(instruction_data[0]) {
        Some(operation) => {
            let payload = &instruction_data[1..instruction_data.len()];
            assert(payload@ =~= instruction_data@.skip(1));
            Ok((operation, payload))
        },
        None => Err(VaultError::MalformedInstruction),
    }
}

/// Carries out the operation that `instruction_data` names on `accounts`.
pub fn process_instruction(
    program_id: &Identity,
    accounts: &mut Vec<Account>,
    instruction_data: &[u8],
) -> (res: Result<(), VaultError>)
    ensures
        match res {
            Ok(_) => process_outcome(program_id@, states(old(accounts)@), instruction_data@)
                == Ok::<Seq<AccountState>, VaultError>(states(final(accounts)@)),
            Err(reason) => {
                &&& process_outcome(program_id@, states(old(accounts)@), instruction_data@)
                    == Err::<Seq<AccountState>, VaultError>(reason)
                &&& final(accounts)@ == old(accounts)@
            },
        },
{
    let (operation, payload) = route(instruction_data)?;
    match operation {
        Operation::Create => create_vault(program_id, accounts, payload),
        Operation::Withdraw => withdraw(program_id, accounts, payload),
        Operation::Donate => donate(program_id, accounts, payload),
    }
}

} // verus!
