//! The failures that an operation can end in.

use vstd::prelude::*;

verus! {

/// Why a request was not authorized.
#[derive(Clone, Copy, Debug, PartialEq, Eq)]
pub enum Denial {
    /// An account that had to co-sign the transaction did not.
    MissingSigner,
    /// A storage account is not under this program's authority.
    ForeignOwner,
    /// The signer is not the administrator recorded in the vault.
    NotAdmin,
}

/// The ways in which an operation is rejected. A rejected operation changes nothing.
#[derive(Clone, Copy, Debug, PartialEq, Eq)]
pub enum VaultError {
    /// The instruction is empty, its opcode is unknown, or its payload does not
    /// have the shape that the operation expects.
    MalformedInstruction,
    /// A signer is missing, a signer is not the recorded administrator, or an
    /// account is not under this program's authority.
    NotAuthorized(Denial),
    /// The move would take a balance below its reserve floor.
    InsufficientFunds,
    /// The account list is shorter than the operation needs.
    NotEnoughAccounts,
    /// The bytes held by a storage account are not a vault record.
    CorruptRecord,
    /// The storage account is too small for the record.
    RecordTooLarge,
    /// A balance would leave the range of an unsigned 64-bit number.
    ArithmeticOverflow,
}

/// The bytes are not the encoding of any value of the expected shape.
#[derive(Clone, Copy, Debug, PartialEq, Eq)]
pub struct DecodeError;

} // verus!
