//! State-transition core of a custodial fund record kept on an account-based ledger.
//!
//! A vault is a record stored in an account of the ledger: who administers it,
//! what it is called, and how much it tracks as its balance. Three operations
//! act on it. Create stores a fresh record, Withdraw pays out to the
//! administrator, Donate sweeps another account into the vault. Each operation
//! decides whether the request is authorized and respects the reserve floor of
//! the storage account, and then changes the raw balance and the tracked
//! balance together, or changes nothing.

pub mod account;
pub mod error;
pub mod guard;
pub mod identity;
pub mod laws;
pub mod ledger;
pub mod lifecycle;
pub mod record;
pub mod router;
pub mod text;
pub mod wire;

pub use account::Account;
pub use error::{DecodeError, Denial, VaultError};
pub use identity::Identity;
pub use lifecycle::{create_vault, donate, withdraw};
pub use record::{Vault, WithdrawRequest};
pub use router::{process_instruction, route, Operation};
