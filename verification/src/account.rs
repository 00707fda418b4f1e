//! What the program sees of an account of the ledger.

use crate::identity::Identity;
use vstd::prelude::*;

verus! {

/// An account as the runtime hands it to the program for one transaction.
#[derive(Clone, Debug, PartialEq, Eq)]
pub struct Account {
    /// The account's own identity.
    pub key: Identity,
    /// The authority that may change the account.
    pub owner: Identity,
    /// Whether this account co-signed the transaction.
    pub is_signer: bool,
    /// The raw balance that the account holds.
    pub balance: u64,
    /// The least raw balance that the runtime demands for storage of this size.
    pub reserve_floor: u64,
    /// The bytes that the account stores.
    pub data: Vec<u8>,
}

/// An account as a mathematical value.
pub ghost struct AccountState {
    pub key: Seq<u8>,
    pub owner: Seq<u8>,
    pub is_signer: bool,
    pub balance: u64,
    pub reserve_floor: u64,
    pub data: Seq<u8>,
}

impl AccountState {
    /// The same account with another raw balance.
    pub open spec fn with_balance(self, balance: u64) -> AccountState {
        AccountState { balance, ..self }
    }

    /// The same account storing other bytes.
    pub open spec fn with_data(self, data: Seq<u8>) -> AccountState {
        AccountState { data, ..self }
    }

    /// How much of the raw balance lies above `floor`. Negative when the
    /// account is below it.
    pub open spec fn available(self, floor: u64) -> int {
        self.balance - floor
    }
}

impl View for Account {
    type V = AccountState;

    open spec fn view(&self) -> AccountState {
        AccountState {
            key: self.key@,
            owner: self.owner@,
            is_signer: self.is_signer,
            balance: self.balance,
            reserve_floor: self.reserve_floor,
            data: self.data@,
        }
    }
}

/// The accounts of a list as mathematical values, in the order of the list.
pub open spec fn states(accounts: Seq<Account>) -> Seq<AccountState> {
    Seq::new(accounts.len(), |at: int| accounts[at]@)
}

/// Whether no two accounts of the list have the same key.
pub open spec fn distinct_keys(accounts: Seq<AccountState>) -> bool {
    forall|first: int, second: int|
        #![trigger accounts[first], accounts[second]]
        0 <= first < second < accounts.len() ==> accounts[first].key != accounts[second].key
}

/// Tells whether no two accounts of the list have the same key. The
/// operations take each account of the list as a value of its own, so a list
/// that names one account twice does not stand for the accounts of a
/// transaction.
pub fn keys_are_distinct(accounts: &Vec<Account>) -> (distinct: bool)
    ensures
        distinct == distinct_keys(states(accounts@)),
{
    let total: usize = accounts.len();
    let mut second: usize = 0;
    while second < total
        invariant
            second <= total == accounts@.len(),
            distinct_keys(states(accounts@).take(second as int)),
        decreases total - second,
    {
        let mut first: usize = 0;
        while first < second
            invariant
                first <= second < total == accounts@.len(),
                forall|at: int| 0 <= at < first ==> accounts@[at].key@ != accounts@[second as int].key@,
            decreases second - first,
        {
            if accounts[first].key == accounts[second].key {
                assert(states(accounts@)[first as int].key == states(accounts@)[second as int].key);
                return false;
            }
            first = first + 1;
        }
        second = second + 1;
        assert forall|a: int, b: int|
            #![trigger states(accounts@).take(second as int)[a], states(accounts@).take(second as int)[b]]
            0 <= a < b < second implies states(accounts@).take(second as int)[a].key != states(
            accounts@,
        ).take(second as int)[b].key by {
            let sooner = states(accounts@).take(second - 1);
            if b < second - 1 {
                assert(sooner[a].key != sooner[b].key);
            }
        }
    }
    assert(states(accounts@).take(total as int) =~= states(accounts@));
    true
}

} // verus!
