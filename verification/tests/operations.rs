use vault_core::account::keys_are_distinct;
use vault_core::guard::{require_owned_by_program, require_signer};
use vault_core::ledger::{sweep, transfer};
use vault_core::{
    create_vault, donate, process_instruction, route, withdraw, Account, Denial, Identity,
    Operation, Vault, VaultError, WithdrawRequest,
};

const FLOOR: u64 = 1_000_000;

fn program() -> Identity {
    Identity::new([7u8; 32])
}

fn admin() -> Identity {
    Identity::new([0xA1u8; 32])
}

fn vault(amount: u64) -> Vault {
    Vault {
        admin: admin(),
        name: String::from("Well"),
        description: String::from("A village well"),
        image_link: String::from("https://example.org/well.jpg"),
        amount,
    }
}

fn storage(amount: u64, balance: u64) -> Account {
    Account {
        key: Identity::new([0x51u8; 32]),
        owner: program(),
        is_signer: false,
        balance,
        reserve_floor: FLOOR,
        data: vault(amount).encode().unwrap(),
    }
}

fn empty_storage(size: usize, balance: u64) -> Account {
    Account {
        key: Identity::new([0x51u8; 32]),
        owner: program(),
        is_signer: false,
        balance,
        reserve_floor: FLOOR,
        data: vec![0xEEu8; size],
    }
}

fn source(balance: u64) -> Account {
    Account {
        key: Identity::new([0x52u8; 32]),
        owner: program(),
        is_signer: false,
        balance,
        reserve_floor: 900_000,
        data: vec![1, 2, 3],
    }
}

fn signer(key: Identity, balance: u64) -> Account {
    Account {
        key,
        owner: Identity::new([0u8; 32]),
        is_signer: true,
        balance,
        reserve_floor: 0,
        data: Vec::new(),
    }
}

fn request(amount: u64) -> Vec<u8> {
    WithdrawRequest { amount }.encode()
}

#[test]
fn route_reads_the_opcode() {
    assert_eq!(route(&[0, 9, 8]), Ok((Operation::Create, &[9u8, 8][..])));
    assert_eq!(route(&[1]), Ok((Operation::Withdraw, &[][..])));
    assert_eq!(route(&[2, 5]), Ok((Operation::Donate, &[5u8][..])));
}

#[test]
fn route_rejects_empty_and_unknown() {
    assert_eq!(route(&[]), Err(VaultError::MalformedInstruction));
    assert_eq!(route(&[3]), Err(VaultError::MalformedInstruction));
    assert_eq!(route(&[255, 0, 0]), Err(VaultError::MalformedInstruction));
}

#[test]
fn operation_from_opcode() {
    assert_eq!(Operation::from_opcode(0), Some(Operation::Create));
    assert_eq!(Operation::from_opcode(1), Some(Operation::Withdraw));
    assert_eq!(Operation::from_opcode(2), Some(Operation::Donate));
    assert_eq!(Operation::from_opcode(3), None);
}

#[test]
fn process_rejects_malformed_instruction_without_change() {
    let before = vec![storage(10, FLOOR + 10), signer(admin(), 0)];
    for data in [vec![], vec![3u8], vec![9u8, 1, 2]] {
        let mut accounts = before.clone();
        assert_eq!(
            process_instruction(&program(), &mut accounts, &data),
            Err(VaultError::MalformedInstruction)
        );
        assert_eq!(accounts, before);
    }
}

#[test]
fn require_signer_checks_the_flag() {
    let mut account = signer(admin(), 1);
    assert_eq!(require_signer(&account), Ok(()));
    account.is_signer = false;
    assert_eq!(require_signer(&account), Err(VaultError::NotAuthorized(Denial::MissingSigner)));
}

#[test]
fn require_owned_by_program_checks_the_owner() {
    let account = storage(0, FLOOR);
    assert_eq!(require_owned_by_program(&account, &program()), Ok(()));
    assert_eq!(
        require_owned_by_program(&account, &Identity::new([8u8; 32])),
        Err(VaultError::NotAuthorized(Denial::ForeignOwner))
    );
}

#[test]
fn transfer_moves_the_amount() {
    let mut from = storage(0, FLOOR + 30);
    let mut to = signer(admin(), 5);
    assert_eq!(transfer(&mut from, &mut to, 30, FLOOR), Ok(()));
    assert_eq!(from, storage(0, FLOOR));
    assert_eq!(to, signer(admin(), 35));
    assert_eq!(transfer(&mut from, &mut to, 0, FLOOR), Ok(()));
    assert_eq!(from, storage(0, FLOOR));
}

#[test]
fn transfer_respects_the_floor() {
    let mut from = storage(0, FLOOR + 30);
    let mut to = signer(admin(), 5);
    assert_eq!(transfer(&mut from, &mut to, 31, FLOOR), Err(VaultError::InsufficientFunds));
    assert_eq!(from, storage(0, FLOOR + 30));
    assert_eq!(to, signer(admin(), 5));
    let mut low = storage(0, FLOOR - 1);
    assert_eq!(transfer(&mut low, &mut to, 0, FLOOR), Err(VaultError::InsufficientFunds));
    assert_eq!(low, storage(0, FLOOR - 1));
}

#[test]
fn transfer_reports_overflow_of_the_receiver() {
    let mut from = storage(0, FLOOR + 30);
    let mut to = signer(admin(), u64::MAX - 29);
    assert_eq!(transfer(&mut from, &mut to, 30, FLOOR), Err(VaultError::ArithmeticOverflow));
    assert_eq!(from, storage(0, FLOOR + 30));
    assert_eq!(to, signer(admin(), u64::MAX - 29));
    assert_eq!(transfer(&mut from, &mut to, 29, FLOOR), Ok(()));
    assert_eq!(to.balance, u64::MAX);
}

#[test]
fn sweep_empties_the_source() {
    let mut from = source(1234);
    let mut to = storage(0, FLOOR);
    assert_eq!(sweep(&mut from, &mut to), Ok(()));
    assert_eq!(from, source(0));
    assert_eq!(to, storage(0, FLOOR + 1234));
}

#[test]
fn sweep_reports_overflow_of_the_receiver() {
    let mut from = source(2);
    let mut to = storage(0, u64::MAX - 1);
    assert_eq!(sweep(&mut from, &mut to), Err(VaultError::ArithmeticOverflow));
    assert_eq!(from, source(2));
    assert_eq!(to, storage(0, u64::MAX - 1));
}

#[test]
fn create_stores_record_at_the_front_of_larger_storage() {
    let payload = vault(77).encode().unwrap();
    let mut accounts = vec![empty_storage(payload.len() + 3, FLOOR + 9), signer(admin(), 1)];
    assert_eq!(create_vault(&program(), &mut accounts, &payload), Ok(()));
    let mut expected = vault(0).encode().unwrap();
    expected.extend_from_slice(&[0xEE, 0xEE, 0xEE]);
    assert_eq!(accounts[0].data, expected);
    assert_eq!(accounts[0].balance, FLOOR + 9);
    assert_eq!(Vault::decode(&accounts[0].data[..payload.len()]), Ok(vault(0)));
}

#[test]
fn create_checks_in_order() {
    let payload = vault(5).encode().unwrap();
    let good = vec![empty_storage(payload.len(), FLOOR), signer(admin(), 1)];

    let mut short = vec![good[0].clone()];
    assert_eq!(
        create_vault(&program(), &mut short, &payload),
        Err(VaultError::NotEnoughAccounts)
    );

    let mut unsigned = good.clone();
    unsigned[1].is_signer = false;
    unsigned[0].owner = Identity::new([8u8; 32]);
    let before = unsigned.clone();
    assert_eq!(
        create_vault(&program(), &mut unsigned, &payload),
        Err(VaultError::NotAuthorized(Denial::MissingSigner))
    );
    assert_eq!(unsigned, before);

    let mut foreign = good.clone();
    foreign[0].owner = Identity::new([8u8; 32]);
    foreign[0].balance = 0;
    let before = foreign.clone();
    assert_eq!(
        create_vault(&program(), &mut foreign, &payload),
        Err(VaultError::NotAuthorized(Denial::ForeignOwner))
    );
    assert_eq!(foreign, before);

    let mut poor = good.clone();
    poor[0].balance = FLOOR - 1;
    let before = poor.clone();
    assert_eq!(
        create_vault(&program(), &mut poor, &payload[1..]),
        Err(VaultError::InsufficientFunds)
    );
    assert_eq!(poor, before);

    let mut malformed = good.clone();
    malformed[0].data = Vec::new();
    let before = malformed.clone();
    assert_eq!(
        create_vault(&program(), &mut malformed, &payload[1..]),
        Err(VaultError::MalformedInstruction)
    );
    assert_eq!(malformed, before);

    let mut small = good.clone();
    small[0].data.pop();
    let before = small.clone();
    assert_eq!(create_vault(&program(), &mut small, &payload), Err(VaultError::RecordTooLarge));
    assert_eq!(small, before);
}

#[test]
fn withdraw_checks_in_order() {
    let good = vec![storage(150, FLOOR + 150), signer(admin(), 1)];

    let mut short = vec![good[0].clone()];
    assert_eq!(withdraw(&program(), &mut short, &request(1)), Err(VaultError::NotEnoughAccounts));

    let mut unsigned = good.clone();
    unsigned[1].is_signer = false;
    unsigned[0].owner = Identity::new([8u8; 32]);
    assert_eq!(
        withdraw(&program(), &mut unsigned, &request(1)),
        Err(VaultError::NotAuthorized(Denial::MissingSigner))
    );

    let mut foreign = good.clone();
    foreign[0].owner = Identity::new([8u8; 32]);
    foreign[0].data = vec![1, 2, 3];
    assert_eq!(
        withdraw(&program(), &mut foreign, &request(1)),
        Err(VaultError::NotAuthorized(Denial::ForeignOwner))
    );

    let mut corrupt = good.clone();
    corrupt[0].data.push(0);
    corrupt[1].key = Identity::new([0xB2u8; 32]);
    let before = corrupt.clone();
    assert_eq!(withdraw(&program(), &mut corrupt, &request(1)), Err(VaultError::CorruptRecord));
    assert_eq!(corrupt, before);

    let mut stranger = good.clone();
    stranger[1].key = Identity::new([0xB2u8; 32]);
    assert_eq!(
        withdraw(&program(), &mut stranger, &[1, 2, 3]),
        Err(VaultError::NotAuthorized(Denial::NotAdmin))
    );

    let mut malformed = good.clone();
    malformed[0].balance = 0;
    assert_eq!(
        withdraw(&program(), &mut malformed, &[1, 2, 3]),
        Err(VaultError::MalformedInstruction)
    );

    let mut over = good.clone();
    assert_eq!(withdraw(&program(), &mut over, &request(151)), Err(VaultError::InsufficientFunds));
    assert_eq!(over, good);

    let mut full = good.clone();
    full[1].balance = u64::MAX;
    let before = full.clone();
    assert_eq!(withdraw(&program(), &mut full, &request(1)), Err(VaultError::ArithmeticOverflow));
    assert_eq!(full, before);
}

#[test]
fn withdraw_is_bounded_by_the_tracked_balance() {
    let before = vec![storage(10, FLOOR + 150), signer(admin(), 1)];
    let mut accounts = before.clone();
    assert_eq!(
        withdraw(&program(), &mut accounts, &request(11)),
        Err(VaultError::InsufficientFunds)
    );
    assert_eq!(accounts, before);
    assert_eq!(withdraw(&program(), &mut accounts, &request(10)), Ok(()));
    assert_eq!(accounts, vec![storage(0, FLOOR + 140), signer(admin(), 11)]);
}

#[test]
fn withdraw_is_bounded_by_the_reserve_floor() {
    let before = vec![storage(150, FLOOR + 10), signer(admin(), 1)];
    let mut accounts = before.clone();
    assert_eq!(
        withdraw(&program(), &mut accounts, &request(11)),
        Err(VaultError::InsufficientFunds)
    );
    assert_eq!(accounts, before);
    let mut below = vec![storage(150, FLOOR - 1), signer(admin(), 1)];
    assert_eq!(withdraw(&program(), &mut below, &request(0)), Err(VaultError::InsufficientFunds));
}

#[test]
fn withdraw_everything_and_nothing() {
    let mut accounts = vec![storage(150, FLOOR + 150), signer(admin(), 1)];
    assert_eq!(withdraw(&program(), &mut accounts, &request(0)), Ok(()));
    assert_eq!(accounts, vec![storage(150, FLOOR + 150), signer(admin(), 1)]);
    assert_eq!(withdraw(&program(), &mut accounts, &request(150)), Ok(()));
    assert_eq!(accounts, vec![storage(0, FLOOR), signer(admin(), 151)]);
}

#[test]
fn withdraw_leaves_further_accounts_alone() {
    let extra = source(5);
    let mut accounts = vec![storage(150, FLOOR + 150), signer(admin(), 1), extra.clone()];
    assert_eq!(withdraw(&program(), &mut accounts, &request(50)), Ok(()));
    assert_eq!(accounts, vec![storage(100, FLOOR + 100), signer(admin(), 51), extra]);
}

#[test]
fn donate_checks_in_order() {
    let initiator = signer(Identity::new([0xB2u8; 32]), 9);
    let good = vec![storage(50, FLOOR + 50), source(1000), initiator];

    let mut short = good[..2].to_vec();
    assert_eq!(donate(&program(), &mut short, &[]), Err(VaultError::NotEnoughAccounts));

    let mut foreign_campaign = good.clone();
    foreign_campaign[0].owner = Identity::new([8u8; 32]);
    foreign_campaign[2].is_signer = false;
    assert_eq!(
        donate(&program(), &mut foreign_campaign, &[]),
        Err(VaultError::NotAuthorized(Denial::ForeignOwner))
    );

    let mut foreign_source = good.clone();
    foreign_source[1].owner = Identity::new([8u8; 32]);
    foreign_source[2].is_signer = false;
    assert_eq!(
        donate(&program(), &mut foreign_source, &[]),
        Err(VaultError::NotAuthorized(Denial::ForeignOwner))
    );

    let mut unsigned = good.clone();
    unsigned[2].is_signer = false;
    unsigned[0].data = vec![];
    let before = unsigned.clone();
    assert_eq!(
        donate(&program(), &mut unsigned, &[]),
        Err(VaultError::NotAuthorized(Denial::MissingSigner))
    );
    assert_eq!(unsigned, before);

    let mut corrupt = good.clone();
    corrupt[0].data.truncate(40);
    let before = corrupt.clone();
    assert_eq!(donate(&program(), &mut corrupt, &[]), Err(VaultError::CorruptRecord));
    assert_eq!(corrupt, before);

    let mut tracked_full = good.clone();
    tracked_full[0].data = vault(u64::MAX - 999).encode().unwrap();
    let before = tracked_full.clone();
    assert_eq!(donate(&program(), &mut tracked_full, &[]), Err(VaultError::ArithmeticOverflow));
    assert_eq!(tracked_full, before);

    let mut balance_full = good.clone();
    balance_full[0].balance = u64::MAX - 999;
    let before = balance_full.clone();
    assert_eq!(donate(&program(), &mut balance_full, &[]), Err(VaultError::ArithmeticOverflow));
    assert_eq!(balance_full, before);
}

/// Donate takes the whole balance of the source account, with no look at the
/// reserve floor of that account, and the signer need not be the one who
/// funds it. That is how the operation is defined; this test pins it down.
#[test]
fn donate_drains_source_below_its_reserve_floor() {
    let initiator = signer(Identity::new([0xB2u8; 32]), 9);
    let mut accounts = vec![storage(50, FLOOR + 50), source(900_001), initiator.clone()];
    assert_eq!(donate(&program(), &mut accounts, &[0xAA, 0xBB]), Ok(()));
    assert_eq!(accounts[1], source(0));
    assert!(accounts[1].balance < accounts[1].reserve_floor);
    assert_eq!(accounts[0], storage(900_051, FLOOR + 900_051));
    assert_eq!(accounts[2], initiator);
}

#[test]
fn donate_of_an_empty_source_changes_nothing() {
    let before =
        vec![storage(50, FLOOR + 50), source(0), signer(Identity::new([0xB2u8; 32]), 9)];
    let mut accounts = before.clone();
    assert_eq!(donate(&program(), &mut accounts, &[]), Ok(()));
    assert_eq!(accounts, before);
}

#[test]
fn tracked_balance_stays_in_step_through_a_life() {
    let payload = vault(123_456).encode().unwrap();
    let mut accounts = vec![
        empty_storage(payload.len(), FLOOR),
        signer(admin(), 0),
        source(700),
    ];
    let mut create = vec![0u8];
    create.extend_from_slice(&payload);
    assert_eq!(process_instruction(&program(), &mut accounts, &create), Ok(()));

    let mut donation = vec![accounts[0].clone(), accounts[2].clone(), accounts[1].clone()];
    assert_eq!(process_instruction(&program(), &mut donation, &[2]), Ok(()));
    accounts = vec![donation[0].clone(), donation[2].clone(), donation[1].clone()];
    let recorded = Vault::decode(&accounts[0].data).unwrap().amount;
    assert_eq!(recorded, 700);
    assert_eq!(recorded, accounts[0].balance - accounts[0].reserve_floor);

    let mut pay = vec![1u8];
    pay.extend_from_slice(&request(250));
    assert_eq!(process_instruction(&program(), &mut accounts, &pay), Ok(()));
    let recorded = Vault::decode(&accounts[0].data).unwrap().amount;
    assert_eq!(recorded, 450);
    assert_eq!(recorded, accounts[0].balance - accounts[0].reserve_floor);
    assert_eq!(accounts[1].balance, 250);
    assert_eq!(Vault::decode(&accounts[0].data).unwrap().admin, admin());
}

#[test]
fn keys_are_distinct_finds_a_key_named_twice() {
    assert!(keys_are_distinct(&Vec::new()));
    assert!(keys_are_distinct(&vec![storage(0, 0)]));
    assert!(keys_are_distinct(&vec![storage(0, 0), source(0), signer(admin(), 0)]));
    assert!(!keys_are_distinct(&vec![storage(0, 0), source(0), storage(1, 1)]));
    assert!(!keys_are_distinct(&vec![signer(admin(), 0), source(0), source(4)]));
    assert!(!keys_are_distinct(&vec![source(0), source(0)]));
}
