use vault_core::{
    process_instruction, Account, Denial, Identity, Vault, VaultError, WithdrawRequest,
};

const FLOOR: u64 = 2_039_280;

fn program() -> Identity {
    Identity::new([7u8; 32])
}

fn admin() -> Identity {
    Identity::new([0xA1u8; 32])
}

fn sample_vault(amount: u64) -> Vault {
    Vault {
        admin: admin(),
        name: String::from("Reef fund"),
        description: String::from("Coral restoration"),
        image_link: String::from("https://example.org/reef.png"),
        amount,
    }
}

fn storage_holding(vault: &Vault, balance: u64) -> Account {
    Account {
        key: Identity::new([0x51u8; 32]),
        owner: program(),
        is_signer: false,
        balance,
        reserve_floor: FLOOR,
        data: vault.encode().unwrap(),
    }
}

fn wallet(key: Identity, balance: u64, is_signer: bool) -> Account {
    Account {
        key,
        owner: Identity::new([0u8; 32]),
        is_signer,
        balance,
        reserve_floor: 890_880,
        data: Vec::new(),
    }
}

fn instruction(opcode: u8, payload: &[u8]) -> Vec<u8> {
    let mut data = vec![opcode];
    data.extend_from_slice(payload);
    data
}

#[test]
fn create_with_declared_amount_persists_zero() {
    let declared = sample_vault(500);
    let payload = declared.encode().unwrap();
    let storage = Account {
        key: Identity::new([0x51u8; 32]),
        owner: program(),
        is_signer: false,
        balance: FLOOR,
        reserve_floor: FLOOR,
        data: vec![0u8; payload.len()],
    };
    let mut accounts = vec![storage, wallet(admin(), 10, true)];
    let res = process_instruction(&program(), &mut accounts, &instruction(0, &payload));
    assert_eq!(res, Ok(()));
    let stored = Vault::decode(&accounts[0].data).unwrap();
    assert_eq!(stored.amount, 0);
    assert_eq!(stored, sample_vault(0));
    assert_eq!(accounts[0].balance, FLOOR);
    assert_eq!(accounts[1], wallet(admin(), 10, true));
}

#[test]
fn withdraw_by_admin_within_available_succeeds() {
    let mut accounts =
        vec![storage_holding(&sample_vault(150), FLOOR + 150), wallet(admin(), 3, true)];
    let payload = WithdrawRequest { amount: 100 }.encode();
    let res = process_instruction(&program(), &mut accounts, &instruction(1, &payload));
    assert_eq!(res, Ok(()));
    assert_eq!(accounts[0].balance, FLOOR + 50);
    assert_eq!(Vault::decode(&accounts[0].data).unwrap(), sample_vault(50));
    assert_eq!(accounts[1].balance, 103);
}

#[test]
fn withdraw_beyond_available_is_insufficient_funds() {
    let before = vec![storage_holding(&sample_vault(150), FLOOR + 150), wallet(admin(), 3, true)];
    let mut accounts = before.clone();
    let payload = WithdrawRequest { amount: 200 }.encode();
    let res = process_instruction(&program(), &mut accounts, &instruction(1, &payload));
    assert_eq!(res, Err(VaultError::InsufficientFunds));
    assert_eq!(accounts, before);
}

#[test]
fn donate_sweeps_source_into_campaign() {
    let campaign = storage_holding(&sample_vault(50), FLOOR + 50);
    let source = Account {
        key: Identity::new([0x52u8; 32]),
        owner: program(),
        is_signer: false,
        balance: 1000,
        reserve_floor: 890_880,
        data: Vec::new(),
    };
    let initiator = wallet(Identity::new([0xB2u8; 32]), 77, true);
    let mut accounts = vec![campaign, source, initiator.clone()];
    let res = process_instruction(&program(), &mut accounts, &instruction(2, &[]));
    assert_eq!(res, Ok(()));
    assert_eq!(Vault::decode(&accounts[0].data).unwrap().amount, 1050);
    assert_eq!(Vault::decode(&accounts[0].data).unwrap(), sample_vault(1050));
    assert_eq!(accounts[0].balance, FLOOR + 50 + 1000);
    assert_eq!(accounts[1].balance, 0);
    assert_eq!(accounts[2], initiator);
}

#[test]
fn withdraw_by_another_signer_is_not_authorized() {
    let before = vec![
        storage_holding(&sample_vault(150), FLOOR + 150),
        wallet(Identity::new([0xB2u8; 32]), 3, true),
    ];
    let mut accounts = before.clone();
    let payload = WithdrawRequest { amount: 100 }.encode();
    let res = process_instruction(&program(), &mut accounts, &instruction(1, &payload));
    assert_eq!(res, Err(VaultError::NotAuthorized(Denial::NotAdmin)));
    assert_eq!(accounts, before);
}

#[test]
fn create_below_reserve_is_insufficient_funds() {
    let payload = sample_vault(0).encode().unwrap();
    let storage = Account {
        key: Identity::new([0x51u8; 32]),
        owner: program(),
        is_signer: false,
        balance: FLOOR - 1,
        reserve_floor: FLOOR,
        data: vec![0u8; payload.len()],
    };
    let before = vec![storage, wallet(admin(), 10, true)];
    let mut accounts = before.clone();
    let res = process_instruction(&program(), &mut accounts, &instruction(0, &payload));
    assert_eq!(res, Err(VaultError::InsufficientFunds));
    assert_eq!(accounts, before);
}
