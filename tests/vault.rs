use vault_program::address::verify_address;
use vault_program::engine::{
    auth_seed, check_accounts, new_record, state_seed, vault_seed, vault_signer_seeds,
};
use vault_program::{
    deposit, initialize, withdraw, Address, DepositContext, InitializeContext, Ledger, VaultError,
    WithdrawContext,
};

struct Accounts {
    owner: Address,
    state: Address,
    auth: Address,
    vault: Address,
}

fn program() -> Address {
    Address::new([9u8; 32])
}

fn accounts_of(program: &Address, owner: Address) -> Accounts {
    let (state, _) = vault_program::address::derive(program, &state_seed(), &owner).unwrap();
    let (auth, _) = vault_program::address::derive(program, &auth_seed(), &state).unwrap();
    let (vault, _) = vault_program::address::derive(program, &vault_seed(), &auth).unwrap();
    Accounts { owner, state, auth, vault }
}

fn init_ctx(a: &Accounts) -> InitializeContext {
    InitializeContext { owner: a.owner, state: a.state, vault: a.vault, auth: a.auth }
}

fn deposit_ctx(a: &Accounts) -> DepositContext {
    DepositContext { owner: a.owner, auth: a.auth, state: a.state, vault: a.vault }
}

fn withdraw_ctx(a: &Accounts) -> WithdrawContext {
    WithdrawContext { state: a.state, vault: a.vault, owner: a.owner, auth: a.auth }
}

fn funded_ledger(owner: &Address, lamports: u64) -> Ledger {
    let mut ledger = Ledger::new(program());
    ledger.airdrop(owner, lamports).unwrap();
    ledger
}

#[test]
fn alice_deposits_and_withdraws() {
    let alice = accounts_of(&program(), Address::new([1u8; 32]));
    let mut ledger = funded_ledger(&alice.owner, 1000);
    assert_eq!(initialize(&mut ledger, &init_ctx(&alice)), Ok(()));
    assert_eq!(deposit(&mut ledger, &deposit_ctx(&alice), 100), Ok(()));
    assert_eq!(withdraw(&mut ledger, &withdraw_ctx(&alice), 40), Ok(()));
    assert_eq!(ledger.balance(&alice.vault), 60);
    assert_eq!(ledger.balance(&alice.owner), 940);
    assert_eq!(
        withdraw(&mut ledger, &withdraw_ctx(&alice), 1000),
        Err(VaultError::InsufficientFunds)
    );
    assert_eq!(ledger.balance(&alice.vault), 60);
    assert_eq!(ledger.balance(&alice.owner), 940);
}

#[test]
fn deposit_before_create_is_not_found() {
    let bob = accounts_of(&program(), Address::new([2u8; 32]));
    let mut ledger = funded_ledger(&bob.owner, 500);
    assert_eq!(deposit(&mut ledger, &deposit_ctx(&bob), 50), Err(VaultError::NotFound));
    assert_eq!(ledger.balance(&bob.owner), 500);
    assert_eq!(ledger.balance(&bob.vault), 0);
}

#[test]
fn create_twice_fails_and_keeps_record() {
    let carol = accounts_of(&program(), Address::new([3u8; 32]));
    let mut ledger = funded_ledger(&carol.owner, 10);
    assert_eq!(initialize(&mut ledger, &init_ctx(&carol)), Ok(()));
    let first = ledger.record(&carol.state).unwrap();
    assert_eq!(initialize(&mut ledger, &init_ctx(&carol)), Err(VaultError::AlreadyExists));
    let second = ledger.record(&carol.state).unwrap();
    assert_eq!(first.owner.bytes, second.owner.bytes);
    assert_eq!(first.state_bump, second.state_bump);
    assert_eq!(first.auth_bump, second.auth_bump);
    assert_eq!(first.vault_bump, second.vault_bump);
}

#[test]
fn derivation_is_deterministic() {
    let owner = Address::new([4u8; 32]);
    let (a1, b1) = vault_program::address::derive(&program(), &state_seed(), &owner).unwrap();
    let (a2, b2) = vault_program::address::derive(&program(), &state_seed(), &owner).unwrap();
    assert_eq!(a1.bytes, a2.bytes);
    assert_eq!(b1, b2);
    assert!(b1 >= 1);
    assert_ne!(a1.bytes, owner.bytes);
    assert_eq!(verify_address(&program(), &state_seed(), &owner, b1, &a1), Ok(()));
}

#[test]
fn derivation_depends_on_tag_key_and_program() {
    let owner = Address::new([4u8; 32]);
    let (state, _) = vault_program::address::derive(&program(), &state_seed(), &owner).unwrap();
    let (other_tag, _) = vault_program::address::derive(&program(), &vault_seed(), &owner).unwrap();
    let (other_key, _) = vault_program::address::derive(&program(), &state_seed(), &Address::new([5u8; 32])).unwrap();
    let (other_program, _) = vault_program::address::derive(&Address::new([8u8; 32]), &state_seed(), &owner).unwrap();
    assert_ne!(state.bytes, other_tag.bytes);
    assert_ne!(state.bytes, other_key.bytes);
    assert_ne!(state.bytes, other_program.bytes);
}

#[test]
fn stored_bumps_reproduce_the_chain() {
    let dave = accounts_of(&program(), Address::new([6u8; 32]));
    let mut ledger = funded_ledger(&dave.owner, 10);
    initialize(&mut ledger, &init_ctx(&dave)).unwrap();
    let record = ledger.record(&dave.state).unwrap();
    assert_eq!(record.owner.bytes, dave.owner.bytes);
    let p = program();
    assert_eq!(verify_address(&p, &state_seed(), &dave.owner, record.state_bump, &dave.state), Ok(()));
    assert_eq!(verify_address(&p, &auth_seed(), &dave.state, record.auth_bump, &dave.auth), Ok(()));
    assert_eq!(verify_address(&p, &vault_seed(), &dave.auth, record.vault_bump, &dave.vault), Ok(()));
    let (_, sb) = vault_program::address::derive(&p, &state_seed(), &dave.owner).unwrap();
    let (_, ab) = vault_program::address::derive(&p, &auth_seed(), &dave.state).unwrap();
    let (_, vb) = vault_program::address::derive(&p, &vault_seed(), &dave.auth).unwrap();
    assert_eq!((record.state_bump, record.auth_bump, record.vault_bump), (sb, ab, vb));
}

#[test]
fn balance_follows_deposits_minus_withdrawals() {
    let erin = accounts_of(&program(), Address::new([7u8; 32]));
    let mut ledger = funded_ledger(&erin.owner, 300);
    initialize(&mut ledger, &init_ctx(&erin)).unwrap();
    assert_eq!(deposit(&mut ledger, &deposit_ctx(&erin), 120), Ok(()));
    assert_eq!(deposit(&mut ledger, &deposit_ctx(&erin), 80), Ok(()));
    assert_eq!(withdraw(&mut ledger, &withdraw_ctx(&erin), 50), Ok(()));
    assert_eq!(withdraw(&mut ledger, &withdraw_ctx(&erin), 151), Err(VaultError::InsufficientFunds));
    assert_eq!(deposit(&mut ledger, &deposit_ctx(&erin), 1000), Err(VaultError::InsufficientFunds));
    assert_eq!(withdraw(&mut ledger, &withdraw_ctx(&erin), 150), Ok(()));
    assert_eq!(ledger.balance(&erin.vault), 0);
    assert_eq!(ledger.balance(&erin.owner), 300);
}

#[test]
fn withdraw_with_wrong_addresses_fails() {
    let frank = accounts_of(&program(), Address::new([10u8; 32]));
    let mut ledger = funded_ledger(&frank.owner, 100);
    initialize(&mut ledger, &init_ctx(&frank)).unwrap();
    deposit(&mut ledger, &deposit_ctx(&frank), 100).unwrap();

    let mut wrong_vault = withdraw_ctx(&frank);
    wrong_vault.vault = Address::new([11u8; 32]);
    assert_eq!(withdraw(&mut ledger, &wrong_vault, 10), Err(VaultError::InvalidAddress));

    let mut wrong_auth = withdraw_ctx(&frank);
    wrong_auth.auth = frank.vault;
    assert!(withdraw(&mut ledger, &wrong_auth, 10).is_err());

    let thief = Address::new([12u8; 32]);
    let mut wrong_owner = withdraw_ctx(&frank);
    wrong_owner.owner = thief;
    assert_eq!(withdraw(&mut ledger, &wrong_owner, 10), Err(VaultError::InvalidAddress));

    let mut unknown_state = withdraw_ctx(&frank);
    unknown_state.state = frank.auth;
    assert_eq!(withdraw(&mut ledger, &unknown_state, 10), Err(VaultError::NotFound));

    assert_eq!(ledger.balance(&frank.vault), 100);
    assert_eq!(ledger.balance(&thief), 0);
}

#[test]
fn wrong_bump_does_not_verify() {
    let owner = Address::new([13u8; 32]);
    let (state, bump) = vault_program::address::derive(&program(), &state_seed(), &owner).unwrap();
    let other = bump.wrapping_sub(1);
    let r = verify_address(&program(), &state_seed(), &owner, other, &state);
    assert!(r == Err(VaultError::InvalidAddress) || r == Err(VaultError::BumpMismatch));
}

#[test]
fn initialize_with_wrong_address_fails() {
    let gail = accounts_of(&program(), Address::new([14u8; 32]));
    let mut ledger = funded_ledger(&gail.owner, 10);
    let mut ctx = init_ctx(&gail);
    ctx.vault = gail.auth;
    assert_eq!(initialize(&mut ledger, &ctx), Err(VaultError::InvalidAddress));
    assert!(ledger.record(&gail.state).is_none());
}

#[test]
fn zero_amounts_are_accepted() {
    let hank = accounts_of(&program(), Address::new([15u8; 32]));
    let mut ledger = funded_ledger(&hank.owner, 10);
    initialize(&mut ledger, &init_ctx(&hank)).unwrap();
    assert_eq!(deposit(&mut ledger, &deposit_ctx(&hank), 0), Ok(()));
    assert_eq!(withdraw(&mut ledger, &withdraw_ctx(&hank), 0), Ok(()));
    assert_eq!(ledger.balance(&hank.owner), 10);
    assert_eq!(ledger.balance(&hank.vault), 0);
}

#[test]
fn overlong_seed_exhausts_the_search() {
    let key = Address::new([16u8; 32]);
    let tag = vec![1u8; 40];
    assert!(matches!(vault_program::address::derive(&program(), &tag, &key), Err(VaultError::DerivationExhausted)));
    assert_eq!(
        verify_address(&program(), &tag, &key, 255, &key),
        Err(VaultError::BumpMismatch)
    );
}

#[test]
fn signed_transfer_needs_the_right_seeds() {
    let ivy = accounts_of(&program(), Address::new([17u8; 32]));
    let mut ledger = funded_ledger(&ivy.owner, 10);
    initialize(&mut ledger, &init_ctx(&ivy)).unwrap();
    deposit(&mut ledger, &deposit_ctx(&ivy), 10).unwrap();
    let record = ledger.record(&ivy.state).unwrap();
    let wrong = vec![vault_seed(), ivy.state.bytes.to_vec(), vec![record.auth_bump]];
    assert_eq!(
        ledger.transfer_signed(&ivy.vault, &ivy.owner, 5, &wrong),
        Err(VaultError::Unauthorized)
    );
    let right = vec![vault_seed(), ivy.auth.bytes.to_vec(), vec![record.vault_bump]];
    assert_eq!(ledger.transfer_signed(&ivy.vault, &ivy.owner, 5, &right), Ok(()));
    assert_eq!(ledger.balance(&ivy.vault), 5);
}

#[test]
fn airdrop_overflow_is_refused() {
    let key = Address::new([18u8; 32]);
    let mut ledger = funded_ledger(&key, u64::MAX);
    assert_eq!(ledger.airdrop(&key, 1), Err(VaultError::BalanceOverflow));
    assert_eq!(ledger.balance(&key), u64::MAX);
}

#[test]
fn deposit_overflow_is_refused() {
    let jo = accounts_of(&program(), Address::new([19u8; 32]));
    let mut ledger = funded_ledger(&jo.owner, 10);
    initialize(&mut ledger, &init_ctx(&jo)).unwrap();
    ledger.airdrop(&jo.vault, u64::MAX).unwrap();
    assert_eq!(deposit(&mut ledger, &deposit_ctx(&jo), 1), Err(VaultError::BalanceOverflow));
    assert_eq!(ledger.balance(&jo.owner), 10);
}

#[test]
fn address_equality_is_bytewise() {
    let a = Address::new([20u8; 32]);
    let mut bytes = [20u8; 32];
    assert!(a.equals(&Address::new(bytes)));
    bytes[31] = 21;
    assert!(!a.equals(&Address::new(bytes)));
    assert_eq!(a.to_vec(), vec![20u8; 32]);
}

#[test]
fn new_record_takes_the_canonical_bumps() {
    let p = program();
    let kim = accounts_of(&p, Address::new([21u8; 32]));
    let record = new_record(&p, &kim.owner, &kim.state, &kim.auth, &kim.vault).unwrap();
    let (_, sb) = vault_program::address::derive(&p, &state_seed(), &kim.owner).unwrap();
    let (_, ab) = vault_program::address::derive(&p, &auth_seed(), &kim.state).unwrap();
    let (_, vb) = vault_program::address::derive(&p, &vault_seed(), &kim.auth).unwrap();
    assert_eq!(record.owner.bytes, kim.owner.bytes);
    assert_eq!((record.state_bump, record.auth_bump, record.vault_bump), (sb, ab, vb));
    assert!(matches!(
        new_record(&p, &kim.owner, &kim.auth, &kim.auth, &kim.vault),
        Err(VaultError::InvalidAddress)
    ));
}

#[test]
fn tampered_record_fails_the_account_check() {
    let p = program();
    let lee = accounts_of(&p, Address::new([22u8; 32]));
    let record = new_record(&p, &lee.owner, &lee.state, &lee.auth, &lee.vault).unwrap();
    assert_eq!(check_accounts(&p, &record, &lee.owner, &lee.state, &lee.auth, &lee.vault), Ok(()));
    let mut bad_bump = record;
    bad_bump.vault_bump = record.vault_bump.wrapping_sub(1);
    assert!(check_accounts(&p, &bad_bump, &lee.owner, &lee.state, &lee.auth, &lee.vault).is_err());
    let mut bad_owner = record;
    bad_owner.owner = Address::new([23u8; 32]);
    assert_eq!(
        check_accounts(&p, &bad_owner, &lee.owner, &lee.state, &lee.auth, &lee.vault),
        Err(VaultError::InvalidAddress)
    );
}

#[test]
fn signer_seeds_are_tag_authority_and_bump() {
    let auth = Address::new([24u8; 32]);
    let seeds = vault_signer_seeds(&auth, 253);
    assert_eq!(seeds, vec![b"vault".to_vec(), vec![24u8; 32], vec![253u8]]);
    assert_eq!(state_seed(), b"state".to_vec());
    assert_eq!(auth_seed(), b"auth".to_vec());
}
