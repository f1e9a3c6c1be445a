use crate::address::{address_check, found_address, tagged, verify_address, with_bump, Address};
use crate::error::VaultError;
use crate::ledger::{
    after_transfer, balance_in, record_in, transfer_outcome, Entry, Ledger,
};
use crate::state::Vault;
use vstd::prelude::*;

verus! {

/// The namespace tag `b"state"`.
pub open spec fn state_tag() -> Seq<u8> {
    seq![115u8, 116u8, 97u8, 116u8, 101u8]
}

/// The namespace tag `b"auth"`.
pub open spec fn auth_tag() -> Seq<u8> {
    seq![97u8, 117u8, 116u8, 104u8]
}

/// The namespace tag `b"vault"`.
pub open spec fn vault_tag() -> Seq<u8> {
    seq![118u8, 97u8, 117u8, 108u8, 116u8]
}

pub fn state_seed() -> (r: Vec<u8>)
    ensures
        r@ == state_tag(),
{
    let r: Vec<u8> = vec![115u8, 116u8, 97u8, 116u8, 101u8];
    assert(r@ =~= state_tag());
    r
}

pub fn auth_seed() -> (r: Vec<u8>)
    ensures
        r@ == auth_tag(),
{
    let r: Vec<u8> = vec![97u8, 117u8, 116u8, 104u8];
    assert(r@ =~= auth_tag());
    r
}

pub fn vault_seed() -> (r: Vec<u8>)
    ensures
        r@ == vault_tag(),
{
    let r: Vec<u8> = vec![118u8, 97u8, 117u8, 108u8, 116u8];
    assert(r@ =~= vault_tag());
    r
}

/// The accounts that creating a vault names: the owner, who signs and pays,
/// and the three addresses that the caller believes belong to the owner.
#[derive(Clone, Copy, Debug)]
pub struct InitializeContext {
    pub owner: Address,
    pub state: Address,
    pub vault: Address,
    pub auth: Address,
}

/// The accounts that a deposit names.
#[derive(Clone, Copy, Debug)]
pub struct DepositContext {
    pub owner: Address,
    pub auth: Address,
    pub state: Address,
    pub vault: Address,
}

/// The accounts that a withdrawal names.
#[derive(Clone, Copy, Debug)]
pub struct WithdrawContext {
    pub state: Address,
    pub vault: Address,
    pub owner: Address,
    pub auth: Address,
}

/// Checks a supplied address against the canonical one that a tag and a key
/// derive; on success gives the bump.
pub open spec fn canonical_check(program: Seq<u8>, tag: Seq<u8>, key: Seq<u8>, supplied: Seq<u8>) -> Result<
    u8,
    VaultError,
> {
    match found_address(tagged(tag, key), program) {
        None => Err(VaultError::DerivationExhausted),
        Some((a, b)) => if a == supplied {
            Ok(b)
        } else {
            Err(VaultError::InvalidAddress)
        },
    }
}

/// The record for `owner`, when the supplied addresses are the canonical
/// ones; otherwise why not. The state, authority and vault addresses are
/// searched in that order, each seeded from the one before.
pub open spec fn new_record_result(
    program: Seq<u8>,
    owner: Address,
    state: Seq<u8>,
    auth: Seq<u8>,
    vault: Seq<u8>,
) -> Result<Vault, VaultError> {
    match canonical_check(program, state_tag(), owner@, state) {
        Err(e) => Err(e),
        Ok(sb) => match canonical_check(program, auth_tag(), state, auth) {
            Err(e) => Err(e),
            Ok(ab) => match canonical_check(program, vault_tag(), auth, vault) {
                Err(e) => Err(e),
                Ok(vb) => Ok(Vault { owner, state_bump: sb, auth_bump: ab, vault_bump: vb }),
            },
        },
    }
}

/// The record that creating a vault stores, or why creation fails.
pub open spec fn initialize_result(
    program: Seq<u8>,
    m: Map<Seq<u8>, Entry>,
    owner: Address,
    state: Seq<u8>,
    auth: Seq<u8>,
    vault: Seq<u8>,
) -> Result<Vault, VaultError> {
    match new_record_result(program, owner, state, auth, vault) {
        Err(e) => Err(e),
        Ok(v) => if record_in(m, state) is Some {
            Err(VaultError::AlreadyExists)
        } else {
            Ok(v)
        },
    }
}

/// The ledger after a vault record `v` was created at `state`.
pub open spec fn with_record(m: Map<Seq<u8>, Entry>, state: Seq<u8>, v: Vault) -> Map<Seq<u8>, Entry> {
    m.insert(state, (balance_in(m, state) as u64, Some(v)))
}

/// Whether record `v` belongs to `owner` and its bumps derive the three
/// supplied addresses; otherwise why not.
pub open spec fn accounts_check(
    program: Seq<u8>,
    v: Vault,
    owner: Seq<u8>,
    state: Seq<u8>,
    auth: Seq<u8>,
    vault: Seq<u8>,
) -> Result<(), VaultError> {
    if v.owner@ != owner {
        Err(VaultError::InvalidAddress)
    } else {
        match address_check(program, state_tag(), owner, v.state_bump, state) {
            Err(e) => Err(e),
            Ok(_) => match address_check(program, auth_tag(), state, v.auth_bump, auth) {
                Err(e) => Err(e),
                Ok(_) => address_check(program, vault_tag(), auth, v.vault_bump, vault),
            },
        }
    }
}

/// The record at `state`, when it passes `accounts_check`; otherwise why not.
pub open spec fn validate_result(
    program: Seq<u8>,
    m: Map<Seq<u8>, Entry>,
    owner: Seq<u8>,
    state: Seq<u8>,
    auth: Seq<u8>,
    vault: Seq<u8>,
) -> Result<Vault, VaultError> {
    match record_in(m, state) {
        None => Err(VaultError::NotFound),
        Some(v) => match accounts_check(program, v, owner, state, auth, vault) {
            Err(e) => Err(e),
            Ok(_) => Ok(v),
        },
    }
}

/// The outcome of a deposit.
pub open spec fn deposit_result(
    program: Seq<u8>,
    m: Map<Seq<u8>, Entry>,
    owner: Seq<u8>,
    state: Seq<u8>,
    auth: Seq<u8>,
    vault: Seq<u8>,
    amount: u64,
) -> Result<(), VaultError> {
    match validate_result(program, m, owner, state, auth, vault) {
        Err(e) => Err(e),
        Ok(_) => transfer_outcome(m, owner, vault, amount),
    }
}

/// The outcome of a withdrawal.
pub open spec fn withdraw_result(
    program: Seq<u8>,
    m: Map<Seq<u8>, Entry>,
    owner: Seq<u8>,
    state: Seq<u8>,
    auth: Seq<u8>,
    vault: Seq<u8>,
    amount: u64,
) -> Result<(), VaultError> {
    match validate_result(program, m, owner, state, auth, vault) {
        Err(e) => Err(e),
        Ok(_) => transfer_outcome(m, vault, owner, amount),
    }
}

fn canonical(program: &Address, tag: &Vec<u8>, key: &Address, supplied: &Address) -> (r: Result<u8, VaultError>)
    ensures
        r == canonical_check(program@, tag@, key@, supplied@),
{
    let (a, b) = crate::address::derive(program, tag, key)?;
    if a.equals(supplied) {
        Ok(b)
    } else {
        Err(VaultError::InvalidAddress)
    }
}

/// Creates the owner's vault record at the state address, with the bumps of
/// the state, authority and vault addresses, found in that order.
pub fn initialize(ledger: &mut Ledger, ctx: &InitializeContext) -> (r: Result<(), VaultError>)
    requires
        old(ledger).wf(),
    ensures
        final(ledger).wf(),
        final(ledger).program_id() == old(ledger).program_id(),
        match initialize_result(
            old(ledger).program_id(),
            old(ledger)@,
            ctx.owner,
            ctx.state@,
            ctx.auth@,
            ctx.vault@,
        ) {
            Ok(v) => r is Ok && final(ledger)@ == with_record(old(ledger)@, ctx.state@, v),
            Err(e) => r == Err::<(), VaultError>(e) && final(ledger)@ == old(ledger)@,
        },
{
    let program = ledger.program();
    let record = new_record(&program, &ctx.owner, &ctx.state, &ctx.auth, &ctx.vault)?;
    ledger.create_record(&ctx.state, record)
}

/// Builds the record for `owner` from the canonical bumps, checking that the
/// supplied addresses are the canonical ones.
pub fn new_record(program: &Address, owner: &Address, state: &Address, auth: &Address, vault: &Address) -> (r: Result<Vault, VaultError>)
    ensures
        r == new_record_result(program@, *owner, state@, auth@, vault@),
{
    let state_bump = canonical(program, &state_seed(), owner, state)?;
    let auth_bump = canonical(program, &auth_seed(), state, auth)?;
    let vault_bump = canonical(program, &vault_seed(), auth, vault)?;
    Ok(Vault { owner: *owner, state_bump, auth_bump, vault_bump })
}

/// Checks that record `v` belongs to `owner` and that its stored bumps derive
/// the supplied state, authority and vault addresses.
pub fn check_accounts(program: &Address, v: &Vault, owner: &Address, state: &Address, auth: &Address, vault: &Address) -> (r: Result<(), VaultError>)
    ensures
        r == accounts_check(program@, *v, owner@, state@, auth@, vault@),
{
    if !v.owner.equals(owner) {
        return Err(VaultError::InvalidAddress);
    }
    verify_address(program, &state_seed(), owner, v.state_bump, state)?;
    verify_address(program, &auth_seed(), state, v.auth_bump, auth)?;
    verify_address(program, &vault_seed(), auth, v.vault_bump, vault)
}

/// The seed chain that signs for the vault: the vault tag, the authority
/// address and the vault bump.
pub fn vault_signer_seeds(auth: &Address, vault_bump: u8) -> (r: Vec<Vec<u8>>)
    ensures
        r@.map_values(|s: Vec<u8>| s@) == with_bump(tagged(vault_tag(), auth@), vault_bump),
{
    let mut r: Vec<Vec<u8>> = Vec::new();
    r.push(vault_seed());
    r.push(auth.to_vec());
    let mut bump: Vec<u8> = Vec::new();
    bump.push(vault_bump);
    r.push(bump);
    assert(r@.map_values(|s: Vec<u8>| s@) =~= with_bump(tagged(vault_tag(), auth@), vault_bump));
    r
}

fn validate(ledger: &Ledger, owner: &Address, state: &Address, auth: &Address, vault: &Address) -> (r: Result<Vault, VaultError>)
    requires
        ledger.wf(),
    ensures
        r == validate_result(ledger.program_id(), ledger@, owner@, state@, auth@, vault@),
{
    let v = match ledger.record(state) {
        Some(v) => v,
        None => {
            return Err(VaultError::NotFound);
        },
    };
    check_accounts(&ledger.program(), &v, owner, state, auth, vault)?;
    Ok(v)
}

/// Moves `amount` lamports from the owner into the owner's vault.
pub fn deposit(ledger: &mut Ledger, ctx: &DepositContext, amount: u64) -> (r: Result<(), VaultError>)
    requires
        old(ledger).wf(),
    ensures
        final(ledger).wf(),
        final(ledger).program_id() == old(ledger).program_id(),
        r == deposit_result(
            old(ledger).program_id(),
            old(ledger)@,
            ctx.owner@,
            ctx.state@,
            ctx.auth@,
            ctx.vault@,
            amount,
        ),
        r is Ok ==> final(ledger)@ == after_transfer(old(ledger)@, ctx.owner@, ctx.vault@, amount),
        r is Err ==> final(ledger)@ == old(ledger)@,
{
    validate(ledger, &ctx.owner, &ctx.state, &ctx.auth, &ctx.vault)?;
    ledger.transfer(&ctx.owner, &ctx.vault, amount)
}

/// Moves `amount` lamports from the owner's vault back to the owner, signed
/// with the seed chain that derived the vault address.
pub fn withdraw(ledger: &mut Ledger, ctx: &WithdrawContext, amount: u64) -> (r: Result<(), VaultError>)
    requires
        old(ledger).wf(),
    ensures
        final(ledger).wf(),
        final(ledger).program_id() == old(ledger).program_id(),
        r == withdraw_result(
            old(ledger).program_id(),
            old(ledger)@,
            ctx.owner@,
            ctx.state@,
            ctx.auth@,
            ctx.vault@,
            amount,
        ),
        r is Ok ==> final(ledger)@ == after_transfer(old(ledger)@, ctx.vault@, ctx.owner@, amount),
        r is Err ==> final(ledger)@ == old(ledger)@,
{
    let v = validate(ledger, &ctx.owner, &ctx.state, &ctx.auth, &ctx.vault)?;
    let signer_seeds = vault_signer_seeds(&ctx.auth, v.vault_bump);
    ledger.transfer_signed(&ctx.vault, &ctx.owner, amount, &signer_seeds)
}

} // verus!
