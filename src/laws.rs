use crate::address::{
    address_check, created_address, derived_as, search_from, tagged, with_bump,
    Address,
};
use crate::engine::{
    auth_tag, deposit_result, initialize_result, state_tag, validate_result, vault_tag,
    with_record, withdraw_result,
};
use crate::error::VaultError;
use crate::ledger::{after_transfer, balance_in, record_in, Entry};
use vstd::prelude::*;

verus! {

/// Where the search stops, the seeds with the bump it reports derive the
/// address it reports.
pub proof fn lemma_search_reproduces(seeds: Seq<Seq<u8>>, program: Seq<u8>, b: int)
    requires
        search_from(seeds, program, b) is Some,
    ensures
        ({
            let (a, bump) = search_from(seeds, program, b)->Some_0;
            created_address(with_bump(seeds, bump), program) == Some(a)
        }),
    decreases b,
{
    if b >= 1 {
        if created_address(with_bump(seeds, b as u8), program) is None {
            lemma_search_reproduces(seeds, program, b - 1);
        }
    }
}

/// Deriving an address is deterministic: two searches with the same tag, key
/// and program report the same address and bump, or fail alike.
pub proof fn lemma_derive_deterministic(
    program: Seq<u8>,
    tag: Seq<u8>,
    key: Seq<u8>,
    r1: Result<(Address, u8), VaultError>,
    r2: Result<(Address, u8), VaultError>,
)
    requires
        derived_as(program, tag, key, r1),
        derived_as(program, tag, key, r2),
    ensures
        r1 is Ok <==> r2 is Ok,
        r1 matches Ok(p) ==> r2 matches Ok(q) && p.0@ == q.0@ && p.1 == q.1,
        r1 matches Err(e) ==> r2 == Err::<(Address, u8), VaultError>(e),
{
}

/// The chain holds: once a vault is created, recomputing the state, authority
/// and vault addresses from the stored bumps reproduces the very addresses
/// used at creation, so the record validates.
pub proof fn lemma_chain_integrity(
    program: Seq<u8>,
    m: Map<Seq<u8>, Entry>,
    owner: Address,
    state: Seq<u8>,
    auth: Seq<u8>,
    vault: Seq<u8>,
)
    requires
        initialize_result(program, m, owner, state, auth, vault) is Ok,
    ensures
        ({
            let v = initialize_result(program, m, owner, state, auth, vault)->Ok_0;
            &&& address_check(program, state_tag(), owner@, v.state_bump, state) is Ok
            &&& address_check(program, auth_tag(), state, v.auth_bump, auth) is Ok
            &&& address_check(program, vault_tag(), auth, v.vault_bump, vault) is Ok
            &&& validate_result(program, with_record(m, state, v), owner@, state, auth, vault)
                == Ok::<_, VaultError>(v)
        }),
{
    lemma_search_reproduces(tagged(state_tag(), owner@), program, 255);
    lemma_search_reproduces(tagged(auth_tag(), state), program, 255);
    lemma_search_reproduces(tagged(vault_tag(), auth), program, 255);
}

/// A vault is created once: after a creation succeeded, the same creation
/// fails with `AlreadyExists`.
pub proof fn lemma_create_once(
    program: Seq<u8>,
    m: Map<Seq<u8>, Entry>,
    owner: Address,
    state: Seq<u8>,
    auth: Seq<u8>,
    vault: Seq<u8>,
)
    requires
        initialize_result(program, m, owner, state, auth, vault) is Ok,
    ensures
        initialize_result(
            program,
            with_record(m, state, initialize_result(program, m, owner, state, auth, vault)->Ok_0),
            owner,
            state,
            auth,
            vault,
        ) == Err::<crate::state::Vault, VaultError>(VaultError::AlreadyExists),
{
}

/// A withdrawal succeeds only where the record at `state` belongs to `owner`
/// and each stored bump, with its seed chain, derives exactly the supplied
/// address; in particular the chain that signs for the vault derives the vault.
pub proof fn lemma_withdraw_needs_seed_chain(
    program: Seq<u8>,
    m: Map<Seq<u8>, Entry>,
    owner: Seq<u8>,
    state: Seq<u8>,
    auth: Seq<u8>,
    vault: Seq<u8>,
    amount: u64,
)
    requires
        withdraw_result(program, m, owner, state, auth, vault, amount) is Ok,
    ensures
        record_in(m, state) is Some,
        ({
            let v = record_in(m, state)->Some_0;
            &&& v.owner@ == owner
            &&& created_address(with_bump(tagged(state_tag(), owner), v.state_bump), program) == Some(state)
            &&& created_address(with_bump(tagged(auth_tag(), state), v.auth_bump), program) == Some(auth)
            &&& created_address(with_bump(tagged(vault_tag(), auth), v.vault_bump), program) == Some(vault)
        }),
{
}

/// One deposit or withdrawal of a given amount.
pub enum Movement {
    Deposit(u64),
    Withdraw(u64),
}

/// The outcome of one movement on the owner's vault.
pub open spec fn movement_result(
    program: Seq<u8>,
    m: Map<Seq<u8>, Entry>,
    owner: Seq<u8>,
    state: Seq<u8>,
    auth: Seq<u8>,
    vault: Seq<u8>,
    mv: Movement,
) -> Result<(), VaultError> {
    match mv {
        Movement::Deposit(a) => deposit_result(program, m, owner, state, auth, vault, a),
        Movement::Withdraw(a) => withdraw_result(program, m, owner, state, auth, vault, a),
    }
}

/// The ledger after one movement: as `deposit` and `withdraw` leave it.
pub open spec fn after_movement(
    program: Seq<u8>,
    m: Map<Seq<u8>, Entry>,
    owner: Seq<u8>,
    state: Seq<u8>,
    auth: Seq<u8>,
    vault: Seq<u8>,
    mv: Movement,
) -> Map<Seq<u8>, Entry> {
    if movement_result(program, m, owner, state, auth, vault, mv) is Err {
        m
    } else {
        match mv {
            Movement::Deposit(a) => after_transfer(m, owner, vault, a),
            Movement::Withdraw(a) => after_transfer(m, vault, owner, a),
        }
    }
}

/// The ledger after a sequence of movements, each on the ledger the previous
/// one left.
pub open spec fn run(
    program: Seq<u8>,
    m: Map<Seq<u8>, Entry>,
    owner: Seq<u8>,
    state: Seq<u8>,
    auth: Seq<u8>,
    vault: Seq<u8>,
    mvs: Seq<Movement>,
) -> Map<Seq<u8>, Entry>
    decreases mvs.len(),
{
    if mvs.len() == 0 {
        m
    } else {
        run(
            program,
            after_movement(program, m, owner, state, auth, vault, mvs[0]),
            owner,
            state,
            auth,
            vault,
            mvs.drop_first(),
        )
    }
}

/// Deposits that succeeded minus withdrawals that succeeded, over a sequence
/// of movements.
pub open spec fn net_moved(
    program: Seq<u8>,
    m: Map<Seq<u8>, Entry>,
    owner: Seq<u8>,
    state: Seq<u8>,
    auth: Seq<u8>,
    vault: Seq<u8>,
    mvs: Seq<Movement>,
) -> int
    decreases mvs.len(),
{
    if mvs.len() == 0 {
        0
    } else {
        let step: int = if movement_result(program, m, owner, state, auth, vault, mvs[0]) is Err {
            0
        } else {
            match mvs[0] {
                Movement::Deposit(a) => a as int,
                Movement::Withdraw(a) => -(a as int),
            }
        };
        step + net_moved(
            program,
            after_movement(program, m, owner, state, auth, vault, mvs[0]),
            owner,
            state,
            auth,
            vault,
            mvs.drop_first(),
        )
    }
}

/// Value is conserved: after any sequence of deposits and withdrawals by the
/// owner, the vault holds what it held before plus what was deposited minus
/// what was withdrawn (the balance, a natural number, never goes negative).
pub proof fn lemma_conservation(
    program: Seq<u8>,
    m: Map<Seq<u8>, Entry>,
    owner: Seq<u8>,
    state: Seq<u8>,
    auth: Seq<u8>,
    vault: Seq<u8>,
    mvs: Seq<Movement>,
)
    requires
        owner != vault,
    ensures
        balance_in(run(program, m, owner, state, auth, vault, mvs), vault) == balance_in(m, vault)
            + net_moved(program, m, owner, state, auth, vault, mvs),
    decreases mvs.len(),
{
    if mvs.len() > 0 {
        let next = after_movement(program, m, owner, state, auth, vault, mvs[0]);
        lemma_conservation(program, next, owner, state, auth, vault, mvs.drop_first());
    }
}

/// A withdrawal of more than the vault holds fails with `InsufficientFunds`
/// once the record validates.
pub proof fn lemma_overdraw_refused(
    program: Seq<u8>,
    m: Map<Seq<u8>, Entry>,
    owner: Seq<u8>,
    state: Seq<u8>,
    auth: Seq<u8>,
    vault: Seq<u8>,
    amount: u64,
)
    requires
        validate_result(program, m, owner, state, auth, vault) is Ok,
        amount > balance_in(m, vault),
    ensures
        withdraw_result(program, m, owner, state, auth, vault, amount) == Err::<(), VaultError>(
            VaultError::InsufficientFunds,
        ),
{
}

} // verus!
