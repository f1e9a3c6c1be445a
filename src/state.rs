use crate::address::Address;
use vstd::prelude::*;

verus! {

/// The persisted record of one owner's vault: the owner and the three bumps
/// found when the vault was created.
#[derive(Clone, Copy, Debug)]
pub struct Vault {
    pub owner: Address,
    pub state_bump: u8,
    pub auth_bump: u8,
    pub vault_bump: u8,
}

} // verus!
