use vstd::prelude::*;

verus! {

/// Why a vault operation failed. A failed operation changes nothing.
#[derive(Clone, Copy, Debug, PartialEq, Eq, Structural)]
pub enum VaultError {
    /// A vault record already lives at the owner's state address.
    AlreadyExists,
    /// No vault record lives at the given state address.
    NotFound,
    /// A supplied address differs from the one that the seeds derive.
    InvalidAddress,
    /// A stored bump derives no address from its seeds.
    BumpMismatch,
    /// The paying account holds less than the amount.
    InsufficientFunds,
    /// The signing seed chain does not derive the paying account.
    Unauthorized,
    /// No bump in the search range derives an address.
    DerivationExhausted,
    /// The receiving account's balance would exceed the largest `u64`.
    BalanceOverflow,
}

} // verus!
