//! A custodial vault whose funds sit at a keyless, program-derived address.
//!
//! Each owner gets three derived addresses: a state address holding the
//! vault record, an authority address seeded from the state address, and a
//! vault address seeded from the authority address. Value moves out of the
//! vault only under a signature that reproduces the vault's seed chain.
pub mod address;
pub mod engine;
pub mod error;
pub mod laws;
pub mod ledger;
pub mod state;

pub use address::Address;
pub use engine::{
    deposit, initialize, withdraw, DepositContext, InitializeContext, WithdrawContext,
};
pub use error::VaultError;
pub use ledger::Ledger;
pub use state::Vault;
