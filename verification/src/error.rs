//! The ways an operation can be refused.
use vstd::prelude::*;

verus! {

/// Why an operation was refused. A refused operation leaves the ledger as it found it.
#[derive(Clone, Copy, Debug, PartialEq, Eq, Structural)]
pub enum MarginfiError {
    /// The caller does not hold the authority that the operation asks for.
    Unauthorized,
    /// A configuration value lies outside the protocol's bounds.
    InvalidConfig,
    /// The oracle reference does not resolve to the account that was supplied.
    OracleResolutionFailed,
    /// The price reading is older than the bank tolerates.
    StaleOracleData,
    /// The account's realizable collateral covers its liability.
    NotBankrupt,
    /// No address could be derived from the seeds.
    DerivationExhausted,
    /// A group is already recorded under the identifier.
    GroupAlreadyExists,
    /// No group is recorded under the identifier.
    GroupNotFound,
    /// A bank is already recorded under the identifier.
    BankAlreadyExists,
    /// No bank of the group is recorded under the identifier.
    BankNotFound,
    /// The mint's decimals or token program are not ones the protocol works with.
    UnsupportedMint,
    /// The mint's token program needs the mint account for a transfer and it was not supplied.
    MintAccountMissing,
    /// An amount left the range of its machine integer.
    MathError,
}

} // verus!
