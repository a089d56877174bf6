//! The errors the operations report, structured so a caller can tell a
//! validation failure from an authorization failure from a bookkeeping
//! failure.

use vstd::prelude::*;

verus! {

/// Why an operation was refused.
#[derive(Clone, Copy, Debug, PartialEq, Eq, Structural)]
pub enum TokenError {
    /// A metadata field exceeds the registry's length limit.
    MetadataTooLong,
    /// No counter yields an address off the signing curve for the seed label.
    DerivationFailed,
    /// The asset class has not been initialized.
    UnknownAssetClass,
    /// The vault has not been initialized.
    UnknownVault,
    /// The named holder has no balance record.
    UnknownHolder,
    /// The re-derived address or counter does not match the recorded
    /// authority; the operation must never proceed.
    AuthorityMismatch,
    /// Minting would push the total supply past the largest representable
    /// amount.
    SupplyOverflow,
    /// The paying account holds less than the requested amount.
    InsufficientFunds,
}

} // verus!
