//! A custody vault controlled by deterministically derived addresses.
//!
//! An address is derived from a fixed seed label and a search counter
//! ("bump") so that it provably lies outside the signable key space: no
//! private key can exist for it.  Spending authority over the asset class
//! and over the vault is therefore proven by reproducing the derivation,
//! not by a signature.
//!
//! The crate models the ledger state that the operations touch — the asset
//! class, its descriptive metadata, the vault, and the holder balance
//! records — and verifies the four operations against that model: asset
//! class initialization, supply issuance, deposit into the vault, and
//! derivation-authorized withdrawal from it.

pub mod config;
pub mod error;
pub mod laws;
pub mod ops;
pub mod pda;
pub mod state;
