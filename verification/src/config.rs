//! Deployment configuration: the fixed seed labels that identify the two
//! derived authorities, and the length limits the metadata registry imposes.

use vstd::prelude::*;

verus! {

/// Longest name the metadata registry accepts.
pub const MAX_NAME_LEN: usize = 32;

/// Longest symbol the metadata registry accepts.
pub const MAX_SYMBOL_LEN: usize = 10;

/// Longest URI the metadata registry accepts.
pub const MAX_URI_LEN: usize = 200;

/// The seed label of the asset class's minting authority: the bytes of
/// `"mint"`.
pub open spec fn mint_label() -> Seq<u8> {
    seq![109u8, 105u8, 110u8, 116u8]
}

/// The seed label of the vault's owning authority: the bytes of `"vault"`.
pub open spec fn vault_label() -> Seq<u8> {
    seq![118u8, 97u8, 117u8, 108u8, 116u8]
}

/// The minting-authority seed label as bytes.
pub fn mint_label_bytes() -> (r: Vec<u8>)
    ensures
        r@ == mint_label(),
{
    let mut v: Vec<u8> = Vec::new();
    v.push(109);
    v.push(105);
    v.push(110);
    v.push(116);
    proof {
        assert(v@ =~= mint_label());
    }
    v
}

/// The vault-owner seed label as bytes.
pub fn vault_label_bytes() -> (r: Vec<u8>)
    ensures
        r@ == vault_label(),
{
    let mut v: Vec<u8> = Vec::new();
    v.push(118);
    v.push(97);
    v.push(117);
    v.push(108);
    v.push(116);
    proof {
        assert(v@ =~= vault_label());
    }
    v
}

} // verus!
