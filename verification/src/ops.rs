//! The four operations: asset-class initialization, supply issuance, deposit
//! into the vault, and derivation-authorized withdrawal from it.  Each is
//! specified by a transition function on the ledger model and verified to
//! implement it exactly.

use vstd::prelude::*;
use vstd::string::StrSliceExecFns;

use crate::config::{
    mint_label, mint_label_bytes, vault_label, vault_label_bytes, MAX_NAME_LEN, MAX_SYMBOL_LEN,
    MAX_URI_LEN,
};
use crate::error::TokenError;
use crate::pda::{address_eq, derivation_exists, derived_address, derived_bump, Address};
use crate::state::{
    holder_index, holders_view, inv, lemma_elem_le_sum, lemma_holder_index_found,
    lemma_holder_index_props, lemma_sum_nonneg, lemma_sum_push, lemma_sum_update, sum_balances,
    AssetClass, AssetClassModel, HolderAccount, HolderModel, InitTokenParams, Ledger, LedgerModel,
    MetadataModel, ParamsModel, TokenMetadata, Vault, VaultModel,
};

verus! {

/// What initializing the asset class does to the ledger: validates the
/// metadata, succeeds unchanged if the asset class already exists, and
/// otherwise creates the asset class with zero supply and the metadata
/// record, both controlled by the freshly derived minting authority.
pub open spec fn init_token_step(l: LedgerModel, p: ParamsModel) -> Result<
    LedgerModel,
    TokenError,
> {
    if p.name.len() > MAX_NAME_LEN || p.symbol.len() > MAX_SYMBOL_LEN || p.uri.len()
        > MAX_URI_LEN {
        Err(TokenError::MetadataTooLong)
    } else if l.asset is Some {
        Ok(l)
    } else if !derivation_exists(mint_label(), None, l.program_id) {
        Err(TokenError::DerivationFailed)
    } else {
        Ok(
            LedgerModel {
                program_id: l.program_id,
                asset: Some(
                    AssetClassModel {
                        authority: derived_address(mint_label(), None, l.program_id),
                        decimals: p.decimals,
                        supply: 0,
                        bump: derived_bump(mint_label(), None, l.program_id),
                    },
                ),
                metadata: Some(MetadataModel { name: p.name, symbol: p.symbol, uri: p.uri }),
                vault: l.vault,
                holders: l.holders,
            },
        )
    }
}

/// What minting does to the ledger: re-derives the minting authority, which
/// must match the recorded one exactly, creates the destination record if
/// needed, and increases its balance and the supply by the quantity.
pub open spec fn mint_step(l: LedgerModel, destination: Seq<u8>, quantity: u64) -> Result<
    LedgerModel,
    TokenError,
> {
    match l.asset {
        None => Err(TokenError::UnknownAssetClass),
        Some(a) => {
            if !derivation_exists(mint_label(), None, l.program_id) {
                Err(TokenError::DerivationFailed)
            } else if a.authority != derived_address(mint_label(), None, l.program_id) || a.bump
                != derived_bump(mint_label(), None, l.program_id) {
                Err(TokenError::AuthorityMismatch)
            } else if quantity > u64::MAX - a.supply {
                Err(TokenError::SupplyOverflow)
            } else {
                let hs = if holder_index(l.holders, destination) == -1 {
                    l.holders.push(HolderModel { owner: destination, balance: 0 })
                } else {
                    l.holders
                };
                let i = holder_index(hs, destination);
                Ok(
                    LedgerModel {
                        program_id: l.program_id,
                        asset: Some(
                            AssetClassModel {
                                authority: a.authority,
                                decimals: a.decimals,
                                supply: (a.supply + quantity) as u64,
                                bump: a.bump,
                            },
                        ),
                        metadata: l.metadata,
                        vault: l.vault,
                        holders: hs.update(
                            i,
                            HolderModel {
                                owner: destination,
                                balance: (hs[i].balance + quantity) as u64,
                            },
                        ),
                    },
                )
            }
        },
    }
}

/// What initializing the vault does to the ledger: requires the asset class,
/// succeeds unchanged if the vault already exists, and otherwise creates an
/// empty vault owned by the freshly derived vault authority.
pub open spec fn init_pda_step(l: LedgerModel) -> Result<LedgerModel, TokenError> {
    if l.asset is None {
        Err(TokenError::UnknownAssetClass)
    } else if l.vault is Some {
        Ok(l)
    } else if !derivation_exists(vault_label(), None, l.program_id) {
        Err(TokenError::DerivationFailed)
    } else {
        Ok(
            LedgerModel {
                program_id: l.program_id,
                asset: l.asset,
                metadata: l.metadata,
                vault: Some(
                    VaultModel {
                        owner: derived_address(vault_label(), None, l.program_id),
                        balance: 0,
                        bump: derived_bump(vault_label(), None, l.program_id),
                    },
                ),
                holders: l.holders,
            },
        )
    }
}

/// What a deposit does to the ledger: the caller-authorized transfer of the
/// amount from a holder record into the vault.
pub open spec fn transfer_to_pda_step(
    l: LedgerModel,
    from: Seq<u8>,
    authority: Seq<u8>,
    amount: u64,
) -> Result<LedgerModel, TokenError> {
    match l.vault {
        None => Err(TokenError::UnknownVault),
        Some(v) => {
            let i = holder_index(l.holders, from);
            if i == -1 {
                Err(TokenError::UnknownHolder)
            } else if authority != from {
                Err(TokenError::AuthorityMismatch)
            } else if l.holders[i].balance < amount {
                Err(TokenError::InsufficientFunds)
            } else {
                Ok(
                    LedgerModel {
                        program_id: l.program_id,
                        asset: l.asset,
                        metadata: l.metadata,
                        vault: Some(
                            VaultModel {
                                owner: v.owner,
                                balance: (v.balance + amount) as u64,
                                bump: v.bump,
                            },
                        ),
                        holders: l.holders.update(
                            i,
                            HolderModel {
                                owner: from,
                                balance: (l.holders[i].balance - amount) as u64,
                            },
                        ),
                    },
                )
            }
        },
    }
}

/// What a withdrawal does to the ledger: re-derives the vault's owning
/// address, which must match the recorded owner and counter exactly, and
/// moves the amount from the vault to an existing holder record.
pub open spec fn transfer_from_pda_step(l: LedgerModel, to: Seq<u8>, amount: u64) -> Result<
    LedgerModel,
    TokenError,
> {
    match l.vault {
        None => Err(TokenError::UnknownVault),
        Some(v) => {
            if !derivation_exists(vault_label(), None, l.program_id) {
                Err(TokenError::DerivationFailed)
            } else if v.owner != derived_address(vault_label(), None, l.program_id) || v.bump
                != derived_bump(vault_label(), None, l.program_id) {
                Err(TokenError::AuthorityMismatch)
            } else {
                let i = holder_index(l.holders, to);
                if i == -1 {
                    Err(TokenError::UnknownHolder)
                } else if v.balance < amount {
                    Err(TokenError::InsufficientFunds)
                } else {
                    Ok(
                        LedgerModel {
                            program_id: l.program_id,
                            asset: l.asset,
                            metadata: l.metadata,
                            vault: Some(
                                VaultModel {
                                    owner: v.owner,
                                    balance: (v.balance - amount) as u64,
                                    bump: v.bump,
                                },
                            ),
                            holders: l.holders.update(
                                i,
                                HolderModel {
                                    owner: to,
                                    balance: (l.holders[i].balance + amount) as u64,
                                },
                            ),
                        },
                    )
                }
            }
        },
    }
}

/// Finds the index of the holder record for an owner.
fn find_holder(holders: &Vec<HolderAccount>, owner: &Address) -> (r: Option<usize>)
    ensures
        (match r {
            Some(i) => i < holders@.len() && i as int == holder_index(
                holders_view(holders@),
                owner@,
            ),
            None => holder_index(holders_view(holders@), owner@) == -1,
        }),
{
    let ghost hv = holders_view(holders@);
    let mut i: usize = 0;
    while i < holders.len()
        invariant
            i <= holders@.len(),
            hv == holders_view(holders@),
            forall|k: int| 0 <= k < i ==> (#[trigger] hv[k]).owner != owner@,
        decreases holders@.len() - i,
    {
        if address_eq(&holders[i].owner, owner) {
            proof {
                assert(hv[i as int] == holders@[i as int]@);
                lemma_holder_index_found(hv, owner@, i as int);
            }
            return Some(i);
        }
        proof {
            assert(hv[i as int] == holders@[i as int]@);
        }
        i += 1;
    }
    proof {
        lemma_holder_index_props(hv, owner@);
    }
    None
}

impl Ledger {
    /// A fresh ledger bound to a program identity: nothing initialized yet.
    pub fn new(program_id: Address) -> (r: Ledger)
        requires
            program_id.wf(),
        ensures
            r@.program_id == program_id@,
            r@.asset is None,
            r@.metadata is None,
            r@.vault is None,
            r@.holders.len() == 0,
            inv(r@),
    {
        let l = Ledger {
            program_id,
            asset: None,
            metadata: None,
            vault: None,
            holders: Vec::new(),
        };
        proof {
            assert(holders_view(l.holders@) =~= Seq::<HolderModel>::empty());
        }
        l
    }

    /// Initializes the asset class with its metadata, controlled by the
    /// derived minting authority; a repeated call succeeds without change.
    pub fn init_token(&mut self, params: InitTokenParams) -> (r: Result<(), TokenError>)
        requires
            inv(old(self)@),
        ensures
            inv(final(self)@),
            (match init_token_step(old(self)@, params@) {
                Ok(m) => r == Ok::<(), TokenError>(()) && final(self)@ == m,
                Err(e) => r == Err::<(), TokenError>(e) && final(self)@ == old(self)@,
            }),
    {
        let ghost pv = params@;
        if params.name.as_str().unicode_len() > MAX_NAME_LEN || params.symbol.as_str().unicode_len()
            > MAX_SYMBOL_LEN || params.uri.as_str().unicode_len() > MAX_URI_LEN {
            return Err(TokenError::MetadataTooLong);
        }
        if self.asset.is_some() {
            return Ok(());
        }
        let label = mint_label_bytes();
        let disc: Option<Vec<u8>> = None;
        match crate::pda::derive(&label, &disc, &self.program_id) {
            Err(e) => Err(e),
            Ok((authority, bump)) => {
                self.asset = Some(
                    AssetClass { authority, decimals: params.decimals, supply: 0, bump },
                );
                self.metadata = Some(
                    TokenMetadata { name: params.name, symbol: params.symbol, uri: params.uri },
                );
                proof {
                    let stepped = init_token_step(old(self)@, pv);
                    assert(stepped is Ok);
                    assert(self@ =~~= stepped->Ok_0);
                }
                Ok(())
            },
        }
    }

    /// Mints the quantity to the destination holder, creating its record if
    /// needed, authorized by re-deriving the minting authority.
    pub fn mint_tokens(&mut self, destination: &Address, quantity: u64) -> (r: Result<
        (),
        TokenError,
    >)
        requires
            inv(old(self)@),
            destination.wf(),
        ensures
            inv(final(self)@),
            (match mint_step(old(self)@, destination@, quantity) {
                Ok(m) => r == Ok::<(), TokenError>(()) && final(self)@ == m,
                Err(e) => r == Err::<(), TokenError>(e) && final(self)@ == old(self)@,
            }),
    {
        if self.asset.is_none() {
            return Err(TokenError::UnknownAssetClass);
        }
        let label = mint_label_bytes();
        let disc: Option<Vec<u8>> = None;
        let derived = match crate::pda::derive(&label, &disc, &self.program_id) {
            Err(e) => {
                return Err(e);
            },
            Ok(p) => p,
        };
        let auth_ok: bool;
        let supply: u64;
        match &self.asset {
            Some(a) => {
                auth_ok = address_eq(&a.authority, &derived.0) && a.bump == derived.1;
                supply = a.supply;
            },
            None => {
                proof {
                    assert(false);
                }
                return Err(TokenError::UnknownAssetClass);
            },
        }
        if !auth_ok {
            return Err(TokenError::AuthorityMismatch);
        }
        if quantity > u64::MAX - supply {
            return Err(TokenError::SupplyOverflow);
        }
        let ghost oldholders = holders_view(old(self).holders@);
        let idx: usize = match find_holder(&self.holders, destination) {
            Some(i) => i,
            None => {
                let i = self.holders.len();
                self.holders.push(HolderAccount { owner: destination.dup(), balance: 0 });
                proof {
                    assert(holders_view(self.holders@) =~= oldholders.push(
                        HolderModel { owner: destination@, balance: 0 },
                    ));
                    lemma_holder_index_props(oldholders, destination@);
                    lemma_holder_index_found(holders_view(self.holders@), destination@, i as int);
                    lemma_sum_push(oldholders, HolderModel { owner: destination@, balance: 0 });
                }
                i
            },
        };
        let ghost hs = holders_view(self.holders@);
        proof {
            lemma_holder_index_props(hs, destination@);
            lemma_elem_le_sum(hs, idx as int);
            lemma_sum_nonneg(hs);
            assert(sum_balances(hs) <= supply);
        }
        let bal = self.holders[idx].balance;
        self.holders[idx].balance = bal + quantity;
        proof {
            assert(holders_view(self.holders@) =~= hs.update(
                idx as int,
                HolderModel { owner: destination@, balance: (bal + quantity) as u64 },
            ));
        }
        match &mut self.asset {
            Some(a) => {
                a.supply = a.supply + quantity;
            },
            None => {
                proof {
                    assert(false);
                }
            },
        }
        proof {
            let stepped = mint_step(old(self)@, destination@, quantity);
            assert(stepped is Ok);
            lemma_sum_update(
                hs,
                idx as int,
                HolderModel { owner: destination@, balance: (bal + quantity) as u64 },
            );
            assert(self@ =~~= stepped->Ok_0);
        }
        Ok(())
    }

    /// Initializes the vault, owned by the derived vault authority; a
    /// repeated call succeeds without change.
    pub fn init_pda(&mut self) -> (r: Result<(), TokenError>)
        requires
            inv(old(self)@),
        ensures
            inv(final(self)@),
            (match init_pda_step(old(self)@) {
                Ok(m) => r == Ok::<(), TokenError>(()) && final(self)@ == m,
                Err(e) => r == Err::<(), TokenError>(e) && final(self)@ == old(self)@,
            }),
    {
        if self.asset.is_none() {
            return Err(TokenError::UnknownAssetClass);
        }
        if self.vault.is_some() {
            return Ok(());
        }
        let label = vault_label_bytes();
        let disc: Option<Vec<u8>> = None;
        match crate::pda::derive(&label, &disc, &self.program_id) {
            Err(e) => Err(e),
            Ok((owner, bump)) => {
                self.vault = Some(Vault { owner, balance: 0, bump });
                proof {
                    let stepped = init_pda_step(old(self)@);
                    assert(stepped is Ok);
                    assert(self@ =~~= stepped->Ok_0);
                }
                Ok(())
            },
        }
    }

    /// Deposits the amount from a holder record into the vault, authorized
    /// by the holder's own key.
    pub fn transfer_to_pda(&mut self, from: &Address, authority: &Address, amount: u64) -> (r:
        Result<(), TokenError>)
        requires
            inv(old(self)@),
            from.wf(),
            authority.wf(),
        ensures
            inv(final(self)@),
            (match transfer_to_pda_step(old(self)@, from@, authority@, amount) {
                Ok(m) => r == Ok::<(), TokenError>(()) && final(self)@ == m,
                Err(e) => r == Err::<(), TokenError>(e) && final(self)@ == old(self)@,
            }),
    {
        if self.vault.is_none() {
            return Err(TokenError::UnknownVault);
        }
        let ghost hs = holders_view(old(self).holders@);
        let idx: usize = match find_holder(&self.holders, from) {
            Some(i) => i,
            None => {
                return Err(TokenError::UnknownHolder);
            },
        };
        if !address_eq(authority, from) {
            return Err(TokenError::AuthorityMismatch);
        }
        let bal = self.holders[idx].balance;
        if bal < amount {
            return Err(TokenError::InsufficientFunds);
        }
        proof {
            lemma_holder_index_props(hs, from@);
            lemma_elem_le_sum(hs, idx as int);
            lemma_sum_nonneg(hs);
        }
        self.holders[idx].balance = bal - amount;
        proof {
            assert(holders_view(self.holders@) =~= hs.update(
                idx as int,
                HolderModel { owner: from@, balance: (bal - amount) as u64 },
            ));
        }
        match &mut self.vault {
            Some(v) => {
                v.balance = v.balance + amount;
            },
            None => {
                proof {
                    assert(false);
                }
            },
        }
        proof {
            let stepped = transfer_to_pda_step(old(self)@, from@, authority@, amount);
            assert(stepped is Ok);
            lemma_sum_update(
                hs,
                idx as int,
                HolderModel { owner: from@, balance: (bal - amount) as u64 },
            );
            assert(self@ =~~= stepped->Ok_0);
        }
        Ok(())
    }

    /// Withdraws the amount from the vault to an existing holder record,
    /// authorized by re-deriving the vault's owning address; a mismatch with
    /// the recorded owner refuses the withdrawal.
    pub fn transfer_from_pda(&mut self, to: &Address, amount: u64) -> (r: Result<(), TokenError>)
        requires
            inv(old(self)@),
            to.wf(),
        ensures
            inv(final(self)@),
            (match transfer_from_pda_step(old(self)@, to@, amount) {
                Ok(m) => r == Ok::<(), TokenError>(()) && final(self)@ == m,
                Err(e) => r == Err::<(), TokenError>(e) && final(self)@ == old(self)@,
            }),
    {
        if self.vault.is_none() {
            return Err(TokenError::UnknownVault);
        }
        let label = vault_label_bytes();
        let disc: Option<Vec<u8>> = None;
        let derived = match crate::pda::derive(&label, &disc, &self.program_id) {
            Err(e) => {
                return Err(e);
            },
            Ok(p) => p,
        };
        let auth_ok: bool;
        let vbal: u64;
        match &self.vault {
            Some(v) => {
                auth_ok = address_eq(&v.owner, &derived.0) && v.bump == derived.1;
                vbal = v.balance;
            },
            None => {
                proof {
                    assert(false);
                }
                auth_ok = false;
                vbal = 0;
            },
        }
        if !auth_ok {
            return Err(TokenError::AuthorityMismatch);
        }
        let ghost hs = holders_view(old(self).holders@);
        let idx: usize = match find_holder(&self.holders, to) {
            Some(i) => i,
            None => {
                return Err(TokenError::UnknownHolder);
            },
        };
        if vbal < amount {
            return Err(TokenError::InsufficientFunds);
        }
        let bal = self.holders[idx].balance;
        proof {
            lemma_holder_index_props(hs, to@);
            lemma_elem_le_sum(hs, idx as int);
            lemma_sum_nonneg(hs);
        }
        self.holders[idx].balance = bal + amount;
        proof {
            assert(holders_view(self.holders@) =~= hs.update(
                idx as int,
                HolderModel { owner: to@, balance: (bal + amount) as u64 },
            ));
        }
        match &mut self.vault {
            Some(v) => {
                v.balance = v.balance - amount;
            },
            None => {
                proof {
                    assert(false);
                }
            },
        }
        proof {
            let stepped = transfer_from_pda_step(old(self)@, to@, amount);
            assert(stepped is Ok);
            lemma_sum_update(
                hs,
                idx as int,
                HolderModel { owner: to@, balance: (bal + amount) as u64 },
            );
            assert(self@ =~~= stepped->Ok_0);
        }
        Ok(())
    }
}

} // verus!
