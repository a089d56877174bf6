//! The ledger state the operations touch — asset class, metadata, vault and
//! holder balance records — together with its mathematical model and the
//! well-formedness invariant.

use vstd::prelude::*;

use crate::pda::{Address, ADDRESS_LEN};

verus! {

/// Parameters for initializing an asset class: descriptive metadata and
/// decimal precision.
pub struct InitTokenParams {
    pub name: String,
    pub symbol: String,
    pub uri: String,
    pub decimals: u8,
}

/// The model of [`InitTokenParams`].
#[verifier::ext_equal]
pub struct ParamsModel {
    pub name: Seq<char>,
    pub symbol: Seq<char>,
    pub uri: Seq<char>,
    pub decimals: u8,
}

impl View for InitTokenParams {
    type V = ParamsModel;

    open spec fn view(&self) -> ParamsModel {
        ParamsModel {
            name: self.name@,
            symbol: self.symbol@,
            uri: self.uri@,
            decimals: self.decimals,
        }
    }
}

/// A fungible asset class.  The derived minting-authority address is both
/// its identity anchor and its control key.
pub struct AssetClass {
    /// The derived minting authority.
    pub authority: Address,
    /// Decimal precision; quantities are in the smallest indivisible unit.
    pub decimals: u8,
    /// Total supply, increased only by minting.
    pub supply: u64,
    /// The canonical counter persisted at creation.
    pub bump: u8,
}

/// The model of [`AssetClass`].
#[verifier::ext_equal]
pub struct AssetClassModel {
    pub authority: Seq<u8>,
    pub decimals: u8,
    pub supply: u64,
    pub bump: u8,
}

impl View for AssetClass {
    type V = AssetClassModel;

    open spec fn view(&self) -> AssetClassModel {
        AssetClassModel {
            authority: self.authority@,
            decimals: self.decimals,
            supply: self.supply,
            bump: self.bump,
        }
    }
}

/// Descriptive metadata attached to the asset class at creation, immutable
/// thereafter.
pub struct TokenMetadata {
    pub name: String,
    pub symbol: String,
    pub uri: String,
}

/// The model of [`TokenMetadata`].
#[verifier::ext_equal]
pub struct MetadataModel {
    pub name: Seq<char>,
    pub symbol: Seq<char>,
    pub uri: Seq<char>,
}

impl View for TokenMetadata {
    type V = MetadataModel;

    open spec fn view(&self) -> MetadataModel {
        MetadataModel {
            name: self.name@,
            symbol: self.symbol@,
            uri: self.uri@,
        }
    }
}

/// The vault: a balance record owned by a derived address instead of a
/// conventional key.
pub struct Vault {
    /// The derived owning authority.
    pub owner: Address,
    /// Units held by the vault.
    pub balance: u64,
    /// The canonical counter persisted at creation.
    pub bump: u8,
}

/// The model of [`Vault`].
#[verifier::ext_equal]
pub struct VaultModel {
    pub owner: Seq<u8>,
    pub balance: u64,
    pub bump: u8,
}

impl View for Vault {
    type V = VaultModel;

    open spec fn view(&self) -> VaultModel {
        VaultModel {
            owner: self.owner@,
            balance: self.balance,
            bump: self.bump,
        }
    }
}

/// An ordinary holder's balance record, keyed by the holder's own address.
pub struct HolderAccount {
    pub owner: Address,
    pub balance: u64,
}

/// The model of [`HolderAccount`].
#[verifier::ext_equal]
pub struct HolderModel {
    pub owner: Seq<u8>,
    pub balance: u64,
}

impl View for HolderAccount {
    type V = HolderModel;

    open spec fn view(&self) -> HolderModel {
        HolderModel {
            owner: self.owner@,
            balance: self.balance,
        }
    }
}

/// The view of a sequence of holder records.
pub open spec fn holders_view(holders: Seq<HolderAccount>) -> Seq<HolderModel> {
    holders.map_values(|h: HolderAccount| h@)
}

/// The ledger state addressed by one program identity: at most one asset
/// class and one vault, plus the holder balance records.
pub struct Ledger {
    /// The identity the derivations are bound to.
    pub program_id: Address,
    /// The single asset class, once initialized.
    pub asset: Option<AssetClass>,
    /// The metadata record created alongside the asset class.
    pub metadata: Option<TokenMetadata>,
    /// The single vault, once initialized.
    pub vault: Option<Vault>,
    /// Holder balance records, one per holder address.
    pub holders: Vec<HolderAccount>,
}

/// The model of [`Ledger`].
#[verifier::ext_equal]
pub struct LedgerModel {
    pub program_id: Seq<u8>,
    pub asset: Option<AssetClassModel>,
    pub metadata: Option<MetadataModel>,
    pub vault: Option<VaultModel>,
    pub holders: Seq<HolderModel>,
}

impl View for Ledger {
    type V = LedgerModel;

    open spec fn view(&self) -> LedgerModel {
        LedgerModel {
            program_id: self.program_id@,
            asset: match self.asset {
                Some(a) => Some(a@),
                None => None,
            },
            metadata: match self.metadata {
                Some(m) => Some(m@),
                None => None,
            },
            vault: match self.vault {
                Some(v) => Some(v@),
                None => None,
            },
            holders: holders_view(self.holders@),
        }
    }
}

/// The sum of all holder balances.
pub open spec fn sum_balances(holders: Seq<HolderModel>) -> int
    decreases holders.len(),
{
    if holders.len() == 0 {
        0
    } else {
        holders[0].balance + sum_balances(holders.drop_first())
    }
}

/// Units held by the vault, zero while no vault exists.
pub open spec fn vault_balance(l: LedgerModel) -> int {
    match l.vault {
        Some(v) => v.balance as int,
        None => 0,
    }
}

/// Everything currently held: all holder balances plus the vault balance.
pub open spec fn total_held(l: LedgerModel) -> int {
    sum_balances(l.holders) + vault_balance(l)
}

/// The index of the holder record for an owner, or -1 when none exists.
pub open spec fn holder_index(holders: Seq<HolderModel>, owner: Seq<u8>) -> int
    decreases holders.len(),
{
    if holders.len() == 0 {
        -1
    } else if holders[0].owner == owner {
        0
    } else {
        let rest = holder_index(holders.drop_first(), owner);
        if rest == -1 {
            -1
        } else {
            rest + 1
        }
    }
}

/// Well-formedness of the ledger: addresses have 32 bytes, holder records
/// are keyed uniquely, metadata exists exactly while the asset class does,
/// and everything held is accounted for by the recorded supply.
pub open spec fn inv(l: LedgerModel) -> bool {
    &&& l.program_id.len() == ADDRESS_LEN
    &&& (l.asset matches Some(a) ==> a.authority.len() == ADDRESS_LEN)
    &&& (l.vault matches Some(v) ==> v.owner.len() == ADDRESS_LEN)
    &&& (forall|i: int| 0 <= i < l.holders.len() ==> (#[trigger] l.holders[i].owner).len()
        == ADDRESS_LEN)
    &&& (forall|i: int, j: int|
        #![trigger l.holders[i], l.holders[j]]
        0 <= i < j < l.holders.len() ==> l.holders[i].owner != l.holders[j].owner)
    &&& (l.metadata is Some <==> l.asset is Some)
    &&& match l.asset {
        Some(a) => total_held(l) == a.supply,
        None => l.holders.len() == 0 && l.vault is None,
    }
}

/// All holder balances are nonnegative, so their sum is too.
pub proof fn lemma_sum_nonneg(holders: Seq<HolderModel>)
    ensures
        sum_balances(holders) >= 0,
    decreases holders.len(),
{
    if holders.len() > 0 {
        lemma_sum_nonneg(holders.drop_first());
    }
}

/// Appending a record adds exactly its balance to the sum.
pub proof fn lemma_sum_push(holders: Seq<HolderModel>, h: HolderModel)
    ensures
        sum_balances(holders.push(h)) == sum_balances(holders) + h.balance,
    decreases holders.len(),
{
    if holders.len() == 0 {
        assert(holders.push(h)[0] == h);
        assert(holders.push(h).drop_first() =~= Seq::<HolderModel>::empty());
        assert(sum_balances(Seq::<HolderModel>::empty()) == 0);
        assert(sum_balances(holders.push(h)) == h.balance + 0);
    } else {
        assert(holders.push(h)[0] == holders[0]);
        assert(holders.push(h).drop_first() =~= holders.drop_first().push(h));
        lemma_sum_push(holders.drop_first(), h);
        assert(sum_balances(holders.push(h)) == holders[0].balance + sum_balances(
            holders.drop_first().push(h),
        ));
    }
}

/// Replacing a record changes the sum by the difference of the balances.
pub proof fn lemma_sum_update(holders: Seq<HolderModel>, i: int, h: HolderModel)
    requires
        0 <= i < holders.len(),
    ensures
        sum_balances(holders.update(i, h)) == sum_balances(holders) - holders[i].balance
            + h.balance,
    decreases holders.len(),
{
    if i == 0 {
        assert(holders.update(0, h).drop_first() =~= holders.drop_first());
    } else {
        assert(holders.update(i, h).drop_first() =~= holders.drop_first().update(i - 1, h));
        lemma_sum_update(holders.drop_first(), i - 1, h);
    }
}

/// No single balance exceeds the sum of all of them.
pub proof fn lemma_elem_le_sum(holders: Seq<HolderModel>, i: int)
    requires
        0 <= i < holders.len(),
    ensures
        holders[i].balance <= sum_balances(holders),
    decreases holders.len(),
{
    if i == 0 {
        lemma_sum_nonneg(holders.drop_first());
    } else {
        lemma_elem_le_sum(holders.drop_first(), i - 1);
    }
}

/// What the holder index means: it is in range, it points at the owner's
/// record, and it is -1 exactly when no record has that owner.
pub proof fn lemma_holder_index_props(holders: Seq<HolderModel>, owner: Seq<u8>)
    ensures
        -1 <= holder_index(holders, owner) < holders.len(),
        holder_index(holders, owner) >= 0 ==> holders[holder_index(holders, owner)].owner
            == owner,
        holder_index(holders, owner) == -1 ==> forall|i: int|
            0 <= i < holders.len() ==> (#[trigger] holders[i]).owner != owner,
    decreases holders.len(),
{
    if holders.len() > 0 && holders[0].owner != owner {
        lemma_holder_index_props(holders.drop_first(), owner);
        if holder_index(holders, owner) == -1 {
            assert forall|i: int| 0 <= i < holders.len() implies (#[trigger] holders[i]).owner
                != owner by {
                if i > 0 {
                    assert(holders.drop_first()[i - 1] == holders[i]);
                }
            }
        }
    }
}

/// A first match at index `i` pins the holder index to `i`.
pub proof fn lemma_holder_index_found(holders: Seq<HolderModel>, owner: Seq<u8>, i: int)
    requires
        0 <= i < holders.len(),
        holders[i].owner == owner,
        forall|k: int| 0 <= k < i ==> (#[trigger] holders[k]).owner != owner,
    ensures
        holder_index(holders, owner) == i,
    decreases holders.len(),
{
    if i > 0 {
        assert forall|k: int| 0 <= k < i - 1 implies (#[trigger] holders.drop_first()[k]).owner
            != owner by {
            assert(holders.drop_first()[k] == holders[k + 1]);
        }
        assert(holders.drop_first()[i - 1] == holders[i]);
        lemma_holder_index_found(holders.drop_first(), owner, i - 1);
    }
}

} // verus!
