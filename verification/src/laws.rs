//! The laws the operations obey, stated over the transition functions and
//! proved for every ledger, not just the ones the tests build: idempotent
//! initialization, authority gating of withdrawals, and conservation of the
//! total held across any sequence of operations.

use vstd::prelude::*;

use crate::config::vault_label;
use crate::error::TokenError;
use crate::ops::{
    init_pda_step, init_token_step, mint_step, transfer_from_pda_step, transfer_to_pda_step,
};
use crate::pda::{derivation_exists, derived_address, derived_bump};
use crate::pda::ADDRESS_LEN;
use crate::state::{
    holder_index, inv, lemma_elem_le_sum, lemma_holder_index_found, lemma_holder_index_props,
    lemma_sum_nonneg, lemma_sum_push, lemma_sum_update, total_held, HolderModel,
    LedgerModel, ParamsModel,
};

verus! {

/// Idempotence law: once initializing the asset class has succeeded, running
/// it again with the same parameters succeeds and leaves the ledger — asset
/// class and metadata records included — exactly as it was.
pub proof fn lemma_init_token_idempotent(l: LedgerModel, p: ParamsModel)
    ensures
        (init_token_step(l, p) matches Ok(m) ==> init_token_step(m, p) == Ok::<
            LedgerModel,
            TokenError,
        >(m)),
{
}

/// Idempotence law: once initializing the vault has succeeded, running it
/// again succeeds and leaves the ledger exactly as it was.
pub proof fn lemma_init_pda_idempotent(l: LedgerModel)
    ensures
        (init_pda_step(l) matches Ok(m) ==> init_pda_step(m) == Ok::<LedgerModel, TokenError>(m)),
{
}

/// Authority law: a withdrawal goes through only when the vault's recorded
/// owner and counter are exactly the freshly re-derived ones, and a recorded
/// owner that differs from the re-derived address — as after out-of-band
/// tampering — is refused as an authority mismatch.
pub proof fn lemma_withdraw_requires_authority(l: LedgerModel, to: Seq<u8>, amount: u64)
    ensures
        transfer_from_pda_step(l, to, amount) is Ok ==> (l.vault matches Some(v) && v.owner
            == derived_address(vault_label(), None, l.program_id) && v.bump == derived_bump(
            vault_label(),
            None,
            l.program_id,
        )),
        (l.vault matches Some(v) && derivation_exists(vault_label(), None, l.program_id)
            && v.owner != derived_address(vault_label(), None, l.program_id))
            ==> transfer_from_pda_step(l, to, amount) == Err::<LedgerModel, TokenError>(
            TokenError::AuthorityMismatch,
        ),
{
}

/// Conservation law, one issuance: a successful mint preserves
/// well-formedness and increases the total held by exactly the quantity.
pub proof fn lemma_mint_adds(l: LedgerModel, destination: Seq<u8>, quantity: u64)
    requires
        inv(l),
        destination.len() == ADDRESS_LEN,
    ensures
        (mint_step(l, destination, quantity) matches Ok(m) ==> inv(m) && total_held(m)
            == total_held(l) + quantity),
{
    if mint_step(l, destination, quantity) is Ok {
        let hs = if holder_index(l.holders, destination) == -1 {
            l.holders.push(HolderModel { owner: destination, balance: 0 })
        } else {
            l.holders
        };
        lemma_holder_index_props(l.holders, destination);
        if holder_index(l.holders, destination) == -1 {
            lemma_sum_push(l.holders, HolderModel { owner: destination, balance: 0 });
            assert forall|k: int| 0 <= k < l.holders.len() implies (#[trigger] hs[k]).owner
                != destination by {
                assert(hs[k] == l.holders[k]);
            }
            lemma_holder_index_found(hs, destination, l.holders.len() as int);
        }
        let i = holder_index(hs, destination);
        lemma_holder_index_props(hs, destination);
        lemma_elem_le_sum(hs, i);
        lemma_sum_nonneg(hs);
        lemma_sum_update(
            hs,
            i,
            HolderModel { owner: destination, balance: (hs[i].balance + quantity) as u64 },
        );
    }
}

/// Conservation law, one deposit: a successful deposit preserves
/// well-formedness and leaves the total held unchanged.
pub proof fn lemma_deposit_conserves(
    l: LedgerModel,
    from: Seq<u8>,
    authority: Seq<u8>,
    amount: u64,
)
    requires
        inv(l),
    ensures
        (transfer_to_pda_step(l, from, authority, amount) matches Ok(m) ==> inv(m) && total_held(m)
            == total_held(l)),
{
    if transfer_to_pda_step(l, from, authority, amount) is Ok {
        let i = holder_index(l.holders, from);
        lemma_holder_index_props(l.holders, from);
        lemma_elem_le_sum(l.holders, i);
        lemma_sum_nonneg(l.holders);
        lemma_sum_update(
            l.holders,
            i,
            HolderModel { owner: from, balance: (l.holders[i].balance - amount) as u64 },
        );
    }
}

/// Conservation law, one withdrawal: a successful withdrawal preserves
/// well-formedness and leaves the total held unchanged.
pub proof fn lemma_withdraw_conserves(l: LedgerModel, to: Seq<u8>, amount: u64)
    requires
        inv(l),
    ensures
        (transfer_from_pda_step(l, to, amount) matches Ok(m) ==> inv(m) && total_held(m)
            == total_held(l)),
{
    if transfer_from_pda_step(l, to, amount) is Ok {
        let i = holder_index(l.holders, to);
        lemma_holder_index_props(l.holders, to);
        lemma_elem_le_sum(l.holders, i);
        lemma_sum_nonneg(l.holders);
        lemma_sum_update(
            l.holders,
            i,
            HolderModel { owner: to, balance: (l.holders[i].balance + amount) as u64 },
        );
    }
}

/// One issuance or vault-gateway operation, for stating laws over sequences.
pub enum LedgerOp {
    Mint { destination: Seq<u8>, quantity: u64 },
    Deposit { from: Seq<u8>, authority: Seq<u8>, amount: u64 },
    Withdraw { to: Seq<u8>, amount: u64 },
}

/// An operation whose address arguments are well-formed.
pub open spec fn op_wf(op: LedgerOp) -> bool {
    match op {
        LedgerOp::Mint { destination, quantity } => destination.len() == ADDRESS_LEN,
        LedgerOp::Deposit { from, authority, amount } => true,
        LedgerOp::Withdraw { to, amount } => true,
    }
}

/// The ledger after attempting one operation; a refused operation leaves it
/// unchanged.
pub open spec fn apply_op(l: LedgerModel, op: LedgerOp) -> LedgerModel {
    match op {
        LedgerOp::Mint { destination, quantity } => match mint_step(l, destination, quantity) {
            Ok(m) => m,
            Err(_) => l,
        },
        LedgerOp::Deposit { from, authority, amount } => match transfer_to_pda_step(
            l,
            from,
            authority,
            amount,
        ) {
            Ok(m) => m,
            Err(_) => l,
        },
        LedgerOp::Withdraw { to, amount } => match transfer_from_pda_step(l, to, amount) {
            Ok(m) => m,
            Err(_) => l,
        },
    }
}

/// What one operation mints: the quantity for a successful mint, zero for
/// everything else.
pub open spec fn minted_by(l: LedgerModel, op: LedgerOp) -> int {
    match op {
        LedgerOp::Mint { destination, quantity } => if mint_step(l, destination, quantity) is Ok {
            quantity as int
        } else {
            0
        },
        _ => 0,
    }
}

/// The ledger after attempting a sequence of operations in order.
pub open spec fn apply_ops(l: LedgerModel, ops: Seq<LedgerOp>) -> LedgerModel
    decreases ops.len(),
{
    if ops.len() == 0 {
        l
    } else {
        apply_ops(apply_op(l, ops[0]), ops.drop_first())
    }
}

/// What a sequence of operations mints in total.
pub open spec fn minted_in(l: LedgerModel, ops: Seq<LedgerOp>) -> int
    decreases ops.len(),
{
    if ops.len() == 0 {
        0
    } else {
        minted_by(l, ops[0]) + minted_in(apply_op(l, ops[0]), ops.drop_first())
    }
}

/// Conservation law: across any sequence of issuance, deposit and withdrawal
/// attempts, the total held — all holder balances plus the vault balance —
/// changes by exactly what the successful mints in it issued, and
/// well-formedness is preserved throughout.
pub proof fn lemma_conservation(l: LedgerModel, ops: Seq<LedgerOp>)
    requires
        inv(l),
        forall|i: int| 0 <= i < ops.len() ==> op_wf(#[trigger] ops[i]),
    ensures
        inv(apply_ops(l, ops)),
        total_held(apply_ops(l, ops)) == total_held(l) + minted_in(l, ops),
    decreases ops.len(),
{
    if ops.len() > 0 {
        let l2 = apply_op(l, ops[0]);
        match ops[0] {
            LedgerOp::Mint { destination, quantity } => {
                lemma_mint_adds(l, destination, quantity);
            },
            LedgerOp::Deposit { from, authority, amount } => {
                lemma_deposit_conserves(l, from, authority, amount);
            },
            LedgerOp::Withdraw { to, amount } => {
                lemma_withdraw_conserves(l, to, amount);
            },
        }
        assert forall|i: int| 0 <= i < ops.drop_first().len() implies op_wf(
            #[trigger] ops.drop_first()[i],
        ) by {
            assert(ops.drop_first()[i] == ops[i + 1]);
        }
        lemma_conservation(l2, ops.drop_first());
    }
}

} // verus!
