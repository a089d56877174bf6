use pda_token_account::error::TokenError;
use pda_token_account::pda::{address_eq, signable, Address};
use pda_token_account::state::{InitTokenParams, Ledger};

fn addr(byte: u8) -> Address {
    Address::from_bytes(vec![byte; 32])
}

fn program_id() -> Address {
    addr(7)
}

fn params(name: &str, symbol: &str, uri: &str, decimals: u8) -> InitTokenParams {
    InitTokenParams {
        name: name.to_string(),
        symbol: symbol.to_string(),
        uri: uri.to_string(),
        decimals,
    }
}

fn widget_params() -> InitTokenParams {
    params("Widget", "WID", "ipfs://x", 9)
}

fn balance_of(ledger: &Ledger, owner: &Address) -> Option<u64> {
    ledger
        .holders
        .iter()
        .find(|h| h.owner.bytes == owner.bytes)
        .map(|h| h.balance)
}

fn ready_ledger() -> Ledger {
    let mut ledger = Ledger::new(program_id());
    ledger.init_token(widget_params()).unwrap();
    ledger.init_pda().unwrap();
    ledger
}

#[test]
fn derive_is_deterministic() {
    let pid = program_id();
    let first = pda_token_account::pda::derive(&b"mint".to_vec(), &None, &pid).unwrap();
    let second = pda_token_account::pda::derive(&b"mint".to_vec(), &None, &pid).unwrap();
    assert_eq!(first.0.bytes, second.0.bytes);
    assert_eq!(first.1, second.1);
}

#[test]
fn derived_address_is_not_signable() {
    let pid = program_id();
    for label in [b"mint".to_vec(), b"vault".to_vec()] {
        let (address, _) = pda_token_account::pda::derive(&label, &None, &pid).unwrap();
        assert_eq!(address.bytes.len(), 32);
        assert!(!signable(&address));
        assert_ne!(address.bytes, label);
        assert_ne!(address.bytes, pid.bytes);
    }
}

#[test]
fn different_labels_derive_different_addresses() {
    let pid = program_id();
    let (mint_addr, _) = pda_token_account::pda::derive(&b"mint".to_vec(), &None, &pid).unwrap();
    let (vault_addr, _) = pda_token_account::pda::derive(&b"vault".to_vec(), &None, &pid).unwrap();
    assert_ne!(mint_addr.bytes, vault_addr.bytes);
}

#[test]
fn discriminator_changes_the_address() {
    let pid = program_id();
    let (plain, _) = pda_token_account::pda::derive(&b"mint".to_vec(), &None, &pid).unwrap();
    let (with_disc, _) = pda_token_account::pda::derive(&b"mint".to_vec(), &Some(vec![1, 2, 3]), &pid).unwrap();
    assert_ne!(plain.bytes, with_disc.bytes);
}

#[test]
fn address_eq_compares_bytes() {
    assert!(address_eq(&addr(3), &addr(3)));
    assert!(!address_eq(&addr(3), &addr(4)));
    let a = addr(5);
    assert_eq!(a.dup().bytes, a.bytes);
}

#[test]
fn init_token_creates_asset_class_with_zero_supply() {
    let mut ledger = Ledger::new(program_id());
    ledger.init_token(widget_params()).unwrap();

    let asset = ledger.asset.as_ref().unwrap();
    assert_eq!(asset.supply, 0);
    assert_eq!(asset.decimals, 9);
    let (expected, bump) = pda_token_account::pda::derive(&b"mint".to_vec(), &None, &program_id()).unwrap();
    assert_eq!(asset.authority.bytes, expected.bytes);
    assert_eq!(asset.bump, bump);

    let metadata = ledger.metadata.as_ref().unwrap();
    assert_eq!(metadata.name, "Widget");
    assert_eq!(metadata.symbol, "WID");
    assert_eq!(metadata.uri, "ipfs://x");
}

#[test]
fn init_token_is_idempotent() {
    let mut ledger = Ledger::new(program_id());
    ledger.init_token(widget_params()).unwrap();
    let authority = ledger.asset.as_ref().unwrap().authority.bytes.clone();

    ledger.init_token(widget_params()).unwrap();
    let asset = ledger.asset.as_ref().unwrap();
    assert_eq!(asset.authority.bytes, authority);
    assert_eq!(asset.supply, 0);
    assert_eq!(asset.decimals, 9);
    let metadata = ledger.metadata.as_ref().unwrap();
    assert_eq!(metadata.name, "Widget");
    assert_eq!(metadata.symbol, "WID");
    assert_eq!(metadata.uri, "ipfs://x");
}

#[test]
fn init_pda_is_idempotent() {
    let mut ledger = ready_ledger();
    let owner = ledger.vault.as_ref().unwrap().owner.bytes.clone();
    ledger.init_pda().unwrap();
    let vault = ledger.vault.as_ref().unwrap();
    assert_eq!(vault.owner.bytes, owner);
    assert_eq!(vault.balance, 0);
}

#[test]
fn vault_owner_is_derived_and_not_signable() {
    let ledger = ready_ledger();
    let vault = ledger.vault.as_ref().unwrap();
    let (expected, bump) = pda_token_account::pda::derive(&b"vault".to_vec(), &None, &program_id()).unwrap();
    assert_eq!(vault.owner.bytes, expected.bytes);
    assert_eq!(vault.bump, bump);
    assert!(!signable(&vault.owner));
}

#[test]
fn init_token_rejects_oversized_metadata() {
    let mut ledger = Ledger::new(program_id());
    let long_name = "n".repeat(33);
    assert_eq!(
        ledger.init_token(params(&long_name, "WID", "ipfs://x", 9)),
        Err(TokenError::MetadataTooLong)
    );
    let long_symbol = "s".repeat(11);
    assert_eq!(
        ledger.init_token(params("Widget", &long_symbol, "ipfs://x", 9)),
        Err(TokenError::MetadataTooLong)
    );
    let long_uri = "u".repeat(201);
    assert_eq!(
        ledger.init_token(params("Widget", "WID", &long_uri, 9)),
        Err(TokenError::MetadataTooLong)
    );
    assert!(ledger.asset.is_none());
    assert!(ledger.metadata.is_none());
}

#[test]
fn operations_require_initialization() {
    let mut ledger = Ledger::new(program_id());
    assert_eq!(
        ledger.mint_tokens(&addr(1), 5),
        Err(TokenError::UnknownAssetClass)
    );
    assert_eq!(ledger.init_pda(), Err(TokenError::UnknownAssetClass));

    ledger.init_token(widget_params()).unwrap();
    assert_eq!(
        ledger.transfer_to_pda(&addr(1), &addr(1), 5),
        Err(TokenError::UnknownVault)
    );
    assert_eq!(
        ledger.transfer_from_pda(&addr(1), 5),
        Err(TokenError::UnknownVault)
    );
}

#[test]
fn mint_creates_destination_and_increases_supply() {
    let mut ledger = ready_ledger();
    let holder_a = addr(1);
    ledger.mint_tokens(&holder_a, 1_000_000_000).unwrap();
    assert_eq!(balance_of(&ledger, &holder_a), Some(1_000_000_000));
    assert_eq!(ledger.asset.as_ref().unwrap().supply, 1_000_000_000);

    ledger.mint_tokens(&holder_a, 500).unwrap();
    assert_eq!(balance_of(&ledger, &holder_a), Some(1_000_000_500));
    assert_eq!(ledger.asset.as_ref().unwrap().supply, 1_000_000_500);
    assert_eq!(ledger.holders.len(), 1);
}

#[test]
fn mint_zero_creates_an_empty_record() {
    let mut ledger = ready_ledger();
    let holder = addr(2);
    ledger.mint_tokens(&holder, 0).unwrap();
    assert_eq!(balance_of(&ledger, &holder), Some(0));
    assert_eq!(ledger.asset.as_ref().unwrap().supply, 0);
}

#[test]
fn mint_refuses_supply_overflow() {
    let mut ledger = ready_ledger();
    let holder = addr(1);
    ledger.mint_tokens(&holder, u64::MAX).unwrap();
    assert_eq!(
        ledger.mint_tokens(&holder, 1),
        Err(TokenError::SupplyOverflow)
    );
    assert_eq!(balance_of(&ledger, &holder), Some(u64::MAX));
}

#[test]
fn mint_refuses_tampered_authority() {
    let mut ledger = ready_ledger();
    ledger.asset.as_mut().unwrap().authority = addr(9);
    assert_eq!(
        ledger.mint_tokens(&addr(1), 5),
        Err(TokenError::AuthorityMismatch)
    );
    assert_eq!(ledger.asset.as_ref().unwrap().supply, 0);
}

#[test]
fn full_scenario_moves_value_and_conserves_total() {
    let mut ledger = ready_ledger();
    let holder_a = addr(1);
    let holder_b = addr(2);

    ledger.mint_tokens(&holder_a, 1_000_000_000).unwrap();
    assert_eq!(balance_of(&ledger, &holder_a), Some(1_000_000_000));

    ledger
        .transfer_to_pda(&holder_a, &holder_a, 400_000_000)
        .unwrap();
    assert_eq!(balance_of(&ledger, &holder_a), Some(600_000_000));
    assert_eq!(ledger.vault.as_ref().unwrap().balance, 400_000_000);

    ledger.mint_tokens(&holder_b, 0).unwrap();
    ledger.transfer_from_pda(&holder_b, 100_000_000).unwrap();
    assert_eq!(ledger.vault.as_ref().unwrap().balance, 300_000_000);
    assert_eq!(balance_of(&ledger, &holder_b), Some(100_000_000));

    let held: u64 = ledger.holders.iter().map(|h| h.balance).sum::<u64>()
        + ledger.vault.as_ref().unwrap().balance;
    assert_eq!(held, ledger.asset.as_ref().unwrap().supply);

    ledger.vault.as_mut().unwrap().owner = addr(9);
    assert_eq!(
        ledger.transfer_from_pda(&holder_b, 1),
        Err(TokenError::AuthorityMismatch)
    );
    assert_eq!(ledger.vault.as_ref().unwrap().balance, 300_000_000);
    assert_eq!(balance_of(&ledger, &holder_b), Some(100_000_000));
    assert_eq!(balance_of(&ledger, &holder_a), Some(600_000_000));
}

#[test]
fn withdraw_refuses_tampered_counter() {
    let mut ledger = ready_ledger();
    let holder = addr(1);
    ledger.mint_tokens(&holder, 100).unwrap();
    ledger.transfer_to_pda(&holder, &holder, 50).unwrap();
    ledger.vault.as_mut().unwrap().bump = ledger.vault.as_ref().unwrap().bump.wrapping_add(1);
    assert_eq!(
        ledger.transfer_from_pda(&holder, 10),
        Err(TokenError::AuthorityMismatch)
    );
    assert_eq!(ledger.vault.as_ref().unwrap().balance, 50);
}

#[test]
fn deposit_requires_known_holder_and_matching_authority() {
    let mut ledger = ready_ledger();
    let holder = addr(1);
    let stranger = addr(3);
    assert_eq!(
        ledger.transfer_to_pda(&holder, &holder, 5),
        Err(TokenError::UnknownHolder)
    );

    ledger.mint_tokens(&holder, 100).unwrap();
    assert_eq!(
        ledger.transfer_to_pda(&holder, &stranger, 5),
        Err(TokenError::AuthorityMismatch)
    );
    assert_eq!(balance_of(&ledger, &holder), Some(100));
}

#[test]
fn deposit_refuses_insufficient_funds() {
    let mut ledger = ready_ledger();
    let holder = addr(1);
    ledger.mint_tokens(&holder, 100).unwrap();
    assert_eq!(
        ledger.transfer_to_pda(&holder, &holder, 101),
        Err(TokenError::InsufficientFunds)
    );
    assert_eq!(balance_of(&ledger, &holder), Some(100));
    assert_eq!(ledger.vault.as_ref().unwrap().balance, 0);
}

#[test]
fn withdraw_requires_known_destination_and_funds() {
    let mut ledger = ready_ledger();
    let holder = addr(1);
    ledger.mint_tokens(&holder, 100).unwrap();
    ledger.transfer_to_pda(&holder, &holder, 60).unwrap();

    assert_eq!(
        ledger.transfer_from_pda(&addr(3), 10),
        Err(TokenError::UnknownHolder)
    );
    assert_eq!(
        ledger.transfer_from_pda(&holder, 61),
        Err(TokenError::InsufficientFunds)
    );
    ledger.transfer_from_pda(&holder, 60).unwrap();
    assert_eq!(balance_of(&ledger, &holder), Some(100));
    assert_eq!(ledger.vault.as_ref().unwrap().balance, 0);
}
