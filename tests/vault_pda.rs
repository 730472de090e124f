use solana_sdk::signature::{Keypair, Signer};
use vault_backend::api::{prepare_deposit, AppState, DepositRequest};
use vault_backend::keys::Key;
use vault_backend::transaction_builder::TransactionBuilder;

fn create_test_tx_builder() -> TransactionBuilder {
    let program_id = Key::parse("9hhWr2GoSnXJmpaddFkgUFKfyG4fioZPf2GWtEGmQMWZ").expect("Invalid program ID");
    TransactionBuilder::new(program_id)
}

fn key_of(k: &Keypair) -> Key {
    Key { bytes: k.pubkey().to_bytes() }
}

fn default_key() -> Key {
    Key { bytes: [0; 32] }
}

#[test]
fn vault_manager_test_derive_vault_pda() {
    let tx_builder = create_test_tx_builder();
    let user = Keypair::new();

    let (pda, bump) = tx_builder.derive_vault_pda(&key_of(&user)).unwrap();

    assert_ne!(pda, default_key());
    assert!(bump > 0);
}

#[test]
fn vault_manager_test_derive_vault_pda_deterministic() {
    let tx_builder = create_test_tx_builder();
    let user = Keypair::new();

    let (pda1, bump1) = tx_builder.derive_vault_pda(&key_of(&user)).unwrap();
    let (pda2, bump2) = tx_builder.derive_vault_pda(&key_of(&user)).unwrap();

    assert_eq!(pda1, pda2);
    assert_eq!(bump1, bump2);
}

#[test]
fn vault_manager_test_different_users_different_pdas() {
    let tx_builder = create_test_tx_builder();
    let user1 = Keypair::new();
    let user2 = Keypair::new();

    let (pda1, _) = tx_builder.derive_vault_pda(&key_of(&user1)).unwrap();
    let (pda2, _) = tx_builder.derive_vault_pda(&key_of(&user2)).unwrap();

    assert_ne!(pda1, pda2);
}

#[test]
fn vault_manager_tests_test_derive_vault_pda() {
    let tx_builder = create_test_tx_builder();
    let user = Keypair::new();

    let (pda, bump) = tx_builder.derive_vault_pda(&key_of(&user)).unwrap();

    assert_ne!(pda, default_key());
    assert!(bump <= 255);
}

#[test]
fn vault_manager_tests_test_derive_vault_pda_deterministic() {
    let tx_builder = create_test_tx_builder();
    let user = Keypair::new();

    let (pda1, bump1) = tx_builder.derive_vault_pda(&key_of(&user)).unwrap();
    let (pda2, bump2) = tx_builder.derive_vault_pda(&key_of(&user)).unwrap();

    assert_eq!(pda1, pda2);
    assert_eq!(bump1, bump2);
}

#[test]
fn vault_manager_tests_test_different_users_different_pdas() {
    let tx_builder = create_test_tx_builder();
    let user1 = Keypair::new();
    let user2 = Keypair::new();

    let (pda1, _) = tx_builder.derive_vault_pda(&key_of(&user1)).unwrap();
    let (pda2, _) = tx_builder.derive_vault_pda(&key_of(&user2)).unwrap();

    assert_ne!(pda1, pda2);
}

#[test]
fn vault_manager_tests_test_deposit_request_creation() {
    let mint = Key { bytes: solana_sdk::pubkey::Pubkey::new_unique().to_bytes() };
    let amount = 1_000_000_000u64;

    assert!(amount > 0);
    assert_eq!(amount, 1_000_000_000);

    let state = AppState { program_id: create_test_tx_builder().program_id };
    let user = Keypair::new();
    let body = DepositRequest { user_pubkey: key_of(&user).to_text(), mint: mint.to_text(), amount };
    let (ix, _) = prepare_deposit(&state, &body).unwrap();
    assert_eq!(&ix.data[8..], &amount.to_le_bytes());
}
