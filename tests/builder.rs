use vault_backend::api::{
    build_tx_response, get_balance, get_transactions, get_tvl, prepare_deposit,
    prepare_initialize_vault, prepare_withdraw, ApiError, AppState, DepositRequest,
    InitializeVaultRequest, WithdrawRequest,
};
use vault_backend::cpi_manager::{CPIManager, CpiError};
use vault_backend::keys::{Key, TOKEN_2022_PROGRAM_BYTES};
use vault_backend::program_repo::ProgramRepository;
use vault_backend::records::TransactionRepository;
use vault_backend::reconciliation::{token_balance_of, ReconcileError, ReconciliationRepository, ReconciliationWorker};
use vault_backend::transaction_builder::{
    TransactionBuilder, ASSOCIATED_TOKEN_PROGRAM_BYTES, RENT_SYSVAR_BYTES, SYSTEM_PROGRAM_BYTES,
};
use vault_backend::vault_repo::VaultRepository;

const PROGRAM: &str = "9hhWr2GoSnXJmpaddFkgUFKfyG4fioZPf2GWtEGmQMWZ";

fn program() -> Key {
    Key::parse(PROGRAM).unwrap()
}

fn key(n: u8) -> Key {
    Key { bytes: [n; 32] }
}

fn decode(text: &str) -> Vec<u8> {
    base64::Engine::decode(&base64::engine::general_purpose::STANDARD, text).unwrap()
}

#[test]
fn key_text_round_trip() {
    assert_eq!(key(1).to_text(), "4vJ9JU1bJJE96FWSJKvHsmmFADCg4gpZQff4P3bkLKi");
    assert_eq!(key(200).to_text(), "EWn7dE93GeQJu72WEkEmC5MZpm5FhiJzkcJEf1xpRdWP");
    assert_eq!(program().to_text(), PROGRAM);
    assert_eq!(Key::parse("4vJ9JU1bJJE96FWSJKvHsmmFADCg4gpZQff4P3bkLKi"), Some(key(1)));
    assert_eq!(Key::parse("not a key"), None);
    assert_eq!(Key::parse(""), None);
}

#[test]
fn derived_addresses_match_the_derivation() {
    let b = TransactionBuilder::new(program());
    let (vault, bump) = b.derive_vault_pda(&key(1)).unwrap();
    assert_eq!(vault.to_text(), "CJyFDEoj1HAH61nYJ26pGMq5vNbRe8PoTWNmHGkkKHQB");
    assert_eq!(bump, 254);
    let (auth, _) = b.derive_vault_authority_pda().unwrap();
    assert_eq!(auth.to_text(), "Bnecfu7QEMFN4Et1ENgmAaHSVH7Cw7zKoynxxbAPu6pT");
    let ata = b.associated_token_account(&key(1), &key(200)).unwrap();
    assert_eq!(ata.to_text(), "DgWNFWCPpJVfHjmC1RJaZgCL2buBJZLkqNkr53GZvCSb");
    let vault_ata = b.associated_token_account(&vault, &key(200)).unwrap();
    assert_eq!(vault_ata.to_text(), "5rBsNnj5A8bvbVsCtdJvcc3BQr29qaeczi97wGxz2itr");
}

#[test]
fn deposit_instruction_layout() {
    let b = TransactionBuilder::new(program());
    let ix = b.build_deposit_ix(&key(1), &key(200), 1_000_000_000).unwrap();
    assert_eq!(ix.program_id, program());
    let mut data = vec![242u8, 35, 198, 137, 82, 225, 242, 182];
    data.extend_from_slice(&1_000_000_000u64.to_le_bytes());
    assert_eq!(ix.data, data);
    assert_eq!(ix.accounts.len(), 6);
    let (vault, _) = b.derive_vault_pda(&key(1)).unwrap();
    assert_eq!(ix.accounts[0].pubkey, key(1));
    assert!(ix.accounts[0].is_signer && ix.accounts[0].is_writable);
    assert_eq!(ix.accounts[1].pubkey, vault);
    assert_eq!(ix.accounts[2].pubkey, b.associated_token_account(&key(1), &key(200)).unwrap());
    assert_eq!(ix.accounts[3].pubkey, b.associated_token_account(&vault, &key(200)).unwrap());
    assert_eq!(ix.accounts[4].pubkey, key(200));
    assert!(!ix.accounts[4].is_writable);
    assert_eq!(ix.accounts[5].pubkey.bytes, TOKEN_2022_PROGRAM_BYTES);
}

#[test]
fn withdraw_and_initialize_layouts() {
    let b = TransactionBuilder::new(program());
    let (vault, bump) = b.derive_vault_pda(&key(1)).unwrap();
    let w = b.build_withdraw_ix(&key(1), &key(200), 7).unwrap();
    assert_eq!(&w.data[..8], &[183u8, 18, 70, 156, 148, 109, 161, 34]);
    assert_eq!(&w.data[8..], &7u64.to_le_bytes());
    assert_eq!(w.accounts[2].pubkey, b.associated_token_account(&vault, &key(200)).unwrap());
    assert_eq!(w.accounts[3].pubkey, b.associated_token_account(&key(1), &key(200)).unwrap());
    let i = b.build_initialize_vault_ix(&key(1), &key(200)).unwrap();
    assert_eq!(i.data, vec![48u8, 191, 163, 44, 71, 129, 63, 164, bump]);
    assert_eq!(i.accounts.len(), 8);
    assert_eq!(i.accounts[1].pubkey, key(200));
    assert_eq!(i.accounts[2].pubkey, vault);
    assert_eq!(i.accounts[4].pubkey.bytes, SYSTEM_PROGRAM_BYTES);
    assert_eq!(i.accounts[4].pubkey.to_text(), "11111111111111111111111111111111");
    assert_eq!(i.accounts[6].pubkey.bytes, ASSOCIATED_TOKEN_PROGRAM_BYTES);
    assert_eq!(i.accounts[6].pubkey.to_text(), "ATokenGPvbdGVxr1b2hvZbsiqW5xWH25efTNsLJA8knL");
    assert_eq!(i.accounts[7].pubkey.bytes, RENT_SYSVAR_BYTES);
    assert_eq!(i.accounts[7].pubkey.to_text(), "SysvarRent111111111111111111111111111111111");
    assert_eq!(i.accounts[5].pubkey.to_text(), "TokenzQdBNbLqP5VEhdkAS6EPFLC1PHnBqCXEpPxuEb");
}

#[test]
fn collateral_instruction_layouts() {
    let b = TransactionBuilder::new(program());
    let (vault, _) = b.derive_vault_pda(&key(1)).unwrap();
    let (auth, _) = b.derive_vault_authority_pda().unwrap();
    let l = b.build_lock_collateral_ix(&key(9), &key(1), 400).unwrap();
    assert_eq!(&l.data[..8], &[161u8, 216, 135, 122, 12, 104, 211, 101]);
    assert_eq!(&l.data[8..], &400u64.to_le_bytes());
    assert_eq!(l.accounts.len(), 3);
    assert_eq!(l.accounts[0].pubkey, key(9));
    assert!(!l.accounts[0].is_writable && !l.accounts[0].is_signer);
    assert_eq!(l.accounts[1].pubkey, vault);
    assert!(l.accounts[1].is_writable);
    assert_eq!(l.accounts[2].pubkey, auth);
    let u = b.build_unlock_collateral_ix(&key(9), &key(1), 400).unwrap();
    assert_eq!(&u.data[..8], &[167u8, 213, 221, 147, 129, 209, 132, 190]);
}

#[test]
fn unsigned_transaction_payload() {
    let b = TransactionBuilder::new(program());
    let ix = b.build_deposit_ix(&key(1), &key(200), 5).unwrap();
    let resp = build_tx_response(&ix, &key(1), &key(77)).unwrap();
    let bytes = decode(&resp.transaction);
    let tx: solana_sdk::transaction::Transaction = bincode::deserialize(&bytes).unwrap();
    assert_eq!(tx.message.recent_blockhash.to_bytes(), [77u8; 32]);
    assert_eq!(tx.message.account_keys[0].to_bytes(), [1u8; 32]);
    assert_eq!(tx.message.instructions.len(), 1);
    assert_eq!(tx.message.instructions[0].data, ix.data);
    assert_eq!(tx.signatures.len(), 1);
}

#[test]
fn cpi_requires_an_authorized_caller() {
    let cpi = CPIManager::new(program());
    let mut registry = ProgramRepository::new();
    let r = cpi.build_lock_collateral_tx(&mut registry, &key(9), &key(50), &key(1), &key(200), 400, 10, 1000, &key(77));
    assert_eq!(r, Err(CpiError::UnauthorizedCaller));
    assert_eq!(registry.call_count(), 0);
    registry.insert_authorized_program(&key(9).to_text(), &key(3).to_text(), 0);
    let r = cpi.build_lock_collateral_tx(&mut registry, &key(9), &key(50), &key(1), &key(200), 400, 10, 1000, &key(77)).unwrap();
    let tx: solana_sdk::transaction::Transaction = bincode::deserialize(&decode(&r)).unwrap();
    assert_eq!(tx.message.instructions[0].data[..8], [161u8, 216, 135, 122, 12, 104, 211, 101]);
    assert_eq!(registry.call_count(), 1);
    let call = registry.call_at(0);
    assert_eq!(call.instruction, "lock");
    assert_eq!(call.amount, Some(400));
    assert_eq!(call.caller_program, key(9).to_text());
    assert_eq!(call.vault_pda, key(50).to_text());
    assert_eq!(call.tx_signature, "");
    assert!(cpi.build_unlock_collateral_tx(&mut registry, &key(9), &key(50), &key(1), &key(200), 400, 11, 1001, &key(77)).is_ok());
    assert_eq!(cpi.build_unlock_collateral_tx(&mut registry, &key(8), &key(50), &key(1), &key(200), 1, 1, 1, &key(77)), Err(CpiError::UnauthorizedCaller));
}

#[test]
fn api_requests() {
    let state = AppState { program_id: program() };
    let bad = InitializeVaultRequest { user_pubkey: "bad key".to_string(), mint: key(200).to_text() };
    assert_eq!(prepare_initialize_vault(&state, &bad).err(), Some(ApiError::InvalidUserPubkey));
    let bad_mint = DepositRequest { user_pubkey: key(1).to_text(), mint: "0OIl".to_string(), amount: 1 };
    assert_eq!(prepare_deposit(&state, &bad_mint).err(), Some(ApiError::InvalidMint));
    let ok = WithdrawRequest { user_pubkey: key(1).to_text(), mint: key(200).to_text(), amount: 9 };
    let (ix, payer) = prepare_withdraw(&state, &ok).unwrap();
    assert_eq!(payer, key(1));
    assert_eq!(&ix.data[8..], &9u64.to_le_bytes());
    assert_eq!(ApiError::VaultNotFound.message(), "vault not found");
}

#[test]
fn api_balance_transactions_and_tvl() {
    let state = AppState { program_id: program() };
    let mut vaults = VaultRepository::new();
    assert_eq!(get_balance(&state, &vaults, &key(1).to_text()).err(), Some(ApiError::VaultNotFound));
    assert_eq!(get_balance(&state, &vaults, "???").err(), Some(ApiError::InvalidUserPubkey));
    let pda = TransactionBuilder::new(program()).derive_vault_pda(&key(1)).unwrap().0.to_text();
    vaults.insert_new_vault(&pda, &key(1).to_text(), &key(200).to_text(), 0);
    vaults.set_balance_from_event(&pda, 900, 1).unwrap();
    vaults.apply_lock(&pda, 100, 2).unwrap();
    let b = get_balance(&state, &vaults, &key(1).to_text()).unwrap();
    assert_eq!((b.total_balance, b.available_balance, b.locked_balance), (900, 800, 100));
    assert_eq!(b.vault_pda, pda);
    assert_eq!(get_tvl(&vaults).map(|t| t.tvl), Ok(900));
    let mut txs = TransactionRepository::new();
    txs.insert_simple(&pda, Some("U"), "a", "deposit", 5, 3, 0);
    txs.insert_simple(&pda, Some("U"), "b", "withdraw", 2, 9, 0);
    txs.insert_simple(&pda, Some("X"), "c", "deposit", 1, 5, 0);
    let r = get_transactions(&txs, "U");
    assert_eq!(r.transactions.len(), 2);
    assert_eq!(r.transactions[0].tx_signature, "b");
    assert_eq!(r.transactions[1].slot, 3);
}

#[test]
fn reconciliation_records_discrepancy() {
    let mut vaults = VaultRepository::new();
    vaults.insert_new_vault("A", "o1", "m", 0);
    vaults.set_balance_from_event("A", 1000, 1).unwrap();
    vaults.insert_new_vault("B", "o2", "m", 0);
    vaults.set_balance_from_event("B", 50, 1).unwrap();
    let worker = ReconciliationWorker::new(program());
    let mut log = ReconciliationRepository::new();
    assert_eq!(worker.run_once(&vaults, &vec![900, 50], 77, &mut log), Ok(()));
    assert_eq!(log.len(), 1);
    let e = log.row_at(0);
    assert_eq!(e.vault_pda, "A");
    assert_eq!(e.discrepancy, 100);
    assert_eq!(e.onchain_balance, 900);
    assert_eq!(e.offchain_balance, 1000);
    assert_eq!(e.detected_at, 77);
    assert!(!e.resolved);
    assert_eq!(worker.run_once(&vaults, &vec![900, 50], 78, &mut log), Ok(()));
    assert_eq!(log.len(), 2);
    assert_ne!(log.row_at(0).id, log.row_at(1).id);
    assert_eq!(worker.run_once(&vaults, &vec![u64::MAX], 79, &mut log), Err(ReconcileError::BalanceOutOfRange));
    assert_eq!(log.len(), 2);
}

#[test]
fn token_account_amount() {
    let mut data = vec![0u8; 165];
    data[64..72].copy_from_slice(&900u64.to_le_bytes());
    data[108] = 1;
    assert_eq!(token_balance_of(&data), Some(900));
    data[108] = 0;
    assert_eq!(token_balance_of(&data), None);
    assert_eq!(token_balance_of(&vec![0u8; 10]), None);
}
