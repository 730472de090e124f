use vault_backend::codec::VaultEvent;
use vault_backend::indexer::{ConfirmedTransaction, IndexError, Ledger};
use vault_backend::keys::Key;
use vault_backend::records::TransactionRepository;
use vault_backend::transaction_builder::TransactionBuilder;
use vault_backend::vault_repo::{LedgerError, VaultRepository};

fn program() -> Key {
    Key::parse("9hhWr2GoSnXJmpaddFkgUFKfyG4fioZPf2GWtEGmQMWZ").unwrap()
}

fn user(n: u8) -> Key {
    Key { bytes: [n; 32] }
}

fn vault_of(owner: &Key) -> String {
    TransactionBuilder::new(program()).derive_vault_pda(owner).unwrap().0.to_text()
}

/// A ledger holding one vault for `owner`, initialised at t=1000, with
/// `total` deposited.
fn ledger_with_vault(owner: &Key, total: u64) -> Ledger {
    let mut ledger = Ledger::new();
    let events = vec![
        VaultEvent::VaultInitialized {
            vault: vault_of(owner),
            owner: owner.to_text(),
            mint: user(200).to_text(),
            timestamp: 1000,
        },
        VaultEvent::Deposit { user: owner.to_text(), amount: total, new_balance: total, timestamp: 1100 },
    ];
    ledger.apply_events(&program(), "setup", &events, 1, Some(1100), 1100).unwrap();
    ledger
}

fn balances(ledger: &Ledger, vault: &str) -> (i64, i64, i64, i64, i64) {
    let v = ledger.vaults().get_vault(vault).unwrap();
    (v.total_balance, v.available_balance, v.locked_balance, v.total_deposited, v.total_withdrawn)
}

fn assert_invariants(ledger: &Ledger) {
    let all = ledger.vaults().get_all_vaults();
    for v in all.iter() {
        assert_eq!(v.total_balance, v.available_balance + v.locked_balance);
        assert!(0 <= v.locked_balance && v.locked_balance <= v.total_balance);
    }
    let txs = ledger.transactions();
    for i in 0..txs.len() {
        assert!(ledger.processed().is_processed(&txs.row_at(i).tx_signature));
    }
}

#[test]
fn initialize_then_deposit() {
    let u = user(1);
    let ledger = ledger_with_vault(&u, 500);
    assert_eq!(balances(&ledger, &vault_of(&u)), (500, 500, 0, 500, 0));
    let v = ledger.vaults().get_vault(&vault_of(&u)).unwrap();
    assert_eq!(v.created_at, 1000);
    assert_eq!(v.last_synced_at, 1100);
    assert_eq!(v.owner_pubkey, u.to_text());
    assert_eq!(v.network, "localnet");
    assert_eq!(ledger.transactions().len(), 1);
    assert_eq!(ledger.transactions().row_at(0).tx_type, "deposit");
    assert_eq!(ledger.transactions().row_at(0).amount, 500);
    assert_invariants(&ledger);
}

#[test]
fn lock_then_unlock_round_trip() {
    let u = user(2);
    let v = vault_of(&u);
    let mut ledger = ledger_with_vault(&u, 1000);
    let lock = vec![VaultEvent::Lock { vault: v.clone(), amount: 400 }];
    ledger.apply_events(&program(), "lock-sig", &lock, 2, Some(1200), 1200).unwrap();
    assert_eq!(balances(&ledger, &v), (1000, 600, 400, 1000, 0));
    assert_invariants(&ledger);
    let unlock = vec![VaultEvent::Unlock { vault: v.clone(), amount: 400 }];
    ledger.apply_events(&program(), "unlock-sig", &unlock, 3, Some(1300), 1300).unwrap();
    assert_eq!(balances(&ledger, &v), (1000, 1000, 0, 1000, 0));
    assert_invariants(&ledger);
}

#[test]
fn transfer_conserves_tvl() {
    let a = user(3);
    let b = user(4);
    let (va, vb) = (vault_of(&a), vault_of(&b));
    let mut ledger = Ledger::new();
    let setup = vec![
        VaultEvent::VaultInitialized { vault: va.clone(), owner: a.to_text(), mint: user(200).to_text(), timestamp: 1 },
        VaultEvent::VaultInitialized { vault: vb.clone(), owner: b.to_text(), mint: user(200).to_text(), timestamp: 1 },
    ];
    ledger.apply_events(&program(), "init", &setup, 1, Some(1), 1).unwrap();
    let da = vec![VaultEvent::Deposit { user: a.to_text(), amount: 1000, new_balance: 1000, timestamp: 2 }];
    ledger.apply_events(&program(), "dep-a", &da, 2, Some(2), 2).unwrap();
    let db = vec![VaultEvent::Deposit { user: b.to_text(), amount: 500, new_balance: 500, timestamp: 3 }];
    ledger.apply_events(&program(), "dep-b", &db, 3, Some(3), 3).unwrap();
    assert_eq!(ledger.vaults().get_tvl(), Ok(1500));
    let t = vec![VaultEvent::Transfer { from: va.clone(), to: vb.clone(), amount: 200 }];
    ledger.apply_events(&program(), "xfer", &t, 4, Some(4), 4).unwrap();
    assert_eq!(balances(&ledger, &va).0, 800);
    assert_eq!(balances(&ledger, &vb).0, 700);
    assert_eq!(ledger.vaults().get_tvl(), Ok(1500));
    assert_invariants(&ledger);
}

#[test]
fn replay_is_a_no_op() {
    let u = user(5);
    let v = vault_of(&u);
    let mut ledger = ledger_with_vault(&u, 100);
    let w = vec![VaultEvent::Withdraw { vault: v.clone(), user: u.to_text(), amount: 50 }];
    ledger.apply_events(&program(), "S", &w, 9, Some(2000), 2000).unwrap();
    assert_eq!(balances(&ledger, &v), (50, 50, 0, 100, 50));
    let rows = ledger.transactions().len();
    let snaps = ledger.snapshots().len();
    assert_eq!(ledger.apply_events(&program(), "S", &w, 9, Some(2000), 2001), Ok(()));
    assert_eq!(balances(&ledger, &v), (50, 50, 0, 100, 50));
    assert_eq!(ledger.transactions().len(), rows);
    assert_eq!(ledger.snapshots().len(), snaps);
    assert!(ledger.processed().is_processed("S"));
}

#[test]
fn refused_event_rolls_back_the_whole_signature() {
    let u = user(6);
    let v = vault_of(&u);
    let mut ledger = ledger_with_vault(&u, 100);
    let events = vec![
        VaultEvent::Withdraw { vault: v.clone(), user: u.to_text(), amount: 30 },
        VaultEvent::Lock { vault: v.clone(), amount: 500 },
    ];
    let r = ledger.apply_events(&program(), "bad", &events, 10, Some(3000), 3000);
    assert_eq!(r, Err(IndexError::Ledger(LedgerError::InsufficientBalance)));
    assert_eq!(balances(&ledger, &v), (100, 100, 0, 100, 0));
    assert_eq!(ledger.transactions().len(), 1);
    assert!(!ledger.processed().is_processed("bad"));
}

#[test]
fn snapshots_taken_at_block_time() {
    let u = user(7);
    let ledger = ledger_with_vault(&u, 300);
    assert_eq!(ledger.snapshots().len(), 1);
    let s = ledger.snapshots().row_at(0);
    assert_eq!(s.snapshot_time, 1100);
    assert_eq!(s.total_balance, 300);
    assert_eq!(s.vault_pda, vault_of(&u));
}

#[test]
fn vault_pda_is_deterministic_and_differs_by_owner() {
    let b = TransactionBuilder::new(program());
    let (first, first_bump) = b.derive_vault_pda(&user(8)).unwrap();
    let (again, again_bump) = b.derive_vault_pda(&user(8)).unwrap();
    let (other, _) = b.derive_vault_pda(&user(9)).unwrap();
    assert_eq!(first, again);
    assert_eq!(first_bump, again_bump);
    assert_ne!(first, other);
    assert_ne!(first, user(8));
}

#[test]
fn counters_track_withdrawals() {
    let u = user(10);
    let v = vault_of(&u);
    let mut ledger = ledger_with_vault(&u, 1000);
    let w = vec![VaultEvent::Withdraw { vault: v.clone(), user: u.to_text(), amount: 300 }];
    ledger.apply_events(&program(), "w1", &w, 5, None, 5).unwrap();
    let (total, _, _, deposited, withdrawn) = balances(&ledger, &v);
    assert_eq!(total, 700);
    assert_eq!(deposited - withdrawn, total);
    let d = vec![VaultEvent::Deposit { user: u.to_text(), amount: 100, new_balance: 800, timestamp: 6 }];
    ledger.apply_events(&program(), "d2", &d, 6, None, 6).unwrap();
    let (total, available, _, deposited, withdrawn) = balances(&ledger, &v);
    assert_eq!((total, available), (800, 800));
    assert_eq!(deposited - withdrawn, total);
    assert_eq!(ledger.snapshots().len(), 1);
}

#[test]
fn missing_vault_is_left_alone() {
    let mut repo = VaultRepository::new();
    assert_eq!(repo.apply_withdraw("nowhere", 5, 1), Ok(()));
    assert_eq!(repo.len(), 0);
    assert_eq!(repo.get_tvl(), Ok(0));
}

fn repo_with_balance(total: u64) -> VaultRepository {
    let mut repo = VaultRepository::new();
    repo.insert_new_vault("V", "owner", "mint", 0);
    repo.set_balance_from_event("V", total, 1).unwrap();
    repo
}

#[test]
fn vault_manager_test_deposit_request_creation() {
    let amount = 1_000_000_000u64;
    let repo = repo_with_balance(amount);
    let v = repo.get_vault("V").unwrap();
    assert!(v.total_balance > 0);
    assert_eq!(v.total_balance, 1_000_000_000);
}

#[test]
fn vault_manager_test_withdrawal_validation() {
    let mut repo = repo_with_balance(1_000_000_000);
    assert_eq!(repo.apply_withdraw("V", 500_000_000, 2), Ok(()));
    assert_eq!(repo.get_vault("V").unwrap().available_balance, 500_000_000);
}

#[test]
fn vault_manager_test_withdrawal_exceeds_balance() {
    let mut repo = repo_with_balance(500_000_000);
    assert_eq!(repo.apply_withdraw("V", 1_000_000_000, 2), Err(LedgerError::InsufficientBalance));
    assert_eq!(repo.get_vault("V").unwrap().available_balance, 500_000_000);
}

#[test]
fn vault_manager_test_balance_tracking() {
    let mut repo = repo_with_balance(1_000_000_000);
    repo.apply_lock("V", 500_000_000, 2).unwrap();
    let v = repo.get_vault("V").unwrap();
    assert_eq!(v.total_balance, 1_000_000_000);
    assert_eq!(v.locked_balance, 500_000_000);
    assert_eq!(v.available_balance, 500_000_000);
}

#[test]
fn vault_manager_test_multiple_deposits() {
    let mut repo = repo_with_balance(0);
    let mut running = 0u64;
    for deposit in [100_000_000u64, 200_000_000, 300_000_000] {
        running += deposit;
        repo.set_balance_from_event("V", running, 2).unwrap();
    }
    assert_eq!(repo.get_vault("V").unwrap().total_balance, 600_000_000);
}

#[test]
fn vault_manager_test_sequential_lock_unlock() {
    let mut repo = repo_with_balance(1_000_000_000);
    repo.apply_lock("V", 500_000_000, 2).unwrap();
    assert_eq!(repo.get_vault("V").unwrap().available_balance, 500_000_000);
    repo.apply_unlock("V", 500_000_000, 3).unwrap();
    assert_eq!(repo.get_vault("V").unwrap().available_balance, 1_000_000_000);
}

#[test]
fn vault_manager_test_zero_deposit_rejected() {
    let repo = repo_with_balance(0);
    let deposit_amount = repo.get_vault("V").unwrap().total_deposited;
    assert_eq!(deposit_amount, 0);
}

#[test]
fn vault_manager_test_transaction_history_ordering() {
    let mut txs = TransactionRepository::new();
    let transactions = [("deposit", 100), ("lock", 50), ("unlock", 50), ("withdraw", 100)];
    for (i, (tx_type, amount)) in transactions.iter().enumerate() {
        let sig = format!("sig{}", i);
        txs.insert_simple("V", Some("U"), &sig, tx_type, *amount, i as i64, 0);
    }
    let rows = txs.get_by_user("U");
    assert_eq!(rows.len(), 4);
    for row in rows.iter() {
        assert!(!row.tx_type.is_empty());
    }
    assert_eq!(rows[0].tx_type, "withdraw");
    assert_eq!(rows[3].tx_type, "deposit");
}

#[test]
fn vault_manager_test_vault_state_consistency() {
    let mut repo = repo_with_balance(1_000_000_000);
    repo.apply_lock("V", 400_000_000, 2).unwrap();
    let v = repo.get_vault("V").unwrap();
    assert!(v.locked_balance <= v.total_balance);
    assert_eq!(v.available_balance, 600_000_000);
    assert!(v.available_balance <= v.total_balance);
}

#[test]
fn vault_manager_tests_test_withdrawal_validation() {
    let mut repo = repo_with_balance(1_000_000_000);
    assert!(repo.apply_withdraw("V", 500_000_000, 2).is_ok());
}

#[test]
fn vault_manager_tests_test_withdrawal_exceeds_balance() {
    let mut repo = repo_with_balance(500_000_000);
    assert!(repo.apply_withdraw("V", 1_000_000_000, 2).is_err());
}

#[test]
fn vault_manager_tests_test_balance_tracking() {
    let mut repo = repo_with_balance(0);
    repo.set_balance_from_event("V", 1_000_000_000, 2).unwrap();
    repo.apply_lock("V", 500_000_000, 3).unwrap();
    let v = repo.get_vault("V").unwrap();
    assert_eq!(v.total_balance, 1_000_000_000);
    assert_eq!(v.locked_balance, 500_000_000);
    assert_eq!(v.available_balance, 500_000_000);
}

#[test]
fn vault_manager_tests_test_multiple_deposits() {
    let mut repo = repo_with_balance(0);
    let mut total_balance = 0u64;
    let deposits = vec![100_000_000u64, 200_000_000u64, 300_000_000u64];
    for deposit in deposits {
        total_balance += deposit;
        repo.set_balance_from_event("V", total_balance, 2).unwrap();
    }
    assert_eq!(repo.get_vault("V").unwrap().total_balance, 600_000_000);
    assert_eq!(repo.get_vault("V").unwrap().total_deposited, 600_000_000);
}

#[test]
fn vault_manager_tests_test_sequential_lock_unlock() {
    let mut repo = repo_with_balance(1_000_000_000);
    repo.apply_lock("V", 500_000_000, 2).unwrap();
    let v = repo.get_vault("V").unwrap();
    assert_eq!(v.total_balance - v.locked_balance, 500_000_000);
    repo.apply_unlock("V", 500_000_000, 3).unwrap();
    let v = repo.get_vault("V").unwrap();
    assert_eq!(v.total_balance - v.locked_balance, 1_000_000_000);
}

#[test]
fn vault_manager_tests_test_zero_deposit_rejected() {
    let repo = repo_with_balance(0);
    let deposit_amount = repo.get_vault("V").unwrap().total_balance;
    assert_eq!(deposit_amount, 0, "Zero deposits should not be allowed");
}

#[test]
fn vault_manager_tests_test_transaction_history_ordering() {
    let mut txs = TransactionRepository::new();
    let transactions = vec![("deposit", 100), ("lock", 50), ("unlock", 50), ("withdraw", 100)];
    for (i, (tx_type, amount)) in transactions.iter().enumerate() {
        let sig = format!("s{}", i);
        txs.insert_simple("V", Some("U"), &sig, tx_type, *amount, 10, 0);
    }
    let rows = txs.get_by_user("U");
    assert_eq!(rows.len(), 4);
    for (i, row) in rows.iter().enumerate() {
        assert!(!row.tx_type.is_empty());
        assert_eq!(row.tx_type, transactions[i].0);
    }
}

#[test]
fn vault_manager_tests_test_vault_state_consistency() {
    let mut repo = repo_with_balance(1_000_000_000);
    repo.apply_lock("V", 400_000_000, 2).unwrap();
    let v = repo.get_vault("V").unwrap();
    assert!(v.locked_balance <= v.total_balance);
    assert_eq!(v.available_balance, 600_000_000);
    assert!(v.available_balance <= v.total_balance);
}

#[test]
fn overflow_is_refused() {
    let mut repo = repo_with_balance(i64::MAX as u64);
    assert_eq!(repo.set_balance_from_event("V", i64::MAX as u64 + 1, 2), Err(LedgerError::Overflow));
    let mut other = VaultRepository::new();
    other.insert_new_vault("W", "o", "m", 0);
    other.set_balance_from_event("W", 5, 1).unwrap();
    assert_eq!(other.apply_unlock("W", 1, 2), Err(LedgerError::InsufficientBalance));
}

#[test]
fn transaction_signatures_are_unique() {
    let mut txs = TransactionRepository::new();
    txs.insert_simple("V", None, "same", "deposit", 1, 1, 0);
    txs.insert_simple("V", None, "same", "withdraw", 2, 2, 0);
    assert_eq!(txs.len(), 1);
    assert_eq!(txs.row_at(0).tx_type, "deposit");
}

fn deposit_log(user: &Key, amount: u64, new_balance: u64, timestamp: i64) -> String {
    let mut d = vec![120u8, 248, 61, 83, 31, 142, 107, 144];
    d.extend_from_slice(&user.bytes);
    d.extend_from_slice(&amount.to_le_bytes());
    d.extend_from_slice(&new_balance.to_le_bytes());
    d.extend_from_slice(&timestamp.to_le_bytes());
    format!("Program log: {}", base64::Engine::encode(&base64::engine::general_purpose::STANDARD, d))
}

#[test]
fn process_transaction_from_logs() {
    let u = user(11);
    let v = vault_of(&u);
    let mut ledger = Ledger::new();
    ledger.insert_new_vault(&v, &u.to_text(), &user(200).to_text(), 1000);
    let tx = ConfirmedTransaction {
        signatures: vec!["sigA".to_string()],
        slot: 42,
        block_time: Some(1100),
        log_messages: vec!["Program log: Instruction: Deposit".to_string(), deposit_log(&u, 250, 250, 1100)],
    };
    assert_eq!(ledger.process_transaction(&program(), &tx, 5000), Ok(()));
    assert_eq!(balances(&ledger, &v), (250, 250, 0, 250, 0));
    assert_eq!(ledger.transactions().row_at(0).slot, 42);
    assert_eq!(ledger.transactions().row_at(0).block_time, 1100);
    assert_eq!(ledger.process_transaction(&program(), &tx, 6000), Ok(()));
    assert_eq!(ledger.transactions().len(), 1);
    assert_invariants(&ledger);

    let unsigned = ConfirmedTransaction { signatures: vec![], slot: 1, block_time: None, log_messages: vec![] };
    assert_eq!(ledger.process_transaction(&program(), &unsigned, 1), Err(IndexError::MissingSignature));

    let bad = ConfirmedTransaction {
        signatures: vec!["sigB".to_string()],
        slot: 43,
        block_time: Some(1200),
        log_messages: vec![format!("Program log: {}", base64::Engine::encode(&base64::engine::general_purpose::STANDARD, [120u8, 248, 61, 83, 31, 142, 107, 144, 0]))],
    };
    assert!(matches!(ledger.process_transaction(&program(), &bad, 1), Err(IndexError::Parse(_))));
    assert!(!ledger.processed().is_processed("sigB"));
    assert_eq!(balances(&ledger, &v), (250, 250, 0, 250, 0));
}
