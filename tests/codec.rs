use vault_backend::codec::{decode_events, event_kind, log_line_record, parse_event, EventKind, ParseError, VaultEvent};
use vault_backend::keys::Key;

fn encode(bytes: &[u8]) -> String {
    base64::Engine::encode(&base64::engine::general_purpose::STANDARD, bytes)
}

fn deposit_record(user: [u8; 32], amount: u64, new_balance: u64, timestamp: i64) -> Vec<u8> {
    let mut d = vec![120u8, 248, 61, 83, 31, 142, 107, 144];
    d.extend_from_slice(&user);
    d.extend_from_slice(&amount.to_le_bytes());
    d.extend_from_slice(&new_balance.to_le_bytes());
    d.extend_from_slice(&timestamp.to_le_bytes());
    d
}

#[test]
fn parses_a_deposit_record() {
    let data = deposit_record([1; 32], 500, 500, 1100);
    match parse_event(&data) {
        Ok(Some(VaultEvent::Deposit { user, amount, new_balance, timestamp })) => {
            assert_eq!(user, Key { bytes: [1; 32] }.to_text());
            assert_eq!(amount, 500);
            assert_eq!(new_balance, 500);
            assert_eq!(timestamp, 1100);
        }
        other => panic!("unexpected {:?}", other),
    }
}

#[test]
fn parses_withdraw_lock_unlock_transfer() {
    let mut w = vec![51u8, 224, 133, 106, 74, 173, 72, 82];
    w.extend_from_slice(&[2; 32]);
    w.extend_from_slice(&[3; 32]);
    w.extend_from_slice(&50u64.to_le_bytes());
    match parse_event(&w) {
        Ok(Some(VaultEvent::Withdraw { vault, user, amount })) => {
            assert_eq!(vault, Key { bytes: [2; 32] }.to_text());
            assert_eq!(user, Key { bytes: [3; 32] }.to_text());
            assert_eq!(amount, 50);
        }
        other => panic!("unexpected {:?}", other),
    }
    let mut l = vec![185u8, 146, 119, 8, 41, 179, 88, 96];
    l.extend_from_slice(&[4; 32]);
    l.extend_from_slice(&400u64.to_le_bytes());
    assert!(matches!(parse_event(&l), Ok(Some(VaultEvent::Lock { amount: 400, .. }))));
    let mut u = vec![195u8, 248, 152, 155, 116, 178, 189, 221];
    u.extend_from_slice(&[4; 32]);
    u.extend_from_slice(&400u64.to_le_bytes());
    assert!(matches!(parse_event(&u), Ok(Some(VaultEvent::Unlock { amount: 400, .. }))));
    let mut t = vec![119u8, 180, 79, 171, 178, 67, 120, 237];
    t.extend_from_slice(&[5; 32]);
    t.extend_from_slice(&[6; 32]);
    t.extend_from_slice(&200u64.to_le_bytes());
    assert!(matches!(parse_event(&t), Ok(Some(VaultEvent::Transfer { amount: 200, .. }))));
}

#[test]
fn parses_initialisation_and_authority_records() {
    let mut v = vec![180u8, 43, 207, 2, 18, 71, 3, 75];
    v.extend_from_slice(&[7; 32]);
    v.extend_from_slice(&[8; 32]);
    v.extend_from_slice(&[9; 32]);
    v.extend_from_slice(&(-5i64).to_le_bytes());
    match parse_event(&v) {
        Ok(Some(VaultEvent::VaultInitialized { vault, owner, mint, timestamp })) => {
            assert_eq!(vault, Key { bytes: [7; 32] }.to_text());
            assert_eq!(owner, Key { bytes: [8; 32] }.to_text());
            assert_eq!(mint, Key { bytes: [9; 32] }.to_text());
            assert_eq!(timestamp, -5);
        }
        other => panic!("unexpected {:?}", other),
    }
    let mut a = vec![95u8, 255, 252, 53, 25, 33, 57, 40];
    a.extend_from_slice(&[0; 32]);
    match parse_event(&a) {
        Ok(Some(VaultEvent::VaultAuthorityInitialized { admin })) => {
            assert_eq!(admin, "11111111111111111111111111111111");
        }
        other => panic!("unexpected {:?}", other),
    }
    let mut p = vec![59u8, 38, 123, 101, 35, 35, 172, 29];
    p.extend_from_slice(&[0; 32]);
    assert!(matches!(parse_event(&p), Ok(Some(VaultEvent::ProgramAuthorized { .. }))));
}

#[test]
fn short_and_unknown_records_yield_nothing() {
    assert!(matches!(parse_event(&vec![1, 2, 3]), Ok(None)));
    assert!(matches!(parse_event(&vec![0u8; 40]), Ok(None)));
    assert_eq!(event_kind(&vec![120u8, 248, 61, 83, 31, 142, 107]), None);
    assert_eq!(event_kind(&vec![120u8, 248, 61, 83, 31, 142, 107, 144]), Some(EventKind::Deposit));
}

#[test]
fn malformed_known_record_is_an_error() {
    let mut data = deposit_record([1; 32], 1, 1, 1);
    data.pop();
    assert_eq!(
        parse_event(&data).err(),
        Some(ParseError { kind: EventKind::Deposit, payload_len: 55 })
    );
    let mut longer = deposit_record([1; 32], 1, 1, 1);
    longer.push(0);
    assert!(parse_event(&longer).is_err());
}

#[test]
fn log_lines_are_filtered_and_decoded() {
    let rec = deposit_record([1; 32], 500, 500, 1100);
    let line = format!("Program log: {}", encode(&rec));
    assert_eq!(log_line_record(&line), Some(rec.clone()));
    assert_eq!(log_line_record("Program log: hello world!"), None);
    assert_eq!(log_line_record("Program data: AAAA"), None);
    assert_eq!(log_line_record("Program log: A"), None);
    let logs = vec![
        "Program 9hhW invoke [1]".to_string(),
        "Program log: Instruction: Deposit".to_string(),
        line.clone(),
        format!("Program log: {}", encode(&[1, 2, 3])),
        format!("Program log: {}", encode(&[0u8; 16])),
        line,
    ];
    let events = decode_events(&logs).unwrap();
    assert_eq!(events.len(), 2);
    assert!(matches!(events[0], VaultEvent::Deposit { amount: 500, .. }));
}

#[test]
fn malformed_record_in_logs_fails_the_transaction() {
    let mut bad = deposit_record([1; 32], 1, 1, 1);
    bad.truncate(20);
    let logs = vec![format!("Program log: {}", encode(&bad))];
    assert_eq!(decode_events(&logs).err().map(|e| e.kind), Some(EventKind::Deposit));
    assert_eq!(decode_events(&Vec::new()).map(|e| e.len()).ok(), Some(0));
}
