use vault_backend::access_control::{AccessControlManager, AlertSeverity, SecurityEventType};

#[test]
fn test_authorize_user() {
    let mut acm = AccessControlManager::new();
    acm.authorize_user("vault1", "user1");

    assert!(acm.is_authorized("vault1", "user1"));
    assert!(!acm.is_authorized("vault1", "user2"));
}

#[test]
fn test_unauthorized_attempt_recording() {
    let mut acm = AccessControlManager::new();
    acm.record_unauthorized_attempt("attacker", "vault1", "unauthorized access", 0);

    let events = acm.get_security_events();
    assert_eq!(events.len(), 1);
    assert_eq!(events[0].event_type, SecurityEventType::UnauthorizedAccessAttempt);
}

#[test]
fn test_failed_attempts_tracking() {
    let mut acm = AccessControlManager::new();

    for _ in 0..3 {
        acm.record_unauthorized_attempt("attacker", "vault1", "attempt", 0);
    }

    assert_eq!(acm.get_failed_attempts("attacker"), 3);
    assert!(!acm.is_user_blocked("attacker"));

    for _ in 0..2 {
        acm.record_unauthorized_attempt("attacker", "vault1", "attempt", 0);
    }

    assert!(acm.is_user_blocked("attacker"));
}

#[test]
fn test_suspicious_withdrawal_alert() {
    let mut acm = AccessControlManager::new();
    acm.record_suspicious_withdrawal("user1", "vault1", 1_000_000_001, 100_000_000, 0);

    let critical_alerts = acm.get_alerts_by_severity(AlertSeverity::Critical);
    assert_eq!(critical_alerts.len(), 1);
    assert_eq!(critical_alerts[0].event_type, SecurityEventType::SuspiciousWithdrawal);
}

#[test]
fn test_rapid_transaction_detection() {
    let mut acm = AccessControlManager::new();
    acm.record_rapid_transactions("user1", "vault1", 10, 5, 0);

    let high_alerts = acm.get_alerts_by_severity(AlertSeverity::High);
    assert_eq!(high_alerts.len(), 1);
    assert_eq!(high_alerts[0].event_type, SecurityEventType::RapidTransactionSequence);
}

#[test]
fn test_clear_failed_attempts() {
    let mut acm = AccessControlManager::new();
    acm.record_unauthorized_attempt("user1", "vault1", "attempt", 0);

    assert_eq!(acm.get_failed_attempts("user1"), 1);

    acm.clear_failed_attempts("user1");
    assert_eq!(acm.get_failed_attempts("user1"), 0);
}

#[test]
fn suspicious_withdrawal_severity_threshold() {
    let mut acm = AccessControlManager::new();
    acm.record_suspicious_withdrawal("u", "v", 1_000_000_001, 100_000_000, 7);
    acm.record_suspicious_withdrawal("u", "v", 500_000_000, 100_000_000, 8);
    acm.record_suspicious_withdrawal("u", "v", 1_000_000_000, 100_000_000, 9);
    let events = acm.get_security_events();
    assert_eq!(events.len(), 3);
    assert_eq!(events[0].severity, AlertSeverity::Critical);
    assert_eq!(events[1].severity, AlertSeverity::Medium);
    assert_eq!(events[2].severity, AlertSeverity::Medium);
    assert_eq!(events[0].details, "Withdrawal: 1000000001 (usually around 100000000)");
    assert_eq!(events[0].timestamp, 7);
    assert_eq!(acm.get_alerts_by_severity(AlertSeverity::Critical).len(), 1);
    assert_eq!(acm.get_alerts_by_severity(AlertSeverity::Medium).len(), 3);
    assert_eq!(acm.get_alerts_by_severity(AlertSeverity::High).len(), 1);
}

#[test]
fn five_attempts_block_and_clearing_resets() {
    let mut acm = AccessControlManager::new();
    for _ in 0..5 {
        acm.record_unauthorized_attempt("mallory", "vault1", "attempt", 0);
    }
    assert_eq!(acm.get_failed_attempts("mallory"), 5);
    assert!(acm.is_user_blocked("mallory"));
    assert_eq!(acm.get_failed_attempts("alice"), 0);
    acm.clear_failed_attempts("mallory");
    assert_eq!(acm.get_failed_attempts("mallory"), 0);
    assert!(!acm.is_user_blocked("mallory"));
    let events = acm.get_security_events();
    assert_eq!(events.len(), 5);
    assert!(events.iter().all(|e| e.severity == AlertSeverity::High));
}

#[test]
fn authorized_users_keep_duplicates_and_vaults_apart() {
    let mut acm = AccessControlManager::new();
    acm.authorize_user("vault1", "user1");
    acm.authorize_user("vault1", "user1");
    acm.authorize_user("vault2", "user2");
    assert!(acm.is_authorized("vault1", "user1"));
    assert!(!acm.is_authorized("vault2", "user1"));
    assert!(acm.is_authorized("vault2", "user2"));
    assert!(!acm.is_authorized("vault3", "user2"));
}

#[test]
fn rapid_transactions_details() {
    let mut acm = AccessControlManager::new();
    acm.record_rapid_transactions("user1", "vault1", 10, 5, 3);
    let events = acm.get_security_events();
    assert_eq!(events[0].details, "10 transactions in 5 seconds");
    assert_eq!(events[0].severity, AlertSeverity::High);
}
