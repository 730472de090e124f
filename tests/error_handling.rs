use vault_backend::error_handling::{
    is_retryable_error, is_retryable_lowered, is_retryable_message, RetryConfig, RetryState,
    VaultError,
};

#[test]
fn test_retry_config_defaults() {
    let config = RetryConfig::default();
    assert_eq!(config.max_attempts, 3);
    assert_eq!(config.initial_delay_ms, 100);
    assert_eq!(config.max_delay_ms, 5000);
}

#[test]
fn test_insufficient_balance_error() {
    let err = VaultError::InsufficientBalance {
        required: 1000,
        available: 500,
    };
    let msg = err.message();
    assert!(msg.contains("1000"));
    assert!(msg.contains("500"));
}

#[test]
fn test_unauthorized_access_error() {
    let err = VaultError::UnauthorizedAccess {
        user: "user1".to_string(),
        vault: "vault1".to_string(),
    };
    let msg = err.message();
    assert!(msg.contains("user1"));
    assert!(msg.contains("vault1"));
}

#[test]
fn test_is_retryable_error_timeout() {
    let err = anyhow::Error::msg("Request timeout");
    assert!(is_retryable_error(&err));
}

#[test]
fn test_is_retryable_error_connection() {
    let err = anyhow::Error::msg("Connection refused");
    assert!(is_retryable_error(&err));
}

#[test]
fn test_is_not_retryable_error() {
    let err = anyhow::Error::msg("Invalid account");
    assert!(!is_retryable_error(&err));
}

#[test]
fn error_messages_are_exact() {
    let err = VaultError::InsufficientBalance { required: 1000, available: 500 };
    assert_eq!(err.message(), "Not enough balance: need 1000 but only have 500");
    let err = VaultError::InvalidAmount { amount: 0 };
    assert_eq!(err.message(), "Invalid amount: 0");
    let err = VaultError::AccountNotFound { account: "abc".to_string() };
    assert_eq!(err.message(), "Account abc doesn't exist");
}

#[test]
fn retryable_words_are_case_insensitive() {
    assert!(is_retryable_message("Service TEMPORARILY down"));
    assert!(is_retryable_message("node Unavailable"));
    assert!(is_retryable_message("Rate Limit exceeded"));
    assert!(!is_retryable_message("rate-limit"));
    assert!(!is_retryable_message(""));
    assert!(is_retryable_lowered("connection reset"));
    assert!(!is_retryable_lowered("CONNECTION reset"));
}

/// Runs `outcomes` (true = success, else the failure message) under the retry
/// policy; returns (succeeded, attempts made, waits taken).
fn run_with_retries(config: &RetryConfig, outcomes: &[Result<(), &str>]) -> (bool, u32, Vec<u64>) {
    let mut state = RetryState::start(config);
    let mut waits = Vec::new();
    let mut next = 0;
    loop {
        state.begin_attempt();
        let outcome = outcomes[next];
        next += 1;
        match outcome {
            Ok(()) => return (true, state.attempt, waits),
            Err(message) => match state.after_failure(config, is_retryable_message(message)) {
                Some(wait) => waits.push(wait),
                None => return (false, state.attempt, waits),
            },
        }
    }
}

#[test]
fn retry_succeeds_after_two_connection_failures() {
    let config = RetryConfig::default();
    let outcomes = [Err("connection refused"), Err("connection refused"), Ok(())];
    let (ok, attempts, waits) = run_with_retries(&config, &outcomes);
    assert!(ok);
    assert_eq!(attempts, 3);
    assert_eq!(waits, vec![100, 200]);
}

#[test]
fn retry_gives_up_at_once_on_terminal_error() {
    let config = RetryConfig::default();
    let outcomes = [Err("invalid account"), Ok(())];
    let (ok, attempts, waits) = run_with_retries(&config, &outcomes);
    assert!(!ok);
    assert_eq!(attempts, 1);
    assert!(waits.is_empty());
}

#[test]
fn retry_stops_when_attempts_are_used_up() {
    let config = RetryConfig::default();
    let outcomes = [Err("timeout"), Err("timeout"), Err("timeout"), Ok(())];
    let (ok, attempts, waits) = run_with_retries(&config, &outcomes);
    assert!(!ok);
    assert_eq!(attempts, 3);
    assert_eq!(waits, vec![100, 200]);
}

#[test]
fn retry_delay_is_capped() {
    let config = RetryConfig { max_attempts: 10, initial_delay_ms: 3000, max_delay_ms: 5000, backoff_multiplier: 2 };
    let mut state = RetryState::start(&config);
    state.begin_attempt();
    assert_eq!(state.after_failure(&config, true), Some(3000));
    assert_eq!(state.delay_ms, 5000);
    state.begin_attempt();
    assert_eq!(state.after_failure(&config, true), Some(5000));
    assert_eq!(state.delay_ms, 5000);
}

#[test]
fn retryable_error_follows_its_message() {
    assert!(is_retryable_error(&anyhow::Error::msg("Service Temporarily Unavailable")));
    assert!(!is_retryable_error(&anyhow::Error::msg("account not found")));
}
