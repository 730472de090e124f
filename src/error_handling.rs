use vstd::prelude::*;
use crate::text::{lit, decimal_of, decimal_text, push_text, owned_text, contains_text, text_contains, text_chars};

verus! {

/// Bounded exponential backoff. The multiplier is a whole factor.
#[derive(Clone, Copy, Debug)]
pub struct RetryConfig {
    pub max_attempts: u32,
    pub initial_delay_ms: u64,
    pub max_delay_ms: u64,
    pub backoff_multiplier: u64,
}

impl Default for RetryConfig {
    /// Three attempts, 100 ms first delay, doubling, at most 5000 ms.
    fn default() -> (r: RetryConfig)
        ensures
            r.max_attempts == 3,
            r.initial_delay_ms == 100,
            r.max_delay_ms == 5000,
            r.backoff_multiplier == 2,
    {
        RetryConfig { max_attempts: 3, initial_delay_ms: 100, max_delay_ms: 5000, backoff_multiplier: 2 }
    }
}

/// Where a retried operation stands: attempts begun so far and the delay
/// before the next one.
#[derive(Clone, Copy, Debug, PartialEq, Eq, Structural)]
pub struct RetryState {
    pub attempt: u32,
    pub delay_ms: u64,
}

/// The delay that follows `delay`: multiplied, then capped.
pub open spec fn next_delay(config: RetryConfig, delay: int) -> int {
    let d = delay * config.backoff_multiplier;
    if d < config.max_delay_ms {
        d
    } else {
        config.max_delay_ms as int
    }
}

impl RetryState {
    /// No attempt begun, the first delay ready.
    pub fn start(config: &RetryConfig) -> (r: RetryState)
        ensures
            r.attempt == 0,
            r.delay_ms == config.initial_delay_ms,
    {
        RetryState { attempt: 0, delay_ms: config.initial_delay_ms }
    }

    /// Counts an attempt as begun (the count stops at `u32::MAX`).
    pub fn begin_attempt(&mut self)
        ensures
            final(self).delay_ms == old(self).delay_ms,
            final(self).attempt == if old(self).attempt < u32::MAX {
                (old(self).attempt + 1) as u32
            } else {
                u32::MAX
            },
    {
        if self.attempt < u32::MAX {
            self.attempt = self.attempt + 1;
        }
    }

    /// Decides after a failed attempt: `None` to surface the error (the
    /// attempts are used up, or the error is not retryable), or the delay to
    /// wait before the next attempt, with the delay then grown.
    pub fn after_failure(&mut self, config: &RetryConfig, retryable: bool) -> (r: Option<u64>)
        ensures
            (old(self).attempt >= config.max_attempts || !retryable) ==> r is None && *final(self)
                == *old(self),
            (old(self).attempt < config.max_attempts && retryable) ==> r == Some(old(self).delay_ms)
                && final(self).attempt == old(self).attempt && final(self).delay_ms == next_delay(
                *config,
                old(self).delay_ms as int,
            ),
    {
        if self.attempt >= config.max_attempts || !retryable {
            return None;
        }
        let wait = self.delay_ms;
        assert((self.delay_ms as u128) * (config.backoff_multiplier as u128) <= 0xffff_ffff_ffff_ffffu128 * 0xffff_ffff_ffff_ffffu128) by (nonlinear_arith)
            requires self.delay_ms <= 0xffff_ffff_ffff_ffffu64, config.backoff_multiplier <= 0xffff_ffff_ffff_ffffu64;
        let d: u128 = (self.delay_ms as u128) * (config.backoff_multiplier as u128);
        self.delay_ms = if d < config.max_delay_ms as u128 {
            d as u64
        } else {
            config.max_delay_ms
        };
        Some(wait)
    }
}

/// Lower-case text, as `str::to_lowercase` gives it.
pub uninterp spec fn lower_of(s: Seq<char>) -> Seq<char>;

/// Relies on `str::to_lowercase`: the result depends on the characters alone.
#[verifier::external_body]
fn lowercase(s: &str) -> (r: String)
    ensures
        r@ == lower_of(s@),
{
    s.to_lowercase()
}

/// The message of an error, as its `Display` writes it.
pub uninterp spec fn error_text(e: anyhow::Error) -> Seq<char>;

/// Relies on `anyhow::Error`'s `Display`: the error's message, which depends
/// on the error alone.
#[verifier::external_body]
fn error_message(e: &anyhow::Error) -> (r: String)
    ensures
        r@ == error_text(*e),
{
    e.to_string()
}

#[verifier::external_type_specification]
#[verifier::external_body]
pub struct ExAnyhowError(anyhow::Error);

pub open spec fn retry_words() -> Seq<Seq<char>> {
    seq![
        seq!['t', 'i', 'm', 'e', 'o', 'u', 't'],
        seq!['c', 'o', 'n', 'n', 'e', 'c', 't', 'i', 'o', 'n'],
        seq!['t', 'e', 'm', 'p', 'o', 'r', 'a', 'r', 'i', 'l', 'y'],
        seq!['u', 'n', 'a', 'v', 'a', 'i', 'l', 'a', 'b', 'l', 'e'],
        seq!['r', 'a', 't', 'e', ' ', 'l', 'i', 'm', 'i', 't'],
    ]
}

/// A lower-case message names a transient failure.
pub open spec fn retryable_text(lower: Seq<char>) -> bool {
    exists|k: int| 0 <= k < retry_words().len() && contains_text(lower, #[trigger] retry_words()[k])
}

/// Whether an already lower-cased message contains any of `timeout`,
/// `connection`, `temporarily`, `unavailable` or `rate limit`.
pub fn is_retryable_lowered(lower: &str) -> (r: bool)
    ensures
        r == retryable_text(lower@),
{
    let hay = text_chars(lower);
    let w0 = text_chars("timeout");
    let w1 = text_chars("connection");
    let w2 = text_chars("temporarily");
    let w3 = text_chars("unavailable");
    let w4 = text_chars("rate limit");
    proof {
        reveal_strlit("timeout");
        reveal_strlit("connection");
        reveal_strlit("temporarily");
        reveal_strlit("unavailable");
        reveal_strlit("rate limit");
        assert(w0@ =~= retry_words()[0]);
        assert(w1@ =~= retry_words()[1]);
        assert(w2@ =~= retry_words()[2]);
        assert(w3@ =~= retry_words()[3]);
        assert(w4@ =~= retry_words()[4]);
    }
    let r = text_contains(&hay, &w0) || text_contains(&hay, &w1) || text_contains(&hay, &w2)
        || text_contains(&hay, &w3) || text_contains(&hay, &w4);
    proof {
        if !r {
            assert forall|k: int| 0 <= k < retry_words().len() implies !contains_text(lower@, #[trigger] retry_words()[k]) by {
                if k == 0 {} else if k == 1 {} else if k == 2 {} else if k == 3 {} else {}
            };
        }
    }
    r
}

/// Whether a failure message is worth retrying: case-insensitively, it
/// contains one of the transient-failure words.
pub fn is_retryable_message(message: &str) -> (r: bool)
    ensures
        r == retryable_text(lower_of(message@)),
{
    let lower = lowercase(message);
    is_retryable_lowered(lower.as_str())
}

/// Whether an error is worth retrying, judged by its message.
pub fn is_retryable_error(error: &anyhow::Error) -> (r: bool)
    ensures
        r == retryable_text(lower_of(error_text(*error))),
{
    let message = error_message(error);
    is_retryable_message(message.as_str())
}

/// Errors of vault operations.
#[derive(Debug, Clone, PartialEq, Eq)]
pub enum VaultError {
    InsufficientBalance { required: u64, available: u64 },
    UnauthorizedAccess { user: String, vault: String },
    TransactionFailed { reason: String },
    RpcConnectionError { endpoint: String },
    AccountNotFound { account: String },
    InvalidAmount { amount: u64 },
    StateMismatch { expected: String, actual: String },
    LockingError { reason: String },
    SerializationError { reason: String },
}

/// The human-readable message of an error.
pub open spec fn message_of(e: VaultError) -> Seq<char> {
    match e {
        VaultError::InsufficientBalance { required, available } => lit("Not enough balance: need ")
            + decimal_of(required as nat) + lit(" but only have ") + decimal_of(available as nat),
        VaultError::UnauthorizedAccess { user, vault } => lit("User ") + user@ + lit(
            " doesn't have access to vault ",
        ) + vault@,
        VaultError::TransactionFailed { reason } => lit("Transaction failed: ") + reason@,
        VaultError::RpcConnectionError { endpoint } => lit("Can't connect to RPC at ") + endpoint@,
        VaultError::AccountNotFound { account } => lit("Account ") + account@ + lit(" doesn't exist"),
        VaultError::InvalidAmount { amount } => lit("Invalid amount: ") + decimal_of(amount as nat),
        VaultError::StateMismatch { expected, actual } => lit("State mismatch: expected ") + expected@
            + lit(" but got ") + actual@,
        VaultError::LockingError { reason } => lit("Can't lock collateral: ") + reason@,
        VaultError::SerializationError { reason } => lit("Serialization error: ") + reason@,
    }
}

impl VaultError {
    /// The human-readable message of the error.
    pub fn message(&self) -> (r: String)
        ensures
            r@ == message_of(*self),
    {
        match self {
            VaultError::InsufficientBalance { required, available } => {
                let mut s = owned_text("Not enough balance: need ");
                push_text(&mut s, decimal_text(*required).as_str());
                push_text(&mut s, " but only have ");
                push_text(&mut s, decimal_text(*available).as_str());
                s
            },
            VaultError::UnauthorizedAccess { user, vault } => {
                let mut s = owned_text("User ");
                push_text(&mut s, user.as_str());
                push_text(&mut s, " doesn't have access to vault ");
                push_text(&mut s, vault.as_str());
                s
            },
            VaultError::TransactionFailed { reason } => {
                let mut s = owned_text("Transaction failed: ");
                push_text(&mut s, reason.as_str());
                s
            },
            VaultError::RpcConnectionError { endpoint } => {
                let mut s = owned_text("Can't connect to RPC at ");
                push_text(&mut s, endpoint.as_str());
                s
            },
            VaultError::AccountNotFound { account } => {
                let mut s = owned_text("Account ");
                push_text(&mut s, account.as_str());
                push_text(&mut s, " doesn't exist");
                s
            },
            VaultError::InvalidAmount { amount } => {
                let mut s = owned_text("Invalid amount: ");
                push_text(&mut s, decimal_text(*amount).as_str());
                s
            },
            VaultError::StateMismatch { expected, actual } => {
                let mut s = owned_text("State mismatch: expected ");
                push_text(&mut s, expected.as_str());
                push_text(&mut s, " but got ");
                push_text(&mut s, actual.as_str());
                s
            },
            VaultError::LockingError { reason } => {
                let mut s = owned_text("Can't lock collateral: ");
                push_text(&mut s, reason.as_str());
                s
            },
            VaultError::SerializationError { reason } => {
                let mut s = owned_text("Serialization error: ");
                push_text(&mut s, reason.as_str());
                s
            },
        }
    }
}

} // verus!
