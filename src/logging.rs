use vstd::prelude::*;
use crate::text::{lit, owned_text, push_text, decimal_of};

verus! {

#[verifier::external_type_specification]
#[verifier::external_body]
pub struct ExInstant(std::time::Instant);

/// Relies on `std::time::Instant::now`: the current monotonic time.
#[verifier::external_body]
fn instant_now() -> std::time::Instant {
    std::time::Instant::now()
}

/// Relies on `std::time::Instant::elapsed`: the time since `start`.
#[verifier::external_body]
fn elapsed_since(start: &std::time::Instant) -> std::time::Duration {
    start.elapsed()
}

/// Relies on `std::time::Duration::as_millis`: whole milliseconds.
#[verifier::external_body]
fn whole_millis(d: &std::time::Duration) -> u128 {
    d.as_millis()
}

/// Relies on `u128`'s `Display` through `ToString::to_string`: decimal digits
/// without sign or leading zeros.
#[verifier::external_body]
fn decimal_text_wide(n: u128) -> (r: String)
    ensures
        r@ == decimal_of(n as nat),
{
    n.to_string()
}

pub open spec fn completion_text(name: Seq<char>, elapsed: u128) -> Seq<char> {
    lit("[OPERATION_COMPLETE] ") + name + lit(": ") + decimal_of(elapsed as nat) + lit("ms")
}

pub open spec fn slow_text(name: Seq<char>, elapsed: u128, threshold: u128) -> Seq<char> {
    lit("[SLOW_OPERATION] ") + name + lit(": ") + decimal_of(elapsed as nat) + lit("ms (threshold: ")
        + decimal_of(threshold as nat) + lit("ms)")
}

/// The completion line of an operation that took `elapsed_ms`.
pub fn completion_message(operation_name: &str, elapsed_ms: u128) -> (r: String)
    ensures
        r@ == completion_text(operation_name@, elapsed_ms),
{
    let mut s = owned_text("[OPERATION_COMPLETE] ");
    push_text(&mut s, operation_name);
    push_text(&mut s, ": ");
    push_text(&mut s, decimal_text_wide(elapsed_ms).as_str());
    push_text(&mut s, "ms");
    s
}

/// The warning for an operation that took longer than `threshold_ms`, and
/// `None` when it did not.
pub fn slow_message(operation_name: &str, elapsed_ms: u128, threshold_ms: u128) -> (r: Option<String>)
    ensures
        elapsed_ms > threshold_ms ==> (r matches Some(s) && s@ == slow_text(operation_name@, elapsed_ms, threshold_ms)),
        elapsed_ms <= threshold_ms ==> r is None,
{
    if elapsed_ms <= threshold_ms {
        return None;
    }
    let mut s = owned_text("[SLOW_OPERATION] ");
    push_text(&mut s, operation_name);
    push_text(&mut s, ": ");
    push_text(&mut s, decimal_text_wide(elapsed_ms).as_str());
    push_text(&mut s, "ms (threshold: ");
    push_text(&mut s, decimal_text_wide(threshold_ms).as_str());
    push_text(&mut s, "ms)");
    Some(s)
}

/// Measures how long a named operation takes.
pub struct OperationTimer {
    start: std::time::Instant,
    operation_name: String,
}

impl OperationTimer {
    pub closed spec fn name(&self) -> Seq<char> {
        self.operation_name@
    }

    /// Starts timing now.
    pub fn new(operation_name: &str) -> (r: OperationTimer)
        ensures
            r.name() == operation_name@,
    {
        OperationTimer { start: instant_now(), operation_name: owned_text(operation_name) }
    }

    /// Whole milliseconds since the timer started.
    pub fn elapsed_ms(&self) -> u128 {
        let d = elapsed_since(&self.start);
        whole_millis(&d)
    }

    /// The completion line with the time taken so far.
    pub fn log_completion(&self) -> (r: String)
        ensures
            exists|elapsed: u128| r@ == #[trigger] completion_text(self.name(), elapsed),
    {
        let elapsed = self.elapsed_ms();
        let r = completion_message(self.operation_name.as_str(), elapsed);
        assert(r@ == completion_text(self.name(), elapsed));
        r
    }

    /// A warning when the time taken so far exceeds `threshold_ms`.
    pub fn log_if_slow(&self, threshold_ms: u128) -> (r: Option<String>)
        ensures
            r matches Some(s) ==> exists|elapsed: u128|
                elapsed > threshold_ms && s@ == #[trigger] slow_text(self.name(), elapsed, threshold_ms),
    {
        let elapsed = self.elapsed_ms();
        let r = slow_message(self.operation_name.as_str(), elapsed, threshold_ms);
        if let Some(s) = &r {
            assert(s@ == slow_text(self.name(), elapsed, threshold_ms));
        }
        r
    }
}

} // verus!
