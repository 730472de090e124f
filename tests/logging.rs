use vault_backend::logging::{completion_message, slow_message, OperationTimer};

#[test]
fn test_timer_creation() {
    let timer = OperationTimer::new("test_operation");
    assert!(timer.elapsed_ms() >= 0);
}

#[test]
fn timer_messages() {
    assert_eq!(completion_message("op", 12), "[OPERATION_COMPLETE] op: 12ms");
    assert_eq!(slow_message("slow_op", 50, 100), None);
    assert_eq!(
        slow_message("slow_op2", 150, 100),
        Some("[SLOW_OPERATION] slow_op2: 150ms (threshold: 100ms)".to_string())
    );
    let timer = OperationTimer::new("quick");
    assert!(timer.log_completion().starts_with("[OPERATION_COMPLETE] quick: "));
    assert_eq!(timer.log_if_slow(1_000_000), None);
}
