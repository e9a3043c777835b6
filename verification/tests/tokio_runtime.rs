use soliton::tokio_runtime::{
    resolve_worker_stack_bytes, DEFAULT_WORKER_STACK_BYTES, MIN_WORKER_STACK_BYTES,
    WORKER_STACK_ENV,
};

#[test]
fn default_stack_when_env_missing_happy_path() {
    assert_eq!(resolve_worker_stack_bytes(None), DEFAULT_WORKER_STACK_BYTES);
}

#[test]
fn parses_valid_env_override_happy_path() {
    assert_eq!(resolve_worker_stack_bytes(Some("16777216")), 16 * 1024 * 1024);
}

#[test]
fn below_floor_and_invalid_fall_back_to_default() {
    assert_eq!(resolve_worker_stack_bytes(Some("1024")), DEFAULT_WORKER_STACK_BYTES);
    assert_eq!(resolve_worker_stack_bytes(Some("not-a-number")), DEFAULT_WORKER_STACK_BYTES);
}

#[test]
fn worker_stack_default_happy_path() {
    assert_eq!(resolve_worker_stack_bytes(None), DEFAULT_WORKER_STACK_BYTES);
}

#[test]
fn worker_stack_env_override_happy_path() {
    assert_eq!(resolve_worker_stack_bytes(Some("2097152")), 2 * 1024 * 1024);
}

#[test]
fn worker_stack_invalid_or_below_floor_falls_back_sad() {
    assert_eq!(resolve_worker_stack_bytes(Some("1024")), DEFAULT_WORKER_STACK_BYTES);
    assert_eq!(resolve_worker_stack_bytes(Some("not-a-number")), DEFAULT_WORKER_STACK_BYTES);
}

// ---- further cases ----

#[test]
fn worker_stack_edges() {
    assert_eq!(DEFAULT_WORKER_STACK_BYTES, 8 * 1024 * 1024);
    assert_eq!(WORKER_STACK_ENV, "SOLITON_WORKER_STACK_BYTES");
    assert_eq!(resolve_worker_stack_bytes(Some("1048576")), MIN_WORKER_STACK_BYTES);
    assert_eq!(resolve_worker_stack_bytes(Some("1048575")), DEFAULT_WORKER_STACK_BYTES);
    assert_eq!(resolve_worker_stack_bytes(Some("  4194304\n")), 4 * 1024 * 1024);
    assert_eq!(resolve_worker_stack_bytes(Some("+4194304")), 4 * 1024 * 1024);
    assert_eq!(resolve_worker_stack_bytes(Some("-4194304")), DEFAULT_WORKER_STACK_BYTES);
    assert_eq!(resolve_worker_stack_bytes(Some("4 MiB")), DEFAULT_WORKER_STACK_BYTES);
    assert_eq!(resolve_worker_stack_bytes(Some("")), DEFAULT_WORKER_STACK_BYTES);
    assert_eq!(
        resolve_worker_stack_bytes(Some("99999999999999999999999")),
        DEFAULT_WORKER_STACK_BYTES
    );
}
