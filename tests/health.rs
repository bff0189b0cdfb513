use rust_engine::health::{health_check, healthy_message, STATUS_OK};

#[test]
fn health_check_answers_ok_with_fixed_text() {
    let reply = health_check();
    assert_eq!(reply.status, 200);
    assert_eq!(reply.status, STATUS_OK);
    assert_eq!(reply.body, "Rust Financial Engine is healthy!");
}

#[test]
fn health_check_is_the_same_on_every_call() {
    let first = health_check();
    for _ in 0..5 {
        let again = health_check();
        assert_eq!(again.status, first.status);
        assert_eq!(again.body, first.body);
        assert!(!again.body.is_empty());
    }
}

#[test]
fn healthy_message_appends_the_suffix() {
    assert_eq!(healthy_message("Ledger"), "Ledger is healthy!");
    assert_eq!(healthy_message(""), " is healthy!");
}
