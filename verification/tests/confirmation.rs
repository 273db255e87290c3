use raisin::pending::{PendingTransaction, TxState, CONFIRMATION_DEPTH};

#[test]
fn lifecycle_reaches_confirmed_at_depth() {
    let mut tx = PendingTransaction::submit(CONFIRMATION_DEPTH);
    assert!(matches!(tx.state, TxState::Submitted));
    tx.accept();
    assert!(matches!(tx.state, TxState::Confirming));
    // No premature success: five confirmations are not enough for six.
    assert!(!tx.observe(5));
    assert!(matches!(tx.state, TxState::Confirming));
    assert_eq!(tx.observed, 5);
    // Success exactly when the sixth is observed.
    assert!(tx.observe(6));
    assert!(matches!(tx.state, TxState::Confirmed));
    assert_eq!(tx.observed, 6);
}

#[test]
fn zero_confirmations_do_not_confirm() {
    let mut tx = PendingTransaction::submit(CONFIRMATION_DEPTH);
    tx.accept();
    assert!(!tx.observe(0));
    assert!(matches!(tx.state, TxState::Confirming));
}

#[test]
fn more_than_the_depth_also_confirms() {
    let mut tx = PendingTransaction::submit(CONFIRMATION_DEPTH);
    tx.accept();
    assert!(tx.observe(12));
    assert!(matches!(tx.state, TxState::Confirmed));
}

#[test]
fn a_dropped_transaction_is_terminal() {
    let mut tx = PendingTransaction::submit(CONFIRMATION_DEPTH);
    tx.accept();
    tx.mark_failed();
    assert!(matches!(tx.state, TxState::Failed));
}
