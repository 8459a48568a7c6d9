use bank_ledger::bank::ledger::{Constraint, Ledger, StoreError};
use bank_ledger::bank::payments::Status;
use bank_ledger::bank::refunds::CreateError;

#[test]
fn payment_constraints_are_checked_in_order() {
    let mut ledger = Ledger::new();
    let p = ledger.insert_payment(1, 100, "111111111111111", Status::Approved, 10).unwrap();
    assert_eq!((p.id, p.amount, p.refunded_amount, p.inserted_at, p.updated_at), (1, 100, 0, 10, 10));
    assert_eq!(
        ledger.insert_payment(2, 0, "222222222222222", Status::Approved, 10),
        Err(StoreError::CheckViolation(Constraint::PaymentsAmountCheck))
    );
    assert_eq!(
        ledger.insert_payment(1, 100, "111111111111111", Status::Approved, 10),
        Err(StoreError::UniqueViolation(Constraint::PaymentsCardNumberIndex))
    );
    assert_eq!(
        ledger.insert_payment(1, 100, "222222222222222", Status::Approved, 10),
        Err(StoreError::UniqueViolation(Constraint::PaymentsPkey))
    );
    assert_eq!(ledger.payment_count(), 1);
}

#[test]
fn refund_ids_are_unique() {
    let mut ledger = Ledger::new();
    ledger.insert_payment(1, 100, "111111111111111", Status::Approved, 10).unwrap();
    let r = ledger.refund(7, 1, 30, 11).unwrap();
    assert_eq!((r.id, r.payment_id, r.amount, r.inserted_at), (7, 1, 30, 11));
    assert_eq!(
        ledger.refund(7, 1, 30, 12),
        Err(CreateError::Database(StoreError::UniqueViolation(Constraint::RefundsPkey)))
    );
    assert_eq!(ledger.find_payment(1).unwrap().refunded_amount, 30);
    assert_eq!(ledger.refund_count(), 1);
    assert_eq!(ledger.find_refund(7), Ok(r));
}

#[test]
fn refunds_of_one_payment_leave_others_alone() {
    let mut ledger = Ledger::new();
    ledger.insert_payment(1, 100, "111111111111111", Status::Approved, 10).unwrap();
    ledger.insert_payment(2, 100, "222222222222222", Status::Approved, 10).unwrap();
    ledger.refund(10, 1, 100, 11).unwrap();
    assert_eq!(ledger.refund(11, 1, 1, 11), Err(CreateError::ExcessiveAmount));
    ledger.refund(12, 2, 40, 11).unwrap();
    assert_eq!(ledger.find_payment(1).unwrap().refunded_amount, 100);
    assert_eq!(ledger.find_payment(2).unwrap().refunded_amount, 40);
    assert_eq!(ledger.find_payment(2).unwrap().status, Status::Approved);
}
