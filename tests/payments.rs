use bank_ledger::bank::accounts::DummyService;
use bank_ledger::bank::ledger::{Constraint, Ledger, StoreError};
use bank_ledger::bank::payments::{
    create, create_error_from_store, get, record, record_payment, validate_payment_inputs,
    AccountServiceError, CreateError, InvalidArgumentError, Status,
};
use bank_ledger::bank::accounts::HoldRef;
use bank_ledger::bank_web::payments::{
    post, status_from_error, RequestBody, RequestData, ResponseBody,
};
use bank_ledger::bank_web::{
    self, BAD_REQUEST, CREATED, FORBIDDEN, INTERNAL_SERVER_ERROR, NOT_FOUND, NO_CONTENT, OK,
    PAYMENT_REQUIRED, SERVICE_UNAVAILABLE, UNPROCESSABLE_ENTITY,
};
use uuid::Uuid;

const PAYMENT_AMOUNT: i32 = 1_23;
const PAYMENT_STATUS: Status = Status::Approved;

fn new_test_card() -> String {
    format!("{:015}", Uuid::new_v4().as_u128() % 1_000_000_000_000_000)
}

fn do_payment(
    ledger: &mut Ledger,
    service: &mut DummyService,
    payment_amount: i32,
    payment_card_number: String,
    expected_status_code: u16,
    expected_status: Status,
) -> ResponseBody {
    let request_body = RequestBody {
        payment: RequestData {
            amount: payment_amount,
            card_number: payment_card_number,
        },
    };
    let (status_code, response_body) = post(ledger, service, request_body.clone());
    assert_eq!(status_code, expected_status_code);
    assert_eq!(response_body.data.amount, request_body.payment.amount);
    assert_eq!(
        response_body.data.card_number,
        request_body.payment.card_number
    );
    assert_eq!(response_body.data.status, expected_status);
    assert!((expected_status_code == CREATED) ^ (response_body.data.id == 0));
    response_body
}

#[test]
fn test_payment() {
    let mut ledger = Ledger::new();
    let card_number = new_test_card();
    let payment = ledger
        .insert_payment(
            Uuid::new_v4().as_u128(),
            PAYMENT_AMOUNT,
            card_number.as_str(),
            PAYMENT_STATUS,
            0,
        )
        .expect("failed to create payment");

    assert_eq!(payment.amount, PAYMENT_AMOUNT);
    assert_eq!(payment.status, PAYMENT_STATUS);
}

#[test]
fn record_passes_the_hold_answer_on() {
    let mut ledger = Ledger::new();
    let card = new_test_card();
    let refused = record(
        &mut ledger,
        Err(AccountServiceError::ServiceUnavailable),
        500,
        card.as_str(),
        Status::Approved,
    );
    assert_eq!(refused, Err(CreateError::AccountService(AccountServiceError::ServiceUnavailable)));
    assert_eq!(ledger.payment_count(), 0);
    let p = record(&mut ledger, Ok(HoldRef { id: 3 }), 500, card.as_str(), Status::Approved).unwrap();
    assert_ne!(p.id, 0);
    assert_eq!((p.amount, p.refunded_amount, p.status), (500, 0, Status::Approved));
    assert_eq!(p.card_number, card);
    let again = record(&mut ledger, Ok(HoldRef { id: 4 }), 700, card.as_str(), Status::Approved);
    assert_eq!(again, Err(CreateError::DuplicatedCardNumber));
}

#[test]
fn should_approve_valid_payment() {
    let mut ledger = Ledger::new();
    let mut service = DummyService::new_test();
    do_payment(&mut ledger, &mut service, 12_05, new_test_card(), CREATED, Status::Approved);
}

#[test]
fn should_decline_payment_and_return_402_with_insufficient_funds() {
    let mut ledger = Ledger::new();
    let mut service = DummyService::new_test_with_response(AccountServiceError::InsufficientFunds);
    do_payment(&mut ledger, &mut service, 12_05, new_test_card(), PAYMENT_REQUIRED, Status::Declined);
}

#[test]
fn should_decline_payment_and_return_403_for_invalid_account_number() {
    let mut ledger = Ledger::new();
    let mut service =
        DummyService::new_test_with_response(AccountServiceError::InvalidAccountNumber);
    do_payment(&mut ledger, &mut service, 12_05, new_test_card(), FORBIDDEN, Status::Declined);
}

#[test]
fn should_fail_payment_and_return_503_for_service_unavailable() {
    let mut ledger = Ledger::new();
    let mut service =
        DummyService::new_test_with_response(AccountServiceError::ServiceUnavailable);
    do_payment(&mut ledger, &mut service, 12_05, new_test_card(), SERVICE_UNAVAILABLE, Status::Failed);
}

#[test]
fn should_fail_payment_and_return_500_for_internal_error() {
    let mut ledger = Ledger::new();
    let mut service = DummyService::new_test_with_response(AccountServiceError::InternalError);
    do_payment(&mut ledger, &mut service, 12_05, new_test_card(), INTERNAL_SERVER_ERROR, Status::Failed);
}

#[test]
fn should_return_204_for_zero_amount() {
    let mut ledger = Ledger::new();
    let mut service = DummyService::new_test();
    do_payment(&mut ledger, &mut service, 0, new_test_card(), NO_CONTENT, Status::Declined);
}

#[test]
fn should_return_400_for_negative_amount() {
    let mut ledger = Ledger::new();
    let mut service = DummyService::new_test();
    do_payment(&mut ledger, &mut service, -1_00, new_test_card(), BAD_REQUEST, Status::Declined);
}

#[test]
fn should_return_422_for_invalid_card_format() {
    let mut ledger = Ledger::new();
    let mut service = DummyService::new_test();
    let mut invalid_card_number = new_test_card();
    invalid_card_number.truncate(invalid_card_number.len() - 1);
    do_payment(
        &mut ledger,
        &mut service,
        1_23,
        invalid_card_number,
        UNPROCESSABLE_ENTITY,
        Status::Declined,
    );
}

#[test]
fn should_return_422_for_existing_card_number() {
    let mut ledger = Ledger::new();
    let mut service = DummyService::new_test();
    let payment_card_number = new_test_card();
    do_payment(
        &mut ledger,
        &mut service,
        1_23,
        payment_card_number.clone(),
        CREATED,
        Status::Approved,
    );
    do_payment(
        &mut ledger,
        &mut service,
        1_23,
        payment_card_number,
        UNPROCESSABLE_ENTITY,
        Status::Declined,
    );
}

#[test]
fn zero_amount_asks_nothing_of_the_account_service() {
    let mut ledger = Ledger::new();
    let mut service = DummyService::new_test();
    let r = create(&mut ledger, &mut service, 0, new_test_card().as_str(), Status::Approved);
    assert_eq!(r, Err(CreateError::InvalidArgument(InvalidArgumentError::ZeroAmount)));
    assert_eq!(service.holds_placed(), 0);
    assert_eq!(ledger.payment_count(), 0);
    do_payment(&mut ledger, &mut service, 0, new_test_card(), NO_CONTENT, Status::Declined);
    assert_eq!(service.holds_placed(), 0);
    assert_eq!(ledger.payment_count(), 0);
}

#[test]
fn refused_arguments_ask_nothing_of_the_account_service() {
    let mut ledger = Ledger::new();
    let mut service = DummyService::new_test();
    let r = create(&mut ledger, &mut service, -5, new_test_card().as_str(), Status::Approved);
    assert_eq!(r, Err(CreateError::InvalidArgument(InvalidArgumentError::NegativeAmount)));
    let r = create(&mut ledger, &mut service, 500, "12345678901234a", Status::Approved);
    assert_eq!(r, Err(CreateError::InvalidArgument(InvalidArgumentError::InvalidCardFormat)));
    let r = create(&mut ledger, &mut service, 500, "", Status::Approved);
    assert_eq!(r, Err(CreateError::InvalidArgument(InvalidArgumentError::InvalidCardFormat)));
    assert_eq!(service.holds_placed(), 0);
    assert_eq!(ledger.payment_count(), 0);
    create(&mut ledger, &mut service, 500, new_test_card().as_str(), Status::Approved).unwrap();
    assert_eq!(service.holds_placed(), 1);
}

#[test]
fn card_number_format_is_fifteen_digits() {
    assert_eq!(validate_payment_inputs(1, "123456789012345"), Ok(()));
    assert_eq!(
        validate_payment_inputs(1, "1234567890123456"),
        Err(InvalidArgumentError::InvalidCardFormat)
    );
    assert_eq!(
        validate_payment_inputs(1, "12345678901234"),
        Err(InvalidArgumentError::InvalidCardFormat)
    );
    assert_eq!(
        validate_payment_inputs(1, "123456789012345\n"),
        Err(InvalidArgumentError::InvalidCardFormat)
    );
    assert_eq!(
        validate_payment_inputs(1, " 123456789012345"),
        Err(InvalidArgumentError::InvalidCardFormat)
    );
    assert_eq!(
        validate_payment_inputs(-1, "not a card"),
        Err(InvalidArgumentError::NegativeAmount)
    );
    assert_eq!(
        validate_payment_inputs(0, "not a card"),
        Err(InvalidArgumentError::ZeroAmount)
    );
}

#[test]
fn same_card_number_is_accepted_once() {
    let card = new_test_card();
    let mut ledger = Ledger::new();
    let mut service = DummyService::new_test();
    let first = create(&mut ledger, &mut service, 1_000, card.as_str(), Status::Approved);
    let second = create(&mut ledger, &mut service, 2_000, card.as_str(), Status::Approved);
    assert!(first.is_ok());
    assert_eq!(second, Err(CreateError::DuplicatedCardNumber));
    assert_eq!(ledger.payment_count(), 1);
}

#[test]
fn created_payment_is_found_by_id() {
    let mut ledger = Ledger::new();
    let mut service = DummyService::new_test();
    let card = new_test_card();
    let payment = create(&mut ledger, &mut service, 12_05, card.as_str(), Status::Approved).unwrap();
    assert_ne!(payment.id, 0);
    assert_eq!(payment.refunded_amount, 0);
    assert_eq!(payment.card_number, card);
    assert_eq!(payment.inserted_at, payment.updated_at);
    assert!(payment.inserted_at > 1_600_000_000);
    assert_eq!(get(&ledger, payment.id), Ok(payment.clone()));
    assert_eq!(get(&ledger, payment.id.wrapping_add(1)), Err(StoreError::RowNotFound));

    let other = create(&mut ledger, &mut service, 7, new_test_card().as_str(), Status::Approved).unwrap();
    assert_ne!(other.id, payment.id);

    let (code, body) = bank_web::payments::get(&ledger, payment.id);
    assert_eq!(code, OK);
    let body = body.unwrap();
    assert_eq!(body.data.id, payment.id);
    assert_eq!(body.data.amount, 12_05);
    assert_eq!(body.data.card_number, card);
    assert_eq!(body.data.status, Status::Approved);
    let (code, body) = bank_web::payments::get(&ledger, 0);
    assert_eq!(code, NOT_FOUND);
    assert!(body.is_none());
}

#[test]
fn status_table_follows_the_server_error_rule() {
    let cases = [
        (CreateError::InvalidArgument(InvalidArgumentError::NegativeAmount), 400, Status::Declined),
        (CreateError::InvalidArgument(InvalidArgumentError::ZeroAmount), 204, Status::Declined),
        (CreateError::InvalidArgument(InvalidArgumentError::InvalidCardFormat), 422, Status::Declined),
        (CreateError::DuplicatedCardNumber, 422, Status::Declined),
        (CreateError::AccountService(AccountServiceError::InsufficientFunds), 402, Status::Declined),
        (CreateError::AccountService(AccountServiceError::InvalidAccountNumber), 403, Status::Declined),
        (CreateError::AccountService(AccountServiceError::ServiceUnavailable), 503, Status::Failed),
        (CreateError::AccountService(AccountServiceError::InternalError), 500, Status::Failed),
        (CreateError::Database(StoreError::RowNotFound), 500, Status::Failed),
    ];
    for (e, code, status) in cases {
        assert_eq!(status_from_error(e), (code, status));
    }
    assert!(bank_web::is_server_error(500));
    assert!(bank_web::is_server_error(599));
    assert!(!bank_web::is_server_error(499));
    assert!(!bank_web::is_server_error(600));
}

#[test]
fn store_refusals_are_told_apart() {
    assert_eq!(
        create_error_from_store(StoreError::UniqueViolation(Constraint::PaymentsCardNumberIndex)),
        CreateError::DuplicatedCardNumber
    );
    assert_eq!(
        create_error_from_store(StoreError::UniqueViolation(Constraint::PaymentsPkey)),
        CreateError::Database(StoreError::UniqueViolation(Constraint::PaymentsPkey))
    );

    let mut ledger = Ledger::new();
    let hold = Ok(HoldRef { id: 1 });
    let p = record_payment(&mut ledger, hold, 9, 100, "111111111111111", Status::Approved, 5).unwrap();
    assert_eq!(p.id, 9);
    assert_eq!(p.inserted_at, 5);
    let clash = record_payment(&mut ledger, hold, 9, 100, "222222222222222", Status::Approved, 6);
    assert_eq!(
        clash,
        Err(CreateError::Database(StoreError::UniqueViolation(Constraint::PaymentsPkey)))
    );
    let dup = record_payment(&mut ledger, hold, 10, 100, "111111111111111", Status::Approved, 6);
    assert_eq!(dup, Err(CreateError::DuplicatedCardNumber));
    let refused = record_payment(
        &mut ledger,
        Err(AccountServiceError::InsufficientFunds),
        11,
        100,
        "333333333333333",
        Status::Approved,
        6,
    );
    assert_eq!(refused, Err(CreateError::AccountService(AccountServiceError::InsufficientFunds)));
    assert_eq!(ledger.payment_count(), 1);
}
