use vstd::prelude::*;

use crate::bank::accounts::AccountService;
use crate::bank::ledger::Ledger;
use crate::bank::payments::{
    self as ledger_payments, created_as_stated, validation_outcome, AccountServiceError,
    CreateError, InvalidArgumentError, Payment, Status,
};
use crate::bank_web::{
    is_server_error, server_error, BAD_REQUEST, CREATED, FORBIDDEN, INTERNAL_SERVER_ERROR,
    NOT_FOUND, NO_CONTENT, OK, PAYMENT_REQUIRED, SERVICE_UNAVAILABLE, UNPROCESSABLE_ENTITY,
};

verus! {

/// A payment as a caller asks for it.
#[derive(Debug, Clone, PartialEq, Eq)]
pub struct RequestData {
    pub amount: i32,
    pub card_number: String,
}

#[derive(Debug, Clone, PartialEq, Eq)]
pub struct RequestBody {
    pub payment: RequestData,
}

/// A payment as a caller is shown it. A payment that was not created is shown
/// with the id 0.
#[derive(Debug, Clone, PartialEq, Eq)]
pub struct ResponseData {
    pub id: u128,
    pub amount: i32,
    pub card_number: String,
    pub status: Status,
}

#[derive(Debug, Clone, PartialEq, Eq)]
pub struct ResponseBody {
    pub data: ResponseData,
}

/// The status code each failure to create a payment is answered with.
pub open spec fn status_code_of(e: CreateError) -> u16 {
    match e {
        CreateError::InvalidArgument(InvalidArgumentError::NegativeAmount) => BAD_REQUEST,
        CreateError::InvalidArgument(InvalidArgumentError::ZeroAmount) => NO_CONTENT,
        CreateError::InvalidArgument(InvalidArgumentError::InvalidCardFormat) => UNPROCESSABLE_ENTITY,
        CreateError::DuplicatedCardNumber => UNPROCESSABLE_ENTITY,
        CreateError::AccountService(AccountServiceError::InsufficientFunds) => PAYMENT_REQUIRED,
        CreateError::AccountService(AccountServiceError::InvalidAccountNumber) => FORBIDDEN,
        CreateError::AccountService(AccountServiceError::ServiceUnavailable) => SERVICE_UNAVAILABLE,
        CreateError::AccountService(AccountServiceError::InternalError) => INTERNAL_SERVER_ERROR,
        CreateError::Database(_) => INTERNAL_SERVER_ERROR,
    }
}

/// The status a refused payment is shown with: failed when the code reports a
/// server error, declined otherwise.
pub open spec fn shown_status(code: u16) -> Status {
    if server_error(code) {
        Status::Failed
    } else {
        Status::Declined
    }
}

/// Maps a failure to its status code, and to the status the payment is shown
/// with by the rule on server errors.
pub fn status_from_error(e: CreateError) -> (r: (u16, Status))
    ensures
        r.0 == status_code_of(e),
        r.1 == shown_status(r.0),
{
    let status_code = match e {
        CreateError::InvalidArgument(err) => match err {
            InvalidArgumentError::NegativeAmount => BAD_REQUEST,
            InvalidArgumentError::ZeroAmount => NO_CONTENT,
            InvalidArgumentError::InvalidCardFormat => UNPROCESSABLE_ENTITY,
        },
        CreateError::DuplicatedCardNumber => UNPROCESSABLE_ENTITY,
        CreateError::AccountService(err) => match err {
            AccountServiceError::InsufficientFunds => PAYMENT_REQUIRED,
            AccountServiceError::InvalidAccountNumber => FORBIDDEN,
            AccountServiceError::ServiceUnavailable => SERVICE_UNAVAILABLE,
            AccountServiceError::InternalError => INTERNAL_SERVER_ERROR,
        },
        CreateError::Database(_) => INTERNAL_SERVER_ERROR,
    };
    let status = if is_server_error(status_code) {
        Status::Failed
    } else {
        Status::Declined
    };
    (status_code, status)
}

/// `response` answers a request for `amount` on `card_number` whose outcome
/// was `result`.
pub open spec fn answers(
    response: (u16, ResponseBody),
    result: Result<Payment, CreateError>,
    amount: i32,
    card_number: Seq<char>,
) -> bool {
    match result {
        Ok(p) => {
            &&& response.0 == CREATED
            &&& response.1.data.id == p.id
            &&& response.1.data.amount == p.amount
            &&& response.1.data.card_number@ == p.card_number@
            &&& response.1.data.status == p.status
        },
        Err(e) => {
            &&& response.0 == status_code_of(e)
            &&& response.1.data.id == 0
            &&& response.1.data.amount == amount
            &&& response.1.data.card_number@ == card_number
            &&& response.1.data.status == shown_status(response.0)
        },
    }
}

/// Builds the answer to a payment request from the outcome of its creation.
pub fn respond(result: Result<Payment, CreateError>, amount: i32, card_number: String) -> (r: (
    u16,
    ResponseBody,
))
    ensures
        answers(r, result, amount, card_number@),
{
    match result {
        Ok(payment) => (
            CREATED,
            ResponseBody {
                data: ResponseData {
                    id: payment.id,
                    amount: payment.amount,
                    card_number: payment.card_number,
                    status: payment.status,
                },
            },
        ),
        Err(e) => {
            let (status_code, status) = status_from_error(e);
            (
                status_code,
                ResponseBody { data: ResponseData { id: 0, amount, card_number, status } },
            )
        },
    }
}

/// Answers a request to create an approved payment.
pub fn post<A: AccountService>(ledger: &mut Ledger, account_service: &mut A, body: RequestBody) -> (r:
    (u16, ResponseBody))
    requires
        old(ledger).wf(),
    ensures
        final(ledger).wf(),
        final(ledger).refunds() == old(ledger).refunds(),
        exists|result: Result<Payment, CreateError>|
            {
                &&& answers(r, result, body.payment.amount, body.payment.card_number@)
                &&& match validation_outcome(body.payment.amount, body.payment.card_number@) {
                    Err(e) => {
                        &&& result == Err::<Payment, CreateError>(CreateError::InvalidArgument(e))
                        &&& final(ledger).payments() == old(ledger).payments()
                        &&& final(account_service).holds() == old(account_service).holds()
                    },
                    Ok(_) => {
                        &&& final(account_service).holds() == old(account_service).holds().push(
                            (
                                body.payment.card_number@,
                                body.payment.amount,
                                final(account_service).holds().last().2,
                            ),
                        )
                        &&& created_as_stated(
                            old(ledger).payments(),
                            final(ledger).payments(),
                            final(account_service).holds().last().2,
                            result,
                            body.payment.amount,
                            body.payment.card_number@,
                            Status::Approved,
                        )
                    },
                }
            },
{
    let amount = body.payment.amount;
    let card_number = body.payment.card_number;
    let result = ledger_payments::create(
        ledger,
        account_service,
        amount,
        card_number.as_str(),
        Status::Approved,
    );
    let ghost outcome = result;
    let r = respond(result, amount, card_number);
    assert(answers(r, outcome, body.payment.amount, body.payment.card_number@));
    r
}

/// Answers a request for a payment: `OK` with it, or `NOT_FOUND`.
pub fn get(ledger: &Ledger, id: u128) -> (r: (u16, Option<ResponseBody>))
    requires
        ledger.wf(),
    ensures
        match r.1 {
            Some(body) => {
                &&& r.0 == OK
                &&& body.data.id == id
                &&& exists|i: int|
                    0 <= i < ledger.payments().len() && #[trigger] ledger.payments()[i].id == id
                        && ledger.payments()[i].amount == body.data.amount
                        && ledger.payments()[i].card_number@ == body.data.card_number@
                        && ledger.payments()[i].status == body.data.status
            },
            None => r.0 == NOT_FOUND && !crate::bank::ledger::payment_id_taken(
                ledger.payments(),
                id,
            ),
        },
{
    match ledger_payments::get(ledger, id) {
        Ok(payment) => (
            OK,
            Some(
                ResponseBody {
                    data: ResponseData {
                        id: payment.id,
                        amount: payment.amount,
                        card_number: payment.card_number,
                        status: payment.status,
                    },
                },
            ),
        ),
        Err(_) => (NOT_FOUND, None),
    }
}

} // verus!
