use vstd::prelude::*;

use regex::Regex;

use crate::bank::accounts::{AccountService, HoldRef};
use crate::bank::ledger::{
    card_taken, is_new_payment, payment_id_taken, payment_insert_error, Constraint, Ledger,
    StoreError,
};
use crate::bank::stamps::{new_id, now};

verus! {

/// The state a payment was recorded with. It is set once, when the payment is
/// created, and never changes afterwards.
#[derive(Debug, Clone, Copy, PartialEq, Eq, Structural)]
pub enum Status {
    /// The payment is being processed, and its state is unknown.
    Processing,
    /// The payment was approved by the bank.
    Approved,
    /// The payment was declined by the bank (e.g. insufficient funds).
    Declined,
    /// The payment was unable to complete (e.g. banking system crashed).
    Failed,
}

/// Why the arguments of a payment were refused before anything was asked of
/// the account service.
#[derive(Debug, Clone, Copy, PartialEq, Eq, Structural)]
pub enum InvalidArgumentError {
    NegativeAmount,
    ZeroAmount,
    InvalidCardFormat,
}

/// The failures the account service may answer a hold with.
#[derive(Debug, Clone, Copy, PartialEq, Eq, Structural)]
pub enum AccountServiceError {
    InsufficientFunds,
    InvalidAccountNumber,
    ServiceUnavailable,
    InternalError,
}

/// Why a payment could not be created.
#[derive(Debug, Clone, Copy, PartialEq, Eq, Structural)]
pub enum CreateError {
    /// Another payment already holds this card number.
    DuplicatedCardNumber,
    InvalidArgument(InvalidArgumentError),
    AccountService(AccountServiceError),
    /// Any other refusal of the store.
    Database(StoreError),
}

/// A payment as the ledger records it.
///
/// Once a payment has been recorded as approved, the merchant is guaranteed to
/// receive money from the bank: they can therefore release the purchased goods
/// to the customer. Amounts are in minor currency units, times in seconds since
/// the Unix epoch.
#[derive(Debug, Clone, PartialEq, Eq)]
pub struct Payment {
    pub id: u128,
    pub amount: i32,
    pub refunded_amount: i32,
    pub card_number: String,
    pub status: Status,
    pub inserted_at: i64,
    pub updated_at: i64,
}

/// The pattern a card number must match as a whole: fifteen decimal digits.
pub const CARD_NUMBER_PATTERN: &'static str = "^\\d{15}$";

/// Whether a text matches `CARD_NUMBER_PATTERN`, as the regex crate decides it.
pub uninterp spec fn card_number_match(card_number: Seq<char>) -> bool;

pub open spec fn is_ascii_digit(c: char) -> bool {
    '0' <= c && c <= '9'
}

/// Fifteen ASCII digits: the card numbers that are always accepted.
pub open spec fn is_ascii_card_number(card_number: Seq<char>) -> bool {
    &&& card_number.len() == 15
    &&& forall|i: int| 0 <= i < 15 ==> is_ascii_digit(#[trigger] card_number[i])
}

/// Relies on regex::Regex::new and Regex::is_match, on CARD_NUMBER_PATTERN.
/// The pattern is anchored at both ends and `\d` matches one character (any
/// Unicode decimal digit), so a match has fifteen characters, and fifteen ASCII
/// digits always match.
#[verifier::external_body]
fn matches_card_number_pattern(card_number: &str) -> (r: bool)
    ensures
        r == card_number_match(card_number@),
        r ==> card_number@.len() == 15,
        is_ascii_card_number(card_number@) ==> r,
{
    Regex::new(CARD_NUMBER_PATTERN).unwrap().is_match(card_number)
}

/// The outcome of the checks made on a payment's arguments, in their order:
/// the sign of the amount first, then the card number's format.
pub open spec fn validation_outcome(amount: i32, card_number: Seq<char>) -> Result<
    (),
    InvalidArgumentError,
> {
    if amount < 0 {
        Err(InvalidArgumentError::NegativeAmount)
    } else if amount == 0 {
        Err(InvalidArgumentError::ZeroAmount)
    } else if !card_number_match(card_number) {
        Err(InvalidArgumentError::InvalidCardFormat)
    } else {
        Ok(())
    }
}

/// Checks a payment's arguments before any outside effect.
pub fn validate_payment_inputs(amount: i32, card_number: &str) -> (r: Result<
    (),
    InvalidArgumentError,
>)
    ensures
        r == validation_outcome(amount, card_number@),
        r is Ok ==> amount > 0 && card_number@.len() == 15,
        amount > 0 && is_ascii_card_number(card_number@) ==> r is Ok,
{
    if amount < 0 {
        Err(InvalidArgumentError::NegativeAmount)
    } else if amount == 0 {
        Err(InvalidArgumentError::ZeroAmount)
    } else if !matches_card_number_pattern(card_number) {
        Err(InvalidArgumentError::InvalidCardFormat)
    } else {
        Ok(())
    }
}

/// How a refusal of the store is reported to the caller: a clash on the card
/// number is a duplicate, anything else a store failure.
pub open spec fn store_error_kind(e: StoreError) -> CreateError {
    if e == StoreError::UniqueViolation(Constraint::PaymentsCardNumberIndex) {
        CreateError::DuplicatedCardNumber
    } else {
        CreateError::Database(e)
    }
}

/// Tells a clash on the card number apart from other refusals of the store.
pub fn create_error_from_store(e: StoreError) -> (r: CreateError)
    ensures
        r == store_error_kind(e),
{
    match e {
        StoreError::UniqueViolation(Constraint::PaymentsCardNumberIndex) => {
            CreateError::DuplicatedCardNumber
        },
        _ => CreateError::Database(e),
    }
}

/// The outcome of recording a payment once the account service has answered
/// the hold with `hold`.
pub open spec fn record_outcome(
    payments: Seq<Payment>,
    hold: Result<HoldRef, AccountServiceError>,
    id: u128,
    amount: i32,
    card_number: Seq<char>,
) -> Option<CreateError> {
    match hold {
        Err(e) => Some(CreateError::AccountService(e)),
        Ok(_) => match payment_insert_error(payments, id, amount, card_number) {
            Some(e) => Some(store_error_kind(e)),
            None => None,
        },
    }
}

/// Records a payment under `id` at time `now` if the hold succeeded; a failed
/// hold is passed on as it came, and the ledger is left as it was.
pub fn record_payment(
    ledger: &mut Ledger,
    hold: Result<HoldRef, AccountServiceError>,
    id: u128,
    amount: i32,
    card_number: &str,
    status: Status,
    now: i64,
) -> (r: Result<Payment, CreateError>)
    requires
        old(ledger).wf(),
    ensures
        final(ledger).wf(),
        final(ledger).refunds() == old(ledger).refunds(),
        match record_outcome(old(ledger).payments(), hold, id, amount, card_number@) {
            Some(e) => {
                &&& r == Err::<Payment, CreateError>(e)
                &&& final(ledger).payments() == old(ledger).payments()
            },
            None => {
                &&& r is Ok
                &&& is_new_payment(r->Ok_0, id, amount, card_number@, status, now)
                &&& final(ledger).payments() == old(ledger).payments().push(r->Ok_0)
            },
        },
{
    match hold {
        Err(e) => Err(CreateError::AccountService(e)),
        Ok(_) => match ledger.insert_payment(id, amount, card_number, status, now) {
            Ok(p) => Ok(p),
            Err(e) => Err(create_error_from_store(e)),
        },
    }
}

/// What is known of a payment's creation once its arguments were accepted and
/// the account service answered the hold with `hold`: the payments before and
/// after, and the result. Only the id, drawn at random, is left open.
pub open spec fn created_as_stated(
    before: Seq<Payment>,
    after: Seq<Payment>,
    hold: Result<HoldRef, AccountServiceError>,
    r: Result<Payment, CreateError>,
    amount: i32,
    card_number: Seq<char>,
    status: Status,
) -> bool {
    match hold {
        Err(e) => {
            &&& r == Err::<Payment, CreateError>(CreateError::AccountService(e))
            &&& after == before
        },
        Ok(_) => match r {
            Ok(p) => {
                &&& p.id != 0
                &&& p.amount == amount
                &&& p.refunded_amount == 0
                &&& p.card_number@ == card_number
                &&& p.status == status
                &&& p.inserted_at == p.updated_at
                &&& !card_taken(before, card_number)
                &&& !payment_id_taken(before, p.id)
                &&& after == before.push(p)
            },
            Err(e) => {
                &&& after == before
                &&& match e {
                    CreateError::DuplicatedCardNumber => card_taken(before, card_number),
                    // the drawn id is one that a recorded payment already has
                    CreateError::Database(d) => {
                        &&& d == StoreError::UniqueViolation(Constraint::PaymentsPkey)
                        &&& !card_taken(before, card_number)
                        &&& exists|id: u128|
                            payment_insert_error(before, id, amount, card_number) == Some(d)
                    },
                    _ => false,
                }
            },
        },
    }
}

/// Records a payment once the account service has answered its hold with
/// `hold`, under a freshly drawn id and stamped with the current time.
pub fn record(
    ledger: &mut Ledger,
    hold: Result<HoldRef, AccountServiceError>,
    amount: i32,
    card_number: &str,
    status: Status,
) -> (r: Result<Payment, CreateError>)
    requires
        old(ledger).wf(),
        amount > 0,
    ensures
        final(ledger).wf(),
        final(ledger).refunds() == old(ledger).refunds(),
        created_as_stated(
            old(ledger).payments(),
            final(ledger).payments(),
            hold,
            r,
            amount,
            card_number@,
            status,
        ),
{
    let id = new_id();
    let at = now();
    let r = record_payment(ledger, hold, id, amount, card_number, status, at);
    assert(r matches Err(CreateError::Database(d)) ==> payment_insert_error(
        old(ledger).payments(),
        id,
        amount,
        card_number@,
    ) == Some(d));
    r
}

/// Asks the account service for a hold of `amount` on `card_number`.
fn hold_account<A: AccountService>(account_service: &mut A, card_number: &str, amount: i32) -> (r:
    Result<HoldRef, AccountServiceError>)
    ensures
        final(account_service).holds() == old(account_service).holds().push(
            (card_number@, amount, r),
        ),
{
    account_service.place_hold(card_number, amount)
}

/// Creates a payment: checks its arguments, holds the funds, then records it.
///
/// Nothing is asked of the account service when the arguments are refused. A
/// card number that another payment holds is refused as a duplicate. A hold
/// whose payment the store then refuses is left in place: whether to release
/// it is a policy this ledger does not decide.
pub fn create<A: AccountService>(
    ledger: &mut Ledger,
    account_service: &mut A,
    amount: i32,
    card_number: &str,
    status: Status,
) -> (r: Result<Payment, CreateError>)
    requires
        old(ledger).wf(),
    ensures
        final(ledger).wf(),
        final(ledger).refunds() == old(ledger).refunds(),
        match validation_outcome(amount, card_number@) {
            Err(e) => {
                &&& r == Err::<Payment, CreateError>(CreateError::InvalidArgument(e))
                &&& final(ledger).payments() == old(ledger).payments()
                &&& final(account_service).holds() == old(account_service).holds()
            },
            Ok(_) => {
                &&& final(account_service).holds() == old(account_service).holds().push(
                    (card_number@, amount, final(account_service).holds().last().2),
                )
                &&& created_as_stated(
                    old(ledger).payments(),
                    final(ledger).payments(),
                    final(account_service).holds().last().2,
                    r,
                    amount,
                    card_number@,
                    status,
                )
            },
        },
{
    match validate_payment_inputs(amount, card_number) {
        Err(e) => {
            return Err(CreateError::InvalidArgument(e));
        },
        Ok(_) => {},
    }
    let hold = hold_account(account_service, card_number, amount);
    record(ledger, hold, amount, card_number, status)
}

/// Looks a payment up by its id; a missing one is `RowNotFound`.
pub fn get(ledger: &Ledger, id: u128) -> (r: Result<Payment, StoreError>)
    requires
        ledger.wf(),
    ensures
        match r {
            Ok(p) => {
                &&& p.id == id
                &&& ledger.payments().contains(p)
                &&& forall|i: int|
                    0 <= i < ledger.payments().len() && #[trigger] ledger.payments()[i].id == id
                        ==> ledger.payments()[i] == p
            },
            Err(e) => e == StoreError::RowNotFound && !payment_id_taken(ledger.payments(), id),
        },
{
    ledger.find_payment(id)
}

/// Of two payments with one card number, against a ledger that does not hold
/// it yet, whichever is recorded first succeeds (once its hold succeeded, with
/// a fresh id) and the other is then refused as a duplicate.
pub proof fn lemma_card_number_recorded_once(
    payments: Seq<Payment>,
    card_number: Seq<char>,
    hold: HoldRef,
    first_id: u128,
    first_amount: i32,
    first: Payment,
    status: Status,
    now: i64,
    second_hold: Result<HoldRef, AccountServiceError>,
    second_id: u128,
    second_amount: i32,
)
    requires
        !card_taken(payments, card_number),
        !payment_id_taken(payments, first_id),
        first_amount > 0,
        second_amount > 0,
        is_new_payment(first, first_id, first_amount, card_number, status, now),
    ensures
        record_outcome(payments, Ok(hold), first_id, first_amount, card_number) is None,
        second_hold is Ok ==> record_outcome(
            payments.push(first),
            second_hold,
            second_id,
            second_amount,
            card_number,
        ) == Some(CreateError::DuplicatedCardNumber),
{
    assert(payments.push(first)[payments.len() as int] == first);
}

/// Of two creations of payments with one card number that the ledger does not
/// hold yet, made one after the other in either order, whose holds the account
/// service grants: the first is recorded, the second is refused as a duplicate,
/// and the card number then stands on exactly one payment. The one exception is
/// a first creation whose randomly drawn id a recorded payment already has.
pub proof fn lemma_card_number_created_once(
    before: Seq<Payment>,
    between: Seq<Payment>,
    after: Seq<Payment>,
    first_hold: Result<HoldRef, AccountServiceError>,
    second_hold: Result<HoldRef, AccountServiceError>,
    first: Result<Payment, CreateError>,
    second: Result<Payment, CreateError>,
    card_number: Seq<char>,
    first_amount: i32,
    second_amount: i32,
    first_status: Status,
    second_status: Status,
)
    requires
        first_hold is Ok,
        second_hold is Ok,
        !card_taken(before, card_number),
        created_as_stated(before, between, first_hold, first, first_amount, card_number, first_status),
        created_as_stated(between, after, second_hold, second, second_amount, card_number, second_status),
    ensures
        first is Ok || first == Err::<Payment, CreateError>(
            CreateError::Database(StoreError::UniqueViolation(Constraint::PaymentsPkey)),
        ) && before.len() > 0,
        first is Ok ==> {
            &&& second == Err::<Payment, CreateError>(CreateError::DuplicatedCardNumber)
            &&& after == between
            &&& after == before.push(first->Ok_0)
            &&& forall|i: int|
                0 <= i < after.len() && #[trigger] after[i].card_number@ == card_number ==> i
                    == before.len()
        },
{
    if first is Ok {
        assert(between[before.len() as int] == first->Ok_0);
        assert(card_taken(between, card_number));
    }
}

} // verus!
