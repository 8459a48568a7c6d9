use vstd::prelude::*;

use crate::bank::payments::AccountServiceError;

verus! {

/// What the account service answers a successful hold with.
#[derive(Debug, Clone, Copy, PartialEq, Eq, Structural)]
pub struct HoldRef {
    pub id: u128,
}

/// The account service that funds are held against. It is handed to the
/// ledger by its caller: a client of the bank in production, a dummy in tests.
pub trait AccountService {
    /// The holds asked of the service so far, oldest first: the card number,
    /// the amount, and what the service answered.
    spec fn holds(&self) -> Seq<(Seq<char>, i32, Result<HoldRef, AccountServiceError>)>;

    /// Places a hold of `amount` on the account behind `card_number`.
    fn place_hold(&mut self, card_number: &str, amount: i32) -> (r: Result<
        HoldRef,
        AccountServiceError,
    >)
        ensures
            final(self).holds() == old(self).holds().push((card_number@, amount, r)),
    ;

    /// Releases a hold placed earlier.
    fn release_hold(&mut self, hold: HoldRef) -> (r: Result<(), AccountServiceError>);
}

/// An account service that answers every hold the same way and keeps a record
/// of the holds asked of it.
pub struct DummyService {
    response: Option<AccountServiceError>,
    holds: Vec<(String, i32, Result<HoldRef, AccountServiceError>)>,
}

impl DummyService {
    /// The failure every hold is answered with, if any.
    pub closed spec fn response(&self) -> Option<AccountServiceError> {
        self.response
    }

    /// A service that accepts every hold.
    pub fn new_test() -> (r: DummyService)
        ensures
            r.response() is None,
            r.holds() == Seq::<(Seq<char>, i32, Result<HoldRef, AccountServiceError>)>::empty(),
    {
        let r = DummyService { response: None, holds: Vec::new() };
        assert(r.holds() =~= Seq::empty());
        r
    }

    /// A service that refuses every hold with `error`.
    pub fn new_test_with_response(error: AccountServiceError) -> (r: DummyService)
        ensures
            r.response() == Some(error),
            r.holds() == Seq::<(Seq<char>, i32, Result<HoldRef, AccountServiceError>)>::empty(),
    {
        let r = DummyService { response: Some(error), holds: Vec::new() };
        assert(r.holds() =~= Seq::empty());
        r
    }

    /// How many holds have been asked of this service.
    pub fn holds_placed(&self) -> (r: usize)
        ensures
            r == self.holds().len(),
    {
        self.holds.len()
    }
}

impl AccountService for DummyService {
    closed spec fn holds(&self) -> Seq<(Seq<char>, i32, Result<HoldRef, AccountServiceError>)> {
        self.holds@.map_values(
            |h: (String, i32, Result<HoldRef, AccountServiceError>)| (h.0@, h.1, h.2),
        )
    }

    fn place_hold(&mut self, card_number: &str, amount: i32) -> (r: Result<
        HoldRef,
        AccountServiceError,
    >)
        ensures
            final(self).response() == old(self).response(),
            match old(self).response() {
                Some(e) => r == Err::<HoldRef, AccountServiceError>(e),
                None => r is Ok,
            },
    {
        let placed = self.holds.len();
        let answer = match self.response {
            Some(e) => Err(e),
            None => Ok(HoldRef { id: placed as u128 }),
        };
        let ghost before = self.holds();
        self.holds.push((card_number.to_owned(), amount, answer));
        assert(self.holds() =~= before.push((card_number@, amount, answer)));
        answer
    }

    fn release_hold(&mut self, _hold: HoldRef) -> (r: Result<(), AccountServiceError>) {
        Ok(())
    }
}

} // verus!
