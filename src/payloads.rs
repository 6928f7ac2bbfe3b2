//! Request and response payloads, and the validation of requests.

use vstd::prelude::*;

use crate::amount::{amount_of, parse_amount, MIN_AMOUNT};
use crate::calendar::{is_valid_date, parsed_date};
use crate::ident::{is_object_id, is_valid_object_id};
use crate::orchestrator::BookingError;

verus! {

/// A response that carries an event, when there is one to return.
pub struct EventResPayload<T> {
    pub message: String,
    pub event: Option<T>,
}

impl<T> EventResPayload<T> {
    pub fn new(message: String, event: Option<T>) -> (r: Self)
        ensures
            r.message == message,
            r.event == event,
    {
        Self { message, event }
    }
}

/// A response that reports an error.
pub struct ErrorResPayload {
    pub message: String,
    pub error: String,
}

impl ErrorResPayload {
    pub fn new(message: String, error: String) -> (r: Self)
        ensures
            r.message == message,
            r.error == error,
    {
        Self { message, error }
    }
}

/// The identifier of the authenticated user on whose behalf a request runs.
#[derive(Debug, Clone)]
pub struct UserId(pub String);

/// A request to book `amount` hours of event `event_id` onto the date `day`.
#[derive(Debug)]
pub struct BookingPayload {
    pub event_id: String,
    pub day: String,
    pub amount: String,
}

/// A valid booking request: a well-formed event identifier, a `YYYY-MM-DD`
/// date, and an amount of at least a quarter of an hour.
pub open spec fn valid_booking(event_id: Seq<char>, day: Seq<char>, amount: Seq<char>) -> bool {
    &&& is_object_id(event_id)
    &&& parsed_date(day) is Some
    &&& amount_of(amount) is Some
    &&& amount_of(amount)->Some_0 >= MIN_AMOUNT
}

impl BookingPayload {
    /// Whether the request is valid; all checks are made together.
    pub fn validate(&self) -> (r: bool)
        ensures
            r == valid_booking(self.event_id@, self.day@, self.amount@),
    {
        let event_id_ok = is_valid_object_id(self.event_id.as_str());
        let day_format_ok = is_valid_date(self.day.as_str());
        let amount_ok = match parse_amount(self.amount.as_str()) {
            Some(v) => v >= MIN_AMOUNT,
            None => false,
        };
        event_id_ok && day_format_ok && amount_ok
    }

    /// The amount to book, in hundredths of an hour, where the request is
    /// valid; the validation error otherwise.
    pub fn checked_amount(&self) -> (r: Result<u64, BookingError>)
        ensures
            r is Ok <==> valid_booking(self.event_id@, self.day@, self.amount@),
            match r {
                Ok(v) => amount_of(self.amount@) == Some(v as nat),
                Err(e) => e == BookingError::Validation,
            },
    {
        if !self.validate() {
            return Err(BookingError::Validation);
        }
        match parse_amount(self.amount.as_str()) {
            Some(v) => Ok(v),
            None => Err(BookingError::Validation),
        }
    }
}

/// A request to delete the allocation `booking_id`.
#[derive(Debug)]
pub struct DeleteBookingPayload {
    pub booking_id: String,
}

impl DeleteBookingPayload {
    /// Whether the allocation identifier is well-formed.
    pub fn validate(&self) -> (r: bool)
        ensures
            r == is_object_id(self.booking_id@),
    {
        is_valid_object_id(self.booking_id.as_str())
    }
}

} // verus!
