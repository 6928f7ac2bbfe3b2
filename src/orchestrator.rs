//! Decisions of the create and the delete flow. Each takes what was read
//! from the store and returns what to write: the updated event and, where
//! the membership of a day changes, the update of that day. The caller
//! performs the writes, the day's before the event's.

use vstd::prelude::*;

use crate::calendar::{attach_spec, should_attach_to_day};
use crate::ledger::{
    booked_onto, booked_sum, count_details_on, find_detail, has_date, has_id, lemma_count_zero,
    removed_from, BookingDetail, Event,
};
use crate::membership::DayUpdate;

verus! {

/// What a booking or a deletion can end in, besides success.
#[derive(Clone, Copy, Debug, PartialEq, Eq, Structural)]
pub enum BookingError {
    /// The request is malformed.
    Validation,
    /// No event has the requested identifier.
    EventNotFound,
    /// No event holds an allocation with the requested identifier.
    DetailNotFound,
    /// The booking exceeds the event's duration; `available` hours (in
    /// hundredths) are still free.
    Capacity { available: u64 },
    /// The stored event is inconsistent, its date is out of range, or a
    /// generated identifier is taken already.
    Internal,
}

/// The writes of a booking: the event with its new allocation, and the
/// update of the target day where it differs from the event's own day.
#[derive(Debug)]
pub struct BookingPlan {
    pub event: Event,
    pub day_update: Option<DayUpdate>,
}

/// The writes of a deletion: the event without the allocation, and the
/// update of the target day where the event must leave it.
#[derive(Debug)]
pub struct RemovalPlan {
    pub removed: BookingDetail,
    pub event: Event,
    pub day_update: Option<DayUpdate>,
}

/// Whether a booking of `e` onto `date` is listed in the membership of that day.
pub open spec fn attaches(e: Event, date: Seq<char>) -> bool {
    attach_spec(e.occurrence_ms as int, date) == Some(true)
}

/// `u` is the update of `owner`'s day `date` for event `event_id` when
/// `due`, and absent otherwise.
pub open spec fn day_update_is(
    u: Option<DayUpdate>,
    owner: Seq<char>,
    date: String,
    event_id: String,
    due: bool,
    attach: bool,
) -> bool {
    match u {
        Some(x) => {
            &&& due
            &&& x.owner@ == owner
            &&& x.date == date
            &&& x.event_id == event_id
            &&& x.attach == attach
        },
        None => !due,
    }
}

/// The outcome of booking `detail` for `owner` onto the event that was found.
pub open spec fn booking_outcome(
    owner: Seq<char>,
    found: Option<Event>,
    detail: BookingDetail,
    r: Result<BookingPlan, BookingError>,
) -> bool {
    match found {
        None => r == Err::<BookingPlan, BookingError>(BookingError::EventNotFound),
        Some(e) => if !e.wf() || has_id(e.booking_details@, detail.id@) {
            r == Err::<BookingPlan, BookingError>(BookingError::Internal)
        } else if booked_sum(e.booking_details@) + detail.amount > e.duration {
            r == Err::<BookingPlan, BookingError>(
                BookingError::Capacity {
                    available: (e.duration - booked_sum(e.booking_details@)) as u64,
                },
            )
        } else if attach_spec(e.occurrence_ms as int, detail.to_date@) is None {
            r == Err::<BookingPlan, BookingError>(BookingError::Internal)
        } else {
            match r {
                Ok(p) => {
                    &&& booked_onto(e, detail, p.event)
                    &&& p.event.wf()
                    &&& day_update_is(
                        p.day_update,
                        owner,
                        detail.to_date,
                        e.id,
                        attaches(e, detail.to_date@),
                        true,
                    )
                },
                Err(_) => false,
            }
        },
    }
}

/// The outcome of deleting the allocation `booking_id` for `owner` from the
/// event that was found holding it.
pub open spec fn removal_outcome(
    owner: Seq<char>,
    booking_id: Seq<char>,
    found: Option<Event>,
    r: Result<RemovalPlan, BookingError>,
) -> bool {
    match found {
        None => r == Err::<RemovalPlan, BookingError>(BookingError::DetailNotFound),
        Some(e) => if !e.wf() {
            r == Err::<RemovalPlan, BookingError>(BookingError::Internal)
        } else if !has_id(e.booking_details@, booking_id) {
            r == Err::<RemovalPlan, BookingError>(BookingError::DetailNotFound)
        } else {
            match r {
                Ok(p) => {
                    &&& removed_from(e, booking_id, p.event, p.removed)
                    &&& p.event.wf()
                    &&& attach_spec(e.occurrence_ms as int, p.removed.to_date@) is Some
                    &&& day_update_is(
                        p.day_update,
                        owner,
                        p.removed.to_date,
                        e.id,
                        attaches(e, p.removed.to_date@) && !has_date(
                            p.event.booking_details@,
                            p.removed.to_date@,
                        ),
                        false,
                    )
                },
                Err(x) => {
                    &&& x == BookingError::Internal
                    &&& exists|k: int|
                        0 <= k < e.booking_details@.len() && e.booking_details@[k].id@
                            == booking_id && attach_spec(
                            e.occurrence_ms as int,
                            e.booking_details@[k].to_date@,
                        ) is None
                },
            }
        },
    }
}

/// Decides a booking of `detail` by `owner` onto `found`, the event as it
/// was just read (`None` where no event has the requested identifier).
pub fn plan_booking(owner: &str, found: Option<Event>, detail: BookingDetail) -> (r: Result<
    BookingPlan,
    BookingError,
>)
    ensures
        booking_outcome(owner@, found, detail, r),
{
    let mut event = match found {
        None => {
            return Err(BookingError::EventNotFound);
        },
        Some(e) => e,
    };
    if !event.is_well_formed() {
        return Err(BookingError::Internal);
    }
    if find_detail(&event.booking_details, detail.id.as_str()).is_some() {
        return Err(BookingError::Internal);
    }
    let attach = should_attach_to_day(event.occurrence_ms, detail.to_date.as_str());
    let to_date = detail.to_date.clone();
    match event.book(detail) {
        Err(e) => {
            return Err(BookingError::Capacity { available: e.available });
        },
        Ok(()) => {},
    }
    match attach {
        None => Err(BookingError::Internal),
        Some(a) => {
            let day_update = if a {
                Some(
                    DayUpdate {
                        owner: owner.to_owned(),
                        date: to_date,
                        event_id: event.id.clone(),
                        attach: true,
                    },
                )
            } else {
                None
            };
            Ok(BookingPlan { event, day_update })
        },
    }
}

/// Decides the deletion of the allocation `booking_id` by `owner` from
/// `found`, the event that was just read as holding it (`None` where none does).
pub fn plan_removal(owner: &str, booking_id: &str, found: Option<Event>) -> (r: Result<
    RemovalPlan,
    BookingError,
>)
    ensures
        removal_outcome(owner@, booking_id@, found, r),
{
    let mut event = match found {
        None => {
            return Err(BookingError::DetailNotFound);
        },
        Some(e) => e,
    };
    if !event.is_well_formed() {
        return Err(BookingError::Internal);
    }
    let removed = match event.remove_detail(booking_id) {
        None => {
            return Err(BookingError::DetailNotFound);
        },
        Some(d) => d,
    };
    let attach = match should_attach_to_day(event.occurrence_ms, removed.to_date.as_str()) {
        None => {
            return Err(BookingError::Internal);
        },
        Some(a) => a,
    };
    let remaining = count_details_on(&event.booking_details, removed.to_date.as_str());
    proof {
        lemma_count_zero(event.booking_details@, removed.to_date@);
    }
    let day_update = if attach && remaining == 0 {
        Some(
            DayUpdate {
                owner: owner.to_owned(),
                date: removed.to_date.clone(),
                event_id: event.id.clone(),
                attach: false,
            },
        )
    } else {
        None
    };
    Ok(RemovalPlan { removed, event, day_update })
}

/// How many times a flow reads, decides and writes an event before it gives
/// up on concurrent changes.
pub const MAX_ATTEMPTS: u32 = 3;

/// What follows a conditional write of an event.
#[derive(Clone, Copy, Debug, PartialEq, Eq, Structural)]
pub enum WriteStep {
    /// The write was applied.
    Done,
    /// The event changed since it was read: read and decide again, as this attempt.
    Retry(u32),
    /// The event kept changing: report an internal error.
    GiveUp,
}

/// The step after attempt `attempt` (counted from zero) of a conditional
/// event write, which was `applied` or found the event changed.
pub fn after_event_write(attempt: u32, applied: bool) -> (r: WriteStep)
    ensures
        applied ==> r == WriteStep::Done,
        !applied && attempt + 1 < MAX_ATTEMPTS ==> r == WriteStep::Retry((attempt + 1) as u32),
        !applied && attempt + 1 >= MAX_ATTEMPTS ==> r == WriteStep::GiveUp,
{
    if applied {
        WriteStep::Done
    } else if attempt < MAX_ATTEMPTS - 1 {
        WriteStep::Retry(attempt + 1)
    } else {
        WriteStep::GiveUp
    }
}

} // verus!
