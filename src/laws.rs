//! Properties of the ledger and the two flows, proved over the contracts of
//! `Event::book`, `Event::remove_detail`, `plan_booking` and `plan_removal`.

use vstd::prelude::*;

use crate::calendar::attach_spec;
use crate::ledger::{
    booked_onto, booked_sum, has_date, has_id, lemma_booked_sum_remove, removed_from,
    BookingDetail, Event,
};
use crate::membership::{updated_by, Day, DayUpdate};
use crate::orchestrator::{attaches, booking_outcome, removal_outcome, BookingError, BookingPlan, RemovalPlan};

verus! {

/// `b` follows from `a` by one successful booking or one successful removal.
pub open spec fn ledger_step(a: Event, b: Event) -> bool {
    ||| exists|d: BookingDetail| booked_onto(a, d, b)
    ||| exists|id: Seq<char>, d: BookingDetail| removed_from(a, id, b, d)
}

/// A successful booking or removal keeps the ledger's invariant.
pub proof fn lemma_step_keeps_wf(a: Event, b: Event)
    requires
        a.wf(),
        ledger_step(a, b),
    ensures
        b.wf(),
{
    if exists|d: BookingDetail| booked_onto(a, d, b) {
        let d = choose|d: BookingDetail| booked_onto(a, d, b);
        assert(b.booking_details@.drop_last() =~= a.booking_details@);
        assert forall|i: int, j: int|
            0 <= i < j < b.booking_details@.len() implies b.booking_details@[i].id@
            != b.booking_details@[j].id@ by {
            if j == a.booking_details@.len() {
                assert(b.booking_details@[i] == a.booking_details@[i]);
            }
        }
    } else {
        let (id, d) = choose|id: Seq<char>, d: BookingDetail| removed_from(a, id, b, d);
        let k = choose|k: int|
            0 <= k < a.booking_details@.len() && a.booking_details@[k] == d
                && b.booking_details@ == a.booking_details@.remove(k);
        lemma_booked_sum_remove(a.booking_details@, k);
        assert forall|i: int, j: int|
            0 <= i < j < b.booking_details@.len() implies b.booking_details@[i].id@
            != b.booking_details@[j].id@ by {
            let i2 = if i < k { i } else { i + 1 };
            let j2 = if j < k { j } else { j + 1 };
            assert(b.booking_details@[i] == a.booking_details@[i2]);
            assert(b.booking_details@[j] == a.booking_details@[j2]);
        }
    }
}

/// A successful booking plan is a step of the event's ledger.
pub proof fn lemma_booking_is_step(
    owner: Seq<char>,
    e: Event,
    detail: BookingDetail,
    plan: BookingPlan,
)
    requires
        booking_outcome(owner, Some(e), detail, Ok(plan)),
    ensures
        ledger_step(e, plan.event),
{
    assert(booked_onto(e, detail, plan.event));
}

/// A successful removal plan is a step of the event's ledger.
pub proof fn lemma_removal_is_step(
    owner: Seq<char>,
    booking_id: Seq<char>,
    e: Event,
    plan: RemovalPlan,
)
    requires
        removal_outcome(owner, booking_id, Some(e), Ok(plan)),
    ensures
        ledger_step(e, plan.event),
{
    assert(removed_from(e, booking_id, plan.event, plan.removed));
}

/// After any sequence of successful bookings and removals, starting from a
/// consistent event, the booked total equals the sum of the allocated
/// amounts and does not exceed the duration. Each successful
/// `plan_booking` or `plan_removal` is such a step (see the two lemmas above).
pub proof fn law_total_is_sum_after_any_history(history: Seq<Event>)
    requires
        history.len() > 0,
        history[0].wf(),
        forall|i: int| 0 < i < history.len() ==> ledger_step(history[i - 1], #[trigger] history[i]),
    ensures
        forall|i: int|
            0 <= i < history.len() ==> {
                &&& (#[trigger] history[i]).duration_booked == booked_sum(history[i].booking_details@)
                &&& history[i].duration_booked <= history[i].duration
            },
{
    assert forall|i: int| 0 <= i < history.len() implies (#[trigger] history[i]).wf() by {
        lemma_history_wf(history, i);
    }
}

proof fn lemma_history_wf(history: Seq<Event>, i: int)
    requires
        0 <= i < history.len(),
        history[0].wf(),
        forall|j: int| 0 < j < history.len() ==> ledger_step(history[j - 1], #[trigger] history[j]),
    ensures
        history[i].wf(),
    decreases i,
{
    if i > 0 {
        lemma_history_wf(history, i - 1);
        assert(ledger_step(history[i - 1], history[i]));
        lemma_step_keeps_wf(history[i - 1], history[i]);
    }
}

/// A booking whose amount exceeds what is left of the event's duration
/// fails with the capacity error carrying the hours still free, and nothing
/// is written.
pub proof fn law_over_capacity_fails(
    owner: Seq<char>,
    e: Event,
    detail: BookingDetail,
    r: Result<BookingPlan, BookingError>,
)
    requires
        e.wf(),
        !has_id(e.booking_details@, detail.id@),
        booking_outcome(owner, Some(e), detail, r),
        booked_sum(e.booking_details@) + detail.amount > e.duration,
    ensures
        r == Err::<BookingPlan, BookingError>(
            BookingError::Capacity { available: (e.duration - e.duration_booked) as u64 },
        ),
{
}

/// A booking that takes exactly what is left of the event's duration
/// succeeds and marks the event fully booked (where both dates can be read).
pub proof fn law_exact_fill_is_fully_booked(
    owner: Seq<char>,
    e: Event,
    detail: BookingDetail,
    r: Result<BookingPlan, BookingError>,
)
    requires
        e.wf(),
        !has_id(e.booking_details@, detail.id@),
        attach_spec(e.occurrence_ms as int, detail.to_date@) is Some,
        booking_outcome(owner, Some(e), detail, r),
        booked_sum(e.booking_details@) + detail.amount == e.duration,
    ensures
        r is Ok,
        r->Ok_0.event.fully_booked,
        r->Ok_0.event.duration_booked == e.duration,
{
}

/// A successful deletion always leaves the event not fully booked, whatever
/// the remaining allocations add up to.
pub proof fn law_removal_clears_fully_booked(
    owner: Seq<char>,
    booking_id: Seq<char>,
    e: Event,
    r: Result<RemovalPlan, BookingError>,
)
    requires
        removal_outcome(owner, booking_id, Some(e), r),
        r is Ok,
    ensures
        !r->Ok_0.event.fully_booked,
{
}

/// Booking `detail` and then deleting it again, when it is the only
/// allocation of the event on its date: the deletion removes exactly that
/// allocation, and detaches the event from the very day that the booking
/// attached it to, exactly when the booking did attach it.
pub proof fn law_attach_detach_symmetric(
    owner: Seq<char>,
    e: Event,
    detail: BookingDetail,
    booked: BookingPlan,
    removed: RemovalPlan,
)
    requires
        booking_outcome(owner, Some(e), detail, Ok(booked)),
        removal_outcome(owner, detail.id@, Some(booked.event), Ok(removed)),
        forall|i: int|
            0 <= i < booked.event.booking_details@.len()
                && (#[trigger] booked.event.booking_details@[i]).to_date@ == detail.to_date@
                ==> booked.event.booking_details@[i].id@ == detail.id@,
    ensures
        removed.removed == detail,
        booked.day_update is Some <==> removed.day_update is Some,
        booked.day_update is Some ==> {
            let a = booked.day_update->Some_0;
            let b = removed.day_update->Some_0;
            &&& a.attach && !b.attach
            &&& a.owner@ == b.owner@
            &&& a.date == b.date
            &&& a.event_id == b.event_id
        },
{
    let s = booked.event.booking_details@;
    let n = e.booking_details@.len();
    assert(s[n as int] == detail);
    let k = choose|k: int|
        0 <= k < s.len() && s[k] == removed.removed && removed.event.booking_details@ == s.remove(k);
    assert(e.wf() && !has_id(e.booking_details@, detail.id@));
    if k != n {
        assert(s[k] == e.booking_details@[k]);
        assert(has_id(e.booking_details@, detail.id@));
    }
    assert(s.remove(n as int) =~= e.booking_details@);
    if has_date(e.booking_details@, detail.to_date@) {
        let i = choose|i: int| 0 <= i < n && e.booking_details@[i].to_date@ == detail.to_date@;
        assert(s[i] == e.booking_details@[i]);
        assert(s[i].id@ == detail.id@);
        assert(has_id(e.booking_details@, detail.id@));
    }
    assert(!has_date(removed.event.booking_details@, detail.to_date@));
    assert(attaches(booked.event, detail.to_date@) == attaches(e, detail.to_date@));
}

/// A deletion never detaches the event from a day that one of its remaining
/// allocations still targets.
pub proof fn law_no_detach_while_date_booked(
    owner: Seq<char>,
    booking_id: Seq<char>,
    e: Event,
    r: Result<RemovalPlan, BookingError>,
)
    requires
        removal_outcome(owner, booking_id, Some(e), r),
        r is Ok,
        has_date(r->Ok_0.event.booking_details@, r->Ok_0.removed.to_date@),
    ensures
        r->Ok_0.day_update is None,
{
}

/// The day lists the event exactly when one of the event's allocations
/// targets the day's date and that date is not the event's own day.
pub open spec fn membership_consistent(day: Day, e: Event) -> bool {
    day.lists(e.id@) <==> (has_date(e.booking_details@, day.date@) && attaches(e, day.date@))
}

/// The day after the update of a plan, where there is one.
pub open spec fn day_after(day: Day, update: Option<DayUpdate>, new: Day) -> bool {
    match update {
        Some(u) => updated_by(day, u, new),
        None => new == day,
    }
}

/// A booking keeps the target day's membership consistent with the event.
pub proof fn law_booking_keeps_membership(
    owner: Seq<char>,
    e: Event,
    detail: BookingDetail,
    plan: BookingPlan,
    day: Day,
    new_day: Day,
)
    requires
        booking_outcome(owner, Some(e), detail, Ok(plan)),
        day.owner@ == owner,
        day.date@ == detail.to_date@,
        membership_consistent(day, e),
        day_after(day, plan.day_update, new_day),
    ensures
        membership_consistent(new_day, plan.event),
{
    let s = plan.event.booking_details@;
    assert(s[e.booking_details@.len() as int] == detail);
    assert(has_date(s, day.date@));
    assert(attaches(plan.event, day.date@) == attaches(e, day.date@));
    if plan.day_update is Some {
        assert(new_day.lists(e.id@));
    }
}

/// A deletion keeps the membership of the day it targeted consistent with
/// the event.
pub proof fn law_removal_keeps_membership(
    owner: Seq<char>,
    booking_id: Seq<char>,
    e: Event,
    plan: RemovalPlan,
    day: Day,
    new_day: Day,
)
    requires
        removal_outcome(owner, booking_id, Some(e), Ok(plan)),
        day.owner@ == owner,
        day.date@ == plan.removed.to_date@,
        membership_consistent(day, e),
        day_after(day, plan.day_update, new_day),
    ensures
        membership_consistent(new_day, plan.event),
{
    let k = choose|k: int|
        0 <= k < e.booking_details@.len() && e.booking_details@[k] == plan.removed
            && plan.event.booking_details@ == e.booking_details@.remove(k);
    assert(attaches(plan.event, day.date@) == attaches(e, day.date@));
    assert(has_date(e.booking_details@, day.date@));
    if plan.day_update is Some {
        assert(!new_day.lists(e.id@));
    } else if attaches(e, day.date@) {
        let s = plan.event.booking_details@;
        let i = choose|i: int| 0 <= i < s.len() && s[i].to_date@ == day.date@;
        let i2 = if i < k { i } else { i + 1 };
        assert(e.booking_details@[i2] == s[i]);
    }
}

} // verus!
