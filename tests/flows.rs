use booking_machine::ledger::{BookingDetail, Event};
use booking_machine::membership::{Day, DayUpdate};
use booking_machine::orchestrator::{
    after_event_write, plan_booking, plan_removal, BookingError, WriteStep, MAX_ATTEMPTS,
};
use booking_machine::payloads::BookingPayload;

const EVENT_ID: &str = "65e1f0a2b3c4d5e6f7a8b9c0";
const OWNER: &str = "65e1f0a2b3c4d5e6f7a8b9ff";
// 2024-02-28T00:00:00Z
const FEB_28: i64 = 1709078400000;

fn event(duration: u64) -> Event {
    Event {
        id: EVENT_ID.to_string(),
        occurrence_ms: FEB_28,
        duration,
        booking_details: vec![],
        duration_booked: 0,
        fully_booked: false,
    }
}

fn request(day: &str, amount: &str) -> BookingPayload {
    BookingPayload { event_id: EVENT_ID.to_string(), day: day.to_string(), amount: amount.to_string() }
}

fn book(e: Event, day: &str, amount: &str) -> Result<(Event, Option<DayUpdate>), BookingError> {
    let amount = request(day, amount).checked_amount()?;
    let detail = BookingDetail::new(day.to_string(), amount);
    plan_booking(OWNER, Some(e), detail).map(|p| (p.event, p.day_update))
}

fn day(date: &str) -> Day {
    Day { id: "d".to_string(), owner: OWNER.to_string(), date: date.to_string(), events: vec![] }
}

#[test]
fn two_halves_fill_the_event_and_a_third_booking_fails() {
    let (e, u) = book(event(800), "2024-03-01", "4").unwrap();
    assert_eq!(e.duration_booked, 400);
    assert!(!e.fully_booked);
    let u = u.expect("another day than the event's");
    assert!(u.attach);
    assert_eq!(u.date, "2024-03-01");
    assert_eq!(u.event_id, EVENT_ID);
    assert_eq!(u.owner, OWNER);
    let (e, _) = book(e, "2024-03-01", "4").unwrap();
    assert_eq!(e.duration_booked, 800);
    assert!(e.fully_booked);
    assert_eq!(book(e, "2024-03-01", "0.25").unwrap_err(), BookingError::Capacity { available: 0 });
}

#[test]
fn deleting_from_a_fully_booked_event() {
    let (e, _) = book(event(800), "2024-03-01", "4").unwrap();
    let first = e.booking_details[0].id.clone();
    let (e, _) = book(e, "2024-03-01", "4").unwrap();
    assert!(e.fully_booked);
    let p = plan_removal(OWNER, &first, Some(e)).unwrap();
    assert_eq!(p.event.duration_booked, 400);
    assert!(!p.event.fully_booked);
    assert_eq!(p.removed.amount, 400);
    assert!(p.day_update.is_none(), "another allocation still targets the day");
}

#[test]
fn invalid_amount_is_rejected_before_the_event_is_touched() {
    assert_eq!(book(event(800), "2024-03-01", "0.1").unwrap_err(), BookingError::Validation);
}

#[test]
fn booking_on_the_event_day_needs_no_day_update() {
    let (e, u) = book(event(800), "2024-02-28", "2").unwrap();
    assert!(u.is_none());
    assert_eq!(e.duration_booked, 200);
}

#[test]
fn attach_and_detach_are_symmetric() {
    let (e, attach) = book(event(800), "2024-03-01", "1.5").unwrap();
    let attach = attach.unwrap();
    let id = e.booking_details[0].id.clone();
    let p = plan_removal(OWNER, &id, Some(e)).unwrap();
    let detach = p.day_update.unwrap();
    assert!(!detach.attach);
    assert_eq!(detach.date, attach.date);
    assert_eq!(detach.owner, attach.owner);
    assert_eq!(detach.event_id, attach.event_id);
    assert_eq!(p.event.duration_booked, 0);
}

#[test]
fn membership_follows_the_updates() {
    let mut d = day("2024-03-01");
    let (e, u) = book(event(800), "2024-03-01", "1").unwrap();
    d.apply(&u.unwrap());
    assert!(d.lists_event(EVENT_ID));
    let (e, u) = book(e, "2024-03-01", "1").unwrap();
    d.apply(&u.unwrap());
    assert_eq!(d.events.len(), 1);
    let first = e.booking_details[0].id.clone();
    let second = e.booking_details[1].id.clone();
    let p = plan_removal(OWNER, &first, Some(e)).unwrap();
    assert!(p.day_update.is_none());
    assert!(d.lists_event(EVENT_ID));
    let p = plan_removal(OWNER, &second, Some(p.event)).unwrap();
    d.apply(&p.day_update.unwrap());
    assert!(!d.lists_event(EVENT_ID));
}

#[test]
fn updates_for_other_days_are_ignored() {
    let mut d = day("2024-03-02");
    let (_, u) = book(event(800), "2024-03-01", "1").unwrap();
    d.apply(&u.unwrap());
    assert!(d.events.is_empty());
}

#[test]
fn attach_is_idempotent_and_detach_waits_for_the_last_allocation() {
    let mut d = day("2024-03-01");
    d.attach_on_create(EVENT_ID);
    d.attach_on_create(EVENT_ID);
    assert_eq!(d.events.len(), 1);
    d.detach_on_delete(EVENT_ID, 1);
    assert!(d.lists_event(EVENT_ID));
    d.detach_on_delete(EVENT_ID, 0);
    assert!(!d.lists_event(EVENT_ID));
}

#[test]
fn missing_event_and_missing_detail() {
    let detail = BookingDetail::new("2024-03-01".to_string(), 100);
    assert_eq!(plan_booking(OWNER, None, detail).unwrap_err(), BookingError::EventNotFound);
    assert_eq!(plan_removal(OWNER, EVENT_ID, None).unwrap_err(), BookingError::DetailNotFound);
    assert_eq!(plan_removal(OWNER, EVENT_ID, Some(event(800))).unwrap_err(), BookingError::DetailNotFound);
}

#[test]
fn inconsistent_or_undated_events_are_internal_errors() {
    let mut e = event(800);
    e.duration_booked = 100;
    let detail = BookingDetail::new("2024-03-01".to_string(), 100);
    assert_eq!(plan_booking(OWNER, Some(e), detail).unwrap_err(), BookingError::Internal);
    let mut e = event(800);
    e.occurrence_ms = i64::MAX;
    let detail = BookingDetail::new("2024-03-01".to_string(), 100);
    assert_eq!(plan_booking(OWNER, Some(e), detail).unwrap_err(), BookingError::Internal);
    let e = event(800);
    let taken = BookingDetail { id: "x".to_string(), to_date: "2024-03-01".to_string(), amount: 100 };
    let (e, _) = {
        let p = plan_booking(OWNER, Some(e), BookingDetail { id: "x".to_string(), to_date: "2024-03-01".to_string(), amount: 100 }).unwrap();
        (p.event, p.day_update)
    };
    assert_eq!(plan_booking(OWNER, Some(e), taken).unwrap_err(), BookingError::Internal);
}

#[test]
fn conflicting_writes_are_retried_a_bounded_number_of_times() {
    assert_eq!(after_event_write(0, true), WriteStep::Done);
    assert_eq!(after_event_write(0, false), WriteStep::Retry(1));
    assert_eq!(after_event_write(MAX_ATTEMPTS - 2, false), WriteStep::Retry(MAX_ATTEMPTS - 1));
    assert_eq!(after_event_write(MAX_ATTEMPTS - 1, false), WriteStep::GiveUp);
}
