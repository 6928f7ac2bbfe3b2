use booking_machine::amount::parse_amount;
use booking_machine::calendar::{compare, is_valid_date, same_day, should_attach_to_day, CalendarDate};
use booking_machine::ident::is_valid_object_id;
use booking_machine::orchestrator::BookingError;
use booking_machine::payloads::{BookingPayload, DeleteBookingPayload, ErrorResPayload, EventResPayload};

const EVENT_ID: &str = "65e1f0a2b3c4d5e6f7a8b9c0";

fn payload(event_id: &str, day: &str, amount: &str) -> BookingPayload {
    BookingPayload { event_id: event_id.to_string(), day: day.to_string(), amount: amount.to_string() }
}

#[test]
fn amount_below_minimum_is_rejected() {
    let p = payload(EVENT_ID, "2024-03-01", "0.1");
    assert!(!p.validate());
    assert_eq!(p.checked_amount(), Err(BookingError::Validation));
}

#[test]
fn minimum_amount_is_accepted() {
    let p = payload(EVENT_ID, "2024-03-01", "0.25");
    assert!(p.validate());
    assert_eq!(p.checked_amount(), Ok(25));
}

#[test]
fn amounts_are_read_in_hundredths() {
    assert_eq!(parse_amount("4"), Some(400));
    assert_eq!(parse_amount("0.25"), Some(25));
    assert_eq!(parse_amount("1.5"), Some(150));
    assert_eq!(parse_amount("12.05"), Some(1205));
    assert_eq!(parse_amount("0"), Some(0));
}

#[test]
fn malformed_amounts_are_refused() {
    assert_eq!(parse_amount(""), None);
    assert_eq!(parse_amount("."), None);
    assert_eq!(parse_amount("1."), None);
    assert_eq!(parse_amount(".5"), None);
    assert_eq!(parse_amount("1.234"), None);
    assert_eq!(parse_amount("-1"), None);
    assert_eq!(parse_amount("abc"), None);
    assert_eq!(parse_amount("1.2.3"), None);
    assert_eq!(parse_amount("99999999999999999999"), None);
}

#[test]
fn largest_amount_fits() {
    assert_eq!(parse_amount("184467440737095516.15"), Some(u64::MAX));
    assert_eq!(parse_amount("184467440737095516.16"), None);
}

#[test]
fn booking_request_checks_identifier_date_and_amount() {
    assert!(payload(EVENT_ID, "2024-03-01", "4").validate());
    assert!(!payload("65e1f0a2b3c4d5e6f7a8b9c", "2024-03-01", "4").validate());
    assert!(!payload("65e1f0a2b3c4d5e6f7a8b9cz", "2024-03-01", "4").validate());
    assert!(!payload(EVENT_ID, "2024/03/01", "4").validate());
    assert!(!payload(EVENT_ID, "2024-02-30", "4").validate());
    assert!(!payload(EVENT_ID, "2024-03-01", "abc").validate());
}

#[test]
fn deletion_request_checks_identifier() {
    assert!(DeleteBookingPayload { booking_id: EVENT_ID.to_string() }.validate());
    assert!(!DeleteBookingPayload { booking_id: "short".to_string() }.validate());
    assert!(!DeleteBookingPayload { booking_id: String::new() }.validate());
}

#[test]
fn identifier_shape() {
    assert!(is_valid_object_id("ABCDEF0123456789abcdef01"));
    assert!(!is_valid_object_id("ABCDEF0123456789abcdef012"));
    assert!(!is_valid_object_id("ABCDEF0123456789abcdef0g"));
}

#[test]
fn dates_are_checked() {
    assert!(is_valid_date("2024-02-29"));
    assert!(!is_valid_date("2023-02-29"));
    assert!(!is_valid_date("yesterday"));
    assert!(!is_valid_date(""));
}

#[test]
fn compare_uses_the_utc_day_of_the_timestamp() {
    // 2024-03-01T00:00:00Z and 2024-03-01T23:59:59.999Z
    assert_eq!(compare(1709251200000, "2024-03-01"), Some(true));
    assert_eq!(compare(1709337599999, "2024-03-01"), Some(true));
    assert_eq!(compare(1709337600000, "2024-03-01"), Some(false));
    assert_eq!(compare(1709251199999, "2024-03-01"), Some(false));
    assert_eq!(compare(1709251200000, "not a date"), None);
    assert_eq!(compare(i64::MAX, "2024-03-01"), None);
}

#[test]
fn attach_is_the_negation_of_same_day() {
    assert_eq!(should_attach_to_day(1709251200000, "2024-03-01"), Some(false));
    assert_eq!(should_attach_to_day(1709078400000, "2024-03-01"), Some(true));
    assert_eq!(should_attach_to_day(1709078400000, "03/01/2024"), None);
}

#[test]
fn same_day_compares_present_dates() {
    let a = CalendarDate { year: 2024, month: 3, day: 1 };
    let b = CalendarDate { year: 2024, month: 3, day: 2 };
    assert_eq!(same_day(Some(a), Some(a)), Some(true));
    assert_eq!(same_day(Some(a), Some(b)), Some(false));
    assert_eq!(same_day(None, Some(b)), None);
}

#[test]
fn response_payloads_keep_their_fields() {
    let ok: EventResPayload<u32> = EventResPayload::new("Booking completed.".to_string(), Some(3));
    assert_eq!(ok.message, "Booking completed.");
    assert_eq!(ok.event, Some(3));
    let err = ErrorResPayload::new("An error occurred!".to_string(), "Event not found".to_string());
    assert_eq!(err.message, "An error occurred!");
    assert_eq!(err.error, "Event not found");
}
