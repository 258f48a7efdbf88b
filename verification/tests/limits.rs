use actix_easy_multipart::error::{MultipartError, ParseError, PayloadError};
use actix_easy_multipart::limits::Limits;
use actix_easy_multipart::Error;

fn overflow(r: Result<(), Error>) -> bool {
    matches!(r, Err(Error::Multipart(MultipartError::Payload(PayloadError::Overflow))))
}

#[test]
fn new_limits_hold_the_configured_quotas() {
    let limits = Limits::new(50, 20);
    assert_eq!(limits.total_limit_remaining, 50);
    assert_eq!(limits.memory_limit_remaining, 20);
    assert_eq!(limits.field_limit_remaining, None);
}

#[test]
fn consume_lowers_total_and_memory() {
    let mut limits = Limits::new(50, 20);
    assert!(limits.try_consume_limits(7, true).is_ok());
    assert_eq!(limits.total_limit_remaining, 43);
    assert_eq!(limits.memory_limit_remaining, 13);
    assert_eq!(limits.field_limit_remaining, None);
}

#[test]
fn consume_outside_memory_spares_the_memory_quota() {
    let mut limits = Limits::new(50, 20);
    assert!(limits.try_consume_limits(28, false).is_ok());
    assert_eq!(limits.total_limit_remaining, 22);
    assert_eq!(limits.memory_limit_remaining, 20);
}

#[test]
fn consume_lowers_a_bound_field_limit() {
    let mut limits = Limits::new(100, 100);
    limits.field_limit_remaining = Some(30);
    assert!(limits.try_consume_limits(28, true).is_ok());
    assert_eq!(limits.field_limit_remaining, Some(2));
    assert_eq!(limits.total_limit_remaining, 72);
    assert_eq!(limits.memory_limit_remaining, 72);
}

#[test]
fn consume_to_exactly_zero_succeeds() {
    let mut limits = Limits::new(20, 20);
    limits.field_limit_remaining = Some(20);
    assert!(limits.try_consume_limits(20, true).is_ok());
    assert_eq!(limits.total_limit_remaining, 0);
    assert_eq!(limits.memory_limit_remaining, 0);
    assert_eq!(limits.field_limit_remaining, Some(0));
    assert!(limits.try_consume_limits(0, true).is_ok());
    assert!(overflow(limits.try_consume_limits(1, false)));
}

#[test]
fn consume_past_the_total_fails_and_leaves_the_counters() {
    let mut limits = Limits::new(20, 100);
    limits.field_limit_remaining = Some(100);
    assert!(overflow(limits.try_consume_limits(21, true)));
    assert_eq!(limits.total_limit_remaining, 20);
    assert_eq!(limits.memory_limit_remaining, 100);
    assert_eq!(limits.field_limit_remaining, Some(100));
}

#[test]
fn consume_past_the_memory_quota_fails_and_leaves_the_counters() {
    let mut limits = Limits::new(100, 20);
    limits.field_limit_remaining = Some(100);
    assert!(overflow(limits.try_consume_limits(28, true)));
    assert_eq!(limits.total_limit_remaining, 100);
    assert_eq!(limits.memory_limit_remaining, 20);
    assert_eq!(limits.field_limit_remaining, Some(100));
}

#[test]
fn consume_past_the_field_limit_fails_and_leaves_the_counters() {
    let mut limits = Limits::new(100, 100);
    limits.field_limit_remaining = Some(30);
    assert!(overflow(limits.try_consume_limits(38, false)));
    assert_eq!(limits.total_limit_remaining, 100);
    assert_eq!(limits.memory_limit_remaining, 100);
    assert_eq!(limits.field_limit_remaining, Some(30));
}

#[test]
fn chunks_over_the_total_fail_before_more_than_the_total_is_charged() {
    let total = 20;
    let mut limits = Limits::new(total, usize::MAX);
    let chunks = [7usize, 7, 7, 7];
    let mut charged = 0;
    let mut failed = false;
    for chunk in chunks {
        match limits.try_consume_limits(chunk, true) {
            Ok(()) => charged += chunk,
            Err(e) => {
                assert!(e.is_payload_too_large());
                failed = true;
                break;
            }
        }
    }
    assert!(failed);
    assert_eq!(charged, 14);
    assert!(charged <= total);
    assert_eq!(limits.total_limit_remaining, 6);
}

#[test]
fn budget_failures_are_told_apart_from_parse_failures() {
    assert!(MultipartError::Payload(PayloadError::Overflow).is_payload_too_large());
    assert!(!MultipartError::Payload(PayloadError::Io).is_payload_too_large());
    assert!(!MultipartError::Payload(PayloadError::Incomplete).is_payload_too_large());
    assert!(!MultipartError::Parse(ParseError::Header).is_payload_too_large());
    assert!(!MultipartError::Parse(ParseError::Utf8).is_payload_too_large());
    assert_eq!(MultipartError::Parse(ParseError::Header).status_code(), 400);
}
