use jam::player::{millis_to_min_sec, will_element_overflow};

#[test]
fn zero_is_shown_with_two_digits_of_seconds() {
    assert_eq!(millis_to_min_sec(0), "0:00");
}

#[test]
fn seconds_are_padded_and_minutes_are_not() {
    assert_eq!(millis_to_min_sec(187_000), "3:07");
    assert_eq!(millis_to_min_sec(59_999), "0:59");
    assert_eq!(millis_to_min_sec(60_000), "1:00");
    assert_eq!(millis_to_min_sec(600_000), "10:00");
}

#[test]
fn the_longest_time_is_shown_in_full() {
    assert_eq!(millis_to_min_sec(u32::MAX), "71582:47");
}

#[test]
fn an_element_overflows_when_it_is_wider_than_its_place() {
    assert!(will_element_overflow(100, 101));
    assert!(!will_element_overflow(100, 100));
    assert!(!will_element_overflow(100, 20));
}
