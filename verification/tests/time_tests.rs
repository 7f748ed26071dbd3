use noir::text::append_decimal;
use noir::time::Time;

fn decimal(n: i32) -> String {
    let mut text = String::new();
    append_decimal(&mut text, n);
    text
}

#[test]
fn game_starts_on_day_one_at_eight() {
    let time = Time::new();
    assert_eq!(time.get_day(), 1);
    assert_eq!(time.get_time(), "08:00");
    assert_eq!(time.get_day_and_time(), "Day 1, 08:00");
}

#[test]
fn minute_advances_within_the_hour() {
    let mut time = Time::new();
    time.advance_minute();
    assert_eq!(time.get_time(), "08:01");
    for _ in 0..9 {
        time.advance_minute();
    }
    assert_eq!(time.get_time(), "08:10");
}

#[test]
fn minute_rolls_over_into_the_hour() {
    let mut time = Time::new();
    time.set_time(8, 59);
    time.advance_minute();
    assert_eq!(time.get_time(), "09:00");
    assert_eq!(time.get_day(), 1);
}

#[test]
fn hour_rolls_over_into_the_day() {
    let mut time = Time::new();
    time.set_time(23, 5);
    time.advance_hour();
    assert_eq!(time.get_time(), "00:05");
    assert_eq!(time.get_day(), 2);
}

#[test]
fn last_minute_of_the_day_rolls_over_twice() {
    let mut time = Time::new();
    time.set_time(23, 59);
    time.advance_minute();
    assert_eq!(time.get_day_and_time(), "Day 2, 00:00");
}

#[test]
fn hour_advances_within_the_day() {
    let mut time = Time::new();
    time.advance_hour();
    assert_eq!(time.get_time(), "09:00");
    time.set_time(9, 30);
    time.advance_hour();
    assert_eq!(time.get_time(), "10:30");
    assert_eq!(time.get_day(), 1);
}

#[test]
fn increment_day_keeps_the_time_of_day() {
    let mut time = Time::new();
    time.set_time(14, 7);
    time.increment_day();
    time.increment_day();
    assert_eq!(time.get_day_and_time(), "Day 3, 14:07");
}

#[test]
fn a_whole_day_of_minutes_is_one_day() {
    let mut time = Time::new();
    for _ in 0..(24 * 60) {
        time.advance_minute();
    }
    assert_eq!(time.get_day_and_time(), "Day 2, 08:00");
}

#[test]
fn set_time_takes_any_values() {
    let mut time = Time::new();
    time.set_time(123, 456);
    assert_eq!(time.get_time(), "123:456");
    time.set_time(-5, 9);
    assert_eq!(time.get_time(), "0-5:09");
    time.set_time(10, 0);
    assert_eq!(time.get_time(), "10:00");
    time.set_time(9, 10);
    assert_eq!(time.get_time(), "09:10");
}

#[test]
fn odd_hours_still_roll_over() {
    let mut time = Time::new();
    time.set_time(40, 70);
    time.advance_minute();
    assert_eq!(time.get_day_and_time(), "Day 2, 00:00");
    time.set_time(-3, 0);
    time.advance_hour();
    assert_eq!(time.get_time(), "0-2:00");
}

#[test]
fn hour_and_minute_can_be_read() {
    let mut time = Time::new();
    assert_eq!((time.get_hour(), time.get_minute()), (8, 0));
    time.set_time(17, 42);
    assert_eq!((time.get_hour(), time.get_minute()), (17, 42));
}

#[test]
fn time_is_copied_and_compared() {
    let mut a = Time::new();
    let b = a;
    assert_eq!(a, b);
    a.advance_minute();
    assert_ne!(a, b);
    assert_eq!(b.clone(), b);
}

#[test]
fn numbers_are_written_in_decimal() {
    assert_eq!(decimal(0), "0");
    assert_eq!(decimal(7), "7");
    assert_eq!(decimal(10), "10");
    assert_eq!(decimal(65), "65");
    assert_eq!(decimal(1234567890), "1234567890");
    assert_eq!(decimal(-1), "-1");
    assert_eq!(decimal(-120), "-120");
    assert_eq!(decimal(i32::MAX), "2147483647");
    assert_eq!(decimal(i32::MIN), "-2147483648");
    let mut text = String::from("Day ");
    append_decimal(&mut text, 12);
    assert_eq!(text, "Day 12");
}

#[test]
fn clock_says_whether_it_can_go_on() {
    let mut time = Time::new();
    assert!(time.can_advance_minute());
    assert!(time.can_advance_hour());
    time.set_time(8, i32::MAX);
    assert!(!time.can_advance_minute());
    assert!(time.can_advance_hour());
    time.set_time(i32::MAX, 59);
    assert!(!time.can_advance_minute());
    assert!(!time.can_advance_hour());
    time.set_time(i32::MAX, 3);
    assert!(time.can_advance_minute());
    time.set_time(23, 59);
    assert!(time.can_advance_minute());
    time.set_time(-7, -7);
    assert!(time.can_advance_minute());
    assert!(time.can_advance_hour());
}
