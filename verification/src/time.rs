//! The clock of the game: a day, an hour and a minute.

use crate::text::{append_decimal, decimal};
use vstd::prelude::*;
use vstd::string::*;

verus! {

#[derive(Debug, PartialEq, Clone, Copy)]
pub struct Time {
    day: i32,
    hour: i32,
    minute: i32,
}

/// A time as contracts see it.
pub struct TimeView {
    pub day: int,
    pub hour: int,
    pub minute: int,
}

impl View for Time {
    type V = TimeView;

    closed spec fn view(&self) -> TimeView {
        TimeView { day: self.day as int, hour: self.hour as int, minute: self.minute as int }
    }
}

/// A count of hours or minutes as the clock shows it: with a zero in front
/// where it is 9 or less.
pub open spec fn two_digits(n: int) -> Seq<char> {
    if n > 9 {
        decimal(n)
    } else {
        seq!['0'] + decimal(n)
    }
}

/// The time of day as the clock shows it.
pub open spec fn clock_text(hour: int, minute: int) -> Seq<char> {
    two_digits(hour) + seq![':'] + two_digits(minute)
}

/// The day and the time of day, as a log line is stamped.
pub open spec fn stamp_text(day: int, hour: int, minute: int) -> Seq<char> {
    "Day "@ + decimal(day) + ", "@ + clock_text(hour, minute)
}

impl TimeView {
    /// A day from the first on, and a time of day that a clock can show.
    pub open spec fn on_the_clock(self) -> bool {
        &&& self.day >= 1
        &&& 0 <= self.hour <= 23
        &&& 0 <= self.minute <= 59
    }

    /// The time one day later, at the same time of day.
    pub open spec fn next_day(self) -> TimeView {
        TimeView { day: self.day + 1, ..self }
    }

    /// The time one hour later: past 23 the hour starts again at 0, on the
    /// next day.
    pub open spec fn next_hour(self) -> TimeView {
        if self.hour + 1 > 23 {
            TimeView { hour: 0, ..self }.next_day()
        } else {
            TimeView { hour: self.hour + 1, ..self }
        }
    }

    /// The time one minute later: past 59 the minute starts again at 0, in
    /// the next hour.
    pub open spec fn next_minute(self) -> TimeView {
        if self.minute + 1 > 59 {
            TimeView { minute: 0, ..self }.next_hour()
        } else {
            TimeView { minute: self.minute + 1, ..self }
        }
    }

    /// Whether a minute can pass without a field leaving its machine integer.
    pub open spec fn minute_can_pass(self) -> bool {
        &&& self.minute < i32::MAX
        &&& self.minute + 1 > 59 ==> self.hour < i32::MAX
        &&& self.next_minute().fits()
    }

    /// Whether an hour can pass without a field leaving its machine integer.
    pub open spec fn hour_can_pass(self) -> bool {
        &&& self.hour < i32::MAX
        &&& self.next_hour().fits()
    }

    /// Whether every field still fits its machine integer.
    pub open spec fn fits(self) -> bool {
        &&& i32::MIN <= self.day <= i32::MAX
        &&& i32::MIN <= self.hour <= i32::MAX
        &&& i32::MIN <= self.minute <= i32::MAX
    }
}

fn append_two_digits(text: &mut String, n: i32)
    ensures
        final(text)@ == old(text)@ + two_digits(n as int),
{
    if n > 9 {
        append_decimal(text, n);
    } else {
        proof {
            reveal_strlit("0");
        }
        text.append("0");
        append_decimal(text, n);
        assert(text@ =~= old(text)@ + two_digits(n as int));
    }
}

impl Time {
    /// The morning of the first day: day 1, eight o'clock.
    pub fn new() -> (start: Time)
        ensures
            start@ == (TimeView { day: 1, hour: 8, minute: 0 }),
    {
        Time { day: 1, hour: 8, minute: 0 }
    }

    /// Every time that a `Time` holds fits its machine integers.
    pub proof fn lemma_fits(&self)
        ensures
            self@.fits(),
    {
    }

    pub fn increment_day(&mut self)
        requires
            old(self)@.next_day().fits(),
        ensures
            final(self)@ == old(self)@.next_day(),
            old(self)@.on_the_clock() ==> final(self)@.on_the_clock(),
    {
        self.day += 1;
    }

    /// Sets the time of day as given, whatever it is; the day stays.
    pub fn set_time(&mut self, hour: i32, minute: i32)
        ensures
            final(self)@ == (TimeView { day: old(self)@.day, hour: hour as int, minute: minute as int }),
    {
        self.hour = hour;
        self.minute = minute;
    }

    /// Whether an hour can pass, for callers that must test it.
    pub fn can_advance_hour(&self) -> (can: bool)
        ensures
            can == self@.hour_can_pass(),
    {
        self.hour < i32::MAX && (self.hour + 1 <= 23 || self.day < i32::MAX)
    }

    /// Whether a minute can pass, for callers that must test it.
    pub fn can_advance_minute(&self) -> (can: bool)
        ensures
            can == self@.minute_can_pass(),
    {
        self.minute < i32::MAX && (self.minute + 1 <= 59 || self.can_advance_hour())
    }

    pub fn advance_hour(&mut self)
        requires
            old(self)@.hour_can_pass(),
        ensures
            final(self)@ == old(self)@.next_hour(),
            old(self)@.on_the_clock() ==> final(self)@.on_the_clock(),
    {
        proof {
            if old(self)@.on_the_clock() {
                lemma_clock_stays_on(old(self)@);
            }
        }
        self.hour += 1;
        if self.hour > 23 {
            self.hour = 0;
            self.increment_day();
        }
    }

    pub fn advance_minute(&mut self)
        requires
            old(self)@.minute_can_pass(),
        ensures
            final(self)@ == old(self)@.next_minute(),
            old(self)@.on_the_clock() ==> final(self)@.on_the_clock(),
    {
        proof {
            if old(self)@.on_the_clock() {
                lemma_clock_stays_on(old(self)@);
            }
        }
        self.minute += 1;
        if self.minute > 59 {
            self.minute = 0;
            self.advance_hour();
        }
    }

    pub fn get_day(&self) -> (day: i32)
        ensures
            day == self@.day,
    {
        self.day
    }

    pub fn get_hour(&self) -> (hour: i32)
        ensures
            hour == self@.hour,
    {
        self.hour
    }

    pub fn get_minute(&self) -> (minute: i32)
        ensures
            minute == self@.minute,
    {
        self.minute
    }

    /// The time of day as text, such as `08:05`.
    pub fn get_time(&self) -> (text: String)
        ensures
            text@ == clock_text(self@.hour, self@.minute),
    {
        let mut text = String::new();
        append_two_digits(&mut text, self.hour);
        proof {
            reveal_strlit(":");
        }
        text.append(":");
        append_two_digits(&mut text, self.minute);
        assert(text@ =~= clock_text(self@.hour, self@.minute));
        text
    }

    /// The day and the time of day as text, such as `Day 1, 08:05`.
    pub fn get_day_and_time(&self) -> (text: String)
        ensures
            text@ == stamp_text(self@.day, self@.hour, self@.minute),
    {
        let mut text = String::from_str("Day ");
        append_decimal(&mut text, self.day);
        text.append(", ");
        let clock = self.get_time();
        text.append(clock.as_str());
        assert(text@ =~= stamp_text(self@.day, self@.hour, self@.minute));
        text
    }
}

/// A clock that shows a time of day still does after a minute, an hour or a
/// day has passed.
pub proof fn lemma_clock_stays_on(time: TimeView)
    requires
        time.on_the_clock(),
    ensures
        time.next_day().on_the_clock(),
        time.next_hour().on_the_clock(),
        time.next_minute().on_the_clock(),
{
}

} // verus!
