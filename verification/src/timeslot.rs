//! Weekly timeslots: a range of weekdays and a daily window of local time in
//! a given time zone.

use vstd::prelude::*;
use crate::clock::{known_timezone, local_clock, is_known_timezone, local_clock_at};
use crate::instant::{Instant, MAX_TIMESTAMP};
use crate::text::{chars_of, two_digits, digit_char, push_two_digits, lemma_two_digits, lemma_digit_char};

verus! {

/// Why a timeslot description was refused.
#[derive(Clone, Copy, Debug, PartialEq, Eq, Structural)]
pub enum TimeslotError {
    /// The day range is not of the form `D-D` with days 1 to 7.
    DayRangeFormat,
    /// The first day of the range comes after the second.
    DayRangeOrder,
    /// A time is not four digits `HHMM` with an hour up to 23 and minutes up to 59.
    TimeFormat,
    /// The time zone is unknown.
    Timezone,
}

/// The message shown for each kind of refusal.
pub open spec fn timeslot_error_text(e: TimeslotError) -> Seq<char> {
    match e {
        TimeslotError::DayRangeFormat => "Invalid day range format. It should be like 1-7"@,
        TimeslotError::DayRangeOrder =>
            "Invalid day range, first day should be lower or equal to second day"@,
        TimeslotError::TimeFormat => "Invalid time format, it should be like 0900 or 1530"@,
        TimeslotError::Timezone => "Timezone must be string, eg +0200 or Europe/Paris"@,
    }
}

impl TimeslotError {
    /// The message shown for this refusal.
    pub fn message(&self) -> (r: String)
        ensures
            r@ == timeslot_error_text(*self),
    {
        match self {
            TimeslotError::DayRangeFormat => String::from_str(
                "Invalid day range format. It should be like 1-7",
            ),
            TimeslotError::DayRangeOrder => String::from_str(
                "Invalid day range, first day should be lower or equal to second day",
            ),
            TimeslotError::TimeFormat => String::from_str(
                "Invalid time format, it should be like 0900 or 1530",
            ),
            TimeslotError::Timezone => String::from_str(
                "Timezone must be string, eg +0200 or Europe/Paris",
            ),
        }
    }
}

/// The value of a decimal digit character.
pub open spec fn digit_value(c: char) -> int {
    c as int - '0' as int
}

/// `c` lies in the character range `lo..=hi`.
pub open spec fn char_in(c: char, lo: char, hi: char) -> bool {
    lo <= c && c <= hi
}

/// The hour and minute written as `HHMM` (first digit 0 to 2, third digit 0
/// to 5), when the hour is at most 23.
pub open spec fn spec_hours_and_minutes(s: Seq<char>) -> Option<(u32, u32)> {
    if s.len() == 4 && char_in(s[0], '0', '2') && char_in(s[1], '0', '9') && char_in(
        s[2],
        '0',
        '5',
    ) && char_in(s[3], '0', '9') {
        let hour = 10 * digit_value(s[0]) + digit_value(s[1]);
        let minute = 10 * digit_value(s[2]) + digit_value(s[3]);
        if hour <= 23 {
            Some((hour as u32, minute as u32))
        } else {
            None
        }
    } else {
        None
    }
}

/// The day range written as `D-D` with days 1 to 7, first day not after the
/// second.
pub open spec fn spec_day_range(s: Seq<char>) -> Result<(u32, u32), TimeslotError> {
    if s.len() == 3 && char_in(s[0], '1', '7') && s[1] == '-' && char_in(s[2], '1', '7') {
        let first = digit_value(s[0]);
        let last = digit_value(s[2]);
        if first > last {
            Err(TimeslotError::DayRangeOrder)
        } else {
            Ok((first as u32, last as u32))
        }
    } else {
        Err(TimeslotError::DayRangeFormat)
    }
}

/// Parses a time written as `HHMM`, such as `0900` or `1530`.
pub fn extract_hours_and_minutes(time_str: &str) -> (r: Result<(u32, u32), TimeslotError>)
    ensures
        match spec_hours_and_minutes(time_str@) {
            Some(hm) => r == Ok::<(u32, u32), TimeslotError>(hm),
            None => r == Err::<(u32, u32), TimeslotError>(TimeslotError::TimeFormat),
        },
{
    let s = chars_of(time_str);
    if s.len() == 4 && '0' <= s[0] && s[0] <= '2' && '0' <= s[1] && s[1] <= '9' && '0' <= s[2]
        && s[2] <= '5' && '0' <= s[3] && s[3] <= '9' {
        let hour = 10 * (s[0] as u32 - '0' as u32) + (s[1] as u32 - '0' as u32);
        let minute = 10 * (s[2] as u32 - '0' as u32) + (s[3] as u32 - '0' as u32);
        if hour <= 23 {
            Ok((hour, minute))
        } else {
            Err(TimeslotError::TimeFormat)
        }
    } else {
        Err(TimeslotError::TimeFormat)
    }
}

/// Parses a day range written as `D-D`, such as `1-5` for Monday to Friday.
pub fn extract_day(day_range_str: &str) -> (r: Result<(u32, u32), TimeslotError>)
    ensures
        r == spec_day_range(day_range_str@),
{
    let s = chars_of(day_range_str);
    if s.len() == 3 && '1' <= s[0] && s[0] <= '7' && s[1] == '-' && '1' <= s[2] && s[2] <= '7' {
        let first = s[0] as u32 - '0' as u32;
        let last = s[2] as u32 - '0' as u32;
        if first > last {
            Err(TimeslotError::DayRangeOrder)
        } else {
            Ok((first, last))
        }
    } else {
        Err(TimeslotError::DayRangeFormat)
    }
}

/// The abstract content of a timeslot.
pub struct TimeslotSpec {
    pub day_range: (u32, u32),
    pub start_time: (u32, u32),
    pub end_time: (u32, u32),
    pub timezone: Seq<char>,
}

/// A weekly timeslot: weekdays `day_range.0..=day_range.1` (Monday is 1),
/// local times from `start_time` to `end_time` inclusive, as `(hour, minute)`,
/// in the time zone `timezone`.
#[derive(Debug)]
pub struct Timeslot {
    pub day_range: (u32, u32),
    pub start_time: (u32, u32),
    pub end_time: (u32, u32),
    pub timezone: String,
}

impl View for Timeslot {
    type V = TimeslotSpec;

    open spec fn view(&self) -> TimeslotSpec {
        TimeslotSpec {
            day_range: self.day_range,
            start_time: self.start_time,
            end_time: self.end_time,
            timezone: self.timezone@,
        }
    }
}

/// The timeslot that the descriptions of days, start, end and zone give, or
/// the first refusal among them, checked in that order.
pub open spec fn spec_timeslot(days: Seq<char>, start: Seq<char>, end: Seq<char>, timezone: Seq<
    char,
>) -> Result<TimeslotSpec, TimeslotError> {
    match spec_day_range(days) {
        Err(e) => Err(e),
        Ok(day_range) => match spec_hours_and_minutes(start) {
            None => Err(TimeslotError::TimeFormat),
            Some(start_time) => match spec_hours_and_minutes(end) {
                None => Err(TimeslotError::TimeFormat),
                Some(end_time) => if known_timezone(timezone) {
                    Ok(TimeslotSpec { day_range, start_time, end_time, timezone })
                } else {
                    Err(TimeslotError::Timezone)
                },
            },
        },
    }
}

impl TimeslotSpec {
    /// The fields hold what a successful parse gives.
    pub open spec fn wf(self) -> bool {
        &&& 1 <= self.day_range.0 <= self.day_range.1 <= 7
        &&& self.start_time.0 <= 23 && self.start_time.1 <= 59
        &&& self.end_time.0 <= 23 && self.end_time.1 <= 59
        &&& known_timezone(self.timezone)
    }

    /// A local clock `(weekday, hour, minute)` falls in the timeslot: the
    /// weekday is in the range and the time is neither before the start
    /// nor after the end.
    pub open spec fn contains_clock(self, clock: (u32, u32, u32)) -> bool {
        let (day, hour, minute) = clock;
        &&& !(day < self.day_range.0 || day > self.day_range.1)
        &&& !(hour < self.start_time.0 || (hour == self.start_time.0 && minute
            < self.start_time.1))
        &&& !(hour > self.end_time.0 || (hour == self.end_time.0 && minute > self.end_time.1))
    }

    /// The instant falls in the timeslot, as its zone's local clock shows it.
    pub open spec fn contains(self, at: Instant) -> bool {
        self.contains_clock(local_clock(self.timezone, at.secs))
    }

    /// `k` minutes after `min` is still a supported instant and falls in
    /// the timeslot.
    pub open spec fn suitable_after(self, min: Instant, k: nat) -> bool {
        &&& min.secs + 60 * k <= MAX_TIMESTAMP
        &&& self.contains(min.plus_minutes(k))
    }

    /// `k` is the first minute count from `min` that lands in the timeslot.
    pub open spec fn is_first_suitable(self, min: Instant, k: nat) -> bool {
        &&& self.suitable_after(min, k)
        &&& forall|j: nat| j < k ==> !#[trigger] self.contains(min.plus_minutes(j))
    }

    /// Some whole number of minutes after `min` lands in the timeslot.
    pub open spec fn has_suitable_date(self, min: Instant) -> bool {
        exists|k: nat| self.suitable_after(min, k)
    }

    /// Some number of minutes after `min`, up to `max_minutes`, lands in the
    /// timeslot.
    pub open spec fn has_suitable_date_within(self, min: Instant, max_minutes: nat) -> bool {
        exists|k: nat| k <= max_minutes && self.suitable_after(min, k)
    }

    /// The first instant, stepping from `min` a minute at a time, that
    /// falls in the timeslot.
    pub open spec fn next_suitable(self, min: Instant) -> Instant {
        min.plus_minutes(choose|k: nat| self.is_first_suitable(min, k))
    }
}

/// There is at most one first suitable minute count.
pub proof fn lemma_first_suitable_unique(t: TimeslotSpec, min: Instant, k1: nat, k2: nat)
    requires
        t.is_first_suitable(min, k1),
        t.is_first_suitable(min, k2),
    ensures
        k1 == k2,
{
    if k1 < k2 {
        assert(!t.contains(min.plus_minutes(k1)));
    } else if k2 < k1 {
        assert(!t.contains(min.plus_minutes(k2)));
    }
}

/// When some minute count from `min` lands in the timeslot, a first one
/// does.
pub proof fn lemma_first_suitable_exists(t: TimeslotSpec, min: Instant, w: nat)
    requires
        t.suitable_after(min, w),
    ensures
        exists|k: nat| t.is_first_suitable(min, k),
    decreases w,
{
    if forall|j: nat| j < w ==> !#[trigger] t.contains(min.plus_minutes(j)) {
        assert(t.is_first_suitable(min, w));
    } else {
        let j = choose|j: nat| j < w && #[trigger] t.contains(min.plus_minutes(j));
        assert(t.suitable_after(min, j));
        lemma_first_suitable_exists(t, min, j);
    }
}

/// Once `k` is known to be the first suitable count, `next_suitable` is the
/// instant `k` minutes on.
pub proof fn lemma_next_suitable_is(t: TimeslotSpec, min: Instant, k: nat)
    requires
        t.is_first_suitable(min, k),
    ensures
        t.next_suitable(min) == min.plus_minutes(k),
{
    let c = choose|j: nat| t.is_first_suitable(min, j);
    lemma_first_suitable_unique(t, min, c, k);
}

/// The English name of an ISO weekday (Monday is 1).
pub open spec fn day_name(day: u32) -> Seq<char> {
    if day == 1 {
        "Monday"@
    } else if day == 2 {
        "Tuesday"@
    } else if day == 3 {
        "Wednesday"@
    } else if day == 4 {
        "Thursday"@
    } else if day == 5 {
        "Friday"@
    } else if day == 6 {
        "Saturday"@
    } else {
        "Sunday"@
    }
}

/// The sentence that describes a timeslot, such as `Monday to Friday,
/// between 09:00 and 15:00 in timezone Africa/Nairobi`.
pub open spec fn timeslot_text(t: TimeslotSpec) -> Seq<char> {
    day_name(t.day_range.0) + (if t.day_range.0 != t.day_range.1 {
        " to "@ + day_name(t.day_range.1)
    } else {
        Seq::<char>::empty()
    }) + ", between "@ + two_digits(t.start_time.0 as nat) + ":"@ + two_digits(
        t.start_time.1 as nat,
    ) + " and "@ + two_digits(t.end_time.0 as nat) + ":"@ + two_digits(t.end_time.1 as nat)
        + " in timezone "@ + t.timezone
}

/// The English name of an ISO weekday (Monday is 1).
fn day_name_str(day: u32) -> (r: &'static str)
    requires
        1 <= day <= 7,
    ensures
        r@ == day_name(day),
{
    if day == 1 {
        "Monday"
    } else if day == 2 {
        "Tuesday"
    } else if day == 3 {
        "Wednesday"
    } else if day == 4 {
        "Thursday"
    } else if day == 5 {
        "Friday"
    } else if day == 6 {
        "Saturday"
    } else {
        "Sunday"
    }
}

/// A date that falls in the timeslot is its own next suitable date.
pub proof fn law_next_suitable_of_contained_date(t: TimeslotSpec, d: Instant)
    requires
        t.contains(d),
        d.secs <= MAX_TIMESTAMP,
    ensures
        t.has_suitable_date(d),
        t.next_suitable(d) == d,
{
    assert(d.plus_minutes(0) == d);
    assert(t.suitable_after(d, 0));
    assert(t.is_first_suitable(d, 0));
    lemma_next_suitable_is(t, d, 0);
}

/// The next suitable date falls in the timeslot, is a whole number of
/// minutes after `min`, and no earlier minute step from `min` falls in it.
pub proof fn law_next_suitable_is_first_in_slot(t: TimeslotSpec, min: Instant)
    requires
        t.has_suitable_date(min),
    ensures
        t.contains(t.next_suitable(min)),
        t.next_suitable(min).secs <= MAX_TIMESTAMP,
        exists|k: nat| #[trigger] t.is_first_suitable(min, k) && t.next_suitable(min) == min.plus_minutes(k),
{
    let w = choose|k: nat| t.suitable_after(min, k);
    lemma_first_suitable_exists(t, min, w);
    let k = choose|k: nat| t.is_first_suitable(min, k);
    lemma_next_suitable_is(t, min, k);
}

/// Looking again from the next suitable date finds that same date.
pub proof fn law_next_suitable_is_idempotent(t: TimeslotSpec, min: Instant)
    requires
        t.has_suitable_date(min),
    ensures
        t.next_suitable(t.next_suitable(min)) == t.next_suitable(min),
{
    law_next_suitable_is_first_in_slot(t, min);
    law_next_suitable_of_contained_date(t, t.next_suitable(min));
}

/// A local clock falls in a timeslot exactly when its weekday lies in the
/// day range and its time of day, counted in minutes, lies between the
/// start and the end, both included; so an hour strictly between the start
/// and end hours is inside whatever its minute.
pub proof fn law_contains_clock_is_a_minute_range(t: TimeslotSpec, day: u32, hour: u32, minute: u32)
    requires
        t.start_time.1 <= 59,
        t.end_time.1 <= 59,
        minute <= 59,
    ensures
        t.contains_clock((day, hour, minute)) <==> (t.day_range.0 <= day <= t.day_range.1
            && t.start_time.0 * 60 + t.start_time.1 <= hour * 60 + minute <= t.end_time.0 * 60
            + t.end_time.1),
{
}

/// An instant falls in a timeslot exactly when the zone's local clock at
/// that instant shows a weekday of the range and a time of day between the
/// start and the end, both included.
pub proof fn law_contains_is_a_minute_range(t: TimeslotSpec, at: Instant)
    requires
        t.start_time.1 <= 59,
        t.end_time.1 <= 59,
        local_clock(t.timezone, at.secs).2 <= 59,
    ensures
        ({
            let (day, hour, minute) = local_clock(t.timezone, at.secs);
            t.contains(at) <==> (t.day_range.0 <= day <= t.day_range.1 && t.start_time.0 * 60
                + t.start_time.1 <= hour * 60 + minute <= t.end_time.0 * 60 + t.end_time.1)
        }),
{
    let (day, hour, minute) = local_clock(t.timezone, at.secs);
    law_contains_clock_is_a_minute_range(t, day, hour, minute);
}

/// Every time written `HHMM`, with an hour up to 23 and minutes up to 59,
/// both padded to two digits, reads as that hour and minute.
pub proof fn law_hours_and_minutes_read_back(h: nat, m: nat)
    requires
        h <= 23,
        m <= 59,
    ensures
        spec_hours_and_minutes(two_digits(h) + two_digits(m)) == Some((h as u32, m as u32)),
{
    lemma_two_digits(h);
    lemma_two_digits(m);
    lemma_digit_char(h as int / 10);
    lemma_digit_char(h as int % 10);
    lemma_digit_char(m as int / 10);
    lemma_digit_char(m as int % 10);
    let s = two_digits(h) + two_digits(m);
    assert(s[0] == digit_char(h as int / 10));
    assert(s[1] == digit_char(h as int % 10));
    assert(s[2] == digit_char(m as int / 10));
    assert(s[3] == digit_char(m as int % 10));
}

/// The sentence describing a timeslot ends with its start and end times and
/// its zone, `HH:MM and HH:MM in timezone <zone>`: reading the digits back
/// from the end gives the start hour and minute and the end hour and
/// minute, so timeslots that differ in any of them are described
/// differently.
pub proof fn law_timeslot_text_reads_back_times(t: TimeslotSpec)
    requires
        t.start_time.0 <= 23,
        t.start_time.1 <= 59,
        t.end_time.0 <= 23,
        t.end_time.1 <= 59,
    ensures
        ({
            let s = timeslot_text(t);
            let n = s.len() - t.timezone.len();
            &&& n >= 28
            &&& s.subrange(n, s.len() as int) == t.timezone
            &&& s.subrange(n - 13, n) == " in timezone "@
            &&& digit_value(s[n - 18]) * 10 + digit_value(s[n - 17]) == t.end_time.0
            &&& s[n - 16] == ':'
            &&& digit_value(s[n - 15]) * 10 + digit_value(s[n - 14]) == t.end_time.1
            &&& s.subrange(n - 23, n - 18) == " and "@
            &&& digit_value(s[n - 28]) * 10 + digit_value(s[n - 27]) == t.start_time.0
            &&& s[n - 26] == ':'
            &&& digit_value(s[n - 25]) * 10 + digit_value(s[n - 24]) == t.start_time.1
        }),
{
    reveal_strlit(" in timezone ");
    reveal_strlit(" and ");
    reveal_strlit(":");
    let (sh, sm) = t.start_time;
    let (eh, em) = t.end_time;
    lemma_two_digits(sh as nat);
    lemma_two_digits(sm as nat);
    lemma_two_digits(eh as nat);
    lemma_two_digits(em as nat);
    lemma_digit_char(sh as int / 10);
    lemma_digit_char(sh as int % 10);
    lemma_digit_char(sm as int / 10);
    lemma_digit_char(sm as int % 10);
    lemma_digit_char(eh as int / 10);
    lemma_digit_char(eh as int % 10);
    lemma_digit_char(em as int / 10);
    lemma_digit_char(em as int % 10);
    let prefix = day_name(t.day_range.0) + (if t.day_range.0 != t.day_range.1 {
        " to "@ + day_name(t.day_range.1)
    } else {
        Seq::<char>::empty()
    }) + ", between "@;
    let times = two_digits(sh as nat) + ":"@ + two_digits(sm as nat) + " and "@ + two_digits(eh as nat) + ":"@
        + two_digits(em as nat);
    let s = timeslot_text(t);
    assert(s =~= prefix + times + " in timezone "@ + t.timezone);
    let n = s.len() - t.timezone.len();
    assert(times.len() == 15);
    assert(n == prefix.len() + 28);
    assert(times =~= seq![
        digit_char(sh as int / 10), digit_char(sh as int % 10), ':',
        digit_char(sm as int / 10), digit_char(sm as int % 10),
        ' ', 'a', 'n', 'd', ' ',
        digit_char(eh as int / 10), digit_char(eh as int % 10), ':',
        digit_char(em as int / 10), digit_char(em as int % 10),
    ]);
    assert(s.subrange(n, s.len() as int) =~= t.timezone);
    assert(s.subrange(n - 13, n) =~= " in timezone "@);
    assert(s.subrange(n - 23, n - 18) =~= " and "@);
    assert(s[n - 28] == times[0]);
    assert(s[n - 27] == times[1]);
    assert(s[n - 26] == times[2]);
    assert(s[n - 25] == times[3]);
    assert(s[n - 24] == times[4]);
    assert(s[n - 18] == times[10]);
    assert(s[n - 17] == times[11]);
    assert(s[n - 16] == times[12]);
    assert(s[n - 15] == times[13]);
    assert(s[n - 14] == times[14]);
}

impl Timeslot {
    /// Describes the timeslot in a sentence.
    pub fn to_string(&self) -> (r: String)
        requires
            1 <= self.day_range.0 <= 7,
            1 <= self.day_range.1 <= 7,
        ensures
            r@ == timeslot_text(self@),
    {
        let mut r = String::from_str(day_name_str(self.day_range.0));
        if self.day_range.0 != self.day_range.1 {
            r.append(" to ");
            r.append(day_name_str(self.day_range.1));
        }
        r.append(", between ");
        push_two_digits(&mut r, self.start_time.0);
        r.append(":");
        push_two_digits(&mut r, self.start_time.1);
        r.append(" and ");
        push_two_digits(&mut r, self.end_time.0);
        r.append(":");
        push_two_digits(&mut r, self.end_time.1);
        r.append(" in timezone ");
        r.append(self.timezone.as_str());
        r
    }

    /// Builds a timeslot from its day range (`1-5`), start and end times
    /// (`0900`, `1700`) and time zone name (`Europe/Paris`).
    pub fn new(day_range_str: &str, start_time_str: &str, end_time_str: &str, timezone: &str) -> (r:
        Result<Self, TimeslotError>)
        ensures
            match spec_timeslot(day_range_str@, start_time_str@, end_time_str@, timezone@) {
                Ok(t) => r matches Ok(slot) && slot@ == t,
                Err(e) => r == Err::<Timeslot, TimeslotError>(e),
            },
            r matches Ok(slot) ==> slot@.wf(),
    {
        let day_range = extract_day(day_range_str)?;
        let start_time = extract_hours_and_minutes(start_time_str)?;
        let end_time = extract_hours_and_minutes(end_time_str)?;
        if !is_known_timezone(timezone) {
            return Err(TimeslotError::Timezone);
        }
        Ok(Timeslot { day_range, start_time, end_time, timezone: String::from_str(timezone) })
    }

    /// Whether `date` falls in this timeslot, as the local clock of the
    /// timeslot's zone shows it.
    pub fn is_date_within(&self, date: Instant) -> (r: bool)
        requires
            known_timezone(self.timezone@),
            date.valid(),
        ensures
            r == self@.contains(date),
    {
        let (day, hour, minute) = local_clock_at(self.timezone.as_str(), date.secs);
        if day < self.day_range.0 || day > self.day_range.1 {
            return false;
        }
        if hour < self.start_time.0 || (hour == self.start_time.0 && minute < self.start_time.1) {
            return false;
        }
        if hour > self.end_time.0 || (hour == self.end_time.0 && minute > self.end_time.1) {
            return false;
        }
        true
    }

    /// The first instant, stepping from `min_date` a minute at a time, that
    /// falls in this timeslot.
    pub fn next_suitable_date(&self, min_date: Instant) -> (r: Instant)
        requires
            known_timezone(self.timezone@),
            min_date.valid(),
            self@.has_suitable_date(min_date),
        ensures
            r == self@.next_suitable(min_date),
            r.valid(),
            self@.contains(r),
            !r.is_before(min_date),
    {
        let ghost w = choose|k: nat| self@.suitable_after(min_date, k);
        let ghost mut i: nat = 0;
        let mut d = min_date;
        assert(d == min_date.plus_minutes(i as nat));
        while !self.is_date_within(d)
            invariant
                known_timezone(self.timezone@),
                min_date.valid(),
                self@.suitable_after(min_date, w),
                i <= w,
                d == min_date.plus_minutes(i as nat),
                d.valid(),
                forall|j: nat| j < i ==> !#[trigger] self@.contains(min_date.plus_minutes(j)),
            decreases w - i,
        {
            assert(i != w);
            d = d.add_seconds(60);
            proof {
                assert(!self@.contains(min_date.plus_minutes(i as nat)));
                i = i + 1;
            }
        }
        proof {
            assert(self@.is_first_suitable(min_date, i));
            lemma_next_suitable_is(self@, min_date, i);
        }
        d
    }

    /// The first instant that falls in this timeslot, stepping from
    /// `min_date` a minute at a time for at most `max_minutes` minutes, or
    /// `None` when no such step lands in the timeslot.
    pub fn next_suitable_date_within(&self, min_date: Instant, max_minutes: u32) -> (r: Option<
        Instant,
    >)
        requires
            known_timezone(self.timezone@),
            min_date.valid(),
        ensures
            r is Some <==> self@.has_suitable_date_within(min_date, max_minutes as nat),
            r matches Some(d) ==> d == self@.next_suitable(min_date),
    {
        let mut d = min_date;
        let mut i: u32 = 0;
        loop
            invariant
                known_timezone(self.timezone@),
                min_date.valid(),
                i <= max_minutes,
                d == min_date.plus_minutes(i as nat),
                d.valid(),
                forall|j: nat| j < i ==> !#[trigger] self@.contains(min_date.plus_minutes(j)),
            decreases max_minutes - i,
        {
            if self.is_date_within(d) {
                proof {
                    assert(self@.is_first_suitable(min_date, i as nat));
                    lemma_next_suitable_is(self@, min_date, i as nat);
                    assert(self@.is_first_suitable(d, 0));
                    assert(d.plus_minutes(0) == d);
                }
                let found = self.next_suitable_date(d);
                proof {
                    lemma_next_suitable_is(self@, d, 0);
                }
                return Some(found);
            }
            if i == max_minutes || d.secs > MAX_TIMESTAMP - 60 {
                proof {
                    assert forall|k: nat| k <= max_minutes implies !self@.suitable_after(
                        min_date,
                        k,
                    ) by {
                        if k < i {
                            assert(!self@.contains(min_date.plus_minutes(k)));
                        } else if k == i {
                        } else {
                            assert(min_date.secs + 60 * k > MAX_TIMESTAMP);
                        }
                    }
                }
                return None;
            }
            d = d.add_seconds(60);
            i = i + 1;
        }
    }
}

/// Some timeslot contains `at`.
pub open spec fn any_contains(ts: Seq<TimeslotSpec>, at: Instant) -> bool {
    exists|i: int| 0 <= i < ts.len() && (#[trigger] ts[i]).contains(at)
}

/// Whether some of the timeslots contains `date`.
pub fn is_within_any(timeslots: &[Timeslot], date: Instant) -> (r: bool)
    requires
        forall|i: int| 0 <= i < timeslots@.len() ==> known_timezone((#[trigger] timeslots@[i])@.timezone),
        date.valid(),
    ensures
        r == any_contains(timeslots@.map_values(|t: Timeslot| t@), date),
{
    let ghost ts = timeslots@.map_values(|t: Timeslot| t@);
    for i in 0..timeslots.len()
        invariant
            ts == timeslots@.map_values(|t: Timeslot| t@),
            forall|j: int| 0 <= j < timeslots@.len() ==> known_timezone((#[trigger] timeslots@[j])@.timezone),
            date.valid(),
            forall|j: int| 0 <= j < i ==> !(#[trigger] ts[j]).contains(date),
    {
        assert(ts[i as int] == timeslots@[i as int]@);
        if timeslots[i].is_date_within(date) {
            return true;
        }
    }
    false
}

} // verus!
