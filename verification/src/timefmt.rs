//! Small time helpers: the date that the merged search starts from, compact ages
//! of merge times, and the time until the next refresh.

use crate::cli::Dur;
use crate::text::{dec, decimal, digit};
use chrono::{DateTime, Local, TimeDelta, Timelike, Utc};
use vstd::prelude::*;

verus! {

/// A point in time, as seconds since 1970 in UTC and nanoseconds. A leap second
/// is told by nanoseconds of a billion and more, in the last second of a minute.
#[derive(Clone, Copy, Debug, PartialEq, Eq)]
pub struct Timestamp {
    pub secs: i64,
    pub nanos: u32,
}

/// The first second that the calendar can name.
pub const FIRST_SECOND: i64 = -8_334_601_228_800;

/// The last second that the calendar can name.
pub const LAST_SECOND: i64 = 8_210_266_876_799;

impl Timestamp {
    /// Whether the calendar can name this point in time.
    pub open spec fn valid(self) -> bool {
        &&& FIRST_SECOND <= self.secs <= LAST_SECOND
        &&& self.nanos < 1_000_000_000 || (self.nanos < 2_000_000_000 && self.secs as int % 60
            == 59)
    }

    /// Nanoseconds since 1970.
    pub open spec fn total(self) -> int {
        self.secs * 1_000_000_000 + self.nanos
    }
}

/// The point in time that an RFC 3339 text names, as seconds and nanoseconds, if
/// it names one.
pub uninterp spec fn rfc3339(text: Seq<char>) -> Option<(int, int)>;

/// `chrono::DateTime::parse_from_rfc3339`: reads a timestamp; the result is a
/// function of the text and lies in the calendar's range.
#[verifier::external_body]
fn parse_rfc3339(s: &str) -> (r: Option<Timestamp>)
    ensures
        match r {
            Some(t) => rfc3339(s@) == Some((t.secs as int, t.nanos as int)) && t.valid(),
            None => rfc3339(s@) is None,
        },
{
    DateTime::parse_from_rfc3339(s).ok().map(
        |t| Timestamp { secs: t.timestamp(), nanos: t.timestamp_subsec_nanos() },
    )
}

/// The whole seconds from the second point in time to the first, each given by
/// its seconds and nanoseconds; a fraction is dropped. A leap second counts when
/// it lies between the two times of day.
pub open spec fn elapsed(now_secs: int, now_nanos: int, secs: int, nanos: int) -> int {
    let leap: int = if now_secs % 86_400 > secs % 86_400 && nanos >= 1_000_000_000 {
        1
    } else if now_secs % 86_400 < secs % 86_400 && now_nanos >= 1_000_000_000 {
        -1
    } else {
        0
    };
    let whole = now_secs - secs + leap + (now_nanos - nanos) / 1_000_000_000;
    if whole < 0 && (now_nanos - nanos) % 1_000_000_000 > 0 {
        whole + 1
    } else {
        whole
    }
}

/// The difference of two `chrono::DateTime<Utc>` and its `num_seconds`: whole
/// seconds, a fraction dropped, with leap seconds counted by the times of day.
#[verifier::external_body]
fn seconds_between(now: Timestamp, then: Timestamp) -> (r: i64)
    requires
        now.valid(),
        then.valid(),
    ensures
        r == elapsed(now.secs as int, now.nanos as int, then.secs as int, then.nanos as int),
{
    let a = DateTime::<Utc>::from_timestamp(now.secs, now.nanos).unwrap();
    let b = DateTime::<Utc>::from_timestamp(then.secs, then.nanos).unwrap();
    (a - b).num_seconds()
}

/// `chrono::Utc::now`: the current time. It is never before 1970 and never in a
/// leap second; nothing else can be said of it.
#[verifier::external_body]
fn clock() -> (r: Timestamp)
    ensures
        r.valid(),
        r.secs >= 0,
        r.nanos < 1_000_000_000,
{
    let t = Utc::now();
    Timestamp { secs: t.timestamp(), nanos: t.timestamp_subsec_nanos() }
}

/// The calendar day, as `YYYY-MM-DD` in UTC, that lies so many seconds before a
/// point in time given by its seconds and nanoseconds.
pub uninterp spec fn day_before(secs: int, nanos: int, back: int) -> Seq<char>;

/// A `chrono::DateTime<Utc>` less a `TimeDelta`, formatted as `%Y-%m-%d`: a
/// function of the point in time and of the seconds taken off it.
#[verifier::external_body]
fn date_before(now: Timestamp, back: i64) -> (r: String)
    requires
        now.valid(),
        now.nanos < 1_000_000_000,
        0 <= back <= 9_223_372_036_854_775,
        now.secs - back >= FIRST_SECOND,
    ensures
        r@ == day_before(now.secs as int, now.nanos as int, back as int),
{
    let t = DateTime::<Utc>::from_timestamp(now.secs, now.nanos).unwrap();
    (t - TimeDelta::seconds(back)).format("%Y-%m-%d").to_string()
}

/// `chrono::Local::now` with its `hour`, `minute` and `second`: the local wall
/// clock. Nothing but the range of each can be said of it.
#[verifier::external_body]
fn local_clock() -> (r: (u32, u32, u32))
    ensures
        r.0 < 24,
        r.1 < 60,
        r.2 < 60,
{
    let t = Local::now();
    (t.hour(), t.minute(), t.second())
}

/// Two digits.
pub open spec fn two_digits(n: int) -> Seq<char> {
    seq![digit(n / 10), digit(n % 10)]
}

/// A time of day as `HH:MM:SS`.
pub open spec fn hms_of(hour: int, minute: int, second: int) -> Seq<char> {
    two_digits(hour).push(':') + two_digits(minute).push(':') + two_digits(second)
}

fn push_two(s: &mut String, n: u32)
    requires
        n < 100,
    ensures
        final(s)@ == old(s)@ + two_digits(n as int),
{
    let ghost before = s@;
    s.push((48 + (n / 10) as u8) as char);
    s.push((48 + (n % 10) as u8) as char);
    proof {
        assert(s@ =~= before + two_digits(n as int));
    }
}

/// A time of day as `HH:MM:SS`.
pub fn hms(hour: u32, minute: u32, second: u32) -> (r: String)
    requires
        hour < 24,
        minute < 60,
        second < 60,
    ensures
        r@ == hms_of(hour as int, minute as int, second as int),
{
    let mut s = String::new();
    push_two(&mut s, hour);
    s.push(':');
    push_two(&mut s, minute);
    s.push(':');
    push_two(&mut s, second);
    proof {
        assert(s@ =~= hms_of(hour as int, minute as int, second as int));
    }
    s
}

/// Whether a point in time is one that the clock gives when it is read. No point
/// in time is known to be one but by reading the clock.
pub closed spec fn clock_reading(t: Timestamp) -> bool {
    call_ensures(clock, (), t)
}

fn reading<T, F: Fn() -> T>(f: F) -> (t: T)
    requires
        call_requires(f, ()),
    ensures
        call_ensures(f, (), t),
{
    f()
}

/// The current time.
pub fn now() -> (r: Timestamp)
    ensures
        clock_reading(r),
        r.valid(),
        r.secs >= 0,
        r.nanos < 1_000_000_000,
{
    reading(clock)
}

/// Whether a time of day is one that the local wall clock gives when it is read.
pub closed spec fn local_reading(hour: u32, minute: u32, second: u32) -> bool {
    call_ensures(local_clock, (), (hour, minute, second))
}

/// The local wall clock as `HH:MM:SS`, for the status line.
pub fn now_hms() -> (r: String)
    ensures
        exists|hour: u32, minute: u32, second: u32|
            #[trigger] local_reading(hour, minute, second) && hour < 24 && minute < 60 && second
                < 60 && r@ == hms_of(hour as int, minute as int, second as int),
{
    let (hour, minute, second) = reading(local_clock);
    assert(local_reading(hour, minute, second));
    hms(hour, minute, second)
}

/// How many seconds a window reaches back. One that is too long to subtract
/// counts as seven days.
pub open spec fn reach(window: Dur) -> int {
    if window.secs > 9_223_372_036_854_775 {
        604_800
    } else {
        window.secs as int
    }
}

/// Whether a window ends within the calendar, seen from any time since 1970.
pub open spec fn in_calendar(window: Dur) -> bool {
    reach(window) <= -FIRST_SECOND
}

/// The `YYYY-MM-DD` date (UTC) that lies `window` before `now`.
pub fn since_date_at(window: &Dur, now: Timestamp) -> (r: String)
    requires
        now.valid(),
        now.nanos < 1_000_000_000,
        now.secs - reach(*window) >= FIRST_SECOND,
    ensures
        r@ == day_before(now.secs as int, now.nanos as int, reach(*window)),
{
    let back: i64 = if window.secs > 9_223_372_036_854_775 {
        604_800
    } else {
        window.secs as i64
    };
    date_before(now, back)
}

/// The `YYYY-MM-DD` date `window` ago (UTC), for `merged:>=<since>`.
pub fn since_date(window: &Dur) -> (r: String)
    requires
        in_calendar(*window),
    ensures
        exists|t: Timestamp|
            clock_reading(t) && t.valid() && t.secs >= 0 && t.nanos < 1_000_000_000 && r@
                == #[trigger] day_before(
                t.secs as int,
                t.nanos as int,
                reach(*window),
            ),
{
    let t = now();
    since_date_at(window, t)
}

/// A window reaches back by its own length, to the second, as long as that can be
/// subtracted; so of two such windows the longer one reaches further back. One
/// that is too long reaches back seven days.
pub proof fn a_window_reaches_its_length(window: Dur, other: Dur)
    requires
        window.secs <= 9_223_372_036_854_775,
    ensures
        reach(window) == window.secs,
        other.secs < window.secs ==> reach(other) < reach(window),
        other.secs > 9_223_372_036_854_775 ==> reach(other) == 7 * 24 * 60 * 60,
{
}

/// A number with a unit behind it.
pub open spec fn quantity(n: int, unit: char) -> Seq<char> {
    dec(n as nat).push(unit)
}

fn with_unit(n: u64, unit: char) -> (r: String)
    ensures
        r@ == quantity(n as int, unit),
{
    let mut s = decimal(n as u128);
    s.push(unit);
    s
}

/// The minutes nearest to a number of seconds.
pub open spec fn nearest_minutes(secs: int) -> int {
    (secs + 30) / 60
}

/// The time until the next refresh: seconds under a minute, and then minutes to
/// the nearest, full hours rolled up.
pub open spec fn eta_of(secs: int) -> Seq<char> {
    let m = nearest_minutes(secs);
    if secs < 60 {
        quantity(secs, 's')
    } else if m < 60 {
        quantity(m, 'm')
    } else if m % 60 == 0 {
        quantity(m / 60, 'h')
    } else {
        quantity(m / 60, 'h') + quantity(m % 60, 'm')
    }
}

/// Compact time until the next refresh, `secs` seconds from now: `45s`, `5m`,
/// `2h`, `1h30m`.
pub fn eta(secs: u64) -> (r: String)
    ensures
        r@ == eta_of(secs as int),
{
    if secs < 60 {
        return with_unit(secs, 's');
    }
    let m: u64 = if secs % 60 < 30 {
        secs / 60
    } else {
        secs / 60 + 1
    };
    assert(m == nearest_minutes(secs as int));
    if m < 60 {
        with_unit(m, 'm')
    } else if m % 60 == 0 {
        with_unit(m / 60, 'h')
    } else {
        let mut s = with_unit(m / 60, 'h');
        let t = with_unit(m % 60, 'm');
        s.append(t.as_str());
        s
    }
}

/// The time until the next refresh is off by half a minute at most, and by
/// nothing under a minute. It never speaks of sixty minutes, nor of no hours.
pub proof fn an_eta_is_the_nearest(secs: int)
    requires
        secs >= 0,
    ensures
        secs < 60 ==> eta_of(secs) == dec(secs as nat).push('s'),
        secs >= 60 ==> exists|h: int, m: int|
            #![trigger dec(h as nat), dec(m as nat)]
            0 <= h && 0 <= m < 60 && -30 <= (h * 60 + m) * 60 - secs <= 30 && eta_of(secs) == if h
                == 0 {
                dec(m as nat).push('m')
            } else if m == 0 {
                dec(h as nat).push('h')
            } else {
                dec(h as nat).push('h') + dec(m as nat).push('m')
            },
{
    if secs >= 60 {
        let all = (secs + 30) / 60;
        let h = all / 60;
        let m = all % 60;
        assert(h * 60 + m == all);
        let a = dec(h as nat);
        let b = dec(m as nat);
        assert(all < 60 ==> h == 0 && m == all);
    }
}

/// Parse an RFC 3339 timestamp.
pub fn parse_ts(s: &str) -> (r: Option<Timestamp>)
    ensures
        match r {
            Some(t) => rfc3339(s@) == Some((t.secs as int, t.nanos as int)) && t.valid(),
            None => rfc3339(s@) is None,
        },
{
    parse_rfc3339(s)
}

/// The age for a number of seconds; one in the future counts as no age.
pub open spec fn age(secs: int) -> Seq<char> {
    if secs < 60 {
        "just now"@
    } else if secs < 3_600 {
        quantity(secs / 60, 'm')
    } else if secs < 86_400 {
        quantity(secs / 3_600, 'h')
    } else if secs < 604_800 {
        quantity(secs / 86_400, 'd')
    } else {
        quantity(secs / 604_800, 'w')
    }
}

/// Compact age for a number of seconds: `just now`, `5m`, `2h`, `3d`, `1w`.
pub fn age_for(secs: i64) -> (r: String)
    ensures
        r@ == age(secs as int),
{
    if secs < 60 {
        return "just now".to_string();
    }
    let secs: u64 = secs as u64;
    if secs < 3_600 {
        with_unit(secs / 60, 'm')
    } else if secs < 86_400 {
        with_unit(secs / 3_600, 'h')
    } else if secs < 604_800 {
        with_unit(secs / 86_400, 'd')
    } else {
        with_unit(secs / 604_800, 'w')
    }
}

/// An age is the number of whole units that have passed, in the largest unit of
/// which one has: weeks, days, hours or minutes. Under a minute, and for a time to
/// come, it is no age.
pub proof fn an_age_counts_whole_units(secs: int, n: int)
    requires
        n >= 1,
    ensures
        secs < 60 ==> age(secs) == "just now"@,
        n < 60 && n * 60 <= secs < (n + 1) * 60 ==> age(secs) == dec(n as nat).push('m'),
        n < 24 && n * 3_600 <= secs < (n + 1) * 3_600 ==> age(secs) == dec(n as nat).push('h'),
        n < 7 && n * 86_400 <= secs < (n + 1) * 86_400 ==> age(secs) == dec(n as nat).push('d'),
        n * 604_800 <= secs < (n + 1) * 604_800 ==> age(secs) == dec(n as nat).push('w'),
{
}

/// Compact age of `then` as seen from `now`.
pub fn relative_age(now: Timestamp, then: Timestamp) -> (r: String)
    requires
        now.valid(),
        then.valid(),
    ensures
        r@ == age(
            elapsed(now.secs as int, now.nanos as int, then.secs as int, then.nanos as int),
        ),
        now.nanos < 1_000_000_000 && then.nanos < 1_000_000_000 ==> r@ == age(
            (now.total() - then.total()) / 1_000_000_000,
        ),
{
    let secs = seconds_between(now, then);
    age_for(secs)
}

/// The age of an RFC 3339 text as seen from a point in time, or `?` when it is
/// missing or cannot be read.
pub open spec fn age_seen(now: Timestamp, ts: Option<Seq<char>>) -> Seq<char> {
    match ts {
        Some(s) => match rfc3339(s) {
            Some(t) => age(elapsed(now.secs as int, now.nanos as int, t.0, t.1)),
            None => "?"@,
        },
        None => "?"@,
    }
}

/// The age of an RFC 3339 text as seen from `now`, or `?` if there is none to be
/// read.
pub fn age_at(now: Timestamp, ts: &Option<String>) -> (r: String)
    requires
        now.valid(),
    ensures
        r@ == age_seen(now, crate::text::opt_view(*ts)),
{
    match ts {
        Some(s) => match parse_ts(s.as_str()) {
            Some(t) => relative_age(now, t),
            None => "?".to_string(),
        },
        None => "?".to_string(),
    }
}

/// The age of an RFC 3339 text as seen from the current time.
pub fn age_of(ts: Option<&str>) -> (r: String)
    ensures
        exists|t: Timestamp|
            clock_reading(t) && t.valid() && t.secs >= 0 && t.nanos < 1_000_000_000 && r@
                == #[trigger] age_seen(t, crate::text::opt_str_view(ts)),
{
    let t = now();
    let owned = match ts {
        Some(s) => Some(s.to_string()),
        None => None,
    };
    let r = age_at(t, &owned);
    assert(r@ == age_seen(t, crate::text::opt_str_view(ts)));
    r
}

/// The date of a window lies its length before the time, to the second, as long as
/// that can be subtracted.
pub proof fn a_date_lies_the_window_back(window: &Dur, now: Timestamp, r: String)
    requires
        call_ensures(since_date_at, (window, now), r),
        window.secs <= 9_223_372_036_854_775,
    ensures
        r@ == day_before(now.secs as int, now.nanos as int, window.secs as int),
{
    a_window_reaches_its_length(*window, *window);
}

/// The date that the merged search starts from lies the window before a time that
/// the clock gave.
pub proof fn a_date_is_told_by_the_clock(window: &Dur, r: String)
    requires
        call_ensures(since_date, (window,), r),
        window.secs <= 9_223_372_036_854_775,
    ensures
        exists|t: Timestamp| #[trigger]
            clock_reading(t) && r@ == day_before(
                t.secs as int,
                t.nanos as int,
                window.secs as int,
            ),
{
    a_window_reaches_its_length(*window, *window);
    let t = choose|t: Timestamp|
        clock_reading(t) && t.valid() && t.secs >= 0 && t.nanos < 1_000_000_000 && r@
            == #[trigger] day_before(t.secs as int, t.nanos as int, reach(*window));
    assert(clock_reading(t));
}

/// The compact age of a point in time, by the seconds that have passed since.
pub proof fn a_relative_age_counts_whole_units(now: Timestamp, then: Timestamp, r: String, n: int)
    requires
        call_ensures(relative_age, (now, then), r),
        now.nanos < 1_000_000_000,
        then.nanos < 1_000_000_000,
        n >= 1,
    ensures
        ({
            let secs = (now.total() - then.total()) / 1_000_000_000;
            &&& secs < 60 ==> r@ == "just now"@
            &&& n < 60 && n * 60 <= secs < (n + 1) * 60 ==> r@ == dec(n as nat).push('m')
            &&& n < 24 && n * 3_600 <= secs < (n + 1) * 3_600 ==> r@ == dec(n as nat).push('h')
            &&& n < 7 && n * 86_400 <= secs < (n + 1) * 86_400 ==> r@ == dec(n as nat).push('d')
            &&& n * 604_800 <= secs < (n + 1) * 604_800 ==> r@ == dec(n as nat).push('w')
        }),
{
    an_age_counts_whole_units((now.total() - then.total()) / 1_000_000_000, n);
}

/// A time that is missing or cannot be read has an unknown age.
pub proof fn what_cannot_be_read_has_no_age(now: Timestamp, ts: Option<Seq<char>>)
    ensures
        ts is None ==> age_seen(now, ts) == "?"@,
        ts matches Some(t) ==> (rfc3339(t) is None ==> age_seen(now, ts) == "?"@),
        ts matches Some(t) ==> (rfc3339(t) matches Some(p) ==> age_seen(now, ts) == age(
            elapsed(now.secs as int, now.nanos as int, p.0, p.1),
        )),
{
}

} // verus!
