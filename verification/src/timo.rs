use vstd::prelude::*;

use chrono::{DateTime, Datelike, Offset, TimeZone, Timelike};
use chrono_tz::{OffsetName, Tz};

use crate::text::{decimal, push_char};

verus! {

/// A local date and time in some time zone, as plain values.
pub ghost struct LocalView {
    pub year: i32,
    pub month: u32,
    pub day: u32,
    pub hour: u32,
    pub minute: u32,
    pub second: u32,
    /// Days since Monday (Monday is 0).
    pub weekday: u32,
    /// Local time minus UTC, in seconds.
    pub offset_secs: i32,
    pub abbreviation: Seq<char>,
}

/// The local reading of an instant in a time zone.
pub struct ZonedTime {
    pub year: i32,
    pub month: u32,
    pub day: u32,
    pub hour: u32,
    pub minute: u32,
    pub second: u32,
    pub weekday: u32,
    pub offset_secs: i32,
    pub abbreviation: String,
}

impl DeepView for ZonedTime {
    type V = LocalView;

    open spec fn deep_view(&self) -> LocalView {
        LocalView {
            year: self.year,
            month: self.month,
            day: self.day,
            hour: self.hour,
            minute: self.minute,
            second: self.second,
            weekday: self.weekday,
            offset_secs: self.offset_secs,
            abbreviation: self.abbreviation@,
        }
    }
}

/// The instants that a local date and time stands for in a zone: none (an invalid date, or a
/// time skipped by a clock change), one, or two (a time repeated by a clock change), each as
/// seconds since the Unix epoch.
#[derive(Clone, Copy, Debug, PartialEq, Eq)]
pub enum Candidates {
    Nonexistent,
    Single(i64),
    Ambiguous(i64, i64),
}

/// Whether `year` is a leap year of the proleptic Gregorian calendar.
pub open spec fn is_leap_year(year: int) -> bool {
    (year % 4 == 0 && year % 100 != 0) || year % 400 == 0
}

/// The number of days in `month` of `year`.
pub open spec fn month_length(year: int, month: int) -> int {
    if month == 2 {
        if is_leap_year(year) { 29 } else { 28 }
    } else if month == 4 || month == 6 || month == 9 || month == 11 {
        30
    } else {
        31
    }
}

/// Whether the fields name a real calendar date and a time of day without leap second.
pub open spec fn valid_civil(year: int, month: int, day: int, hour: int, minute: int, second: int) -> bool {
    1 <= month <= 12 && 1 <= day <= month_length(year, month) && 0 <= hour < 24 && 0 <= minute < 60
        && 0 <= second < 60
}

/// Days from 1970-01-01 to the given date of the proleptic Gregorian calendar.
pub open spec fn days_from_civil(year: int, month: int, day: int) -> int {
    let y = if month <= 2 { year - 1 } else { year };
    let mp = (month + 9) % 12;
    let day_of_year = (153 * mp + 2) / 5 + day - 1;
    365 * y + y / 4 - y / 100 + y / 400 + day_of_year - 719468
}

/// The day of the week of a date, counted from Monday (0) to Sunday (6).
pub open spec fn civil_weekday(year: int, month: int, day: int) -> int {
    (days_from_civil(year, month, day) + 3) % 7
}

/// Seconds from the Unix epoch to a local reading, the reading taken as if it were UTC.
pub open spec fn local_seconds(l: LocalView) -> int {
    days_from_civil(l.year as int, l.month as int, l.day as int) * 86400 + l.hour * 3600 + l.minute
        * 60 + l.second
}

/// What holds of every local reading of `timestamp`: a real date and time, its weekday, an
/// offset of less than a day, and local time equal to the instant plus the offset.
pub open spec fn consistent_reading(l: LocalView, timestamp: i64) -> bool {
    &&& valid_civil(l.year as int, l.month as int, l.day as int, l.hour as int, l.minute as int, l.second as int)
    &&& -262144 <= l.year <= 262143
    &&& l.weekday == civil_weekday(l.year as int, l.month as int, l.day as int)
    &&& -86400 < l.offset_secs < 86400
    &&& local_seconds(l) == timestamp + l.offset_secs
}

/// The first instant that the time zone library can represent.
pub open spec fn first_instant() -> i64 {
    -8334601228800i64
}

/// The last instant that the time zone library can represent.
pub open spec fn last_instant() -> i64 {
    8210266876799i64
}

/// Whether `name` is a time zone identifier of the tz database (as `chrono_tz::Tz` parses it).
pub uninterp spec fn known_zone(name: Seq<char>) -> bool;

/// The local reading of the instant `timestamp` in the zone `zone`.
pub uninterp spec fn zoned_time_at(zone: Seq<char>, timestamp: i64) -> Option<LocalView>;

/// The instants that a local date and time stands for in the zone `zone`.
pub uninterp spec fn local_candidates(
    zone: Seq<char>,
    year: i32,
    month: u32,
    day: u32,
    hour: u32,
    minute: u32,
    second: u32,
) -> Candidates;

/// The text `%Y-%m-%d %H:%M:%S` of the instant `timestamp` read in the zone `zone`.
pub uninterp spec fn formatted_local_time(zone: Seq<char>, timestamp: i64) -> Option<Seq<char>>;

/// Whether `timestamp` read in `zone` gives exactly the given local fields.
pub open spec fn reads_as(zone: Seq<char>, timestamp: i64, year: i32, month: u32, day: u32, hour: u32, minute: u32, second: u32) -> bool {
    zoned_time_at(zone, timestamp) matches Some(l) && l.year == year && l.month == month && l.day
        == day && l.hour == hour && l.minute == minute && l.second == second
}

/// Whether `name` parses as a `chrono_tz::Tz` (an exact, case-sensitive tz database name).
#[verifier::external_body]
fn zone_is_known(name: &str) -> (b: bool)
    ensures
        b == known_zone(name@),
{
    name.parse::<Tz>().is_ok()
}

/// `TimeZone::with_ymd_and_hms` in the zone `zone`, each resulting instant taken as its
/// Unix timestamp. Stated: fields that are no real date and time give no instant, each
/// instant given reads back as those very fields in that zone, and of two instants the
/// earlier comes first (chrono-tz pairs the span before a clock change with the one after).
#[verifier::external_body]
fn local_candidates_of(zone: &str, year: i32, month: u32, day: u32, hour: u32, minute: u32, second: u32) -> (r: Candidates)
    requires
        known_zone(zone@),
    ensures
        r == local_candidates(zone@, year, month, day, hour, minute, second),
        !valid_civil(year as int, month as int, day as int, hour as int, minute as int, second as int)
            ==> r is Nonexistent,
        r matches Candidates::Single(t) ==> reads_as(zone@, t, year, month, day, hour, minute, second),
        r matches Candidates::Ambiguous(a, b) ==> reads_as(zone@, a, year, month, day, hour, minute, second)
            && reads_as(zone@, b, year, month, day, hour, minute, second),
        r matches Candidates::Ambiguous(a, b) ==> a < b,
{
    let tz: Tz = match zone.parse() { Ok(tz) => tz, Err(_) => return Candidates::Nonexistent };
    match tz.with_ymd_and_hms(year, month, day, hour, minute, second) {
        chrono::LocalResult::Single(dt) => Candidates::Single(dt.timestamp()),
        chrono::LocalResult::Ambiguous(a, b) => Candidates::Ambiguous(a.timestamp(), b.timestamp()),
        chrono::LocalResult::None => Candidates::Nonexistent,
    }
}

/// `DateTime::from_timestamp(timestamp, 0)` moved to the zone `zone` with
/// `DateTime::with_timezone`, read through `Datelike`, `Timelike`, the fixed offset and the
/// offset's abbreviation. Stated: a reading exists exactly for the instants the library can
/// represent, and every reading is a consistent local date and time for that instant.
#[verifier::external_body]
fn zoned_at(zone: &str, timestamp: i64) -> (r: Option<ZonedTime>)
    requires
        known_zone(zone@),
    ensures
        r.deep_view() == zoned_time_at(zone@, timestamp),
        r is Some <==> first_instant() <= timestamp <= last_instant(),
        r matches Some(z) ==> consistent_reading(z.deep_view(), timestamp),
{
    let tz: Tz = match zone.parse() { Ok(tz) => tz, Err(_) => return None };
    let dt = DateTime::from_timestamp(timestamp, 0)?.with_timezone(&tz);
    Some(ZonedTime {
        year: dt.year(), month: dt.month(), day: dt.day(), hour: dt.hour(), minute: dt.minute(),
        second: dt.second(), weekday: dt.weekday().num_days_from_monday(),
        offset_secs: dt.offset().fix().local_minus_utc(), abbreviation: dt.offset().abbreviation().to_string(),
    })
}

/// Whole seconds since the Unix epoch on the system clock (`SystemTime::now` measured with
/// `duration_since(UNIX_EPOCH)`); `None` when the clock reads before the epoch. Which
/// reading it is depends on the clock, so nothing is stated of it.
#[verifier::external_body]
fn clock_seconds() -> (r: Option<u64>)
{
    std::time::SystemTime::now().duration_since(std::time::UNIX_EPOCH).ok().map(|d| d.as_secs())
}

/// `n` in decimal with zeros in front to make `width` digits.
pub open spec fn zero_padded(n: nat, width: nat) -> Seq<char>
    decreases width,
{
    if decimal(n).len() >= width {
        decimal(n)
    } else if width == 0 {
        decimal(n)
    } else {
        seq!['0'] + zero_padded(n, (width - 1) as nat)
    }
}

/// `%Y-%m-%d %H:%M:%S` of a reading whose year has at most four digits.
pub open spec fn iso_text(l: LocalView) -> Seq<char> {
    zero_padded(l.year as nat, 4) + "-"@ + zero_padded(l.month as nat, 2) + "-"@ + zero_padded(l.day as nat, 2)
        + " "@ + zero_padded(l.hour as nat, 2) + ":"@ + zero_padded(l.minute as nat, 2) + ":"@
        + zero_padded(l.second as nat, 2)
}

/// `DateTime::format("%Y-%m-%d %H:%M:%S")` of the instant `timestamp` in the zone `zone`.
/// Stated: there is a text exactly when there is a reading, and for years 0 to 9999 it is
/// the zero-padded fields; other years (which carry a sign) are only named.
#[verifier::external_body]
fn format_zoned(zone: &str, timestamp: i64) -> (r: Option<String>)
    requires
        known_zone(zone@),
    ensures
        r.deep_view() == formatted_local_time(zone@, timestamp),
        r is Some <==> zoned_time_at(zone@, timestamp) is Some,
        zoned_time_at(zone@, timestamp) matches Some(l) ==> (0 <= l.year <= 9999 ==> r.deep_view()
            == Some(iso_text(l))),
{
    let tz: Tz = match zone.parse() { Ok(tz) => tz, Err(_) => return None };
    let dt = DateTime::from_timestamp(timestamp, 0)?.with_timezone(&tz);
    Some(dt.format("%Y-%m-%d %H:%M:%S").to_string())
}

} // verus!

verus! {

/// A moment in a named time zone, with its local reading.
pub struct TimoDateTime {
    zone: String,
    timestamp: i64,
    local: ZonedTime,
}

/// Whether the value's reading is its zone's reading of its instant (every value made by
/// this module is so).
pub open spec fn reads_its_instant(v: TimoDateTime) -> bool {
    zoned_time_at(v.zone_name(), v.instant()) == Some(v.reading())
}

/// The message for a zone name the tz database does not know.
pub open spec fn unknown_zone_message(name: Seq<char>) -> Seq<char> {
    "Unknown timezone: "@ + name
}

/// The message when the system clock reads before the Unix epoch or beyond the last
/// representable instant.
pub open spec fn clock_error_message() -> Seq<char> {
    "System time out of range."@
}

/// The message for a local time that does not exist in the zone.
pub open spec fn missing_local_time_message() -> Seq<char> {
    "Invalid local time (skipped due to seasonal DST jump)."@
}

impl TimoDateTime {
    /// The value is the zone's reading of its instant.
    #[verifier::type_invariant]
    spec fn well_formed(self) -> bool {
        &&& known_zone(self.zone@)
        &&& zoned_time_at(self.zone@, self.timestamp) == Some(self.local.deep_view())
        &&& consistent_reading(self.local.deep_view(), self.timestamp)
        &&& first_instant() <= self.timestamp <= last_instant()
    }

    /// The time zone's name.
    pub closed spec fn zone_name(self) -> Seq<char> {
        self.zone@
    }

    /// The instant, in seconds since the Unix epoch.
    pub closed spec fn instant(self) -> i64 {
        self.timestamp
    }

    /// The local reading of the instant in the zone.
    pub closed spec fn reading(self) -> LocalView {
        self.local.deep_view()
    }

    fn unknown_zone(name: &str) -> (m: String)
        ensures
            m@ == unknown_zone_message(name@),
    {
        let mut m = String::from_str("Unknown timezone: ");
        m.append(name);
        m
    }

    /// The moment at the local date and time given in the zone `tz_str`. For a time that a
    /// clock change repeats, the earlier of the two instants.
    pub fn new(year: i32, month: u32, day: u32, hour: u32, minute: u32, second: u32, tz_str: &str) -> (r: Result<Self, String>)
        ensures
            !known_zone(tz_str@) ==> (r matches Err(m) && m@ == unknown_zone_message(tz_str@)),
            known_zone(tz_str@) ==> match local_candidates(tz_str@, year, month, day, hour, minute, second) {
                Candidates::Nonexistent => r matches Err(m) && m@ == missing_local_time_message(),
                Candidates::Single(t) => r matches Ok(v) && v.zone_name() == tz_str@ && v.instant() == t,
                Candidates::Ambiguous(t, later) => r matches Ok(v) && v.zone_name() == tz_str@ && v.instant() == t
                    && t < later,
            },
            r matches Ok(v) ==> reads_its_instant(v),
            r matches Ok(v) ==> v.reading().year == year && v.reading().month == month && v.reading().day
                == day && v.reading().hour == hour && v.reading().minute == minute && v.reading().second
                == second,
    {
        if !zone_is_known(tz_str) {
            return Err(Self::unknown_zone(tz_str));
        }
        let t = match local_candidates_of(tz_str, year, month, day, hour, minute, second) {
            Candidates::Single(t) => t,
            Candidates::Ambiguous(a, _) => a,
            Candidates::Nonexistent => {
                return Err(String::from_str("Invalid local time (skipped due to seasonal DST jump)."));
            },
        };
        let local = zoned_at(tz_str, t);
        match local {
            Some(local) => Ok(TimoDateTime { zone: String::from_str(tz_str), timestamp: t, local }),
            None => {
                assert(false);
                Err(String::new())
            },
        }
    }

    /// The moment at the instant `t` (seconds since the Unix epoch) in the zone `tz_str`.
    pub fn at_timestamp(tz_str: &str, t: i64) -> (r: Result<Self, String>)
        requires
            first_instant() <= t <= last_instant(),
        ensures
            !known_zone(tz_str@) ==> (r matches Err(m) && m@ == unknown_zone_message(tz_str@)),
            known_zone(tz_str@) ==> (r matches Ok(v) && v.zone_name() == tz_str@ && v.instant() == t),
            r matches Ok(v) ==> reads_its_instant(v),
    {
        if !zone_is_known(tz_str) {
            return Err(Self::unknown_zone(tz_str));
        }
        match zoned_at(tz_str, t) {
            Some(local) => Ok(TimoDateTime { zone: String::from_str(tz_str), timestamp: t, local }),
            None => {
                assert(false);
                Err(String::new())
            },
        }
    }

    /// The current moment in the zone `tz_str`: the system clock's reading in whole seconds,
    /// as `at_timestamp` gives it. A clock that reads before the Unix epoch, or beyond the
    /// last instant the time zone library can represent, gives the clock error.
    pub fn now(tz_str: &str) -> (r: Result<Self, String>)
        ensures
            !known_zone(tz_str@) ==> (r matches Err(m) && m@ == unknown_zone_message(tz_str@)),
            known_zone(tz_str@) ==> (r matches Ok(v) && v.zone_name() == tz_str@ && 0 <= v.instant())
                || (r matches Err(m) && m@ == clock_error_message()),
            r matches Ok(v) ==> reads_its_instant(v),
    {
        Self::from_clock_reading(tz_str, clock_seconds())
    }

    /// The moment that a clock reading (`None`: before the Unix epoch) stands for in the zone
    /// `tz_str`: the reading as an instant, or the clock error when there is none or it lies
    /// beyond the last representable instant.
    pub fn from_clock_reading(tz_str: &str, reading: Option<u64>) -> (r: Result<Self, String>)
        ensures
            !known_zone(tz_str@) ==> (r matches Err(m) && m@ == unknown_zone_message(tz_str@)),
            known_zone(tz_str@) ==> match reading {
                Some(secs) if secs <= last_instant() => r matches Ok(v) && v.zone_name() == tz_str@
                    && v.instant() == secs,
                _ => r matches Err(m) && m@ == clock_error_message(),
            },
            r matches Ok(v) ==> reads_its_instant(v),
    {
        if !zone_is_known(tz_str) {
            return Err(Self::unknown_zone(tz_str));
        }
        match reading {
            Some(secs) => {
                if secs <= 8210266876799u64 {
                    Self::at_timestamp(tz_str, secs as i64)
                } else {
                    Err(String::from_str("System time out of range."))
                }
            },
            None => Err(String::from_str("System time out of range.")),
        }
    }
}

} // verus!

verus! {

/// Rust's `/` on integers (rounding toward zero), for a positive divisor.
pub open spec fn trunc_div(a: int, b: int) -> int {
    if a >= 0 { a / b } else { -((-a) / b) }
}

/// Rust's `%` on integers (the remainder has the sign of `a`), for a positive divisor.
pub open spec fn trunc_rem(a: int, b: int) -> int {
    if a >= 0 { a % b } else { -((-a) % b) }
}

/// The age of the moon in days (0 to 29) on a date, by the epact rule of thumb.
pub open spec fn moon_age(year: int, month: int, day: int) -> int {
    let c = trunc_div(year, 100);
    let y0 = trunc_rem(year, 100);
    let y = if month < 3 { y0 - 1 } else { y0 };
    let m = if month < 3 { month + 12 } else { month };
    let e0 = trunc_rem(11 * trunc_rem(y, 19) + 11, 30);
    let epact = if c == 20 { trunc_rem(e0 + 29, 30) } else { e0 };
    let age = trunc_rem(epact + day + (m - 3) + 2, 30);
    if age < 0 { age + 30 } else { age }
}

/// The name of the moon's phase at `age` days.
pub open spec fn moon_phase_name(age: int) -> Seq<char> {
    if age == 0 || age == 29 {
        "🌑 New Moon"@
    } else if 1 <= age <= 6 {
        "🌒 Waxing Crescent"@
    } else if 7 <= age <= 8 {
        "🌓 First Quarter"@
    } else if 9 <= age <= 13 {
        "🌔 Waxing Gibbous"@
    } else if 14 <= age <= 15 {
        "🌕 Full Moon"@
    } else if 16 <= age <= 21 {
        "🌖 Waning Gibbous"@
    } else if 22 <= age <= 23 {
        "🌗 Third Quarter"@
    } else {
        "🌘 Waning Crescent"@
    }
}

/// The English name of month `n` (1 to 12; anything else counts as December).
pub open spec fn month_name(n: int) -> Seq<char> {
    if n == 1 {
        "January"@
    } else if n == 2 {
        "February"@
    } else if n == 3 {
        "March"@
    } else if n == 4 {
        "April"@
    } else if n == 5 {
        "May"@
    } else if n == 6 {
        "June"@
    } else if n == 7 {
        "July"@
    } else if n == 8 {
        "August"@
    } else if n == 9 {
        "September"@
    } else if n == 10 {
        "October"@
    } else if n == 11 {
        "November"@
    } else {
        "December"@
    }
}

/// The instants of midnight on the first of January of the value's year, in its zone.
pub open spec fn january_first(v: TimoDateTime) -> Candidates {
    local_candidates(v.zone_name(), v.reading().year, 1, 1, 0, 0, 0)
}

/// Whether the season can be told: midnight on the first of January is a single instant.
pub open spec fn season_defined(v: TimoDateTime) -> bool {
    january_first(v) is Single
}

/// Whether the value is in summer time: its offset is ahead of the offset at midnight on the
/// first of January of its year.
pub open spec fn in_summertime(v: TimoDateTime) -> bool {
    match january_first(v) {
        Candidates::Single(t) => match zoned_time_at(v.zone_name(), t) {
            Some(jan) => v.reading().offset_secs > jan.offset_secs,
            None => false,
        },
        _ => false,
    }
}

/// The instants of midnight on the first day of the next month (for months before December).
pub open spec fn next_month_start(v: TimoDateTime) -> Candidates {
    local_candidates(v.zone_name(), v.reading().year, (v.reading().month + 1) as u32, 1, 0, 0, 0)
}

/// Whether the month length can be told: December, or a month followed by a single midnight
/// on the first of the next month from which a day can be taken back.
pub open spec fn month_length_defined(v: TimoDateTime) -> bool {
    v.reading().month == 12 || (next_month_start(v) matches Candidates::Single(t) && t - 86400
        >= first_instant())
}

/// The number of days in the value's month: 31 for December; otherwise the day of the month,
/// in the zone, one day (86400 seconds) before midnight on the first of the next month.
pub open spec fn days_in_this_month(v: TimoDateTime) -> int {
    if v.reading().month == 12 {
        31
    } else {
        match next_month_start(v) {
            Candidates::Single(t) => match zoned_time_at(v.zone_name(), (t - 86400) as i64) {
                Some(l) => l.day as int,
                None => 0,
            },
            _ => 0,
        }
    }
}

/// Whether the zone keeps the same offset over the last day of the value's month: December,
/// or a month whose next first-of-month midnight is a single instant with the same offset as
/// 86400 seconds before it. The month length is then the calendar's.
pub open spec fn steady_month_end(v: TimoDateTime) -> bool {
    v.reading().month == 12 || match next_month_start(v) {
        Candidates::Single(t) => match (zoned_time_at(v.zone_name(), t), zoned_time_at(v.zone_name(), (t - 86400) as i64)) {
            (Some(a), Some(b)) => a.offset_secs == b.offset_secs,
            _ => false,
        },
        _ => false,
    }
}

/// The instants of midnight on the first day of the value's month.
pub open spec fn month_start(v: TimoDateTime) -> Candidates {
    local_candidates(v.zone_name(), v.reading().year, v.reading().month, 1, 0, 0, 0)
}

/// The season part of the status summary.
pub open spec fn season_text(summer: bool) -> Seq<char> {
    if summer { "Summertime (DST)"@ } else { "Wintertime / Standard Time"@ }
}

/// The one-line status of a value: local time, zone abbreviation, season and moon phase.
pub open spec fn status_text(v: TimoDateTime) -> Seq<char> {
    "Time: "@ + match formatted_local_time(v.zone_name(), v.instant()) {
        Some(t) => t,
        None => Seq::empty(),
    } + " | Zone: "@ + v.reading().abbreviation + " | Season: "@ + season_text(in_summertime(v))
        + " | Moon: "@ + moon_phase_name(
        moon_age(v.reading().year as int, v.reading().month as int, v.reading().day as int),
    )
}

fn trunc_div_of(a: i64, b: i64) -> (r: i64)
    requires
        b > 0,
        a > i64::MIN,
    ensures
        r == trunc_div(a as int, b as int),
{
    if a >= 0 { a / b } else { -((-a) / b) }
}

fn trunc_rem_of(a: i64, b: i64) -> (r: i64)
    requires
        b > 0,
        a > i64::MIN,
    ensures
        r == trunc_rem(a as int, b as int),
        -b < r < b,
{
    if a >= 0 { a % b } else { -((-a) % b) }
}

impl TimoDateTime {
    /// The same instant in the zone `new_tz_str`.
    pub fn switch_timezone(&self, new_tz_str: &str) -> (r: Result<Self, String>)
        ensures
            !known_zone(new_tz_str@) ==> (r matches Err(m) && m@ == unknown_zone_message(new_tz_str@)),
            known_zone(new_tz_str@) ==> (r matches Ok(v) && v.zone_name() == new_tz_str@ && v.instant()
                == self.instant()),
            r matches Ok(v) ==> reads_its_instant(v),
            reads_its_instant(*self),
    {
        proof {
            use_type_invariant(self);
        }
        if !zone_is_known(new_tz_str) {
            return Err(Self::unknown_zone(new_tz_str));
        }
        match zoned_at(new_tz_str, self.timestamp) {
            Some(local) => Ok(TimoDateTime { zone: String::from_str(new_tz_str), timestamp: self.timestamp, local }),
            None => {
                assert(false);
                Err(String::new())
            },
        }
    }

    /// Whether the value is in summer time (ahead of its zone's offset on the first of January).
    pub fn is_summertime(&self) -> (b: bool)
        requires
            season_defined(*self),
        ensures
            b == in_summertime(*self),
    {
        proof {
            use_type_invariant(self);
        }
        match local_candidates_of(self.zone.as_str(), self.local.year, 1, 1, 0, 0, 0) {
            Candidates::Single(t) => match zoned_at(self.zone.as_str(), t) {
                Some(jan) => self.local.offset_secs > jan.offset_secs,
                None => false,
            },
            _ => false,
        }
    }

    /// Whether the value is in summer time; `None` when midnight on the first of January is
    /// skipped or repeated in its zone.
    pub fn checked_is_summertime(&self) -> (r: Option<bool>)
        ensures
            season_defined(*self) ==> r == Some(in_summertime(*self)),
            !season_defined(*self) ==> r is None,
    {
        proof {
            use_type_invariant(self);
        }
        match local_candidates_of(self.zone.as_str(), self.local.year, 1, 1, 0, 0, 0) {
            Candidates::Single(_) => Some(self.is_summertime()),
            _ => None,
        }
    }

    /// The number of days in the value's month.
    pub fn days_in_month(&self) -> (n: u32)
        requires
            month_length_defined(*self),
        ensures
            n == days_in_this_month(*self),
            steady_month_end(*self) ==> n == month_length(self.reading().year as int, self.reading().month as int),
    {
        proof {
            use_type_invariant(self);
        }
        if self.local.month == 12 {
            return 31;
        }
        match local_candidates_of(self.zone.as_str(), self.local.year, self.local.month + 1, 1, 0, 0, 0) {
            Candidates::Single(t) => {
                let start = zoned_at(self.zone.as_str(), t);
                match zoned_at(self.zone.as_str(), t - 86400) {
                    Some(before) => {
                        proof {
                            if let Some(a) = start {
                                if a.offset_secs == before.offset_secs {
                                    lemma_day_before_first_is_month_end(
                                        before.deep_view(),
                                        self.local.year as int,
                                        self.local.month as int,
                                    );
                                }
                            }
                        }
                        before.day
                    },
                    None => 0,
                }
            },
            _ => 0,
        }
    }

    /// The number of days in the value's month; `None` where it cannot be told.
    pub fn checked_days_in_month(&self) -> (r: Option<u32>)
        ensures
            month_length_defined(*self) ==> (r matches Some(n) && n == days_in_this_month(*self)),
            !month_length_defined(*self) ==> r is None,
            month_length_defined(*self) && steady_month_end(*self) ==> r == Some(
                month_length(self.reading().year as int, self.reading().month as int) as u32,
            ),
    {
        proof {
            use_type_invariant(self);
        }
        if self.local.month == 12 {
            return Some(self.days_in_month());
        }
        match local_candidates_of(self.zone.as_str(), self.local.year, self.local.month + 1, 1, 0, 0, 0) {
            Candidates::Single(t) => {
                if t >= first_instant_of() + 86400 {
                    Some(self.days_in_month())
                } else {
                    None
                }
            },
            _ => None,
        }
    }

    /// The day of the week of the first of the value's month, counted from Monday (0).
    pub fn weekday_of_first(&self) -> (w: u32)
        requires
            month_start(*self) is Single,
        ensures
            w == civil_weekday(self.reading().year as int, self.reading().month as int, 1),
    {
        proof {
            use_type_invariant(self);
        }
        match local_candidates_of(self.zone.as_str(), self.local.year, self.local.month, 1, 0, 0, 0) {
            Candidates::Single(t) => match zoned_at(self.zone.as_str(), t) {
                Some(first) => first.weekday,
                None => 0,
            },
            _ => 0,
        }
    }

    /// The weekday of the first of the month; `None` when its midnight is skipped or repeated.
    pub fn checked_weekday_of_first(&self) -> (r: Option<u32>)
        ensures
            month_start(*self) is Single ==> r == Some(
                civil_weekday(self.reading().year as int, self.reading().month as int, 1) as u32,
            ),
            !(month_start(*self) is Single) ==> r is None,
    {
        proof {
            use_type_invariant(self);
        }
        match local_candidates_of(self.zone.as_str(), self.local.year, self.local.month, 1, 0, 0, 0) {
            Candidates::Single(_) => Some(self.weekday_of_first()),
            _ => None,
        }
    }

    /// The number of days from the value's day to the end of its month.
    pub fn days_until_next_month(&self) -> (n: u32)
        requires
            month_length_defined(*self),
            days_in_this_month(*self) >= self.reading().day,
        ensures
            n == days_in_this_month(*self) - self.reading().day,
            steady_month_end(*self) ==> n == month_length(self.reading().year as int, self.reading().month as int)
                - self.reading().day,
    {
        proof {
            use_type_invariant(self);
        }
        let total = self.days_in_month();
        total - self.local.day
    }

    /// The days left in the month; `None` where the month length cannot be told or falls
    /// short of the day.
    pub fn checked_days_until_next_month(&self) -> (r: Option<u32>)
        ensures
            (month_length_defined(*self) && days_in_this_month(*self) >= self.reading().day) ==> r
                == Some((days_in_this_month(*self) - self.reading().day) as u32),
            !(month_length_defined(*self) && days_in_this_month(*self) >= self.reading().day) ==> r
                is None,
    {
        proof {
            use_type_invariant(self);
        }
        match self.checked_days_in_month() {
            Some(total) => {
                if total >= self.local.day {
                    Some(total - self.local.day)
                } else {
                    None
                }
            },
            None => None,
        }
    }

    /// The name of the month after the value's month.
    pub fn next_month_name(&self) -> (s: String)
        ensures
            s@ == month_name(if self.reading().month == 12 { 1 } else { self.reading().month + 1 }),
    {
        proof {
            use_type_invariant(self);
        }
        let month = self.local.month;
        let next = if month == 12 { 1 } else { month + 1 };
        let name = if next == 1 {
            "January"
        } else if next == 2 {
            "February"
        } else if next == 3 {
            "March"
        } else if next == 4 {
            "April"
        } else if next == 5 {
            "May"
        } else if next == 6 {
            "June"
        } else if next == 7 {
            "July"
        } else if next == 8 {
            "August"
        } else if next == 9 {
            "September"
        } else if next == 10 {
            "October"
        } else if next == 11 {
            "November"
        } else {
            "December"
        };
        String::from_str(name)
    }

    /// The phase of the moon on the value's date.
    pub fn moon_phase(&self) -> (s: &'static str)
        ensures
            s@ == moon_phase_name(
                moon_age(self.reading().year as int, self.reading().month as int, self.reading().day as int),
            ),
    {
        proof {
            use_type_invariant(self);
        }
        let year = self.local.year as i64;
        let month = self.local.month as i64;
        let day = self.local.day as i64;
        let c = trunc_div_of(year, 100);
        let mut y = trunc_rem_of(year, 100);
        let mut m = month;
        if m < 3 {
            y -= 1;
            m += 12;
        }
        let y19 = trunc_rem_of(y, 19);
        let mut epact = trunc_rem_of(11 * y19 + 11, 30);
        if c == 20 {
            epact = trunc_rem_of(epact + 29, 30);
        }
        let mut age = trunc_rem_of(epact + day + (m - 3) + 2, 30);
        if age < 0 {
            age += 30;
        }
        if age == 0 || age == 29 {
            "🌑 New Moon"
        } else if 1 <= age && age <= 6 {
            "🌒 Waxing Crescent"
        } else if 7 <= age && age <= 8 {
            "🌓 First Quarter"
        } else if 9 <= age && age <= 13 {
            "🌔 Waxing Gibbous"
        } else if 14 <= age && age <= 15 {
            "🌕 Full Moon"
        } else if 16 <= age && age <= 21 {
            "🌖 Waning Gibbous"
        } else if 22 <= age && age <= 23 {
            "🌗 Third Quarter"
        } else {
            "🌘 Waning Crescent"
        }
    }

    /// The one-line status: local time, zone abbreviation, season and moon phase.
    pub fn status_summary(&self) -> (s: String)
        requires
            season_defined(*self),
        ensures
            s@ == status_text(*self),
    {
        proof {
            use_type_invariant(self);
        }
        let mut s = String::from_str("Time: ");
        match format_zoned(self.zone.as_str(), self.timestamp) {
            Some(t) => s.append(t.as_str()),
            None => {},
        }
        s.append(" | Zone: ");
        s.append(self.local.abbreviation.as_str());
        s.append(" | Season: ");
        if self.is_summertime() {
            s.append("Summertime (DST)");
        } else {
            s.append("Wintertime / Standard Time");
        }
        s.append(" | Moon: ");
        s.append(self.moon_phase());
        s
    }

    /// The status summary; `None` when the season cannot be told.
    pub fn checked_status_summary(&self) -> (r: Option<String>)
        ensures
            season_defined(*self) ==> (r matches Some(s) && s@ == status_text(*self)),
            !season_defined(*self) ==> r is None,
    {
        match self.checked_is_summertime() {
            Some(_) => Some(self.status_summary()),
            None => None,
        }
    }
}

fn first_instant_of() -> (t: i64)
    ensures
        t == first_instant(),
{
    -8334601228800
}

} // verus!

verus! {

/// The year that a date's day count is taken from: years run from March, so January and
/// February count with the year before.
spec fn era_year(year: int, month: int) -> int {
    if month <= 2 { year - 1 } else { year }
}

/// The number of days from 1 March of year 0 to 1 March of `year`, less a constant.
spec fn year_start(year: int) -> int {
    365 * year + year / 4 - year / 100 + year / 400
}

/// Days from 1 March to the first of `month` in a year counted from March.
spec fn days_before_month(month: int) -> int {
    if month == 3 { 0 }
    else if month == 4 { 31 }
    else if month == 5 { 61 }
    else if month == 6 { 92 }
    else if month == 7 { 122 }
    else if month == 8 { 153 }
    else if month == 9 { 184 }
    else if month == 10 { 214 }
    else if month == 11 { 245 }
    else if month == 12 { 275 }
    else if month == 1 { 306 }
    else { 337 }
}

proof fn lemma_divmod(x: int, d: int)
    requires
        d > 0,
    ensures
        x == d * (x / d) + x % d,
        0 <= x % d < d,
{
    vstd::arithmetic::div_mod::lemma_fundamental_div_mod(x, d);
    vstd::arithmetic::div_mod::lemma_mod_bound(x, d);
}

proof fn lemma_days_split(year: int, month: int, day: int)
    requires
        1 <= month <= 12,
    ensures
        days_from_civil(year, month, day) == year_start(era_year(year, month)) + days_before_month(month) + day
            - 1 - 719468,
{
    let mp = (month + 9) % 12;
    lemma_divmod(month + 9, 12);
    lemma_divmod(153 * mp + 2, 5);
}

proof fn lemma_year_step(y: int)
    ensures
        year_start(y + 1) == year_start(y) + 365 + if is_leap_year(y + 1) { 1int } else { 0int },
{
    lemma_divmod(y, 4);
    lemma_divmod(y + 1, 4);
    lemma_divmod(y, 100);
    lemma_divmod(y + 1, 100);
    lemma_divmod(y, 400);
    lemma_divmod(y + 1, 400);
}

proof fn lemma_year_start_grows(a: int, b: int)
    requires
        a <= b,
    ensures
        year_start(a) <= year_start(b),
{
    lemma_divmod(a, 4);
    lemma_divmod(b, 4);
    lemma_divmod(a, 100);
    lemma_divmod(b, 100);
    lemma_divmod(a, 400);
    lemma_divmod(b, 400);
    vstd::arithmetic::div_mod::lemma_div_is_ordered(a, b, 4);
    vstd::arithmetic::div_mod::lemma_div_is_ordered(a, b, 400);
}

proof fn lemma_day_in_year(year: int, month: int, day: int)
    requires
        1 <= month <= 12,
        1 <= day <= month_length(year, month),
    ensures
        0 <= days_before_month(month) + day - 1,
        days_before_month(month) + day - 1 < 365 + if is_leap_year(era_year(year, month) + 1) { 1int } else { 0int },
{
}

/// Distinct real dates have distinct day counts.
proof fn lemma_days_injective(y1: int, m1: int, d1: int, y2: int, m2: int, d2: int)
    requires
        1 <= m1 <= 12,
        1 <= d1 <= month_length(y1, m1),
        1 <= m2 <= 12,
        1 <= d2 <= month_length(y2, m2),
        days_from_civil(y1, m1, d1) == days_from_civil(y2, m2, d2),
    ensures
        y1 == y2 && m1 == m2 && d1 == d2,
{
    lemma_days_split(y1, m1, d1);
    lemma_days_split(y2, m2, d2);
    lemma_day_in_year(y1, m1, d1);
    lemma_day_in_year(y2, m2, d2);
    let e1 = era_year(y1, m1);
    let e2 = era_year(y2, m2);
    lemma_year_step(e1);
    lemma_year_step(e2);
    if e1 < e2 {
        lemma_year_start_grows(e1 + 1, e2);
    } else if e2 < e1 {
        lemma_year_start_grows(e2 + 1, e1);
    }
    assert(e1 == e2);
}

/// The day before the first of month `month + 1` is the last day of `month`.
proof fn lemma_month_end_precedes(year: int, month: int)
    requires
        1 <= month <= 11,
    ensures
        days_from_civil(year, month, month_length(year, month)) + 1 == days_from_civil(year, month + 1, 1),
{
    lemma_days_split(year, month, month_length(year, month));
    lemma_days_split(year, month + 1, 1);
    lemma_year_step(year - 1);
}

/// A local reading taken exactly one day (86400 seconds) before midnight on the first of
/// month `month + 1` is midnight on the last calendar day of `month`: the day the month
/// length counts to.
pub proof fn lemma_day_before_first_is_month_end(l: LocalView, year: int, month: int)
    requires
        valid_civil(l.year as int, l.month as int, l.day as int, l.hour as int, l.minute as int, l.second as int),
        1 <= month <= 11,
        local_seconds(l) == days_from_civil(year, month + 1, 1) * 86400 - 86400,
    ensures
        l.year == year,
        l.month == month,
        l.day == month_length(year, month),
        l.hour == 0 && l.minute == 0 && l.second == 0,
{
    lemma_month_end_precedes(year, month);
    lemma_days_injective(l.year as int, l.month as int, l.day as int, year, month, month_length(year, month));
}

/// The moon's age is always one of the thirty days of the cycle.
pub proof fn lemma_moon_age_in_cycle(year: int, month: int, day: int)
    ensures
        0 <= moon_age(year, month, day) < 30,
{
    let c = trunc_div(year, 100);
    let y0 = trunc_rem(year, 100);
    let y = if month < 3 { y0 - 1 } else { y0 };
    let m = if month < 3 { month + 12 } else { month };
    let e0 = trunc_rem(11 * trunc_rem(y, 19) + 11, 30);
    let epact = if c == 20 { trunc_rem(e0 + 29, 30) } else { e0 };
    let a = epact + day + (m - 3) + 2;
    let age = trunc_rem(a, 30);
    assert(-30 < age < 30);
}

/// Weekdays are counted from Monday (0) to Sunday (6).
pub proof fn lemma_weekday_in_week(year: int, month: int, day: int)
    ensures
        0 <= civil_weekday(year, month, day) < 7,
{
}

} // verus!

verus! {

/// Switching a value to another zone and back gives the reading it started with.
pub proof fn lemma_switch_round_trip(start: TimoDateTime, there: TimoDateTime, back: TimoDateTime)
    requires
        reads_its_instant(start),
        reads_its_instant(back),
        there.instant() == start.instant(),
        back.instant() == there.instant(),
        back.zone_name() == start.zone_name(),
    ensures
        back.reading() == start.reading(),
{
}

} // verus!

verus! {

impl TimoDateTime {
    /// The time zone's name.
    pub fn zone(&self) -> (s: &str)
        ensures
            s@ == self.zone_name(),
    {
        self.zone.as_str()
    }

    /// The instant, in seconds since the Unix epoch.
    pub fn timestamp(&self) -> (t: i64)
        ensures
            t == self.instant(),
    {
        self.timestamp
    }

    pub fn year(&self) -> (y: i32)
        ensures
            y == self.reading().year,
    {
        self.local.year
    }

    pub fn month(&self) -> (m: u32)
        ensures
            m == self.reading().month,
    {
        self.local.month
    }

    pub fn day(&self) -> (d: u32)
        ensures
            d == self.reading().day,
    {
        self.local.day
    }

    pub fn hour(&self) -> (h: u32)
        ensures
            h == self.reading().hour,
    {
        self.local.hour
    }

    pub fn minute(&self) -> (m: u32)
        ensures
            m == self.reading().minute,
    {
        self.local.minute
    }

    pub fn second(&self) -> (s: u32)
        ensures
            s == self.reading().second,
    {
        self.local.second
    }

    /// Local time minus UTC, in seconds.
    pub fn offset_seconds(&self) -> (o: i32)
        ensures
            o == self.reading().offset_secs,
    {
        self.local.offset_secs
    }

    /// The zone's abbreviation at this instant (such as `GMT` or `BST`).
    pub fn abbreviation(&self) -> (a: &str)
        ensures
            a@ == self.reading().abbreviation,
    {
        self.local.abbreviation.as_str()
    }
}

} // verus!
