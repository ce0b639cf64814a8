//! File names of saved screenshots.

use vstd::prelude::*;
use chrono::{Datelike, Timelike};
use crate::capture::{spec_kind_label, CaptureKind};
use crate::config::Config;
use crate::error::{result_view, Error, ErrorView};
use crate::text::{
    before_last, before_last_str, char_is_control, chars_of, is_control_char, push_char,
    replace_all, replace_str, to_owned_string, trim, trim_chars, string_from_chars,
};

verus! {

broadcast use vstd::string::group_string_axioms;

/// Characters that Windows file names cannot hold.
pub open spec fn is_forbidden_file_char(c: char) -> bool {
    c == '<' || c == '>' || c == ':' || c == '"' || c == '/' || c == '\\' || c == '|' || c == '?'
        || c == '*'
}

/// A forbidden or control character becomes `_`.
pub open spec fn sanitize_char(c: char) -> char {
    if is_forbidden_file_char(c) || is_control_char(c) {
        '_'
    } else {
        c
    }
}

/// An application name made fit for a file name: forbidden and control
/// characters become `_`, then surrounding whitespace is dropped.
pub open spec fn spec_sanitize(s: Seq<char>) -> Seq<char> {
    trim(s.map_values(|c: char| sanitize_char(c)))
}

/// Makes an application name fit for a file name.
pub fn sanitize(value: &str) -> (r: String)
    ensures
        r@ == spec_sanitize(value@),
{
    let v = chars_of(value);
    let mut mapped: Vec<char> = Vec::new();
    let mut i: usize = 0;
    while i < v.len()
        invariant
            i <= v.len(),
            v@ == value@,
            mapped@ == v@.take(i as int).map_values(|c: char| sanitize_char(c)),
        decreases v.len() - i,
    {
        let c = v[i];
        let forbidden = c == '<' || c == '>' || c == ':' || c == '"' || c == '/' || c == '\\' || c
            == '|' || c == '?' || c == '*';
        if forbidden || char_is_control(c) {
            mapped.push('_');
        } else {
            mapped.push(c);
        }
        i = i + 1;
        assert(v@.take(i as int).map_values(|c: char| sanitize_char(c)) =~= v@.take(
            i - 1,
        ).map_values(|c: char| sanitize_char(c)).push(sanitize_char(v@[i - 1])));
    }
    assert(v@.take(v@.len() as int) =~= v@);
    let t = trim_chars(&mapped);
    string_from_chars(&t)
}

/// `pattern` with `{Mode}` replaced by `mode`.
pub fn replace_mode_placeholders(pattern: &str, mode: &str) -> (r: String)
    ensures
        r@ == replace_all(pattern@, "{Mode}"@, mode@),
{
    proof {
        reveal_strlit("{Mode}");
    }
    replace_str(pattern, "{Mode}", mode)
}

/// `pattern` with `{App}` replaced by `app`.
pub fn replace_app_placeholders(pattern: &str, app: &str) -> (r: String)
    ensures
        r@ == replace_all(pattern@, "{App}"@, app@),
{
    proof {
        reveal_strlit("{App}");
    }
    replace_str(pattern, "{App}", app)
}

/// `pattern` with `{AppName}` replaced by `app_name`.
pub fn replace_app_name_placeholders(pattern: &str, app_name: &str) -> (r: String)
    ensures
        r@ == replace_all(pattern@, "{AppName}"@, app_name@),
{
    proof {
        reveal_strlit("{AppName}");
    }
    replace_str(pattern, "{AppName}", app_name)
}

/// The text of the `{App}` slot: only a window capture with a non-empty
/// application name has one.
pub open spec fn spec_app_segment(config: Config, kind: CaptureKind, app_name: Option<Seq<char>>) -> Seq<char> {
    match (kind, app_name) {
        (CaptureKind::CurrentWindow, Some(name)) => if name.len() > 0 {
            replace_all(config.app_name_pattern@, "{AppName}"@, spec_sanitize(name))
        } else {
            Seq::<char>::empty()
        },
        _ => Seq::<char>::empty(),
    }
}

/// The `strftime` pattern of a capture's file name: the configured pattern
/// with `{Mode}` and then `{App}` filled in.
pub open spec fn spec_file_pattern(config: Config, kind: CaptureKind, app_name: Option<Seq<char>>) -> Seq<char> {
    replace_all(
        replace_all(config.filename_pattern@, "{Mode}"@, spec_kind_label(kind)),
        "{App}"@,
        spec_app_segment(config, kind, app_name),
    )
}

/// View of an optional string slice.
pub open spec fn opt_str_view(o: Option<&str>) -> Option<Seq<char>> {
    match o {
        Some(s) => Some(s@),
        None => None,
    }
}

/// The `strftime` pattern of a capture's file name.
pub fn file_pattern(config: &Config, kind: CaptureKind, app_name: Option<&str>) -> (r: String)
    ensures
        r@ == spec_file_pattern(*config, kind, opt_str_view(app_name)),
{
    let app_segment = match kind {
        CaptureKind::CurrentWindow => match app_name {
            Some(value) => {
                let v = chars_of(value);
                if v.len() > 0 {
                    let clean = sanitize(value);
                    replace_app_name_placeholders(config.app_name_pattern.as_str(), clean.as_str())
                } else {
                    String::new()
                }
            },
            None => String::new(),
        },
        _ => String::new(),
    };
    let with_mode = replace_mode_placeholders(config.filename_pattern.as_str(), kind.label());
    replace_app_placeholders(with_mode.as_str(), app_segment.as_str())
}

/// A rendered file name with the extension that the pattern left in it
/// (everything from the last `.`) swapped for `ext`.
pub open spec fn spec_finish_file_name(rendered: Seq<char>, ext: Seq<char>) -> Seq<char> {
    before_last(rendered, '.') + ext
}

/// Swaps the extension of a rendered file name for `ext`.
pub fn finish_file_name(rendered: &str, ext: &str) -> (r: String)
    ensures
        r@ == spec_finish_file_name(rendered@, ext@),
{
    let mut r = before_last_str(rendered, '.');
    r.append(ext);
    r
}

/// A local date and time, with the offset of the local time zone from UTC,
/// as the clock reported it.
pub struct LocalTimestamp {
    pub year: i32,
    pub month: u32,
    pub day: u32,
    pub hour: u32,
    pub minute: u32,
    pub second: u32,
    /// Fraction of the second; `1_000_000_000` and above mark a leap second.
    pub nanosecond: u32,
    /// Local time minus UTC, in seconds.
    pub utc_offset_seconds: i32,
}

/// Whether `year` is a leap year of the proleptic Gregorian calendar.
pub open spec fn is_leap_year(year: int) -> bool {
    (year % 4 == 0 && year % 100 != 0) || year % 400 == 0
}

/// Number of days of a month.
pub open spec fn days_in_month(year: int, month: int) -> int {
    if month == 2 {
        if is_leap_year(year) {
            29
        } else {
            28
        }
    } else if month == 4 || month == 6 || month == 9 || month == 11 {
        30
    } else {
        31
    }
}

/// Leap years of the proleptic Gregorian calendar before `year` (from year
/// 1 on; a count relative to some year, so only differences matter).
pub open spec fn leap_years_before(year: int) -> int {
    (year - 1) / 4 - (year - 1) / 100 + (year - 1) / 400
}

/// Days of a year before the first day of `month`.
pub open spec fn days_before_month(year: int, month: int) -> int {
    let common: int = if month == 1 {
        0
    } else if month == 2 {
        31
    } else if month == 3 {
        59
    } else if month == 4 {
        90
    } else if month == 5 {
        120
    } else if month == 6 {
        151
    } else if month == 7 {
        181
    } else if month == 8 {
        212
    } else if month == 9 {
        243
    } else if month == 10 {
        273
    } else if month == 11 {
        304
    } else {
        334
    };
    if month > 2 && is_leap_year(year) {
        common + 1
    } else {
        common
    }
}

/// Number of a date of the proleptic Gregorian calendar counted in days from
/// 1 January 1970 (day 0; earlier dates are negative).
pub open spec fn days_from_civil(year: int, month: int, day: int) -> int {
    365 * (year - 1970) + leap_years_before(year) - leap_years_before(1970) + days_before_month(year, month)
        + day - 1
}

/// The date after a valid date.
pub open spec fn next_day(year: int, month: int, day: int) -> (int, int, int) {
    if day < days_in_month(year, month) {
        (year, month, day + 1)
    } else if month < 12 {
        (year, month + 1, 1)
    } else {
        (year + 1, 1, 1)
    }
}

/// The local date and time counted in seconds from 1970-01-01 00:00 local.
pub open spec fn local_seconds(t: LocalTimestamp) -> int {
    days_from_civil(t.year as int, t.month as int, t.day as int) * 86_400 + t.hour * 3_600 + t.minute * 60
        + t.second
}

/// The instant a local date and time stands for: its local seconds less its
/// UTC offset, in seconds since 1970-01-01 00:00 UTC.
pub open spec fn instant_of(t: LocalTimestamp) -> int {
    local_seconds(t) - t.utc_offset_seconds
}

impl LocalTimestamp {
    /// A date and time that exists: the calendar range of local dates, a
    /// valid day of the month, a time of day (a leap second only in the last
    /// second of a minute) and an offset of less than a day.
    pub open spec fn wf(&self) -> bool {
        &&& -262143 <= self.year <= 262142
        &&& 1 <= self.month <= 12
        &&& 1 <= self.day <= days_in_month(self.year as int, self.month as int)
        &&& self.hour < 24
        &&& self.minute < 60
        &&& self.second < 60
        &&& self.nanosecond < 2_000_000_000
        &&& (self.nanosecond >= 1_000_000_000 ==> self.second == 59)
        &&& -86_400 < self.utc_offset_seconds < 86_400
    }
}

/// Whether `chrono` formats a date, time and offset with the `strftime`
/// pattern without an error: the pattern parses to no error item and to no
/// item that formatting does not support (such as the one `%#z` parses to).
/// With a date, a time and an offset all given, chrono's formatting fails only
/// on such items, never on the values formatted, so this is a property of the
/// pattern alone.
pub uninterp spec fn strftime_pattern_valid(pattern: Seq<char>) -> bool;

/// The text `chrono` formats a local date and time into with a valid
/// `strftime` pattern.
pub uninterp spec fn strftime_render(
    year: int,
    month: int,
    day: int,
    hour: int,
    minute: int,
    second: int,
    nanosecond: int,
    utc_offset_seconds: int,
    pattern: Seq<char>,
) -> Seq<char>;

/// `strftime_render` applied to a timestamp.
pub open spec fn render_at(t: LocalTimestamp, pattern: Seq<char>) -> Seq<char> {
    strftime_render(
        t.year as int,
        t.month as int,
        t.day as int,
        t.hour as int,
        t.minute as int,
        t.second as int,
        t.nanosecond as int,
        t.utc_offset_seconds as int,
        pattern,
    )
}

/// Latest clock reading, in seconds since 1970, that is turned into a local
/// date and time: the start of 30 December of year 262142, so that adding any
/// UTC offset of less than a day stays within chrono's last representable day.
pub const MAX_CLOCK_SECONDS: u64 = 8_210_266_704_000;

/// `std::time::UNIX_EPOCH.elapsed()`: the system clock as whole seconds and
/// nanoseconds since 1970, or `None` where `elapsed` returns its error (the
/// clock reads earlier than 1970). `Duration::subsec_nanos` is below one
/// billion. Which reading comes back depends on the clock.
#[verifier::external_body]
fn clock_since_epoch() -> (r: Option<(u64, u32)>)
    ensures
        r matches Some((s, n)) ==> n < 1_000_000_000,
{
    match std::time::UNIX_EPOCH.elapsed() {
        Ok(d) => Some((d.as_secs(), d.subsec_nanos())),
        Err(_) => None,
    }
}

/// `chrono::DateTime::from_timestamp(secs, nanos)` (`Some` for every
/// argument in the `requires`), turned into local time with
/// `with_timezone(&chrono::Local)` and taken apart with `naive_local`: the
/// local date, time and UTC offset. They form a date and time that exists,
/// and they stand for the instant read: `from_timestamp` counts `secs` from
/// 1970-01-01 00:00 UTC in the proleptic Gregorian calendar, `naive_local`
/// adds the offset that `local_minus_utc` reports, and the nanoseconds stay.
/// Which offset that is depends on the machine's time zone, so no more is
/// stated of it than its range.
/// The bound on `secs` keeps `naive_local` within range. chrono offers no
/// fallible form of the time-zone lookup: where the system's time-zone
/// information cannot be read (a failing lookup on Windows, unusable zone data
/// elsewhere), chrono panics, as on any other failure of the system itself.
#[verifier::external_body]
fn local_time_at(secs: i64, nanos: u32) -> (r: Option<LocalTimestamp>)
    requires
        0 <= secs <= MAX_CLOCK_SECONDS,
        nanos < 1_000_000_000,
    ensures
        r is Some,
        r matches Some(t) ==> t.wf(),
        r matches Some(t) ==> instant_of(t) == secs && t.nanosecond == nanos,
{
    let now = chrono::DateTime::from_timestamp(secs, nanos)?.with_timezone(&chrono::Local);
    let local = now.naive_local();
    Some(LocalTimestamp {
        year: local.year(), month: local.month(), day: local.day(), hour: local.hour(),
        minute: local.minute(), second: local.second(), nanosecond: local.nanosecond(),
        utc_offset_seconds: now.offset().local_minus_utc(),
    })
}

/// The local date and time of a clock reading (seconds and nanoseconds since
/// 1970): `None` when there is no reading, or when it lies beyond
/// `MAX_CLOCK_SECONDS` or holds a second's worth of nanoseconds or more;
/// otherwise a date and time that exists and stands for the instant read.
pub fn local_time_from_reading(reading: Option<(u64, u32)>) -> (r: Option<LocalTimestamp>)
    ensures
        reading matches Some((s, n)) ==> (r matches Some(t) ==> instant_of(t) == s && t.nanosecond == n),
        reading is None ==> r is None,
        reading matches Some((s, n)) ==> (r is Some <==> s <= MAX_CLOCK_SECONDS && n < 1_000_000_000),
        r matches Some(t) ==> t.wf(),
{
    match reading {
        Some((secs, nanos)) => {
            if secs <= MAX_CLOCK_SECONDS && nanos < 1_000_000_000 {
                local_time_at(secs as i64, nanos)
            } else {
                None
            }
        },
        None => None,
    }
}

/// The local date and time now: the clock's reading since 1970 turned into
/// local time by `local_time_from_reading`. `None` when the clock reads before
/// 1970 or beyond `MAX_CLOCK_SECONDS`; whatever the clock reads, a returned
/// date and time exists.
pub fn now_local() -> (r: Option<LocalTimestamp>)
    ensures
        r matches Some(t) ==> t.wf(),
{
    let reading = clock_since_epoch();
    local_time_from_reading(reading)
}

/// Whether chrono formats with `pattern`: `DateTime::UNIX_EPOCH.format(pattern)`
/// (a date, a time and an offset, as `format_timestamp` gives) written with
/// `DelayedFormat::write_to` into a string without an error. The contract
/// names the answer `strftime_pattern_valid`; which patterns those are is not
/// stated.
#[verifier::external_body]
fn strftime_pattern_ok(pattern: &str) -> (b: bool)
    ensures
        b == strftime_pattern_valid(pattern@),
{
    let mut out = String::new();
    chrono::DateTime::UNIX_EPOCH.format(pattern).write_to(&mut out).is_ok()
}

/// Formats a local date and time with `chrono`'s `DelayedFormat` (what
/// `DateTime::format` builds) and `to_string`. The contract names the text
/// `strftime_render` of the timestamp's fields and the pattern; which text that
/// is is not stated. A pattern chrono cannot format with makes `to_string`
/// panic, hence the `requires`.
#[verifier::external_body]
fn format_timestamp(t: &LocalTimestamp, pattern: &str) -> (r: String)
    requires
        t.wf(),
        strftime_pattern_valid(pattern@),
    ensures
        r@ == strftime_render(
            t.year as int,
            t.month as int,
            t.day as int,
            t.hour as int,
            t.minute as int,
            t.second as int,
            t.nanosecond as int,
            t.utc_offset_seconds as int,
            pattern@,
        ),
{
    let date = chrono::NaiveDate::from_ymd_opt(t.year, t.month, t.day).unwrap();
    let time = chrono::NaiveTime::from_hms_nano_opt(t.hour, t.minute, t.second, t.nanosecond).unwrap();
    let offset = chrono::FixedOffset::east_opt(t.utc_offset_seconds).unwrap();
    let items = chrono::format::StrftimeItems::new(pattern);
    chrono::format::DelayedFormat::new_with_offset(Some(date), Some(time), &offset, items).to_string()
}

/// The file name of a capture taken at `time`: the pattern rendered at that
/// time, its extension swapped for `ext`.
pub open spec fn spec_file_name_at(
    config: Config,
    kind: CaptureKind,
    app_name: Option<Seq<char>>,
    ext: Seq<char>,
    time: LocalTimestamp,
) -> Seq<char> {
    spec_finish_file_name(render_at(time, spec_file_pattern(config, kind, app_name)), ext)
}

/// Whether the file-name pattern of a capture is one `chrono` can format.
pub fn file_pattern_is_valid(config: &Config, kind: CaptureKind, app_name: Option<&str>) -> (b: bool)
    ensures
        b == strftime_pattern_valid(spec_file_pattern(*config, kind, opt_str_view(app_name))),
{
    let pattern = file_pattern(config, kind, app_name);
    strftime_pattern_ok(pattern.as_str())
}

/// The file name of a capture taken at `time`.
pub fn build_file_name_at(
    config: &Config,
    kind: CaptureKind,
    app_name: Option<&str>,
    ext: &str,
    time: &LocalTimestamp,
) -> (r: String)
    requires
        time.wf(),
        strftime_pattern_valid(spec_file_pattern(*config, kind, opt_str_view(app_name))),
    ensures
        r@ == spec_file_name_at(*config, kind, opt_str_view(app_name), ext@, *time),
{
    let pattern = file_pattern(config, kind, app_name);
    let rendered = format_timestamp(time, pattern.as_str());
    finish_file_name(rendered.as_str(), ext)
}

/// Whether a clock reading turns into a local date and time: there is one,
/// within `MAX_CLOCK_SECONDS`, with fewer nanoseconds than a second.
pub open spec fn reading_in_range(reading: Option<(u64, u32)>) -> bool {
    match reading {
        Some((s, n)) => s <= MAX_CLOCK_SECONDS && n < 1_000_000_000,
        None => false,
    }
}

/// The file name of a capture taken at the clock reading `reading`: an
/// error when the file-name pattern is not one `chrono` can format, or else
/// when the reading cannot be turned into a local date and time; otherwise
/// the name rendered at the local date and time of the instant read.
pub fn build_file_name_from_reading(
    config: &Config,
    kind: CaptureKind,
    app_name: Option<&str>,
    ext: &str,
    reading: Option<(u64, u32)>,
) -> (r: Result<String, Error>)
    ensures
        !strftime_pattern_valid(spec_file_pattern(*config, kind, opt_str_view(app_name)))
            ==> result_view(r) == Err::<String, ErrorView>(ErrorView::FileNamePatternInvalid),
        strftime_pattern_valid(spec_file_pattern(*config, kind, opt_str_view(app_name))) ==> (r is Ok
            <==> reading_in_range(reading)),
        strftime_pattern_valid(spec_file_pattern(*config, kind, opt_str_view(app_name))) && r is Err
            ==> result_view(r) == Err::<String, ErrorView>(ErrorView::ClockUnavailable),
        match r {
            Ok(name) => reading matches Some((s, n)) && exists|t: LocalTimestamp|
                #[trigger] t.wf() && instant_of(t) == s && t.nanosecond == n
                    && name@ == spec_file_name_at(*config, kind, opt_str_view(app_name), ext@, t),
            Err(_) => true,
        },
{
    if !file_pattern_is_valid(config, kind, app_name) {
        return Err(Error::FileNamePatternInvalid);
    }
    match local_time_from_reading(reading) {
        Some(time) => {
            let name = build_file_name_at(config, kind, app_name, ext, &time);
            assert(time.wf() && name@ == spec_file_name_at(*config, kind, opt_str_view(app_name), ext@, time));
            Ok(name)
        },
        None => Err(Error::ClockUnavailable),
    }
}

/// The file name of a capture taken now: the name at the system clock's
/// current reading (see `build_file_name_from_reading`); an error when the
/// file-name pattern is not one `chrono` can format, or else when the clock
/// cannot be read as a local date and time.
pub fn build_file_name(config: &Config, kind: CaptureKind, app_name: Option<&str>, ext: &str) -> (r: Result<String, Error>)
    ensures
        !strftime_pattern_valid(spec_file_pattern(*config, kind, opt_str_view(app_name)))
            ==> result_view(r) == Err::<String, ErrorView>(ErrorView::FileNamePatternInvalid),
        strftime_pattern_valid(spec_file_pattern(*config, kind, opt_str_view(app_name)))
            ==> (r is Ok || result_view(r) == Err::<String, ErrorView>(ErrorView::ClockUnavailable)),
        match r {
            Ok(name) => exists|t: LocalTimestamp|
                #[trigger] t.wf() && t.nanosecond < 1_000_000_000 && 0 <= instant_of(t) <= MAX_CLOCK_SECONDS
                    && name@ == spec_file_name_at(*config, kind, opt_str_view(app_name), ext@, t),
            Err(_) => true,
        },
{
    let reading = clock_since_epoch();
    build_file_name_from_reading(config, kind, app_name, ext, reading)
}

} // verus!
