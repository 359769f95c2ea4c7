//! Snapshots of the hosts file: where they go and what they are called.
//!
//! A snapshot lies in a directory of its own under the user's home
//! directory and carries the moment it was made in its name, to the
//! second.

use crate::broker::Platform;
use vstd::prelude::*;

verus! {

/// A moment of the calendar, to the second.
#[derive(Debug, Clone, Copy, PartialEq, Eq, Structural)]
pub struct Timestamp {
    pub year: i32,
    pub month: u32,
    pub day: u32,
    pub hour: u32,
    pub minute: u32,
    pub second: u32,
}

/// Whether `year` has a 29th of February.
pub open spec fn is_leap_year(year: int) -> bool {
    year % 4 == 0 && (year % 100 != 0 || year % 400 == 0)
}

/// The number of days of a month.
pub open spec fn days_in_month(year: int, month: int) -> int {
    if month == 2 {
        if is_leap_year(year) {
            29
        } else {
            28
        }
    } else if month == 4 || month == 6 || month == 9 || month == 11 {
        30
    } else {
        31
    }
}

/// The day exists in the calendar and the time exists on the clock.
pub open spec fn is_calendar_time(
    year: int,
    month: int,
    day: int,
    hour: int,
    minute: int,
    second: int,
) -> bool {
    &&& 1 <= month <= 12
    &&& 1 <= day <= days_in_month(year, month)
    &&& 0 <= hour < 24
    &&& 0 <= minute < 60
    &&& 0 <= second < 60
}

/// The character of a digit.
pub open spec fn digit(value: int) -> char {
    ('0' as int + value) as char
}

/// A number below one hundred in two digits.
pub open spec fn two_digits(value: int) -> Seq<char> {
    seq![digit(value / 10), digit(value % 10)]
}

/// A number below ten thousand in four digits.
pub open spec fn four_digits(value: int) -> Seq<char> {
    seq![digit(value / 1000), digit(value / 100 % 10), digit(value / 10 % 10), digit(value % 10)]
}

/// A moment as it stands in the name of a snapshot: year, month and day
/// with hyphens between them, an underscore, then hour, minute and second
/// with hyphens between them.
pub open spec fn stamp_text(
    year: int,
    month: int,
    day: int,
    hour: int,
    minute: int,
    second: int,
) -> Seq<char> {
    four_digits(year) + seq!['-'] + two_digits(month) + seq!['-'] + two_digits(day) + seq!['_']
        + two_digits(hour) + seq!['-'] + two_digits(minute) + seq!['-'] + two_digits(second)
}

/// The directory of the snapshots under the home directory `home`, with
/// the separator of the platform at its end.
pub open spec fn backup_dir_text(platform: Platform, home: Seq<char>) -> Seq<char> {
    match platform {
        Platform::Unix => home + "/ophiuchi.hosts.bak/"@,
        Platform::Windows => home + "\\ophiuchi.hosts.bak\\"@,
    }
}

impl Timestamp {
    /// The moment exists, and its year has at most four digits.
    pub open spec fn is_valid(&self) -> bool {
        &&& 0 <= self.year <= 9999
        &&& is_calendar_time(
            self.year as int,
            self.month as int,
            self.day as int,
            self.hour as int,
            self.minute as int,
            self.second as int,
        )
    }

    /// The moment as it stands in the name of a snapshot.
    pub open spec fn text(&self) -> Seq<char> {
        stamp_text(
            self.year as int,
            self.month as int,
            self.day as int,
            self.hour as int,
            self.minute as int,
            self.second as int,
        )
    }
}

/// The name of the snapshot made at `moment`.
pub open spec fn backup_name_text(moment: Timestamp) -> Seq<char> {
    "hosts.bak."@ + moment.text()
}

/// The form in which a moment is written, in the notation of `strftime`.
pub open spec fn stamp_form() -> Seq<char> {
    "%Y-%m-%d_%H-%M-%S"@
}

/// Builds the date and the time with `chrono::NaiveDate::from_ymd_opt`
/// and `and_hms_opt`, and writes them with `format` in the form given,
/// which has to be `stamp_form`. The two constructors give nothing exactly
/// where the day is not in the calendar or the time not on the clock. For
/// a year of at most four digits the form gives the year in four digits
/// and each other part in two, padded with zeros.
#[verifier::external_body]
pub(crate) fn format_moment(
    year: i32,
    month: u32,
    day: u32,
    hour: u32,
    minute: u32,
    second: u32,
    form: &str,
) -> (text: Option<String>)
    requires
        0 <= year <= 9999,
        form@ == stamp_form(),
    ensures
        text is Some <==> is_calendar_time(
            year as int,
            month as int,
            day as int,
            hour as int,
            minute as int,
            second as int,
        ),
        text matches Some(t) ==> t@ == stamp_text(
            year as int,
            month as int,
            day as int,
            hour as int,
            minute as int,
            second as int,
        ),
{
    let date = chrono::NaiveDate::from_ymd_opt(year, month, day)?;
    let moment = date.and_hms_opt(hour, minute, second)?;
    Some(moment.format(form).to_string())
}

/// The name of the environment variable that holds the home directory.
pub fn home_variable(platform: Platform) -> (name: String)
    ensures
        name@ == match platform {
            Platform::Unix => "HOME"@,
            Platform::Windows => "USERPROFILE"@,
        },
{
    match platform {
        Platform::Unix => String::from_str("HOME"),
        Platform::Windows => String::from_str("USERPROFILE"),
    }
}

/// The directory of the snapshots under the home directory `home`.
pub fn backup_dir(platform: Platform, home: &str) -> (dir: String)
    ensures
        dir@ == backup_dir_text(platform, home@),
{
    match platform {
        Platform::Unix => String::from_str(home).concat("/ophiuchi.hosts.bak/"),
        Platform::Windows => String::from_str(home).concat("\\ophiuchi.hosts.bak\\"),
    }
}

/// The name of the snapshot made at `moment`, or nothing where there is
/// no such moment or its year has more than four digits.
pub fn backup_name(moment: &Timestamp) -> (name: Option<String>)
    ensures
        name is Some <==> moment.is_valid(),
        name matches Some(n) ==> n@ == backup_name_text(*moment),
{
    if moment.year < 0 || moment.year > 9999 {
        return None;
    }
    match format_moment(
        moment.year,
        moment.month,
        moment.day,
        moment.hour,
        moment.minute,
        moment.second,
        "%Y-%m-%d_%H-%M-%S",
    ) {
        Some(text) => Some(String::from_str("hosts.bak.").concat(text.as_str())),
        None => None,
    }
}

/// The path of the snapshot made at `moment` under the home directory
/// `home`, or nothing where there is no such moment.
pub fn backup_path(platform: Platform, home: &str, moment: &Timestamp) -> (path: Option<String>)
    ensures
        path is Some <==> moment.is_valid(),
        path matches Some(p) ==> p@ == backup_dir_text(platform, home@) + backup_name_text(*moment),
{
    match backup_name(moment) {
        Some(name) => Some(backup_dir(platform, home).concat(name.as_str())),
        None => None,
    }
}

} // verus!
