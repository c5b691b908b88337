//! The date grammar of calendar fields: `DATE ["T" TIME ["Z"]]`, where `DATE`
//! is eight decimal digits (`YYYYMMDD`) and `TIME` is six (`HHMMSS`).
//!
//! A text is read in two steps. `scan` holds it against the grammar and reads
//! the six numbers out of it; the calendar arithmetic that turns them into an
//! instant is chrono's, and `resolve` labels what chrono answered.

use chrono::{DateTime, NaiveDate, NaiveDateTime, NaiveTime, Utc};
use vstd::prelude::*;
use vstd::string::*;

verus! {

/// Which of the three forms of the grammar a text has.
#[derive(Clone, Copy, Debug, PartialEq, Eq, Structural)]
pub enum Form {
    /// `DATE`: a day, taken at midnight UTC.
    Date,
    /// `DATE "T" TIME`: a date and time without a zone designator.
    Floating,
    /// `DATE "T" TIME "Z"`: a date and time in UTC.
    Utc,
}

/// The offset at which an instant is shown to the user. It does not change
/// which instant is meant.
#[derive(Clone, Copy, Debug, PartialEq, Eq, Structural)]
pub enum Offset {
    /// The offset of the machine's own time zone at that instant.
    Local,
    /// Offset zero.
    Zero,
}

/// An instant of the calendar, to the second.
#[derive(Clone, Copy, Debug, PartialEq, Eq, Structural)]
pub struct Moment {
    /// Seconds since 1970-01-01 00:00:00 UTC, leap seconds not counted.
    pub timestamp: i64,
    /// The offset at which the instant is shown.
    pub offset: Offset,
}

/// The numbers written in a text of the grammar. A text without `TIME` has
/// zero for hour, minute and second.
#[derive(Clone, Copy, Debug, PartialEq, Eq, Structural)]
pub struct Fields {
    pub year: i32,
    pub month: u32,
    pub day: u32,
    pub hour: u32,
    pub minute: u32,
    pub second: u32,
}

/// A text of the grammar, read but not yet placed in time.
#[derive(Clone, Copy, Debug, PartialEq, Eq, Structural)]
pub struct Scanned {
    pub fields: Fields,
    pub form: Form,
}

/// Why a text names no instant.
#[derive(Clone, Copy, Debug, PartialEq, Eq, Structural)]
pub enum ParseError {
    /// The text is not of the grammar. `position` counts the characters that
    /// come before the first one the grammar does not allow in its place; it
    /// is the length of the text where the text ends too early.
    Syntax { position: usize },
    /// The text is of the grammar, but its numbers name no day of the
    /// calendar or no time of day.
    OutOfRange,
}

pub open spec fn is_digit(c: char) -> bool {
    '0' <= c && c <= '9'
}

pub open spec fn digit_value(c: char) -> int {
    c as int - '0' as int
}

/// Whether the grammar allows `c` as the character at `position`.
pub open spec fn fits(position: int, c: char) -> bool {
    if 0 <= position < 8 || 9 <= position < 15 {
        is_digit(c)
    } else if position == 8 {
        c == 'T'
    } else if position == 15 {
        c == 'Z'
    } else {
        false
    }
}

/// The first position at or after `from` whose character the grammar does
/// not allow there; the length of the text if there is none.
pub open spec fn first_misfit(text: Seq<char>, from: int) -> int
    decreases text.len() - from,
{
    if 0 <= from < text.len() && fits(from, text[from]) {
        first_misfit(text, from + 1)
    } else {
        from
    }
}

/// The lengths at which a text of the grammar may end.
pub open spec fn is_whole(len: int) -> bool {
    len == 8 || len == 15 || len == 16
}

/// Whether `text` is a sentence of the grammar.
pub open spec fn well_formed(text: Seq<char>) -> bool {
    is_whole(text.len() as int) && first_misfit(text, 0) == text.len()
}

/// The number written by the two digits at `at` and `at + 1`.
pub open spec fn two_digits(text: Seq<char>, at: int) -> int {
    digit_value(text[at]) * 10 + digit_value(text[at + 1])
}

pub open spec fn form_of(text: Seq<char>) -> Form {
    if text.len() == 8 {
        Form::Date
    } else if text.len() == 15 {
        Form::Floating
    } else {
        Form::Utc
    }
}

pub open spec fn fields_of(text: Seq<char>) -> Fields {
    let timed = text.len() > 8;
    Fields {
        year: (two_digits(text, 0) * 100 + two_digits(text, 2)) as i32,
        month: two_digits(text, 4) as u32,
        day: two_digits(text, 6) as u32,
        hour: if timed {
            two_digits(text, 9) as u32
        } else {
            0
        },
        minute: if timed {
            two_digits(text, 11) as u32
        } else {
            0
        },
        second: if timed {
            two_digits(text, 13) as u32
        } else {
            0
        },
    }
}

/// What `scan` makes of a text.
pub open spec fn scanned(text: Seq<char>) -> Result<Scanned, ParseError> {
    if well_formed(text) {
        Ok(Scanned { fields: fields_of(text), form: form_of(text) })
    } else {
        Err(ParseError::Syntax { position: first_misfit(text, 0) as usize })
    }
}

/// Years divisible by four are leap years, except those divisible by 100
/// and not by 400.
pub open spec fn is_leap_year(year: int) -> bool {
    year % 4 == 0 && (year % 100 != 0 || year % 400 == 0)
}

pub open spec fn days_in_month(year: int, month: int) -> int {
    if month == 2 {
        if is_leap_year(year) {
            29
        } else {
            28
        }
    } else if month == 4 || month == 6 || month == 9 || month == 11 {
        30
    } else {
        31
    }
}

/// Whether the numbers name a day of the Gregorian calendar and a time of
/// that day.
pub open spec fn in_range(fields: Fields) -> bool {
    &&& 1 <= fields.month <= 12
    &&& 1 <= fields.day <= days_in_month(fields.year as int, fields.month as int)
    &&& fields.hour < 24
    &&& fields.minute < 60
    &&& fields.second < 60
}

impl Form {
    /// A floating date-time is taken as if it were UTC and shown at offset
    /// zero; the two other forms are shown at the local offset.
    pub open spec fn offset(self) -> Offset {
        match self {
            Form::Floating => Offset::Zero,
            _ => Offset::Local,
        }
    }
}

/// What `resolve` makes of a form and of a timestamp that may be missing.
pub open spec fn resolved(form: Form, timestamp: Option<i64>) -> Result<Moment, ParseError> {
    match timestamp {
        Some(seconds) => Ok(Moment { timestamp: seconds, offset: form.offset() }),
        None => Err(ParseError::OutOfRange),
    }
}

/// The Unix timestamp of a civil date and time of day taken as UTC, as
/// chrono computes it; `None` where chrono holds the numbers to name no
/// date or no time.
pub uninterp spec fn civil_timestamp(
    year: i32,
    month: u32,
    day: u32,
    hour: u32,
    minute: u32,
    second: u32,
) -> Option<i64>;

/// The timestamp that belongs to `fields`.
pub open spec fn timestamp_of(fields: Fields) -> Option<i64> {
    civil_timestamp(
        fields.year,
        fields.month,
        fields.day,
        fields.hour,
        fields.minute,
        fields.second,
    )
}

/// What `parse_ical_date` makes of a text.
pub open spec fn parsed(text: Seq<char>) -> Result<Moment, ParseError> {
    match scanned(text) {
        Ok(read) => resolved(read.form, timestamp_of(read.fields)),
        Err(e) => Err(e),
    }
}

/// Where the first misfit lies: not before `from` and not behind the end of
/// the text; every character between `from` and it fits its place, and the
/// character at it, if there is one, does not.
pub proof fn lemma_first_misfit(text: Seq<char>, from: int)
    requires
        0 <= from <= text.len(),
    ensures
        from <= first_misfit(text, from) <= text.len(),
        forall|j: int| from <= j < first_misfit(text, from) ==> fits(j, #[trigger] text[j]),
        first_misfit(text, from) < text.len() ==> !fits(
            first_misfit(text, from),
            text[first_misfit(text, from)],
        ),
    decreases text.len() - from,
{
    if from < text.len() && fits(from, text[from]) {
        lemma_first_misfit(text, from + 1);
    }
}

/// A text is of the grammar exactly if it has one of the three lengths and
/// every character fits its place: eight digits, then `T` and six digits,
/// then `Z`.
pub proof fn law_grammar(text: Seq<char>)
    ensures
        well_formed(text) <==> is_whole(text.len() as int) && forall|i: int|
            0 <= i < text.len() ==> fits(i, #[trigger] text[i]),
        !well_formed(text) ==> 0 <= first_misfit(text, 0) <= 16,
{
    lemma_first_misfit(text, 0);
    let at = first_misfit(text, 0);
    if at < text.len() {
        assert(!fits(at, text[at]));
    }
    if text.len() > 16 {
        assert(!fits(16, text[16]));
    }
}

/// Calls chrono: `NaiveDate::from_ymd_opt`, `NaiveTime::from_hms_opt`,
/// `NaiveDateTime::new`, `DateTime::<Utc>::from_naive_utc_and_offset` and
/// `DateTime::timestamp`.
///
/// Trusted, not proved: the result is the value that `civil_timestamp`
/// names, and for a year of four digits it is there exactly when month and
/// day name a day of the proleptic Gregorian calendar and hour, minute and
/// second are below 24, 60 and 60.
#[verifier::external_body]
fn utc_timestamp(year: i32, month: u32, day: u32, hour: u32, minute: u32, second: u32) -> (seconds:
    Option<i64>)
    requires
        0 <= year <= 9999,
    ensures
        seconds == civil_timestamp(year, month, day, hour, minute, second),
        seconds is Some <==> in_range(Fields { year, month, day, hour, minute, second }),
{
    let date = NaiveDate::from_ymd_opt(year, month, day)?;
    let time = NaiveTime::from_hms_opt(hour, minute, second)?;
    let naive = NaiveDateTime::new(date, time);
    Some(DateTime::<Utc>::from_naive_utc_and_offset(naive, Utc).timestamp())
}

fn digit(c: char) -> (value: Option<u32>)
    ensures
        value is Some <==> is_digit(c),
        value matches Some(v) ==> v == digit_value(c) && v <= 9,
{
    if c >= '0' && c <= '9' {
        Some(c as u32 - '0' as u32)
    } else {
        None
    }
}

fn fits_at(position: usize, c: char) -> (allowed: bool)
    ensures
        allowed == fits(position as int, c),
{
    if position < 8 || (9 <= position && position < 15) {
        digit(c).is_some()
    } else if position == 8 {
        c == 'T'
    } else if position == 15 {
        c == 'Z'
    } else {
        false
    }
}

fn read_two(input: &str, at: usize) -> (value: u32)
    requires
        at <= 13,
        at + 2 <= input@.len(),
        is_digit(input@[at as int]),
        is_digit(input@[at + 1]),
    ensures
        value == two_digits(input@, at as int),
        value <= 99,
{
    let high = digit(input.get_char(at));
    let low = digit(input.get_char(at + 1));
    match (high, low) {
        (Some(h), Some(l)) => h * 10 + l,
        _ => 0,
    }
}

/// Holds `input` against the grammar and reads its numbers.
///
/// Nothing is asked of the numbers here: month 13 is read as 13.
pub fn scan(input: &str) -> (read: Result<Scanned, ParseError>)
    ensures
        read == scanned(input@),
        read is Ok <==> well_formed(input@),
        read matches Ok(found) ==> 0 <= found.fields.year <= 9999,
        read matches Err(e) ==> e == (ParseError::Syntax {
            position: first_misfit(input@, 0) as usize,
        }) && 0 <= first_misfit(input@, 0) <= 16,
{
    let len = input.unicode_len();
    let mut i: usize = 0;
    while i < len && i < 16
        invariant
            i <= len,
            i <= 16,
            len == input@.len(),
            first_misfit(input@, 0) == first_misfit(input@, i as int),
            forall|j: int| 0 <= j < i ==> fits(j, #[trigger] input@[j]),
        decreases len - i,
    {
        if !fits_at(i, input.get_char(i)) {
            return Err(ParseError::Syntax { position: i });
        }
        i += 1;
    }
    if !(len == 8 || len == 15 || len == 16) {
        return Err(ParseError::Syntax { position: i });
    }
    let year = (read_two(input, 0) * 100 + read_two(input, 2)) as i32;
    let month = read_two(input, 4);
    let day = read_two(input, 6);
    if len == 8 {
        let fields = Fields { year, month, day, hour: 0, minute: 0, second: 0 };
        Ok(Scanned { fields, form: Form::Date })
    } else {
        let fields = Fields {
            year,
            month,
            day,
            hour: read_two(input, 9),
            minute: read_two(input, 11),
            second: read_two(input, 13),
        };
        Ok(Scanned { fields, form: if len == 15 { Form::Floating } else { Form::Utc } })
    }
}

/// Labels the timestamp of a scanned text with the offset that the text's
/// form asks for; a missing timestamp is a date out of range.
pub fn resolve(form: Form, timestamp: Option<i64>) -> (moment: Result<Moment, ParseError>)
    ensures
        moment == resolved(form, timestamp),
{
    match timestamp {
        Some(seconds) => {
            let offset = match form {
                Form::Floating => Offset::Zero,
                _ => Offset::Local,
            };
            Ok(Moment { timestamp: seconds, offset })
        },
        None => Err(ParseError::OutOfRange),
    }
}

/// Reads a date or date-time of the calendar grammar.
///
/// All three forms are taken as UTC. The form with `T` and without `Z` is
/// not moved by the local offset; it only is shown at offset zero.
pub fn parse_ical_date(input: &str) -> (moment: Result<Moment, ParseError>)
    ensures
        moment == parsed(input@),
        moment is Ok <==> well_formed(input@) && in_range(fields_of(input@)),
        moment matches Ok(found) ==> found.offset == form_of(input@).offset() && Some(
            found.timestamp,
        ) == timestamp_of(fields_of(input@)),
        moment == Err::<Moment, ParseError>(ParseError::OutOfRange) <==> well_formed(input@)
            && !in_range(fields_of(input@)),
        (moment matches Err(e) && e is Syntax) <==> !well_formed(input@),
        moment matches Err(ParseError::Syntax { position }) ==> position == first_misfit(
            input@,
            0,
        ),
{
    match scan(input) {
        Ok(read) => {
            let at = read.fields;
            let seconds = utc_timestamp(at.year, at.month, at.day, at.hour, at.minute, at.second);
            resolve(read.form, seconds)
        },
        Err(e) => Err(e),
    }
}

} // verus!
