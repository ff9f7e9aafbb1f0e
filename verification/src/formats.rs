//! The timestamp grammar `YYYY-MM-DD_HH-MM-SS`, shared by the names of event
//! folders and of the clips inside them: reading it, writing it back, and the
//! order of the moments it names.

use vstd::prelude::*;
use vstd::string::*;
use crate::error::ClipError;
use crate::paths::{file_name, file_name_of, find_last, lemma_last_index_of, stem_of};
use crate::text::{check_digits, digits_at, pad2, pad4, push_pad2, push_pad4, read2, read4, value2, value4};
use crate::text::{lemma_pad2_of_value2, lemma_pad4_of_value4, lemma_value2_of_pad2, lemma_value4_of_pad4};

verus! {

/// A calendar date and a time of day as plain numbers, without a time zone.
pub struct Civil {
    pub year: int,
    pub month: int,
    pub day: int,
    pub hour: int,
    pub minute: int,
    pub second: int,
}

/// Whether `year` has a 29th of February in the Gregorian calendar.
pub open spec fn is_leap_year(year: int) -> bool {
    year % 4 == 0 && (year % 100 != 0 || year % 400 == 0)
}

/// The number of days of a month, for `month` from 1 to 12.
pub open spec fn days_in_month(year: int, month: int) -> int {
    if month == 2 {
        if is_leap_year(year) {
            29
        } else {
            28
        }
    } else if month == 4 || month == 6 || month == 9 || month == 11 {
        30
    } else {
        31
    }
}

/// Whether the six numbers name a day that exists and a time on its clock,
/// in a year that four digits can spell.
pub open spec fn is_moment(year: int, month: int, day: int, hour: int, minute: int, second: int) -> bool {
    &&& 0 <= year <= 9999
    &&& 1 <= month <= 12
    &&& 1 <= day <= days_in_month(year, month)
    &&& 0 <= hour < 24
    &&& 0 <= minute < 60
    &&& 0 <= second < 60
}

/// The seconds from 1970-01-01 00:00:00 to the given moment, leap seconds not
/// counted, as chrono computes them.
pub uninterp spec fn unix_seconds(year: int, month: int, day: int, hour: int, minute: int, second: int) -> int;

impl Civil {
    /// Whether this is a moment of the calendar (see [`is_moment`]).
    pub open spec fn is_valid(self) -> bool {
        is_moment(self.year, self.month, self.day, self.hour, self.minute, self.second)
    }

    /// A number that grows with time: two valid moments compare as their
    /// ordinals do (see [`lemma_ordinal_follows_calendar`]).
    pub open spec fn ordinal(self) -> int {
        ((((self.year * 12 + (self.month - 1)) * 31 + (self.day - 1)) * 24 + self.hour) * 60 + self.minute) * 60
            + self.second
    }

    /// Whether this moment lies strictly before `other`, field by field from
    /// the year down.
    pub open spec fn precedes(self, other: Civil) -> bool {
        ||| self.year < other.year
        ||| self.year == other.year && self.month < other.month
        ||| self.year == other.year && self.month == other.month && self.day < other.day
        ||| self.year == other.year && self.month == other.month && self.day == other.day && self.hour
            < other.hour
        ||| self.year == other.year && self.month == other.month && self.day == other.day && self.hour
            == other.hour && self.minute < other.minute
        ||| self.year == other.year && self.month == other.month && self.day == other.day && self.hour
            == other.hour && self.minute == other.minute && self.second < other.second
    }

    /// The Unix time of this moment.
    pub open spec fn unix(self) -> int {
        unix_seconds(self.year, self.month, self.day, self.hour, self.minute, self.second)
    }
}

/// Whether `s` has the nineteen characters of the grammar: digits where
/// numbers stand, and the separators `-`, `-`, `_`, `-`, `-` between them.
pub open spec fn is_stamp_shape(s: Seq<char>) -> bool {
    &&& s.len() == 19
    &&& digits_at(s, 0, 4)
    &&& s[4] == '-'
    &&& digits_at(s, 5, 2)
    &&& s[7] == '-'
    &&& digits_at(s, 8, 2)
    &&& s[10] == '_'
    &&& digits_at(s, 11, 2)
    &&& s[13] == '-'
    &&& digits_at(s, 14, 2)
    &&& s[16] == '-'
    &&& digits_at(s, 17, 2)
}

/// The six numbers that a text of the right shape spells.
pub open spec fn stamp_fields(s: Seq<char>) -> Civil {
    Civil {
        year: value4(s, 0),
        month: value2(s, 5),
        day: value2(s, 8),
        hour: value2(s, 11),
        minute: value2(s, 14),
        second: value2(s, 17),
    }
}

/// What a text means as a timestamp: the moment it spells, or nothing when
/// its shape is wrong or no such moment exists.
pub open spec fn parse_spec(s: Seq<char>) -> Option<Civil> {
    if is_stamp_shape(s) && stamp_fields(s).is_valid() {
        Some(stamp_fields(s))
    } else {
        None
    }
}

/// The text of a moment in the grammar `YYYY-MM-DD_HH-MM-SS`.
pub open spec fn format_spec(c: Civil) -> Seq<char> {
    pad4(c.year) + seq!['-'] + pad2(c.month) + seq!['-'] + pad2(c.day) + seq!['_'] + pad2(c.hour) + seq!['-']
        + pad2(c.minute) + seq!['-'] + pad2(c.second)
}

/// The text of a moment without separators inside date and time, followed by
/// three digits of milliseconds, which are zero: `YYYYMMDD_HHMMSS000`.
pub open spec fn compact_spec(c: Civil) -> Seq<char> {
    pad4(c.year) + pad2(c.month) + pad2(c.day) + seq!['_'] + pad2(c.hour) + pad2(c.minute) + pad2(c.second)
        + seq!['0', '0', '0']
}

/// The text of a moment for people to read: `YYYY-MM-DD HH:MM:SS`.
pub open spec fn readable_spec(c: Civil) -> Seq<char> {
    pad4(c.year) + seq!['-'] + pad2(c.month) + seq!['-'] + pad2(c.day) + seq![' '] + pad2(c.hour) + seq![':']
        + pad2(c.minute) + seq![':'] + pad2(c.second)
}

/// Writing back what was read gives the text that was read.
pub proof fn lemma_format_inverts_parse(s: Seq<char>)
    requires
        parse_spec(s).is_some(),
    ensures
        format_spec(parse_spec(s).unwrap()) == s,
{
    lemma_pad4_of_value4(s, 0);
    lemma_pad2_of_value2(s, 5);
    lemma_pad2_of_value2(s, 8);
    lemma_pad2_of_value2(s, 11);
    lemma_pad2_of_value2(s, 14);
    lemma_pad2_of_value2(s, 17);
    let t = s.subrange(0, 4) + seq!['-'] + s.subrange(5, 7) + seq!['-'] + s.subrange(8, 10) + seq!['_']
        + s.subrange(11, 13) + seq!['-'] + s.subrange(14, 16) + seq!['-'] + s.subrange(17, 19);
    assert(t =~= s);
}

/// Reading what was written gives the moment that was written.
pub proof fn lemma_parse_inverts_format(c: Civil)
    requires
        c.is_valid(),
    ensures
        parse_spec(format_spec(c)) == Some(c),
{
    let t = format_spec(c);
    assert(t.len() == 19);
    assert(t.subrange(0, 4) =~= pad4(c.year));
    assert(t.subrange(5, 7) =~= pad2(c.month));
    assert(t.subrange(8, 10) =~= pad2(c.day));
    assert(t.subrange(11, 13) =~= pad2(c.hour));
    assert(t.subrange(14, 16) =~= pad2(c.minute));
    assert(t.subrange(17, 19) =~= pad2(c.second));
    lemma_value4_of_pad4(t, 0, c.year);
    lemma_value2_of_pad2(t, 5, c.month);
    lemma_value2_of_pad2(t, 8, c.day);
    lemma_value2_of_pad2(t, 11, c.hour);
    lemma_value2_of_pad2(t, 14, c.minute);
    lemma_value2_of_pad2(t, 17, c.second);
    assert(t[4] == '-' && t[7] == '-' && t[10] == '_' && t[13] == '-' && t[16] == '-');
}

/// Among valid moments the ordinal is faithful to the calendar: an earlier
/// moment has the smaller ordinal, and equal ordinals mean the same moment.
pub proof fn lemma_ordinal_follows_calendar(a: Civil, b: Civil)
    requires
        a.is_valid(),
        b.is_valid(),
    ensures
        a.precedes(b) <==> a.ordinal() < b.ordinal(),
        a.ordinal() == b.ordinal() <==> a == b,
{
}

/// Calls chrono's `NaiveDate::from_ymd_opt` and `NaiveDate::and_hms_opt` on the
/// six numbers, and on the moment they give `NaiveDateTime::and_utc` and
/// `DateTime::timestamp`.
///
/// Trusted: for a year from 0 to 9999 chrono builds the moment exactly when the
/// day exists in the proleptic Gregorian calendar and hour, minute and second
/// are below 24, 60 and 60; the number returned is what this crate calls
/// [`unix_seconds`] of the six numbers.
#[verifier::external_body]
fn civil_to_unix(year: i32, month: u32, day: u32, hour: u32, minute: u32, second: u32) -> (r: Option<i64>)
    requires
        0 <= year <= 9999,
    ensures
        r.is_some() == is_moment(year as int, month as int, day as int, hour as int, minute as int, second as int),
        r matches Some(t) ==> t as int == unix_seconds(
            year as int,
            month as int,
            day as int,
            hour as int,
            minute as int,
            second as int,
        ),
{
    let date = chrono::NaiveDate::from_ymd_opt(year, month, day)?;
    let moment = date.and_hms_opt(hour, minute, second)?;
    Some(moment.and_utc().timestamp())
}

/// A moment read from a name: always a valid one, with its Unix time.
#[derive(Clone, Copy, Debug, PartialEq, Eq, Structural)]
pub struct Timestamp {
    year: u16,
    month: u8,
    day: u8,
    hour: u8,
    minute: u8,
    second: u8,
    unix: i64,
}

impl View for Timestamp {
    type V = Civil;

    closed spec fn view(&self) -> Civil {
        Civil {
            year: self.year as int,
            month: self.month as int,
            day: self.day as int,
            hour: self.hour as int,
            minute: self.minute as int,
            second: self.second as int,
        }
    }
}

impl Timestamp {
    /// The moment exists, and the Unix time kept with it is its own.
    #[verifier::type_invariant]
    spec fn well_formed(self) -> bool {
        &&& self@.is_valid()
        &&& self.unix as int == self@.unix()
    }

    /// The year, from 0 to 9999.
    pub fn year(&self) -> (r: u16)
        ensures
            r as int == self@.year,
    {
        self.year
    }

    /// The month, from 1 to 12.
    pub fn month(&self) -> (r: u8)
        ensures
            r as int == self@.month,
    {
        self.month
    }

    /// The day of the month, from 1.
    pub fn day(&self) -> (r: u8)
        ensures
            r as int == self@.day,
    {
        self.day
    }

    /// The hour, from 0 to 23.
    pub fn hour(&self) -> (r: u8)
        ensures
            r as int == self@.hour,
    {
        self.hour
    }

    /// The minute, from 0 to 59.
    pub fn minute(&self) -> (r: u8)
        ensures
            r as int == self@.minute,
    {
        self.minute
    }

    /// The second, from 0 to 59.
    pub fn second(&self) -> (r: u8)
        ensures
            r as int == self@.second,
    {
        self.second
    }

    /// The seconds since 1970-01-01 00:00:00 of this moment taken as UTC.
    pub fn unix_seconds(&self) -> (r: i64)
        ensures
            r as int == self@.unix(),
    {
        proof {
            use_type_invariant(self);
        }
        self.unix
    }

    /// The number by which moments are ordered.
    pub fn ordinal(&self) -> (r: u64)
        ensures
            r as int == self@.ordinal(),
            self@.is_valid(),
    {
        proof {
            use_type_invariant(self);
        }
        let months: u64 = self.year as u64 * 12 + (self.month as u64 - 1);
        let days: u64 = months * 31 + (self.day as u64 - 1);
        let hours: u64 = days * 24 + self.hour as u64;
        let minutes: u64 = hours * 60 + self.minute as u64;
        minutes * 60 + self.second as u64
    }

    /// Writes the moment in the grammar it was read in.
    pub fn format(&self) -> (r: String)
        ensures
            r@ == format_spec(self@),
    {
        proof {
            use_type_invariant(self);
            reveal_strlit("-");
            reveal_strlit("_");
        }
        let mut r = String::new();
        push_pad4(&mut r, self.year);
        r.append("-");
        push_pad2(&mut r, self.month);
        r.append("-");
        push_pad2(&mut r, self.day);
        r.append("_");
        push_pad2(&mut r, self.hour);
        r.append("-");
        push_pad2(&mut r, self.minute);
        r.append("-");
        push_pad2(&mut r, self.second);
        assert(r@ =~= format_spec(self@));
        r
    }

    /// Writes the moment for people to read, as `YYYY-MM-DD HH:MM:SS`.
    pub fn readable(&self) -> (r: String)
        ensures
            r@ == readable_spec(self@),
    {
        proof {
            use_type_invariant(self);
            reveal_strlit("-");
            reveal_strlit(" ");
            reveal_strlit(":");
        }
        let mut r = String::new();
        push_pad4(&mut r, self.year);
        r.append("-");
        push_pad2(&mut r, self.month);
        r.append("-");
        push_pad2(&mut r, self.day);
        r.append(" ");
        push_pad2(&mut r, self.hour);
        r.append(":");
        push_pad2(&mut r, self.minute);
        r.append(":");
        push_pad2(&mut r, self.second);
        assert(r@ =~= readable_spec(self@));
        r
    }

    /// Writes the moment as `YYYYMMDD_HHMMSS000`.
    pub fn compact(&self) -> (r: String)
        ensures
            r@ == compact_spec(self@),
    {
        proof {
            use_type_invariant(self);
            reveal_strlit("_");
            reveal_strlit("000");
        }
        let mut r = String::new();
        push_pad4(&mut r, self.year);
        push_pad2(&mut r, self.month);
        push_pad2(&mut r, self.day);
        r.append("_");
        push_pad2(&mut r, self.hour);
        push_pad2(&mut r, self.minute);
        push_pad2(&mut r, self.second);
        r.append("000");
        assert(r@ =~= compact_spec(self@));
        r
    }
}

/// Executable form of [`is_stamp_shape`].
pub fn has_stamp_shape(s: &str) -> (r: bool)
    ensures
        r == is_stamp_shape(s@),
{
    if s.unicode_len() != 19 {
        return false;
    }
    check_digits(s, 0, 4) && s.get_char(4) == '-' && check_digits(s, 5, 2) && s.get_char(7) == '-'
        && check_digits(s, 8, 2) && s.get_char(10) == '_' && check_digits(s, 11, 2) && s.get_char(13) == '-'
        && check_digits(s, 14, 2) && s.get_char(16) == '-' && check_digits(s, 17, 2)
}

/// Reads a timestamp. Any deviation from the grammar, and any date or time
/// that does not exist, is an error.
pub fn parse_tesla_timestamp(date_str: &str) -> (r: Result<Timestamp, ClipError>)
    ensures
        match r {
            Ok(t) => parse_spec(date_str@) == Some(t@),
            Err(e) => e == ClipError::TimestampParse && parse_spec(date_str@).is_none(),
        },
{
    if !has_stamp_shape(date_str) {
        return Err(ClipError::TimestampParse);
    }
    let year: u16 = read4(date_str, 0);
    let month: u8 = read2(date_str, 5);
    let day: u8 = read2(date_str, 8);
    let hour: u8 = read2(date_str, 11);
    let minute: u8 = read2(date_str, 14);
    let second: u8 = read2(date_str, 17);
    match civil_to_unix(year as i32, month as u32, day as u32, hour as u32, minute as u32, second as u32) {
        Some(unix) => Ok(Timestamp { year, month, day, hour, minute, second, unix }),
        None => Err(ClipError::TimestampParse),
    }
}

/// The name of the file or folder that a path ends in, without its extension.
/// A path that ends in `/`, or is empty, names none.
pub fn file_stem(path: &str) -> (r: Result<String, ClipError>)
    ensures
        match r {
            Ok(stem) => file_name_of(path@).len() > 0 && stem@ == stem_of(file_name_of(path@)),
            Err(e) => e == ClipError::FilenameGrammar && file_name_of(path@).len() == 0,
        },
{
    let name = file_name(path);
    let n: usize = name.as_str().unicode_len();
    if n == 0 {
        return Err(ClipError::FilenameGrammar);
    }
    proof {
        lemma_last_index_of(name@, '.');
    }
    match find_last(name.as_str(), '.') {
        Some(dot) => {
            if dot == 0 {
                Ok(name)
            } else {
                Ok(String::from_str(name.as_str().substring_char(0, dot)))
            }
        },
        None => Ok(name),
    }
}

} // verus!
