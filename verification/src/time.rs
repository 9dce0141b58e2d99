//! Calendar dates and timestamps as plain values, with the two textual
//! forms the harvester reads and writes: the fixed "date space time"
//! record format and the `YYYY-MM-DD-HH-MM` stamp embedded in resource
//! paths.

use vstd::prelude::*;

use crate::text::{
    all_digits, digits_val, is_digit_char, parse_usize, push_four_digits, push_two_digits,
    four_digit_seq, two_digit_seq,
};

verus! {

/// A calendar date.
#[derive(Clone, Copy, Debug, PartialEq, Eq, Structural)]
pub struct Date {
    pub year: u16,
    pub month: u8,
    pub day: u8,
}

/// A calendar date with a time of day.
#[derive(Clone, Copy, Debug, PartialEq, Eq, Structural)]
pub struct Timestamp {
    pub date: Date,
    pub hour: u8,
    pub minute: u8,
    pub second: u8,
}

/// Gregorian leap year rule.
pub open spec fn is_leap_year(y: int) -> bool {
    y % 4 == 0 && (y % 100 != 0 || y % 400 == 0)
}

/// Number of days of month `m` of year `y`.
pub open spec fn days_in_month(y: int, m: int) -> int {
    if m == 2 {
        if is_leap_year(y) { 29 } else { 28 }
    } else if m == 4 || m == 6 || m == 9 || m == 11 {
        30
    } else {
        31
    }
}

impl Date {
    /// A real calendar date that prints in four-digit years.
    pub open spec fn valid(self) -> bool {
        self.year <= 9999
        && 1 <= self.month <= 12
        && 1 <= self.day <= days_in_month(self.year as int, self.month as int)
    }

    /// The ten characters `YYYY-MM-DD` that print this date.
    pub open spec fn seq(self) -> Seq<char> {
        four_digit_seq(self.year as int) + seq!['-'] + two_digit_seq(self.month as int)
            + seq!['-'] + two_digit_seq(self.day as int)
    }

    /// Decides `Date::valid` at run time.
    pub fn is_valid(&self) -> (r: bool)
        ensures
            r == self.valid(),
    {
        date_valid_exec(self)
    }

    /// Prints this date as `YYYY-MM-DD`.
    pub fn to_text(&self) -> (r: String)
        requires
            self.valid(),
        ensures
            r@ =~= self.seq(),
    {
        proof {
            reveal_strlit("-");
        }
        let mut out = String::new();
        push_four_digits(&mut out, self.year as usize);
        out.append("-");
        push_two_digits(&mut out, self.month as usize);
        out.append("-");
        push_two_digits(&mut out, self.day as usize);
        out
    }
}

impl Timestamp {
    /// A real calendar date with a real time of day.
    pub open spec fn valid(self) -> bool {
        self.date.valid() && self.hour < 24 && self.minute < 60 && self.second < 60
    }
}

/// The fixed record-format shape `YYYY-MM-DD HH:MM:SS`: nineteen
/// characters, digit runs split by fixed separators.
pub open spec fn datetime_shape(s: Seq<char>) -> bool {
    s.len() == 19
    && all_digits(s.subrange(0, 4))
    && s[4] == '-'
    && all_digits(s.subrange(5, 7))
    && s[7] == '-'
    && all_digits(s.subrange(8, 10))
    && s[10] == ' '
    && all_digits(s.subrange(11, 13))
    && s[13] == ':'
    && all_digits(s.subrange(14, 16))
    && s[16] == ':'
    && all_digits(s.subrange(17, 19))
}

/// The timestamp denoted by a well-shaped `YYYY-MM-DD HH:MM:SS` string,
/// before validity is judged.
pub open spec fn datetime_fields(s: Seq<char>) -> Timestamp {
    Timestamp {
        date: Date {
            year: digits_val(s.subrange(0, 4)) as u16,
            month: digits_val(s.subrange(5, 7)) as u8,
            day: digits_val(s.subrange(8, 10)) as u8,
        },
        hour: digits_val(s.subrange(11, 13)) as u8,
        minute: digits_val(s.subrange(14, 16)) as u8,
        second: digits_val(s.subrange(17, 19)) as u8,
    }
}

/// What parsing a record timestamp returns: the denoted timestamp for a
/// well-shaped string naming a real calendar date and time, nothing else.
pub open spec fn spec_parse_datetime(s: Seq<char>) -> Option<Timestamp> {
    if datetime_shape(s) && datetime_fields(s).valid() {
        Some(datetime_fields(s))
    } else {
        None
    }
}

/// Bounds the value of a digit run by its length.
proof fn lemma_digits_val_len_bound(s: Seq<char>)
    requires
        all_digits(s),
    ensures
        s.len() == 2 ==> digits_val(s) <= 99,
        s.len() == 4 ==> digits_val(s) <= 9999,
    decreases s.len(),
{
    if s.len() > 0 {
        assert(is_digit_char(s.last()));
        assert(forall|i: int| 0 <= i < s.len() - 1 ==> s.drop_last()[i] == s[i]);
        lemma_digits_val_len_bound(s.drop_last());
        if s.len() == 2 {
            assert(s.drop_last().len() == 1);
            assert(digits_val(s.drop_last()) == digits_val(s.drop_last().drop_last()) * 10
                + crate::text::digit_val(s.drop_last().last()));
            assert(s.drop_last().drop_last().len() == 0);
            assert(digits_val(s.drop_last()) <= 9);
        }
        if s.len() == 4 {
            assert(s.drop_last().len() == 3);
            assert(digits_val(s.drop_last()) <= 999) by {
                lemma_digits_val_len3_bound(s.drop_last());
            }
        }
    }
}

/// Bounds a three-digit run.
proof fn lemma_digits_val_len3_bound(s: Seq<char>)
    requires
        all_digits(s),
        s.len() == 3,
    ensures
        digits_val(s) <= 999,
{
    assert(forall|i: int| 0 <= i < 2 ==> s.drop_last()[i] == s[i]);
    assert(forall|i: int| 0 <= i < 1 ==> s.drop_last().drop_last()[i] == s[i]);
    assert(digits_val(s.drop_last().drop_last().drop_last()) == 0);
    assert(digits_val(s.drop_last().drop_last()) <= 9);
    assert(digits_val(s.drop_last()) <= 99);
}

/// Parses one digit run of `s` between character positions `from` and `to`.
fn parse_digit_run(s: &str, from: usize, to: usize) -> (r: Option<usize>)
    requires
        from < to <= s@.len(),
        to - from == 2 || to - from == 4,
    ensures
        match r {
            Some(v) => all_digits(s@.subrange(from as int, to as int)) && v == digits_val(
                s@.subrange(from as int, to as int),
            ) && v <= 9999 && (to - from == 2 ==> v <= 99),
            None => !all_digits(s@.subrange(from as int, to as int)),
        },
{
    let part = s.substring_char(from, to);
    let r = parse_usize(part);
    proof {
        if all_digits(s@.subrange(from as int, to as int)) {
            lemma_digits_val_len_bound(s@.subrange(from as int, to as int));
        }
    }
    r
}

/// Parses an explicit record timestamp in the fixed
/// `YYYY-MM-DD HH:MM:SS` format.
///
/// Returns the denoted timestamp exactly when the string has the fixed
/// shape and names a real calendar date and time.
pub fn parse_datetime(s: &str) -> (r: Option<Timestamp>)
    ensures
        r == spec_parse_datetime(s@),
{
    if s.unicode_len() != 19 {
        return None;
    }
    if s.get_char(4) != '-' || s.get_char(7) != '-' || s.get_char(10) != ' '
        || s.get_char(13) != ':' || s.get_char(16) != ':' {
        return None;
    }
    let year = match parse_digit_run(s, 0, 4) {
        Some(v) => v,
        None => { return None; },
    };
    let month = match parse_digit_run(s, 5, 7) {
        Some(v) => v,
        None => { return None; },
    };
    let day = match parse_digit_run(s, 8, 10) {
        Some(v) => v,
        None => { return None; },
    };
    let hour = match parse_digit_run(s, 11, 13) {
        Some(v) => v,
        None => { return None; },
    };
    let minute = match parse_digit_run(s, 14, 16) {
        Some(v) => v,
        None => { return None; },
    };
    let second = match parse_digit_run(s, 17, 19) {
        Some(v) => v,
        None => { return None; },
    };
    let ts = Timestamp {
        date: Date { year: year as u16, month: month as u8, day: day as u8 },
        hour: hour as u8,
        minute: minute as u8,
        second: second as u8,
    };
    if timestamp_valid_exec(&ts) {
        Some(ts)
    } else {
        None
    }
}

/// Decides `Timestamp::valid` at run time.
fn timestamp_valid_exec(ts: &Timestamp) -> (r: bool)
    ensures
        r == ts.valid(),
{
    date_valid_exec(&ts.date) && ts.hour < 24 && ts.minute < 60 && ts.second < 60
}

/// Decides `Date::valid` at run time.
fn date_valid_exec(d: &Date) -> (r: bool)
    ensures
        r == d.valid(),
{
    if !(d.year <= 9999 && 1 <= d.month && d.month <= 12 && 1 <= d.day) {
        return false;
    }
    let max_day: u8 = if d.month == 2 {
        let leap = d.year % 4 == 0 && (d.year % 100 != 0 || d.year % 400 == 0);
        if leap { 29 } else { 28 }
    } else if d.month == 4 || d.month == 6 || d.month == 9 || d.month == 11 {
        30
    } else {
        31
    };
    d.day <= max_day
}

/// A `YYYY-MM-DD-HH-MM` stamp starts at position `i` of `s`.
pub open spec fn stamp_at(s: Seq<char>, i: int) -> bool {
    i + 16 <= s.len()
    && all_digits(s.subrange(i, i + 4))
    && s[i + 4] == '-'
    && all_digits(s.subrange(i + 5, i + 7))
    && s[i + 7] == '-'
    && all_digits(s.subrange(i + 8, i + 10))
    && s[i + 10] == '-'
    && all_digits(s.subrange(i + 11, i + 13))
    && s[i + 13] == '-'
    && all_digits(s.subrange(i + 14, i + 16))
}

/// Position of the leftmost stamp at or after position `i`, if any.
pub open spec fn find_stamp_from(s: Seq<char>, i: int) -> Option<int>
    decreases s.len() - i,
{
    if i + 16 > s.len() {
        None
    } else if stamp_at(s, i) {
        Some(i)
    } else {
        find_stamp_from(s, i + 1)
    }
}

/// The timestamp denoted by the stamp starting at position `i`, with the
/// seconds field fixed to zero.
pub open spec fn stamp_fields(s: Seq<char>, i: int) -> Timestamp {
    Timestamp {
        date: Date {
            year: digits_val(s.subrange(i, i + 4)) as u16,
            month: digits_val(s.subrange(i + 5, i + 7)) as u8,
            day: digits_val(s.subrange(i + 8, i + 10)) as u8,
        },
        hour: digits_val(s.subrange(i + 11, i + 13)) as u8,
        minute: digits_val(s.subrange(i + 14, i + 16)) as u8,
        second: 0,
    }
}

/// The timestamp hint a resource path yields: the leftmost embedded
/// `YYYY-MM-DD-HH-MM` stamp, if there is one and it names a real calendar
/// date and time.
pub open spec fn spec_timestamp_hint(s: Seq<char>) -> Option<Timestamp> {
    match find_stamp_from(s, 0) {
        None => None,
        Some(i) => if stamp_fields(s, i).valid() {
            Some(stamp_fields(s, i))
        } else {
            None
        },
    }
}

/// Decides `stamp_at` at run time.
fn is_stamp_at(s: &str, i: usize) -> (r: bool)
    requires
        i + 16 <= s@.len(),
        s@.len() <= usize::MAX,
    ensures
        r == stamp_at(s@, i as int),
{
    if s.get_char(i + 4) != '-' || s.get_char(i + 7) != '-' || s.get_char(i + 10) != '-'
        || s.get_char(i + 13) != '-' {
        return false;
    }
    if parse_digit_run(s, i, i + 4).is_none() {
        return false;
    }
    if parse_digit_run(s, i + 5, i + 7).is_none() {
        return false;
    }
    if parse_digit_run(s, i + 8, i + 10).is_none() {
        return false;
    }
    if parse_digit_run(s, i + 11, i + 13).is_none() {
        return false;
    }
    if parse_digit_run(s, i + 14, i + 16).is_none() {
        return false;
    }
    true
}

/// Scans text for an embedded `YYYY-MM-DD-HH-MM` stamp and returns the
/// timestamp the leftmost one names, seconds fixed to zero.
pub fn timestamp_hint_from_text(s: &str) -> (r: Option<Timestamp>)
    ensures
        r == spec_timestamp_hint(s@),
{
    let n = s.unicode_len();
    if n < 16 {
        return None;
    }
    let mut i: usize = 0;
    while i <= n - 16
        invariant
            0 <= i <= n - 15,
            16 <= n == s@.len(),
            find_stamp_from(s@, 0) == find_stamp_from(s@, i as int),
        decreases n - i,
    {
        if is_stamp_at(s, i) {
            let year = match parse_digit_run(s, i, i + 4) {
                Some(v) => v,
                None => { return None; },
            };
            let month = match parse_digit_run(s, i + 5, i + 7) {
                Some(v) => v,
                None => { return None; },
            };
            let day = match parse_digit_run(s, i + 8, i + 10) {
                Some(v) => v,
                None => { return None; },
            };
            let hour = match parse_digit_run(s, i + 11, i + 13) {
                Some(v) => v,
                None => { return None; },
            };
            let minute = match parse_digit_run(s, i + 14, i + 16) {
                Some(v) => v,
                None => { return None; },
            };
            let ts = Timestamp {
                date: Date { year: year as u16, month: month as u8, day: day as u8 },
                hour: hour as u8,
                minute: minute as u8,
                second: 0,
            };
            assert(ts == stamp_fields(s@, i as int));
            if timestamp_valid_exec(&ts) {
                return Some(ts);
            } else {
                return None;
            }
        }
        assert(find_stamp_from(s@, i as int) == find_stamp_from(s@, i + 1));
        i = i + 1;
    }
    assert(find_stamp_from(s@, i as int) is None);
    None
}

} // verus!
