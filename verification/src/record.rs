//! Canonical rows and the normalization of raw tabular records.
//!
//! A raw record's shape varies by source era: fields may be absent, bed
//! counts arrive as decimal-formatted text, the region code may have to
//! be recovered from the region key, and the timestamp may come from the
//! record itself or from a caller-supplied hint.

use vstd::prelude::*;

use crate::error::Error;
use crate::text::{all_digits, digits_val, is_digit_char, parse_usize};
use crate::time::{spec_parse_datetime, parse_datetime, Timestamp};

verus! {

/// One row as found in a downloaded report file, after splitting into
/// named fields but before normalization. Which fields are present
/// depends on the era of the source file.
#[derive(Clone, Debug, PartialEq, Eq)]
pub struct RawRecord {
    pub idx: Option<usize>,
    pub bundesland: Option<u8>,
    pub gemeindeschluessel: Option<String>,
    pub kreis: Option<String>,
    pub anzahl_meldebereiche: Option<usize>,
    pub faelle_covid_aktuell: Option<usize>,
    pub faelle_covid_aktuell_invasiv_beatmet: Option<usize>,
    pub faelle_covid_aktuell_beatmet: Option<usize>,
    pub faelle_cobid_aktuell_im_bundesland: Option<usize>,
    pub anzahl_standorte: usize,
    pub betten_frei: String,
    pub betten_belegt: String,
    pub daten_stand: Option<String>,
    pub betten_belegt_nur_erwachsen: Option<usize>,
    pub betten_frei_nur_erwachsen: Option<usize>,
}

/// The mathematical reading of a raw record: text fields as character
/// sequences.
#[verifier::ext_equal]
pub ghost struct RawRecordView {
    pub idx: Option<usize>,
    pub bundesland: Option<u8>,
    pub gemeindeschluessel: Option<Seq<char>>,
    pub kreis: Option<Seq<char>>,
    pub anzahl_meldebereiche: Option<usize>,
    pub faelle_covid_aktuell: Option<usize>,
    pub faelle_covid_aktuell_invasiv_beatmet: Option<usize>,
    pub faelle_covid_aktuell_beatmet: Option<usize>,
    pub faelle_cobid_aktuell_im_bundesland: Option<usize>,
    pub anzahl_standorte: usize,
    pub betten_frei: Seq<char>,
    pub betten_belegt: Seq<char>,
    pub daten_stand: Option<Seq<char>>,
    pub betten_belegt_nur_erwachsen: Option<usize>,
    pub betten_frei_nur_erwachsen: Option<usize>,
}

/// The view of an optional text field.
pub open spec fn opt_text_view(o: Option<String>) -> Option<Seq<char>> {
    match o {
        Some(s) => Some(s@),
        None => None,
    }
}

impl View for RawRecord {
    type V = RawRecordView;

    open spec fn view(&self) -> RawRecordView {
        RawRecordView {
            idx: self.idx,
            bundesland: self.bundesland,
            gemeindeschluessel: opt_text_view(self.gemeindeschluessel),
            kreis: opt_text_view(self.kreis),
            anzahl_meldebereiche: self.anzahl_meldebereiche,
            faelle_covid_aktuell: self.faelle_covid_aktuell,
            faelle_covid_aktuell_invasiv_beatmet: self.faelle_covid_aktuell_invasiv_beatmet,
            faelle_covid_aktuell_beatmet: self.faelle_covid_aktuell_beatmet,
            faelle_cobid_aktuell_im_bundesland: self.faelle_cobid_aktuell_im_bundesland,
            anzahl_standorte: self.anzahl_standorte,
            betten_frei: self.betten_frei@,
            betten_belegt: self.betten_belegt@,
            daten_stand: opt_text_view(self.daten_stand),
            betten_belegt_nur_erwachsen: self.betten_belegt_nur_erwachsen,
            betten_frei_nur_erwachsen: self.betten_frei_nur_erwachsen,
        }
    }
}

/// One canonical, normalized row.
#[derive(Clone, Debug, PartialEq, Eq)]
pub struct Row {
    /// Administrative region code: the two-digit state prefix.
    pub state: u8,
    /// Region key; always present after normalization.
    pub ags: String,
    pub num_report_areas: Option<usize>,
    pub cases_current: Option<usize>,
    pub cases_ventilated: Option<usize>,
    pub num_locations: usize,
    pub beds_available: usize,
    pub beds_occupied: usize,
    pub timestamp: Timestamp,
    pub beds_occupied_adults: Option<usize>,
    pub beds_available_adults: Option<usize>,
}

/// The mathematical reading of a canonical row.
#[verifier::ext_equal]
pub ghost struct RowView {
    pub state: u8,
    pub ags: Seq<char>,
    pub num_report_areas: Option<usize>,
    pub cases_current: Option<usize>,
    pub cases_ventilated: Option<usize>,
    pub num_locations: usize,
    pub beds_available: usize,
    pub beds_occupied: usize,
    pub timestamp: Timestamp,
    pub beds_occupied_adults: Option<usize>,
    pub beds_available_adults: Option<usize>,
}

impl View for Row {
    type V = RowView;

    open spec fn view(&self) -> RowView {
        RowView {
            state: self.state,
            ags: self.ags@,
            num_report_areas: self.num_report_areas,
            cases_current: self.cases_current,
            cases_ventilated: self.cases_ventilated,
            num_locations: self.num_locations,
            beds_available: self.beds_available,
            beds_occupied: self.beds_occupied,
            timestamp: self.timestamp,
            beds_occupied_adults: self.beds_occupied_adults,
            beds_available_adults: self.beds_available_adults,
        }
    }
}

/// A row result, read at the view level.
pub open spec fn row_result_view(r: Result<Row, Error>) -> Result<RowView, Error> {
    match r {
        Ok(row) => Ok(row@),
        Err(e) => Err(e),
    }
}

/// Position of the leftmost `.` at or after position `i`, or the length
/// of `s` if there is none.
pub open spec fn dot_from(s: Seq<char>, i: int) -> int
    decreases s.len() - i,
{
    if i >= s.len() {
        s.len() as int
    } else if s[i] == '.' {
        i
    } else {
        dot_from(s, i + 1)
    }
}

/// What parsing a decimal-formatted count returns: the digits before the
/// first `.` read as an integer. The digits before the point must be
/// non-empty and numeric and whatever follows the point must be numeric,
/// else the row is invalid; a value beyond the machine word is an
/// integer-parsing error.
pub open spec fn spec_parse_decimal(s: Seq<char>) -> Result<usize, Error> {
    let d = dot_from(s, 0);
    let prefix = s.subrange(0, d);
    let tail = if d < s.len() {
        s.subrange(d + 1, s.len() as int)
    } else {
        Seq::<char>::empty()
    };
    if prefix.len() == 0 || !all_digits(prefix) || !all_digits(tail) {
        Err(Error::InvalidRow)
    } else if digits_val(prefix) > usize::MAX {
        Err(Error::ParseInt)
    } else {
        Ok(digits_val(prefix) as usize)
    }
}

/// Decides whether every character of `s` between positions `from` and
/// `to` is a decimal digit.
fn all_digits_range(s: &str, from: usize, to: usize) -> (b: bool)
    requires
        from <= to <= s@.len(),
        s@.len() <= usize::MAX,
    ensures
        b == all_digits(s@.subrange(from as int, to as int)),
{
    let mut i: usize = from;
    while i < to
        invariant
            from <= i <= to <= s@.len(),
            s@.len() <= usize::MAX,
            all_digits(s@.subrange(from as int, i as int)),
        decreases to - i,
    {
        let c = s.get_char(i);
        let u = c as u32;
        if u < 48 || u > 57 {
            assert(s@.subrange(from as int, to as int)[i - from] == s@[i as int]);
            return false;
        }
        assert(forall|j: int| 0 <= j < i + 1 - from ==> s@.subrange(from as int, i + 1)[j]
            == s@.subrange(from as int, i as int).push(s@[i as int])[j]);
        i = i + 1;
    }
    assert(s@.subrange(from as int, to as int) =~= s@.subrange(from as int, i as int));
    true
}

/// Finds the position of the first `.` of `s`, or its length.
fn find_dot(s: &str) -> (d: usize)
    ensures
        d == dot_from(s@, 0),
        d <= s@.len(),
{
    let n = s.unicode_len();
    let mut i: usize = 0;
    while i < n
        invariant
            0 <= i <= n,
            n == s@.len(),
            dot_from(s@, 0) == dot_from(s@, i as int),
        decreases n - i,
    {
        if s.get_char(i) == '.' {
            return i;
        }
        assert(dot_from(s@, i as int) == dot_from(s@, i + 1));
        i = i + 1;
    }
    assert(dot_from(s@, i as int) == s@.len());
    n
}

/// Parses a decimal-formatted count such as `"12.0"` by truncating at
/// the first `.`, per `spec_parse_decimal`.
pub fn parse_decimal_to_int(s: &str) -> (r: Result<usize, Error>)
    ensures
        r == spec_parse_decimal(s@),
{
    let n = s.unicode_len();
    let d = find_dot(s);
    if d == 0 {
        return Err(Error::InvalidRow);
    }
    if !all_digits_range(s, 0, d) {
        return Err(Error::InvalidRow);
    }
    if d < n {
        if !all_digits_range(s, d + 1, n) {
            return Err(Error::InvalidRow);
        }
    }
    proof {
        if d == s@.len() {
            assert(s@.subrange(0, d as int) =~= s@);
        }
    }
    let prefix = s.substring_char(0, d);
    match parse_usize(prefix) {
        Some(v) => Ok(v),
        None => Err(Error::ParseInt),
    }
}

/// The timestamp a raw record resolves to: the explicit field if
/// present (which must then parse), else the caller's hint, else a
/// missing-timestamp failure.
pub open spec fn resolved_timestamp(raw: RawRecordView, hint: Option<Timestamp>) -> Result<
    Timestamp,
    Error,
> {
    match raw.daten_stand {
        Some(ds) => match spec_parse_datetime(ds) {
            Some(t) => Ok(t),
            None => Err(Error::DateTime),
        },
        None => match hint {
            Some(h) => Ok(h),
            None => Err(Error::MissingTimestamp),
        },
    }
}

/// Ordered fallback resolution: the primary source if present, else
/// the fallback.
pub open spec fn spec_first_of<T>(primary: Option<T>, fallback: Option<T>) -> Option<T> {
    match primary {
        Some(v) => Some(v),
        None => fallback,
    }
}

/// Takes the first of two optional sources, in order.
pub fn first_of<T>(primary: Option<T>, fallback: Option<T>) -> (r: Option<T>)
    ensures
        r == spec_first_of(primary, fallback),
{
    match primary {
        Some(v) => Some(v),
        None => fallback,
    }
}

/// The region key a raw record resolves to: the explicit field, else
/// the legacy district field, else an invalid row.
pub open spec fn resolved_ags(raw: RawRecordView) -> Result<Seq<char>, Error> {
    match spec_first_of(raw.gemeindeschluessel, raw.kreis) {
        Some(g) => Ok(g),
        None => Err(Error::InvalidRow),
    }
}

/// The region code a raw record resolves to: the explicit numeric field,
/// else the first two characters of the region key, which must be
/// digits; otherwise an integer-parsing error.
pub open spec fn resolved_state(raw: RawRecordView, ags: Seq<char>) -> Result<u8, Error> {
    match raw.bundesland {
        Some(b) => Ok(b),
        None => if ags.len() >= 2 && all_digits(ags.subrange(0, 2)) {
            Ok(digits_val(ags.subrange(0, 2)) as u8)
        } else {
            Err(Error::ParseInt)
        },
    }
}

/// The ventilated-case count: the invasively-ventilated field, falling
/// back to the plain ventilated field; absent if both are.
pub open spec fn resolved_ventilated(raw: RawRecordView) -> Option<usize> {
    spec_first_of(
        raw.faelle_covid_aktuell_invasiv_beatmet,
        raw.faelle_covid_aktuell_beatmet,
    )
}

/// What normalizing a raw record returns, for every record and hint:
/// either the canonical row or the first failure, in resolution order
/// (timestamp, region key, region code, beds available, beds occupied).
pub open spec fn spec_normalize(raw: RawRecordView, hint: Option<Timestamp>) -> Result<
    RowView,
    Error,
> {
    match resolved_timestamp(raw, hint) {
        Err(e) => Err(e),
        Ok(ts) => match resolved_ags(raw) {
            Err(e) => Err(e),
            Ok(ags) => match resolved_state(raw, ags) {
                Err(e) => Err(e),
                Ok(st) => match spec_parse_decimal(raw.betten_frei) {
                    Err(e) => Err(e),
                    Ok(frei) => match spec_parse_decimal(raw.betten_belegt) {
                        Err(e) => Err(e),
                        Ok(belegt) => Ok(
                            RowView {
                                state: st,
                                ags: ags,
                                num_report_areas: raw.anzahl_meldebereiche,
                                cases_current: raw.faelle_covid_aktuell,
                                cases_ventilated: resolved_ventilated(raw),
                                num_locations: raw.anzahl_standorte,
                                beds_available: frei,
                                beds_occupied: belegt,
                                timestamp: ts,
                                beds_occupied_adults: raw.betten_belegt_nur_erwachsen,
                                beds_available_adults: raw.betten_frei_nur_erwachsen,
                            },
                        ),
                    },
                },
            },
        },
    }
}

impl Row {
    /// Normalizes one raw record against an optional timestamp hint.
    ///
    /// Pure and deterministic: the result is exactly
    /// `spec_normalize(raw@, *timestamp_hint)`, the same row or the same
    /// error for the same inputs, always.
    pub fn from_raw(raw: RawRecord, timestamp_hint: &Option<Timestamp>) -> (r: Result<Row, Error>)
        ensures
            row_result_view(r) == spec_normalize(raw@, *timestamp_hint),
    {
        let ts: Timestamp = match &raw.daten_stand {
            Some(ds) => match parse_datetime(ds.as_str()) {
                Some(t) => t,
                None => { return Err(Error::DateTime); },
            },
            None => match timestamp_hint {
                Some(h) => *h,
                None => { return Err(Error::MissingTimestamp); },
            },
        };
        let ags: String = match first_of(raw.gemeindeschluessel, raw.kreis) {
            Some(g) => g,
            None => { return Err(Error::InvalidRow); },
        };
        let st: u8 = match raw.bundesland {
            Some(b) => b,
            None => {
                let a = ags.as_str();
                if a.unicode_len() < 2 {
                    return Err(Error::ParseInt);
                }
                if !two_digit_prefix_ok(a) {
                    return Err(Error::ParseInt);
                }
                let c0 = a.get_char(0);
                let c1 = a.get_char(1);
                proof {
                    let p = ags@.subrange(0, 2);
                    assert(p[0] == ags@[0] && p[1] == ags@[1]);
                    assert(is_digit_char(ags@[0]) && is_digit_char(ags@[1]));
                    assert(p.last() == ags@[1]);
                    assert(p.drop_last() =~= ags@.subrange(0, 1));
                    assert(digits_val(p) == digits_val(ags@.subrange(0, 1)) * 10
                        + crate::text::digit_val(ags@[1]));
                    assert(ags@.subrange(0, 1).last() == ags@[0]);
                    assert(ags@.subrange(0, 1).drop_last() =~= ags@.subrange(0, 0));
                    assert(ags@.subrange(0, 0).len() == 0);
                    assert(digits_val(ags@.subrange(0, 0)) == 0);
                    assert(digits_val(ags@.subrange(0, 1)) == crate::text::digit_val(ags@[0]));
                    assert(digits_val(p) == crate::text::digit_val(ags@[0]) * 10
                        + crate::text::digit_val(ags@[1]));
                }
                let d0 = (c0 as u32) - 48;
                let d1 = (c1 as u32) - 48;
                (d0 * 10 + d1) as u8
            },
        };
        let frei = match parse_decimal_to_int(raw.betten_frei.as_str()) {
            Ok(v) => v,
            Err(e) => { return Err(e); },
        };
        let belegt = match parse_decimal_to_int(raw.betten_belegt.as_str()) {
            Ok(v) => v,
            Err(e) => { return Err(e); },
        };
        Ok(
            Row {
                state: st,
                ags,
                num_report_areas: raw.anzahl_meldebereiche,
                cases_current: raw.faelle_covid_aktuell,
                cases_ventilated: first_of(
                    raw.faelle_covid_aktuell_invasiv_beatmet,
                    raw.faelle_covid_aktuell_beatmet,
                ),
                num_locations: raw.anzahl_standorte,
                beds_available: frei,
                beds_occupied: belegt,
                timestamp: ts,
                beds_occupied_adults: raw.betten_belegt_nur_erwachsen,
                beds_available_adults: raw.betten_frei_nur_erwachsen,
            },
        )
    }
}

/// A record missing both the explicit and the legacy region-key field
/// is invalid, whatever its other fields hold, as soon as its timestamp
/// resolves (timestamp resolution comes first and hides nothing else).
pub proof fn lemma_missing_region_key(raw: RawRecordView, hint: Option<Timestamp>)
    requires
        raw.gemeindeschluessel is None,
        raw.kreis is None,
        resolved_timestamp(raw, hint) is Ok,
    ensures
        spec_normalize(raw, hint) == Err::<RowView, Error>(Error::InvalidRow),
{
}

/// Timestamp resolution: a record with no timestamp field fails as
/// missing its timestamp when no hint is supplied, and takes the hint
/// verbatim when one is.
pub proof fn lemma_timestamp_resolution(raw: RawRecordView, hint: Option<Timestamp>)
    ensures
        raw.daten_stand is None && hint is None ==> spec_normalize(raw, hint)
            == Err::<RowView, Error>(Error::MissingTimestamp),
        (raw.daten_stand is None && hint is Some && spec_normalize(raw, hint) is Ok)
            ==> spec_normalize(raw, hint)->Ok_0.timestamp == hint->Some_0,
{
}

/// Decides whether the first two characters of `a` are digits.
fn two_digit_prefix_ok(a: &str) -> (b: bool)
    requires
        a@.len() >= 2,
        a@.len() <= usize::MAX,
    ensures
        b == all_digits(a@.subrange(0, 2)),
{
    let c0 = a.get_char(0) as u32;
    let c1 = a.get_char(1) as u32;
    let ok = 48 <= c0 && c0 <= 57 && 48 <= c1 && c1 <= 57;
    proof {
        if ok {
            assert forall|j: int| 0 <= j < 2 implies is_digit_char(#[trigger] a@.subrange(0, 2)[j])
            by {
                assert(a@.subrange(0, 2)[j] == a@[j]);
            }
        } else {
            assert(a@.subrange(0, 2)[0] == a@[0]);
            assert(a@.subrange(0, 2)[1] == a@[1]);
        }
    }
    ok
}

} // verus!
