//! From a decoded table of text fields to raw records and datasets.
//!
//! A downloaded report is a header row naming columns and data rows of
//! text fields. This module resolves the era-dependent column layout:
//! it finds each known column by name, reads its fields (an empty field
//! is an absent value), and normalizes every data row into the canonical
//! schema, failing the whole table on the first unusable row.

use vstd::prelude::*;

use crate::dataset::{DataSet, DataSetView};
use crate::error::Error;
use crate::record::{
    spec_normalize, opt_text_view, RawRecord, RawRecordView, Row, RowView,
};
use crate::text::{all_digits, digits_val, parse_usize, str_eq};
use crate::time::Timestamp;

verus! {

/// Position of the leftmost column named `name` at or after `i`.
pub open spec fn find_col_from(h: Seq<Seq<char>>, name: Seq<char>, i: int) -> Option<int>
    decreases h.len() - i,
{
    if i >= h.len() {
        None
    } else if h[i] == name {
        Some(i)
    } else {
        find_col_from(h, name, i + 1)
    }
}

/// The text of the field under column `name`, when the column exists,
/// the row is long enough, and the field is non-empty.
pub open spec fn field_at(h: Seq<Seq<char>>, f: Seq<Seq<char>>, name: Seq<char>) -> Option<
    Seq<char>,
> {
    match find_col_from(h, name, 0) {
        None => None,
        Some(j) => if j < f.len() && f[j].len() > 0 {
            Some(f[j])
        } else {
            None
        },
    }
}

/// An optional numeric field: absent is fine, a present field must be a
/// digit run whose value is at most `max`.
pub open spec fn spec_opt_num(h: Seq<Seq<char>>, f: Seq<Seq<char>>, name: Seq<char>, max: nat)
    -> Result<Option<usize>, Error> {
    match field_at(h, f, name) {
        None => Ok(None),
        Some(t) => if all_digits(t) && digits_val(t) <= max {
            Ok(Some(digits_val(t) as usize))
        } else {
            Err(Error::Csv)
        },
    }
}

/// A required numeric field: the column must exist and hold a digit run
/// whose value fits the machine word.
pub open spec fn spec_req_num(h: Seq<Seq<char>>, f: Seq<Seq<char>>, name: Seq<char>) -> Result<
    usize,
    Error,
> {
    match field_at(h, f, name) {
        None => Err(Error::Csv),
        Some(t) => if all_digits(t) && digits_val(t) <= usize::MAX {
            Ok(digits_val(t) as usize)
        } else {
            Err(Error::Csv)
        },
    }
}

/// A required text field: the column must exist and the row reach it;
/// the text may be empty.
pub open spec fn spec_req_text(h: Seq<Seq<char>>, f: Seq<Seq<char>>, name: Seq<char>) -> Result<
    Seq<char>,
    Error,
> {
    match find_col_from(h, name, 0) {
        None => Err(Error::Csv),
        Some(j) => if j < f.len() {
            Ok(f[j])
        } else {
            Err(Error::Csv)
        },
    }
}

/// Finds the leftmost column of `headers` named `name`.
fn find_col(headers: &Vec<String>, name: &str) -> (r: Option<usize>)
    ensures
        match r {
            Some(j) => j < headers@.len() && find_col_from(headers.deep_view(), name@, 0)
                == Some(j as int),
            None => find_col_from(headers.deep_view(), name@, 0) is None,
        },
{
    let ghost hv = headers.deep_view();
    let n = headers.len();
    let mut i: usize = 0;
    while i < n
        invariant
            0 <= i <= n,
            n == headers@.len(),
            hv == headers.deep_view(),
            hv.len() == n,
            forall|j: int| 0 <= j < n ==> hv[j] == headers@[j]@,
            find_col_from(hv, name@, 0) == find_col_from(hv, name@, i as int),
        decreases n - i,
    {
        if str_eq(headers[i].as_str(), name) {
            return Some(i);
        }
        assert(find_col_from(hv, name@, i as int) == find_col_from(hv, name@, i + 1));
        i = i + 1;
    }
    assert(find_col_from(hv, name@, i as int) is None);
    None
}

/// Reads an optional text field, per `field_at`.
fn opt_text_field(headers: &Vec<String>, fields: &Vec<String>, name: &str) -> (r: Option<String>)
    ensures
        opt_text_view(r) == field_at(headers.deep_view(), fields.deep_view(), name@),
{
    match find_col(headers, name) {
        None => None,
        Some(j) => {
            if j < fields.len() && !fields[j].as_str().is_empty() {
                assert(fields.deep_view()[j as int] == fields@[j as int]@);
                Some(fields[j].clone())
            } else {
                proof {
                    if j < fields@.len() {
                        assert(fields.deep_view()[j as int] == fields@[j as int]@);
                    }
                }
                None
            }
        },
    }
}

/// Reads an optional numeric field, per `spec_opt_num`.
fn opt_num_field(headers: &Vec<String>, fields: &Vec<String>, name: &str, max: usize) -> (r:
    Result<Option<usize>, Error>)
    ensures
        r == spec_opt_num(headers.deep_view(), fields.deep_view(), name@, max as nat),
{
    match opt_text_field(headers, fields, name) {
        None => Ok(None),
        Some(t) => match parse_usize(t.as_str()) {
            Some(v) => if v <= max {
                Ok(Some(v))
            } else {
                Err(Error::Csv)
            },
            None => Err(Error::Csv),
        },
    }
}

/// Reads a required numeric field, per `spec_req_num`.
fn req_num_field(headers: &Vec<String>, fields: &Vec<String>, name: &str) -> (r: Result<
    usize,
    Error,
>)
    ensures
        r == spec_req_num(headers.deep_view(), fields.deep_view(), name@),
{
    match opt_text_field(headers, fields, name) {
        None => Err(Error::Csv),
        Some(t) => match parse_usize(t.as_str()) {
            Some(v) => Ok(v),
            None => Err(Error::Csv),
        },
    }
}

/// Reads a required text field, per `spec_req_text`.
fn req_text_field(headers: &Vec<String>, fields: &Vec<String>, name: &str) -> (r: Result<
    String,
    Error,
>)
    ensures
        match r {
            Ok(t) => spec_req_text(headers.deep_view(), fields.deep_view(), name@) == Ok::<
                Seq<char>,
                Error,
            >(t@),
            Err(e) => spec_req_text(headers.deep_view(), fields.deep_view(), name@)
                == Err::<Seq<char>, Error>(e),
        },
{
    match find_col(headers, name) {
        None => Err(Error::Csv),
        Some(j) => {
            if j < fields.len() {
                assert(fields.deep_view()[j as int] == fields@[j as int]@);
                Ok(fields[j].clone())
            } else {
                Err(Error::Csv)
            }
        },
    }
}

/// What splitting one data row into a raw record returns: every known
/// column read per its kind, any malformed field failing the row as
/// undecodable.
pub open spec fn spec_record_of(h: Seq<Seq<char>>, f: Seq<Seq<char>>) -> Result<
    RawRecordView,
    Error,
> {
    if spec_opt_num(h, f, ""@, usize::MAX as nat) is Err
        || spec_opt_num(h, f, "bundesland"@, 255) is Err
        || spec_opt_num(h, f, "anzahl_meldebereiche"@, usize::MAX as nat) is Err
        || spec_opt_num(h, f, "faelle_covid_aktuell"@, usize::MAX as nat) is Err
        || spec_opt_num(h, f, "faelle_covid_aktuell_invasiv_beatmet"@, usize::MAX as nat) is Err
        || spec_opt_num(h, f, "faelle_covid_aktuell_beatmet"@, usize::MAX as nat) is Err
        || spec_opt_num(h, f, "faelle_cobid_aktuell_im_bundesland"@, usize::MAX as nat) is Err
        || spec_req_num(h, f, "anzahl_standorte"@) is Err
        || spec_req_text(h, f, "betten_frei"@) is Err
        || spec_req_text(h, f, "betten_belegt"@) is Err
        || spec_opt_num(h, f, "betten_belegt_nur_erwachsen"@, usize::MAX as nat) is Err
        || spec_opt_num(h, f, "betten_frei_nur_erwachsen"@, usize::MAX as nat) is Err {
        Err(Error::Csv)
    } else {
        Ok(
            RawRecordView {
                idx: spec_opt_num(h, f, ""@, usize::MAX as nat)->Ok_0,
                bundesland: match spec_opt_num(h, f, "bundesland"@, 255)->Ok_0 {
                    Some(v) => Some(v as u8),
                    None => None,
                },
                gemeindeschluessel: field_at(h, f, "gemeindeschluessel"@),
                kreis: field_at(h, f, "kreis"@),
                anzahl_meldebereiche: spec_opt_num(h, f, "anzahl_meldebereiche"@, usize::MAX as nat)->Ok_0,
                faelle_covid_aktuell: spec_opt_num(h, f, "faelle_covid_aktuell"@, usize::MAX as nat)->Ok_0,
                faelle_covid_aktuell_invasiv_beatmet: spec_opt_num(
                    h, f, "faelle_covid_aktuell_invasiv_beatmet"@, usize::MAX as nat)->Ok_0,
                faelle_covid_aktuell_beatmet: spec_opt_num(
                    h, f, "faelle_covid_aktuell_beatmet"@, usize::MAX as nat)->Ok_0,
                faelle_cobid_aktuell_im_bundesland: spec_opt_num(
                    h, f, "faelle_cobid_aktuell_im_bundesland"@, usize::MAX as nat)->Ok_0,
                anzahl_standorte: spec_req_num(h, f, "anzahl_standorte"@)->Ok_0,
                betten_frei: spec_req_text(h, f, "betten_frei"@)->Ok_0,
                betten_belegt: spec_req_text(h, f, "betten_belegt"@)->Ok_0,
                daten_stand: field_at(h, f, "daten_stand"@),
                betten_belegt_nur_erwachsen: spec_opt_num(
                    h, f, "betten_belegt_nur_erwachsen"@, usize::MAX as nat)->Ok_0,
                betten_frei_nur_erwachsen: spec_opt_num(
                    h, f, "betten_frei_nur_erwachsen"@, usize::MAX as nat)->Ok_0,
            },
        )
    }
}

impl RawRecord {
    /// Splits one data row into a raw record under the given header row,
    /// per `spec_record_of`.
    pub fn from_fields(headers: &Vec<String>, fields: &Vec<String>) -> (r: Result<
        RawRecord,
        Error,
    >)
        ensures
            match r {
                Ok(rec) => spec_record_of(headers.deep_view(), fields.deep_view()) == Ok::<
                    RawRecordView,
                    Error,
                >(rec@),
                Err(e) => spec_record_of(headers.deep_view(), fields.deep_view())
                    == Err::<RawRecordView, Error>(e),
            },
    {
        let idx = match opt_num_field(headers, fields, "", usize::MAX) {
            Ok(v) => v,
            Err(e) => { return Err(e); },
        };
        let bundesland = match opt_num_field(headers, fields, "bundesland", 255) {
            Ok(Some(v)) => Some(v as u8),
            Ok(None) => None,
            Err(e) => { return Err(e); },
        };
        let anzahl_meldebereiche = match opt_num_field(
            headers, fields, "anzahl_meldebereiche", usize::MAX) {
            Ok(v) => v,
            Err(e) => { return Err(e); },
        };
        let faelle_covid_aktuell = match opt_num_field(
            headers, fields, "faelle_covid_aktuell", usize::MAX) {
            Ok(v) => v,
            Err(e) => { return Err(e); },
        };
        let faelle_covid_aktuell_invasiv_beatmet = match opt_num_field(
            headers, fields, "faelle_covid_aktuell_invasiv_beatmet", usize::MAX) {
            Ok(v) => v,
            Err(e) => { return Err(e); },
        };
        let faelle_covid_aktuell_beatmet = match opt_num_field(
            headers, fields, "faelle_covid_aktuell_beatmet", usize::MAX) {
            Ok(v) => v,
            Err(e) => { return Err(e); },
        };
        let faelle_cobid_aktuell_im_bundesland = match opt_num_field(
            headers, fields, "faelle_cobid_aktuell_im_bundesland", usize::MAX) {
            Ok(v) => v,
            Err(e) => { return Err(e); },
        };
        let anzahl_standorte = match req_num_field(headers, fields, "anzahl_standorte") {
            Ok(v) => v,
            Err(e) => { return Err(e); },
        };
        let betten_frei = match req_text_field(headers, fields, "betten_frei") {
            Ok(v) => v,
            Err(e) => { return Err(e); },
        };
        let betten_belegt = match req_text_field(headers, fields, "betten_belegt") {
            Ok(v) => v,
            Err(e) => { return Err(e); },
        };
        let betten_belegt_nur_erwachsen = match opt_num_field(
            headers, fields, "betten_belegt_nur_erwachsen", usize::MAX) {
            Ok(v) => v,
            Err(e) => { return Err(e); },
        };
        let betten_frei_nur_erwachsen = match opt_num_field(
            headers, fields, "betten_frei_nur_erwachsen", usize::MAX) {
            Ok(v) => v,
            Err(e) => { return Err(e); },
        };
        let gemeindeschluessel = opt_text_field(headers, fields, "gemeindeschluessel");
        let kreis = opt_text_field(headers, fields, "kreis");
        let daten_stand = opt_text_field(headers, fields, "daten_stand");
        Ok(
            RawRecord {
                idx,
                bundesland,
                gemeindeschluessel,
                kreis,
                anzahl_meldebereiche,
                faelle_covid_aktuell,
                faelle_covid_aktuell_invasiv_beatmet,
                faelle_covid_aktuell_beatmet,
                faelle_cobid_aktuell_im_bundesland,
                anzahl_standorte,
                betten_frei,
                betten_belegt,
                daten_stand,
                betten_belegt_nur_erwachsen,
                betten_frei_nur_erwachsen,
            },
        )
    }
}

/// What normalizing a sequence of data rows returns: the canonical rows
/// in order, or the failure of the earliest row that cannot be split or
/// normalized.
pub open spec fn spec_rows(
    h: Seq<Seq<char>>,
    data: Seq<Seq<Seq<char>>>,
    hint: Option<Timestamp>,
) -> Result<Seq<RowView>, Error>
    decreases data.len(),
{
    if data.len() == 0 {
        Ok(Seq::<RowView>::empty())
    } else {
        match spec_rows(h, data.drop_last(), hint) {
            Err(e) => Err(e),
            Ok(prefix) => match spec_record_of(h, data.last()) {
                Err(e) => Err(e),
                Ok(rv) => match spec_normalize(rv, hint) {
                    Err(e) => Err(e),
                    Ok(row) => Ok(prefix.push(row)),
                },
            },
        }
    }
}

/// A failure among the first `i` data rows is the failure of the whole
/// sequence.
proof fn lemma_rows_err_extends(
    h: Seq<Seq<char>>,
    data: Seq<Seq<Seq<char>>>,
    hint: Option<Timestamp>,
    i: int,
)
    requires
        0 <= i <= data.len(),
        spec_rows(h, data.subrange(0, i), hint) is Err,
    ensures
        spec_rows(h, data, hint) == spec_rows(h, data.subrange(0, i), hint),
    decreases data.len(),
{
    if i == data.len() {
        assert(data.subrange(0, i) =~= data);
    } else {
        assert(data.drop_last().subrange(0, i) =~= data.subrange(0, i));
        lemma_rows_err_extends(h, data.drop_last(), hint, i);
    }
}

/// What decoding one report table into a dated dataset returns, for
/// every table, source URL and hint: the header row is the first row,
/// every later row normalizes in order, and the dataset is dated by the
/// first row; an empty table or a table of only a header is an empty
/// dataset, which is refused.
pub open spec fn spec_dataset_from_table(
    tv: Seq<Seq<Seq<char>>>,
    url: Seq<char>,
    hint: Option<Timestamp>,
) -> Result<DataSetView, Error> {
    let h = if tv.len() > 0 {
        tv[0]
    } else {
        Seq::<Seq<char>>::empty()
    };
    let data = if tv.len() > 0 {
        tv.subrange(1, tv.len() as int)
    } else {
        tv
    };
    match spec_rows(h, data, hint) {
        Err(e) => Err(e),
        Ok(rows) => if rows.len() == 0 {
            Err(Error::EmptyDataSet)
        } else {
            Ok(DataSetView { date: rows[0].timestamp.date, source_url: url, rows })
        },
    }
}

/// Decodes one report table into a dated dataset, per
/// `spec_dataset_from_table`: the first row names the columns, every
/// later row is normalized against them and the hint, and the result is
/// dated by the first row's timestamp.
pub fn dataset_from_table(
    table: &Vec<Vec<String>>,
    source_url: String,
    hint: &Option<Timestamp>,
) -> (r: Result<DataSet, Error>)
    ensures
        match r {
            Ok(ds) => spec_dataset_from_table(table.deep_view(), source_url@, *hint) == Ok::<
                DataSetView,
                Error,
            >(ds@),
            Err(e) => spec_dataset_from_table(table.deep_view(), source_url@, *hint)
                == Err::<DataSetView, Error>(e),
        },
{
    let ghost tv = table.deep_view();
    if table.len() == 0 {
        assert(spec_rows(Seq::<Seq<char>>::empty(), tv, *hint) == Ok::<Seq<RowView>, Error>(
            Seq::<RowView>::empty(),
        ));
        return Err(Error::EmptyDataSet);
    }
    let ghost data = tv.subrange(1, tv.len() as int);
    let headers = &table[0];
    proof {
        assert(tv[0] == table@[0].deep_view());
    }
    let mut out: Vec<Row> = Vec::new();
    proof {
        assert(tv.subrange(1, 1) =~= Seq::<Seq<Seq<char>>>::empty());
        assert(out@.map_values(|row: Row| row@) =~= Seq::<RowView>::empty());
    }
    let mut i: usize = 1;
    while i < table.len()
        invariant
            1 <= i <= table@.len(),
            tv == table.deep_view(),
            tv.len() == table@.len(),
            data == tv.subrange(1, tv.len() as int),
            headers.deep_view() == tv[0],
            spec_rows(tv[0], tv.subrange(1, i as int), *hint) == Ok::<Seq<RowView>, Error>(
                out@.map_values(|row: Row| row@),
            ),
        decreases table@.len() - i,
    {
        let ghost prefix = tv.subrange(1, i as int);
        let ghost step = tv.subrange(1, i + 1);
        proof {
            assert(step.drop_last() =~= prefix);
            assert(step.last() == tv[i as int]);
            assert(tv[i as int] == table@[i as int].deep_view());
        }
        let rec = match RawRecord::from_fields(headers, &table[i]) {
            Ok(rec) => rec,
            Err(e) => {
                proof {
                    assert(spec_rows(tv[0], step, *hint) == Err::<Seq<RowView>, Error>(e));
                    assert(data.subrange(0, i as int) =~= step);
                    lemma_rows_err_extends(tv[0], data, *hint, i as int);
                }
                return Err(e);
            },
        };
        let row = match Row::from_raw(rec, hint) {
            Ok(row) => row,
            Err(e) => {
                proof {
                    assert(spec_rows(tv[0], step, *hint) == Err::<Seq<RowView>, Error>(e));
                    assert(data.subrange(0, i as int) =~= step);
                    lemma_rows_err_extends(tv[0], data, *hint, i as int);
                }
                return Err(e);
            },
        };
        let ghost out_prev = out@;
        out.push(row);
        proof {
            assert(out@ =~= out_prev.push(row));
            assert(out@.map_values(|r: Row| r@) =~= out_prev.map_values(|r: Row| r@).push(row@));
            assert(spec_rows(tv[0], step, *hint) == Ok::<Seq<RowView>, Error>(
                out@.map_values(|r: Row| r@),
            ));
        }
        i = i + 1;
    }
    proof {
        assert(tv.subrange(1, i as int) =~= data);
    }
    let r = DataSet::new(source_url, out);
    match r {
        Ok(ds) => Ok(ds),
        Err(e) => Err(e),
    }
}

} // verus!
