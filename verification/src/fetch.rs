//! From downloaded report bytes to a dated dataset.
//!
//! The bytes of one resource are decoded as comma-separated data with a
//! header row, a timestamp hint is recovered from the resource URL's
//! path, and every record is normalized into the canonical schema.

use vstd::prelude::*;

use crate::dataset::{DataSet, DataSetView};
use crate::error::Error;
use crate::table::{dataset_from_table, spec_dataset_from_table};
use crate::time::{spec_timestamp_hint, timestamp_hint_from_text, Timestamp};

verus! {

/// The text table that decoding `bytes` as comma-separated data yields:
/// the header row first, then every record in order; nothing when the
/// data is malformed.
pub uninterp spec fn csv_table_of(bytes: Seq<u8>) -> Option<Seq<Seq<Seq<char>>>>;

/// Relies on csv::Reader: decodes comma-separated data with a header
/// row into rows of text fields, failing on malformed or ragged input.
#[verifier::external_body]
fn read_csv_table(bytes: &Vec<u8>) -> (r: Option<Vec<Vec<String>>>)
    ensures
        match r {
            Some(t) => csv_table_of(bytes@) == Some(t.deep_view()),
            None => csv_table_of(bytes@) is None,
        },
{
    let mut reader = csv::Reader::from_reader(&bytes[..]);
    let mut table: Vec<Vec<String>> = Vec::new();
    let headers = reader.headers().ok()?;
    table.push(headers.iter().map(|x| x.to_string()).collect());
    for rec in reader.records() {
        table.push(rec.ok()?.iter().map(|x| x.to_string()).collect());
    }
    Some(table)
}

/// The path component of a URL, as the url crate parses it; nothing for
/// a malformed URL.
pub uninterp spec fn url_path_of(url: Seq<char>) -> Option<Seq<char>>;

/// Relies on url::Url::parse and url::Url::path: extracts the path
/// component of an absolute URL.
#[verifier::external_body]
fn url_path(url: &str) -> (r: Option<String>)
    ensures
        match r {
            Some(p) => url_path_of(url@) == Some(p@),
            None => url_path_of(url@) is None,
        },
{
    match url::Url::parse(url) {
        Ok(u) => Some(u.path().to_string()),
        Err(_) => None,
    }
}

/// The timestamp hint a resource URL yields: the leftmost
/// `YYYY-MM-DD-HH-MM` stamp of its path, if the URL parses and the
/// stamp names a real date and time.
pub open spec fn spec_url_hint(url: Seq<char>) -> Option<Timestamp> {
    match url_path_of(url) {
        None => None,
        Some(p) => spec_timestamp_hint(p),
    }
}

/// Recovers the timestamp hint embedded in a resource URL's path, per
/// `spec_url_hint`.
pub fn timestamp_hint_from_url(url: &str) -> (r: Option<Timestamp>)
    ensures
        r == spec_url_hint(url@),
{
    match url_path(url) {
        Some(p) => timestamp_hint_from_text(p.as_str()),
        None => None,
    }
}

/// What decoding one downloaded resource returns, for every byte string
/// and URL: undecodable bytes are a decode failure; otherwise the rows
/// normalize under the URL's timestamp hint per
/// `spec_dataset_from_table`.
pub open spec fn spec_dataset_from_csv(bytes: Seq<u8>, url: Seq<char>) -> Result<
    DataSetView,
    Error,
> {
    match csv_table_of(bytes) {
        None => Err(Error::Csv),
        Some(tv) => spec_dataset_from_table(tv, url, spec_url_hint(url)),
    }
}

/// Decodes the bytes of one downloaded resource into a dated dataset,
/// per `spec_dataset_from_csv`. This is the whole of a fetch except the
/// transfer itself: the caller retrieves the bytes and hands them here.
pub fn dataset_from_csv(bytes: &Vec<u8>, source_url: String) -> (r: Result<DataSet, Error>)
    ensures
        match r {
            Ok(ds) => spec_dataset_from_csv(bytes@, source_url@) == Ok::<DataSetView, Error>(ds@),
            Err(e) => spec_dataset_from_csv(bytes@, source_url@) == Err::<DataSetView, Error>(e),
        },
{
    let hint = timestamp_hint_from_url(source_url.as_str());
    match read_csv_table(bytes) {
        None => Err(Error::Csv),
        Some(table) => dataset_from_table(&table, source_url, &hint),
    }
}

} // verus!
