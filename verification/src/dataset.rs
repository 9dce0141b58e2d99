//! A dated dataset: the normalized rows of one downloaded report.

use vstd::prelude::*;

use crate::error::Error;
use crate::record::{Row, RowView};
use crate::time::Date;

verus! {

/// The normalized rows of one report, keyed by the calendar date of the
/// first row's timestamp, together with the URL it was fetched from.
///
/// A dataset is constructed once per successful fetch and immutable
/// thereafter; one with zero rows cannot be constructed.
#[derive(Clone, Debug, PartialEq, Eq)]
pub struct DataSet {
    pub date: Date,
    pub source_url: String,
    pub rows: Vec<Row>,
}

/// The mathematical reading of a dataset.
#[verifier::ext_equal]
pub ghost struct DataSetView {
    pub date: Date,
    pub source_url: Seq<char>,
    pub rows: Seq<RowView>,
}

impl View for DataSet {
    type V = DataSetView;

    open spec fn view(&self) -> DataSetView {
        DataSetView {
            date: self.date,
            source_url: self.source_url@,
            rows: self.rows@.map_values(|r: Row| r@),
        }
    }
}

impl DataSet {
    /// Builds a dataset from the rows of one report.
    ///
    /// Fails exactly on an empty row sequence; otherwise the dataset
    /// carries the given URL and rows, dated by the first row.
    pub fn new(source_url: String, rows: Vec<Row>) -> (r: Result<DataSet, Error>)
        ensures
            rows@.len() == 0 ==> r == Err::<DataSet, Error>(Error::EmptyDataSet),
            rows@.len() > 0 ==> r == Ok::<DataSet, Error>(
                DataSet { date: rows@[0].timestamp.date, source_url, rows },
            ),
    {
        if rows.len() == 0 {
            return Err(Error::EmptyDataSet);
        }
        let date = rows[0].timestamp.date;
        Ok(DataSet { date, source_url, rows })
    }
}

} // verus!
