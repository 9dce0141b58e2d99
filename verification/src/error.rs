//! Error taxonomy of the harvesting core.

use vstd::prelude::*;

verus! {

/// What part of an archive page could not be understood.
#[derive(Clone, Copy, Debug, PartialEq, Eq, Structural)]
pub enum ParseIssue {
    /// The listing page holds no results table.
    MissingTable,
    /// An anchor inside the results table carries no `href` attribute.
    MissingHref,
}

/// Failures of the harvesting core.
///
/// Transport failures (HTTP) are handled outside the library; everything
/// the verified logic itself can reject is listed here.
#[derive(Clone, Copy, Debug, PartialEq, Eq, Structural)]
pub enum Error {
    /// An archive listing page is malformed.
    ParseError(ParseIssue),
    /// The delimited report data could not be decoded into records.
    Csv,
    /// A URL could not be parsed or resolved against its base.
    Url,
    /// A dataset cannot be built from zero rows.
    EmptyDataSet,
    /// A record is semantically unusable (missing region key, or a
    /// malformed decimal-formatted count).
    InvalidRow,
    /// An explicit timestamp field does not match the fixed
    /// "date space time" format.
    DateTime,
    /// A numeric field does not parse as an integer in range.
    ParseInt,
    /// A record carries no timestamp field and no hint was supplied.
    MissingTimestamp,
}

} // verus!
