//! Error kinds of acquisition and persistence.
use vstd::prelude::*;

verus! {

/// Why acquiring a timetable failed.
#[derive(Clone, Debug, PartialEq, Eq)]
pub enum RozkladParseError {
    /// The request could not be made or its body not read.
    RequestFailed { description: String },
    /// An expected element or attribute is missing from a page.
    HtmlParseFailed { description: String },
    /// The primary site answered with a failure status.
    RozkladErrored,
    /// The fallback API answered with a failure status.
    RozkladApiErrored,
    /// The redirect after the group form names no group identifier.
    FailedToParseGroupId,
    /// A numeric field does not hold a usable number.
    RozkladParseError,
}

/// Why reading or writing the schedule cache failed.
#[derive(Clone, Copy, Debug, PartialEq, Eq, Structural)]
pub enum PersistenceError {
    FailedToSave,
    FailedToLoad,
}

/// A failed query against the relational store.
#[derive(Clone, Debug, PartialEq, Eq)]
pub enum DatabaseError {
    QueryFailed(String),
}

} // verus!
