//! The error taxonomy of the transfer pipelines.
use vstd::prelude::*;

verus! {

/// A fatal failure of an export or import run.
///
/// Configuration problems (`InvalidTarget`, `InvalidFilter`) are detected
/// before any network call. The remaining variants report a cluster reply
/// whose shape is not the expected protocol: a page without a hit list, a
/// hit that is not a document object, a page without a scroll cursor, a
/// bulk reply without an error flag or item list, or a bulk item without
/// shard information. Item-level write failures are *not* errors of this
/// type: they are recoverable and reported as indices, see
/// [`crate::import::failed_items`].
#[derive(Clone, Copy, Debug, PartialEq, Eq, Structural)]
pub enum Error {
    /// The target descriptor has no host or a scheme other than http/https.
    InvalidTarget,
    /// The export filter is not a JSON object.
    InvalidFilter,
    /// A scroll page has no array of hits.
    MissingHits,
    /// A hit on a scroll page is not a document object.
    MalformedHit,
    /// A non-empty scroll page carries no scroll cursor.
    MissingCursor,
    /// A bulk reply has no error flag or no item array.
    MalformedBulkReply,
    /// A bulk reply item carries no failed-shard count.
    MissingShardInfo,
}

impl Error {
    /// A short human-readable description of the error.
    pub fn message(&self) -> (r: &'static str)
        ensures
            r@ == self.spec_message(),
    {
        match self {
            Error::InvalidTarget => "Invalid cluster resource provided",
            Error::InvalidFilter => "Filter must be a JSON object",
            Error::MissingHits => "unable to locate hits",
            Error::MalformedHit => "hit is not a document object",
            Error::MissingCursor => "unable to locate scroll_id",
            Error::MalformedBulkReply => "malformed bulk reply",
            Error::MissingShardInfo => "bulk item carries no shard results",
        }
    }

    /// The description returned by [`Error::message`].
    pub open spec fn spec_message(self) -> Seq<char> {
        match self {
            Error::InvalidTarget => "Invalid cluster resource provided"@,
            Error::InvalidFilter => "Filter must be a JSON object"@,
            Error::MissingHits => "unable to locate hits"@,
            Error::MalformedHit => "hit is not a document object"@,
            Error::MissingCursor => "unable to locate scroll_id"@,
            Error::MalformedBulkReply => "malformed bulk reply"@,
            Error::MissingShardInfo => "bulk item carries no shard results"@,
        }
    }
}

} // verus!
