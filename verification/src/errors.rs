//! Error taxonomy of the client's workflows.
//!
//! `NotFound` is a graceful, user-facing outcome (an empty search or lookup
//! result); `MissingRequiredField` and a page-level `DecodeFailure` abort a
//! workflow; `TransportFailure` stands for a failed remote call and is
//! likewise fatal. Item-level decode failures are not errors at all: the
//! affected item is skipped (see the aggregation functions).

use vstd::prelude::*;

verus! {

#[derive(Clone, Copy, Debug, PartialEq, Eq, Structural)]
pub enum ApiError {
    /// A search or lookup returned no result; the workflow ends gracefully.
    NotFound,
    /// A required field (such as a channel's uploads playlist) was absent.
    MissingRequiredField,
    /// A whole listing page could not be decoded.
    DecodeFailure,
    /// The remote call itself failed.
    TransportFailure,
}

} // verus!
