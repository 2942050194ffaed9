//! Verified core of a command-line client for a video-hosting platform's
//! REST API. The client's workflows — per-video statistics with totals and
//! a sorted report, a subscriptions dump, channel metadata, a playlists
//! listing, and a video search within a channel — all follow the same
//! shape: resolve a channel handle, chain a few dependent lookups, walk
//! cursor-paginated listings, and aggregate what was decoded.
//!
//! This library holds every decision those workflows make, with proved
//! contracts. The driver around it performs the remote calls and the JSON
//! field mapping, and hands the decoded page contents in as plain values:
//!
//! - [`handle`] builds the channel-search query from a handle, and
//!   [`resolve`] takes the lookups' first results (or their absence) to a
//!   channel id, an uploads-playlist id, or the graceful not-found outcome;
//! - [`paginate`] follows continuation cursors page by page, collects
//!   items in arrival order, and carries both page-failure policies: fatal
//!   for the stats and playlists listings, stop-early-with-partial-results
//!   for the video search;
//! - [`counts`] and [`records`] decode per-video statistics tolerantly
//!   (absent or malformed counts become 0);
//! - [`aggregate`] folds the per-video fetch outcomes into records and
//!   running totals, skipping videos that failed to decode without
//!   aborting the run;
//! - [`sort`] reads the requested sort key and order and sorts the report
//!   stably, leaving an unrecognized request unsorted;
//! - [`errors`] names the failure taxonomy the workflows share.

pub mod aggregate;
pub mod counts;
pub mod errors;
pub mod handle;
pub mod paginate;
pub mod records;
pub mod resolve;
pub mod sort;
