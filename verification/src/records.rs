//! The plain data that the workflows read out of decoded pages.
//!
//! The remote pages arrive here as already-decoded field values; the types
//! below are the library's own shapes for them. Optional fields model the
//! schema tolerance rules: a field that a page may lack decodes to "not
//! present" and is given its defined default downstream.

use vstd::prelude::*;

use crate::counts::count_field_value;
use crate::counts::parse_count_field;

verus! {

/// The fields of one entry of a video-statistics page, as decoded.
/// Either count may be absent or malformed; both default to 0.
#[derive(Debug, Clone, PartialEq, Eq)]
pub struct VideoFields {
    pub title: String,
    pub published: String,
    pub view_count: Option<String>,
    pub like_count: Option<String>,
}

/// One successfully processed video, with its counts read tolerantly.
#[derive(Debug, Clone, PartialEq, Eq)]
pub struct VideoRecord {
    pub title: String,
    pub published: String,
    pub views: u64,
    pub likes: u64,
}

/// One entry of a playlists listing; only displayed, no identifier kept.
#[derive(Debug, Clone, PartialEq, Eq)]
pub struct PlaylistRecord {
    pub title: String,
    pub description: String,
}

/// One entry of a video-search listing.
#[derive(Debug, Clone, PartialEq, Eq)]
pub struct VideoSearchHit {
    pub video_id: String,
    pub title: String,
    pub description: String,
    pub published: String,
}

/// The displayed part of a channel record's snippet.
#[derive(Debug, Clone, PartialEq, Eq)]
pub struct ChannelAbout {
    pub title: String,
    pub description: String,
    pub published: String,
}

/// The displayed part of a channel record's statistics, kept as the raw
/// strings the page carries (they are rendered, never computed with).
#[derive(Debug, Clone, PartialEq, Eq)]
pub struct ChannelTallies {
    pub subscribers: String,
    pub views: String,
    pub videos: String,
}

/// One entry of a channel-metadata page; either part may be absent and is
/// then simply not rendered.
#[derive(Debug, Clone, PartialEq, Eq)]
pub struct ChannelMetaItem {
    pub about: Option<ChannelAbout>,
    pub tallies: Option<ChannelTallies>,
}

/// The record a video's decoded fields denote: the title and publication
/// date as given, and each count read tolerantly (absent or malformed
/// counts become 0).
pub open spec fn record_of_fields(f: VideoFields) -> VideoRecord {
    VideoRecord {
        title: f.title,
        published: f.published,
        views: count_field_value(f.view_count.deep_view()),
        likes: count_field_value(f.like_count.deep_view()),
    }
}

/// Builds the record for one video's decoded statistics fields.
pub fn build_video_record(f: VideoFields) -> (r: VideoRecord)
    ensures
        r == record_of_fields(f),
{
    let views = parse_count_field(&f.view_count);
    let likes = parse_count_field(&f.like_count);
    VideoRecord { title: f.title, published: f.published, views, likes }
}

} // verus!
