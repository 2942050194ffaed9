use tubestats::aggregate::{aggregate_outcomes, StatsAccumulator, VideoFetchOutcome};
use tubestats::counts::{parse_count, parse_count_field};
use tubestats::errors::ApiError;
use tubestats::handle::normalize_handle;
use tubestats::paginate::{Page, PageFetchOutcome, Paginator};
use tubestats::records::{build_video_record, VideoFields, VideoRecord};
use tubestats::resolve::{first_item, present_titles, resolve_channel, uploads_playlist_id};
use tubestats::sort::{apply_sort, parse_sort_spec, SortDecision, SortKey, SortOrder};

fn fields(title: &str, views: Option<&str>, likes: Option<&str>) -> VideoFields {
    VideoFields {
        title: title.to_string(),
        published: "2024-01-01T00:00:00Z".to_string(),
        view_count: views.map(|s| s.to_string()),
        like_count: likes.map(|s| s.to_string()),
    }
}

fn record(title: &str, views: u64, likes: u64) -> VideoRecord {
    VideoRecord {
        title: title.to_string(),
        published: "2024-01-01T00:00:00Z".to_string(),
        views,
        likes,
    }
}

#[test]
fn normalize_prepends_at_when_missing() {
    assert_eq!(normalize_handle("exampleChannel"), "@exampleChannel");
}

#[test]
fn normalize_keeps_handle_with_at() {
    assert_eq!(normalize_handle("@exampleChannel"), "@exampleChannel");
}

#[test]
fn normalize_is_idempotent() {
    let once = normalize_handle("somebody");
    let twice = normalize_handle(&once);
    assert_eq!(once, twice);
}

#[test]
fn normalize_empty_handle() {
    assert_eq!(normalize_handle(""), "@");
}

#[test]
fn paginator_follows_cursors_and_concatenates() {
    let mut p: Paginator<String> = Paginator::new();
    assert!(!p.done);
    assert_eq!(p.cursor, None);
    let mut fetches: u32 = 0;
    let pages = vec![
        Page {
            items: vec!["a".to_string(), "b".to_string()],
            next_cursor: Some("t1".to_string()),
        },
        Page { items: vec!["c".to_string()], next_cursor: Some("t2".to_string()) },
        Page { items: vec!["d".to_string(), "e".to_string()], next_cursor: None },
    ];
    let mut pages = pages.into_iter();
    while !p.done {
        fetches += 1;
        p.feed(pages.next().expect("paginator asked for more pages than exist"));
    }
    assert_eq!(fetches, 3);
    assert_eq!(p.items, vec!["a", "b", "c", "d", "e"]);
}

#[test]
fn paginator_cursor_is_resupplied_verbatim() {
    let mut p: Paginator<u32> = Paginator::new();
    p.feed(Page { items: vec![1], next_cursor: Some("opaque-token".to_string()) });
    assert_eq!(p.cursor.as_deref(), Some("opaque-token"));
    assert!(!p.done);
    p.feed(Page { items: vec![2], next_cursor: None });
    assert!(p.done);
    assert_eq!(p.cursor, None);
}

#[test]
fn paginator_single_page_stops() {
    let mut p: Paginator<String> = Paginator::new();
    p.feed(Page { items: vec!["v1".to_string(), "v2".to_string()], next_cursor: None });
    assert!(p.done);
    assert_eq!(p.into_items(), vec!["v1", "v2"]);
}

#[test]
fn page_decode_failure_is_fatal_for_stats() {
    let mut p: Paginator<String> = Paginator::new();
    p.feed(Page { items: vec!["v1".to_string()], next_cursor: Some("t".to_string()) });
    let r = p.feed_or_abort(PageFetchOutcome::DecodeFailed);
    assert_eq!(r, Err(ApiError::DecodeFailure));
}

#[test]
fn page_decode_failure_stops_search_with_partial_results() {
    let mut p: Paginator<String> = Paginator::new();
    p.feed_or_stop(PageFetchOutcome::Decoded(Page {
        items: vec!["hit1".to_string()],
        next_cursor: Some("t".to_string()),
    }));
    assert!(!p.done);
    p.feed_or_stop(PageFetchOutcome::DecodeFailed);
    assert!(p.done);
    assert_eq!(p.into_items(), vec!["hit1"]);
}

#[test]
fn counts_parse_plain_numbers() {
    assert_eq!(parse_count("42"), 42);
    assert_eq!(parse_count("0"), 0);
    assert_eq!(parse_count("007"), 7);
    assert_eq!(parse_count("18446744073709551615"), u64::MAX);
}

#[test]
fn counts_default_to_zero_when_malformed() {
    assert_eq!(parse_count(""), 0);
    assert_eq!(parse_count("abc"), 0);
    assert_eq!(parse_count("12x"), 0);
    assert_eq!(parse_count("-5"), 0);
    assert_eq!(parse_count("18446744073709551616"), 0);
}

#[test]
fn counts_default_to_zero_when_absent() {
    assert_eq!(parse_count_field(&None), 0);
    assert_eq!(parse_count_field(&Some("9".to_string())), 9);
}

#[test]
fn video_record_defaults_absent_and_malformed_counts_to_zero() {
    let r = build_video_record(fields("t", None, None));
    assert_eq!(r.views, 0);
    assert_eq!(r.likes, 0);
    let r = build_video_record(fields("t", Some("notanumber"), Some("10")));
    assert_eq!(r.views, 0);
    assert_eq!(r.likes, 10);
    let r = build_video_record(fields("t", Some("100"), Some("")));
    assert_eq!(r.views, 100);
    assert_eq!(r.likes, 0);
}

#[test]
fn sort_by_likes_ascending() {
    let videos = vec![record("a", 0, 3), record("b", 0, 1), record("c", 0, 2)];
    let d = parse_sort_spec(&Some("likes".to_string()), &Some("asc".to_string()));
    assert_eq!(d, SortDecision::Sort(SortKey::Likes, SortOrder::Asc));
    let sorted = apply_sort(videos, d);
    let likes: Vec<u64> = sorted.iter().map(|v| v.likes).collect();
    assert_eq!(likes, vec![1, 2, 3]);
}

#[test]
fn sort_by_likes_descending() {
    let videos = vec![record("a", 0, 3), record("b", 0, 1), record("c", 0, 2)];
    let d = parse_sort_spec(&Some("likes".to_string()), &Some("desc".to_string()));
    let sorted = apply_sort(videos, d);
    let likes: Vec<u64> = sorted.iter().map(|v| v.likes).collect();
    assert_eq!(likes, vec![3, 2, 1]);
}

#[test]
fn sort_order_defaults_to_ascending() {
    let d = parse_sort_spec(&Some("views".to_string()), &None);
    assert_eq!(d, SortDecision::Sort(SortKey::Views, SortOrder::Asc));
}

#[test]
fn no_sort_key_means_no_sort() {
    let d = parse_sort_spec(&None, &Some("desc".to_string()));
    assert_eq!(d, SortDecision::NoSort);
}

#[test]
fn unknown_sort_key_leaves_order_unchanged() {
    let d = parse_sort_spec(&Some("comments".to_string()), &Some("asc".to_string()));
    assert_eq!(d, SortDecision::Unknown);
    let videos = vec![record("a", 0, 3), record("b", 0, 1), record("c", 0, 2)];
    let sorted = apply_sort(videos.clone(), d);
    assert_eq!(sorted, videos);
}

#[test]
fn unknown_sort_order_leaves_order_unchanged() {
    let d = parse_sort_spec(&Some("likes".to_string()), &Some("sideways".to_string()));
    assert_eq!(d, SortDecision::Unknown);
}

#[test]
fn sort_is_stable_on_ties() {
    let videos = vec![
        record("first", 10, 5),
        record("second", 20, 5),
        record("third", 30, 2),
    ];
    let sorted = apply_sort(videos, SortDecision::Sort(SortKey::Likes, SortOrder::Asc));
    let titles: Vec<&str> = sorted.iter().map(|v| v.title.as_str()).collect();
    assert_eq!(titles, vec!["third", "first", "second"]);
}

#[test]
fn totals_sum_over_processed_videos() {
    let outcomes = vec![
        VideoFetchOutcome::Decoded(vec![fields("a", Some("10"), Some("1"))]),
        VideoFetchOutcome::Decoded(vec![fields("b", Some("20"), Some("0"))]),
        VideoFetchOutcome::Decoded(vec![fields("c", Some("0"), Some("5"))]),
    ];
    let acc = aggregate_outcomes(outcomes);
    assert_eq!(acc.total_views, 30);
    assert_eq!(acc.total_likes, 6);
    assert_eq!(acc.processed, 3);
    let report = acc.into_report(SortDecision::Sort(SortKey::Views, SortOrder::Desc));
    assert_eq!(report.total_views, 30);
    assert_eq!(report.total_likes, 6);
    assert_eq!(report.processed, 3);
}

#[test]
fn decode_failure_skips_that_video_only() {
    let outcomes = vec![
        VideoFetchOutcome::Decoded(vec![fields("a", Some("10"), Some("1"))]),
        VideoFetchOutcome::DecodeFailed,
        VideoFetchOutcome::Decoded(vec![fields("c", Some("5"), Some("2"))]),
    ];
    let acc = aggregate_outcomes(outcomes);
    assert_eq!(acc.processed, 2);
    assert_eq!(acc.total_views, 15);
    assert_eq!(acc.total_likes, 3);
    let titles: Vec<&str> = acc.videos.iter().map(|v| v.title.as_str()).collect();
    assert_eq!(titles, vec!["a", "c"]);
}

#[test]
fn empty_video_page_skips_that_video() {
    let outcomes = vec![
        VideoFetchOutcome::Decoded(vec![]),
        VideoFetchOutcome::Decoded(vec![fields("b", Some("7"), None)]),
    ];
    let acc = aggregate_outcomes(outcomes);
    assert_eq!(acc.processed, 1);
    assert_eq!(acc.total_views, 7);
    assert_eq!(acc.total_likes, 0);
}

#[test]
fn accumulator_tracks_totals_incrementally() {
    let mut acc = StatsAccumulator::new();
    acc.record_video(record("a", 100, 10));
    acc.record_video(record("b", 50, 5));
    assert_eq!(acc.total_views, 150);
    assert_eq!(acc.total_likes, 15);
    assert_eq!(acc.processed, 2);
}

#[test]
fn resolve_takes_first_result() {
    let r = resolve_channel(vec!["C1".to_string(), "C2".to_string()]);
    assert_eq!(r, Ok("C1".to_string()));
}

#[test]
fn resolve_empty_search_is_not_found() {
    let r = resolve_channel(vec![]);
    assert_eq!(r, Err(ApiError::NotFound));
}

#[test]
fn uploads_playlist_comes_from_first_channel_record() {
    let r = uploads_playlist_id(vec![Some("UP1".to_string()), Some("UP2".to_string())]);
    assert_eq!(r, Ok("UP1".to_string()));
}

#[test]
fn missing_uploads_playlist_is_fatal() {
    assert_eq!(uploads_playlist_id(vec![]), Err(ApiError::MissingRequiredField));
    assert_eq!(uploads_playlist_id(vec![None]), Err(ApiError::MissingRequiredField));
}

#[test]
fn first_item_on_empty_and_nonempty() {
    assert_eq!(first_item::<u32>(vec![]), None);
    assert_eq!(first_item(vec![5u32, 6u32]), Some(5));
}

#[test]
fn present_titles_keeps_order_and_drops_absent() {
    let titles = vec![Some("a".to_string()), None, Some("b".to_string())];
    assert_eq!(present_titles(titles), vec!["a", "b"]);
    assert_eq!(present_titles(vec![]), Vec::<String>::new());
}

#[test]
fn transport_failure_is_its_own_error() {
    assert_ne!(ApiError::TransportFailure, ApiError::DecodeFailure);
    assert_ne!(ApiError::TransportFailure, ApiError::NotFound);
    assert_ne!(ApiError::TransportFailure, ApiError::MissingRequiredField);
}

#[test]
fn paginator_continues_past_empty_page() {
    let mut p: Paginator<String> = Paginator::new();
    p.feed(Page { items: vec![], next_cursor: Some("t1".to_string()) });
    assert!(!p.done);
    p.feed(Page { items: vec!["a".to_string()], next_cursor: None });
    assert!(p.done);
    assert_eq!(p.into_items(), vec!["a"]);
}

#[test]
fn counts_accept_long_runs_of_leading_zeros() {
    assert_eq!(parse_count("000000000000000000000000001"), 1);
}

#[test]
fn sort_by_views_ascending() {
    let videos = vec![record("a", 30, 0), record("b", 10, 0), record("c", 20, 0)];
    let sorted = apply_sort(videos, SortDecision::Sort(SortKey::Views, SortOrder::Asc));
    let views: Vec<u64> = sorted.iter().map(|v| v.views).collect();
    assert_eq!(views, vec![10, 20, 30]);
}

#[test]
fn descending_sort_keeps_tie_order_too() {
    let videos = vec![record("a", 0, 5), record("b", 0, 7), record("c", 0, 5)];
    let sorted = apply_sort(videos, SortDecision::Sort(SortKey::Likes, SortOrder::Desc));
    let titles: Vec<&str> = sorted.iter().map(|v| v.title.as_str()).collect();
    assert_eq!(titles, vec!["b", "a", "c"]);
}

#[test]
fn present_titles_all_absent() {
    assert_eq!(present_titles(vec![None, None]), Vec::<String>::new());
}

#[test]
fn uploads_playlist_decided_by_first_record_only() {
    let r = uploads_playlist_id(vec![None, Some("UP2".to_string())]);
    assert_eq!(r, Err(ApiError::MissingRequiredField));
}

#[test]
fn stats_workflow_end_to_end() {
    // Resolve the handle.
    let query = normalize_handle("exampleChannel");
    assert_eq!(query, "@exampleChannel");
    let channel_id = resolve_channel(vec!["C1".to_string()]).expect("channel");
    assert_eq!(channel_id, "C1");

    // Look up the uploads playlist.
    let playlist = uploads_playlist_id(vec![Some("UP1".to_string())]).expect("playlist");
    assert_eq!(playlist, "UP1");

    // Enumerate the playlist: one page, no continuation cursor.
    let mut p: Paginator<String> = Paginator::new();
    p.feed(Page {
        items: vec!["v1".to_string(), "v2".to_string()],
        next_cursor: None,
    });
    assert!(p.done);
    let ids = p.into_items();
    assert_eq!(ids, vec!["v1", "v2"]);

    // Fetch per-video statistics, in enumeration order.
    let outcomes = vec![
        VideoFetchOutcome::Decoded(vec![fields("v1", Some("100"), Some("10"))]),
        VideoFetchOutcome::Decoded(vec![fields("v2", Some("50"), Some("5"))]),
    ];
    let acc = aggregate_outcomes(outcomes);

    // Sort by views, descending.
    let d = parse_sort_spec(&Some("views".to_string()), &Some("desc".to_string()));
    let report = acc.into_report(d);
    let titles: Vec<&str> = report.videos.iter().map(|v| v.title.as_str()).collect();
    assert_eq!(titles, vec!["v1", "v2"]);
    assert_eq!(report.total_views, 150);
    assert_eq!(report.total_likes, 15);
    assert_eq!(report.processed, 2);
}
