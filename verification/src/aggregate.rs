//! Aggregation of per-video statistics into a report.
//!
//! For each enumerated video the caller fetches one statistics page; an
//! outcome that decodes to at least one entry yields a record, while a
//! decode failure or an empty page skips that video — the skip is
//! diagnostic-only and never aborts the run, and the order of the remaining
//! videos is unaffected. Totals and the processed count are computed
//! strictly from the successfully decoded records, and sorting the report
//! afterwards cannot change them.

use vstd::prelude::*;

use crate::records::VideoFields;
use crate::records::VideoRecord;
use crate::records::build_video_record;
use crate::records::record_of_fields;
use crate::sort::SortDecision;
use crate::sort::apply_sort;
use crate::sort::apply_sort_spec;
use crate::sort::insert_stable;
use crate::sort::stable_sorted;
use crate::sort::SortKey;
use crate::sort::SortOrder;

verus! {

/// The sum of the records' view counts.
pub open spec fn total_views(s: Seq<VideoRecord>) -> int
    decreases s.len(),
{
    if s.len() == 0 {
        0
    } else {
        total_views(s.drop_last()) + s.last().views
    }
}

/// The sum of the records' like counts.
pub open spec fn total_likes(s: Seq<VideoRecord>) -> int
    decreases s.len(),
{
    if s.len() == 0 {
        0
    } else {
        total_likes(s.drop_last()) + s.last().likes
    }
}

proof fn lemma_totals_prepend(x: VideoRecord, t: Seq<VideoRecord>)
    ensures
        total_views(seq![x] + t) == x.views + total_views(t),
        total_likes(seq![x] + t) == x.likes + total_likes(t),
    decreases t.len(),
{
    if t.len() == 0 {
        let single = seq![x] + t;
        assert(single.len() == 1);
        assert(single.drop_last() =~= Seq::<VideoRecord>::empty());
        assert(single.last() == x);
        assert(total_views(Seq::<VideoRecord>::empty()) == 0);
        assert(total_views(single) == total_views(single.drop_last()) + single.last().views);
        assert(total_likes(single) == total_likes(single.drop_last()) + single.last().likes);
    } else {
        assert((seq![x] + t).len() == t.len() + 1);
        assert((seq![x] + t).drop_last() =~= seq![x] + t.drop_last());
        assert((seq![x] + t).last() == t.last());
        lemma_totals_prepend(x, t.drop_last());
        assert(total_views(seq![x] + t) == total_views(seq![x] + t.drop_last())
            + t.last().views);
        assert(total_views(t) == total_views(t.drop_last()) + t.last().views);
    }
}

proof fn lemma_insert_totals(v: VideoRecord, s: Seq<VideoRecord>, key: SortKey, ord: SortOrder)
    ensures
        total_views(insert_stable(v, s, key, ord)) == total_views(s) + v.views,
        total_likes(insert_stable(v, s, key, ord)) == total_likes(s) + v.likes,
        insert_stable(v, s, key, ord).len() == s.len() + 1,
    decreases s.len(),
{
    let r = insert_stable(v, s, key, ord);
    if s.len() == 0 {
        lemma_totals_prepend(v, s);
        assert(r == seq![v] + s);
    } else if crate::sort::keeps_order(s[0], v, key, ord) {
        let rest = s.drop_first();
        let r2 = insert_stable(v, rest, key, ord);
        assert(r == seq![s[0]] + r2);
        lemma_insert_totals(v, rest, key, ord);
        lemma_totals_prepend(s[0], r2);
        lemma_totals_prepend(s[0], rest);
        assert(seq![s[0]] + rest =~= s);
        assert(total_views(r) == s[0].views + total_views(r2));
        assert(total_views(r2) == total_views(rest) + v.views);
        assert(total_views(s) == s[0].views + total_views(rest));
        assert(total_likes(r) == s[0].likes + total_likes(r2));
        assert(total_likes(r2) == total_likes(rest) + v.likes);
        assert(total_likes(s) == s[0].likes + total_likes(rest));
    } else {
        lemma_totals_prepend(v, s);
        assert(r == seq![v] + s);
    }
}

/// The aggregation law for sorting: a stable sort permutes the records, so
/// it changes neither the totals nor the record count.
pub proof fn lemma_sort_preserves_totals(s: Seq<VideoRecord>, key: SortKey, ord: SortOrder)
    ensures
        total_views(stable_sorted(s, key, ord)) == total_views(s),
        total_likes(stable_sorted(s, key, ord)) == total_likes(s),
        stable_sorted(s, key, ord).len() == s.len(),
    decreases s.len(),
{
    if s.len() > 0 {
        lemma_sort_preserves_totals(s.drop_last(), key, ord);
        lemma_insert_totals(s.last(), stable_sorted(s.drop_last(), key, ord), key, ord);
    }
}

/// Whatever sort decision is applied — a recognized sort, none requested,
/// or an unrecognized combination left unsorted — the totals and the record
/// count of the report are those of the records in arrival order.
pub proof fn lemma_apply_sort_preserves_totals(s: Seq<VideoRecord>, d: SortDecision)
    ensures
        total_views(apply_sort_spec(s, d)) == total_views(s),
        total_likes(apply_sort_spec(s, d)) == total_likes(s),
        apply_sort_spec(s, d).len() == s.len(),
{
    match d {
        SortDecision::Sort(key, ord) => lemma_sort_preserves_totals(s, key, ord),
        SortDecision::NoSort => {},
        SortDecision::Unknown => {},
    }
}

/// What one per-video statistics fetch produced: the page's decoded
/// entries, or a body that did not decode.
pub enum VideoFetchOutcome {
    Decoded(Vec<VideoFields>),
    DecodeFailed,
}

/// The record an outcome contributes: the first decoded entry's record, and
/// nothing for an empty page or a decode failure (that video is skipped).
pub open spec fn outcome_record(o: VideoFetchOutcome) -> Option<VideoRecord> {
    match o {
        VideoFetchOutcome::Decoded(items) => {
            if items@.len() == 0 {
                Option::None
            } else {
                Option::Some(record_of_fields(items@[0]))
            }
        },
        VideoFetchOutcome::DecodeFailed => Option::None,
    }
}

/// The records a run of outcomes contributes, in fetch order; skipped
/// videos contribute nothing and leave the order of the rest unaffected.
pub open spec fn records_of(os: Seq<VideoFetchOutcome>) -> Seq<VideoRecord>
    decreases os.len(),
{
    if os.len() == 0 {
        Seq::<VideoRecord>::empty()
    } else {
        records_of(os.drop_last()) + (match outcome_record(os.last()) {
            Option::Some(r) => seq![r],
            Option::None => Seq::<VideoRecord>::empty(),
        })
    }
}

/// Turns one fetch outcome into its record, or `None` when the video is to
/// be skipped.
pub fn video_outcome_record(o: VideoFetchOutcome) -> (r: Option<VideoRecord>)
    ensures
        r == outcome_record(o),
{
    match o {
        VideoFetchOutcome::Decoded(mut items) => {
            if items.len() == 0 {
                Option::None
            } else {
                let f = items.remove(0);
                Option::Some(build_video_record(f))
            }
        },
        VideoFetchOutcome::DecodeFailed => Option::None,
    }
}

/// The stats workflow's running state: the records kept so far and their
/// running totals, which always agree with the records.
pub struct StatsAccumulator {
    pub videos: Vec<VideoRecord>,
    pub total_views: u64,
    pub total_likes: u64,
    pub processed: u64,
}

impl StatsAccumulator {
    /// The running totals are exactly the sums over the kept records, and
    /// the processed count is exactly how many records were kept.
    pub open spec fn wf(self) -> bool {
        &&& self.total_views == total_views(self.videos@)
        &&& self.total_likes == total_likes(self.videos@)
        &&& self.processed == self.videos@.len()
    }

    pub fn new() -> (a: Self)
        ensures
            a.wf(),
            a.videos@ == Seq::<VideoRecord>::empty(),
            a.total_views == 0,
            a.total_likes == 0,
            a.processed == 0,
    {
        StatsAccumulator { videos: Vec::new(), total_views: 0, total_likes: 0, processed: 0 }
    }

    /// Keeps one successfully decoded video: appends its record and adds
    /// its counts to the running totals.
    pub fn record_video(&mut self, r: VideoRecord)
        requires
            old(self).wf(),
            old(self).total_views + r.views <= u64::MAX,
            old(self).total_likes + r.likes <= u64::MAX,
            old(self).processed < u64::MAX,
        ensures
            final(self).wf(),
            final(self).videos@ == old(self).videos@.push(r),
            final(self).total_views == old(self).total_views + r.views,
            final(self).total_likes == old(self).total_likes + r.likes,
            final(self).processed == old(self).processed + 1,
    {
        proof {
            assert(old(self).videos@.push(r).drop_last() =~= old(self).videos@);
        }
        self.total_views = self.total_views + r.views;
        self.total_likes = self.total_likes + r.likes;
        self.processed = self.processed + 1;
        self.videos.push(r);
    }
}

proof fn lemma_records_len(os: Seq<VideoFetchOutcome>)
    ensures
        records_of(os).len() <= os.len(),
    decreases os.len(),
{
    if os.len() > 0 {
        lemma_records_len(os.drop_last());
    }
}

/// The totals over any prefix of the outcomes never exceed the totals over
/// all of them: each outcome contributes a non-negative amount.
proof fn lemma_records_prefix_totals(os: Seq<VideoFetchOutcome>, i: int)
    requires
        0 <= i <= os.len(),
    ensures
        total_views(records_of(os.take(i))) <= total_views(records_of(os)),
        total_likes(records_of(os.take(i))) <= total_likes(records_of(os)),
    decreases os.len() - i,
{
    if i < os.len() {
        let t = os.take(i + 1);
        assert(t.drop_last() =~= os.take(i));
        assert(t.last() == os[i]);
        match outcome_record(os[i]) {
            Option::Some(r) => {
                let rs = records_of(os.take(i)) + seq![r];
                assert(rs.drop_last() =~= records_of(os.take(i)));
                assert(rs.last() == r);
            },
            Option::None => {
                assert(records_of(os.take(i)) + Seq::<VideoRecord>::empty() =~= records_of(
                    os.take(i),
                ));
            },
        }
        lemma_records_prefix_totals(os, i + 1);
    } else {
        assert(os.take(i) =~= os);
    }
}

/// Folds a run of per-video fetch outcomes into an accumulator: each
/// decodable outcome is kept, every other one is skipped, and the run never
/// aborts. The totals over the kept records must fit the counters.
pub fn aggregate_outcomes(outcomes: Vec<VideoFetchOutcome>) -> (acc: StatsAccumulator)
    requires
        total_views(records_of(outcomes@)) <= u64::MAX,
        total_likes(records_of(outcomes@)) <= u64::MAX,
    ensures
        acc.wf(),
        acc.videos@ == records_of(outcomes@),
{
    let ghost input = outcomes@;
    let n = outcomes.len();
    proof {
        assert(input.len() == n);
    }
    let mut rest = outcomes;
    let mut acc = StatsAccumulator::new();
    let ghost mut i: int = 0;
    while rest.len() > 0
        invariant
            0 <= i <= input.len(),
            input.len() <= usize::MAX,
            rest@ == input.skip(i),
            acc.wf(),
            acc.videos@ == records_of(input.take(i)),
            total_views(records_of(input)) <= u64::MAX,
            total_likes(records_of(input)) <= u64::MAX,
        decreases rest@.len(),
    {
        let o = rest.remove(0);
        proof {
            assert(o == input[i]);
            assert(input.skip(i).skip(1) =~= input.skip(i + 1));
            assert(input.take(i + 1).drop_last() =~= input.take(i));
            assert(input.take(i + 1).last() == input[i]);
            lemma_records_prefix_totals(input, i + 1);
            lemma_records_len(input.take(i));
            assert(records_of(input.take(i)).len() <= i);
        }
        match video_outcome_record(o) {
            Option::Some(r) => {
                proof {
                    let rs = records_of(input.take(i)) + seq![r];
                    assert(rs.drop_last() =~= records_of(input.take(i)));
                    assert(rs.last() == r);
                }
                acc.record_video(r);
            },
            Option::None => {
                proof {
                    assert(records_of(input.take(i)) + Seq::<VideoRecord>::empty() =~= records_of(
                        input.take(i),
                    ));
                }
            },
        }
        proof {
            i = i + 1;
        }
    }
    proof {
        assert(input.take(i) =~= input);
    }
    acc
}

/// The finished report: the records in their final order and the totals,
/// which sorting has provably not changed.
pub struct AggregateReport {
    pub videos: Vec<VideoRecord>,
    pub total_views: u64,
    pub total_likes: u64,
    pub processed: u64,
}

impl StatsAccumulator {
    /// Closes the accumulator into a report, applying the sort decision to
    /// the records; the totals and the processed count are those of the
    /// records as collected, and equally of the sorted report.
    pub fn into_report(self, d: SortDecision) -> (r: AggregateReport)
        requires
            self.wf(),
        ensures
            r.videos@ == apply_sort_spec(self.videos@, d),
            r.total_views == total_views(self.videos@),
            r.total_likes == total_likes(self.videos@),
            r.processed == self.videos@.len(),
            r.total_views == total_views(r.videos@),
            r.total_likes == total_likes(r.videos@),
            r.processed == r.videos@.len(),
    {
        proof {
            lemma_apply_sort_preserves_totals(self.videos@, d);
        }
        let StatsAccumulator { videos, total_views: tv, total_likes: tl, processed } = self;
        let sorted = apply_sort(videos, d);
        AggregateReport { videos: sorted, total_views: tv, total_likes: tl, processed }
    }
}

} // verus!
