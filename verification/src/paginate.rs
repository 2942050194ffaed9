//! The cursor-following paginator.
//!
//! A paginated endpoint returns pages of items, each with an optional
//! continuation cursor; the absence of the cursor is the sole termination
//! signal, and a returned cursor is re-supplied verbatim with the next
//! fetch. The caller performs the fetches and feeds each decoded page to a
//! `Paginator`, which accumulates the items in arrival order (page order,
//! then in-page order) and says when to stop.
//!
//! Two policies exist for a page that fails to decode, and they differ on
//! purpose: the stats and playlists workflows treat it as fatal
//! (`feed_or_abort`), while the video-search workflow stops pagination
//! early and keeps the partial results (`feed_or_stop`).

use vstd::prelude::*;

use crate::errors::ApiError;

verus! {

/// One decoded page: its items and the continuation cursor, if any.
pub struct Page<T> {
    pub items: Vec<T>,
    pub next_cursor: Option<String>,
}

/// What one page fetch produced: a decoded page, or a body that did not
/// decode as a page at all.
pub enum PageFetchOutcome<T> {
    Decoded(Page<T>),
    DecodeFailed,
}

/// The paginator's abstract state after a run of feeds, each feed given as
/// the page's items and whether the page carried a continuation cursor:
/// the items collected so far and whether pagination has ended.
pub open spec fn run_feeds<T>(pages: Seq<(Seq<T>, bool)>) -> (Seq<T>, bool)
    decreases pages.len(),
{
    if pages.len() == 0 {
        (Seq::<T>::empty(), false)
    } else {
        (run_feeds(pages.drop_last()).0 + pages.last().0, !pages.last().1)
    }
}

/// Accumulates the items of a cursor-paginated listing.
#[verifier::reject_recursive_types(T)]
pub struct Paginator<T> {
    /// The items collected so far, in arrival order.
    pub items: Vec<T>,
    /// The cursor to send with the next fetch; `None` before the first
    /// fetch and after the last page.
    pub cursor: Option<String>,
    /// Whether pagination has ended.
    pub done: bool,
    /// The pages fed so far: each page's items and whether it carried a
    /// continuation cursor.
    pub pages: Ghost<Seq<(Seq<T>, bool)>>,
}

impl<T> Paginator<T> {
    /// The collected items are exactly what the fed pages dictate.
    pub open spec fn wf(self) -> bool {
        &&& self.items@ == run_feeds(self.pages@).0
        &&& self.done == run_feeds(self.pages@).1
    }

    /// A fresh paginator: nothing collected, first fetch uses no cursor.
    pub fn new() -> (p: Self)
        ensures
            p.wf(),
            p.items@ == Seq::<T>::empty(),
            p.cursor is None,
            !p.done,
            p.pages@ == Seq::<(Seq<T>, bool)>::empty(),
    {
        Paginator {
            items: Vec::new(),
            cursor: Option::None,
            done: false,
            pages: Ghost(Seq::empty()),
        }
    }

    /// Absorbs one decoded page: appends its items in order, remembers its
    /// cursor verbatim for the next fetch, and ends pagination exactly when
    /// the page carries no cursor.
    pub fn feed(&mut self, page: Page<T>)
        requires
            old(self).wf(),
            !old(self).done,
        ensures
            final(self).wf(),
            final(self).items@ == old(self).items@ + page.items@,
            final(self).done == (page.next_cursor is None),
            final(self).cursor == page.next_cursor,
            final(self).pages@ == old(self).pages@.push((page.items@, page.next_cursor is Some)),
    {
        let Page { mut items, next_cursor } = page;
        let ghost entry = (items@, next_cursor is Some);
        self.items.append(&mut items);
        self.done = next_cursor.is_none();
        self.cursor = next_cursor;
        self.pages = Ghost(self.pages@.push(entry));
        proof {
            assert(self.pages@.drop_last() =~= old(self).pages@);
            assert(self.pages@.last() == entry);
        }
    }

    /// Ends pagination early, keeping the items already collected.
    pub fn stop(&mut self)
        requires
            old(self).wf(),
            !old(self).done,
        ensures
            final(self).wf(),
            final(self).items@ == old(self).items@,
            final(self).done,
            final(self).cursor == old(self).cursor,
            final(self).pages@ == old(self).pages@.push((Seq::<T>::empty(), false)),
    {
        self.done = true;
        self.pages = Ghost(self.pages@.push((Seq::empty(), false)));
        proof {
            assert(self.pages@.drop_last() =~= old(self).pages@);
            assert(old(self).items@ + Seq::<T>::empty() =~= old(self).items@);
        }
    }

    /// The stats and playlists policy: a page-level decode failure is
    /// fatal; the paginator is left as it was and the error surfaces.
    pub fn feed_or_abort(&mut self, outcome: PageFetchOutcome<T>) -> (r: Result<(), ApiError>)
        requires
            old(self).wf(),
            !old(self).done,
        ensures
            final(self).wf(),
            (match outcome {
                PageFetchOutcome::Decoded(page) => {
                    &&& r is Ok
                    &&& final(self).items@ == old(self).items@ + page.items@
                    &&& final(self).done == (page.next_cursor is None)
                    &&& final(self).cursor == page.next_cursor
                    &&& final(self).pages@ == old(self).pages@.push(
                        (page.items@, page.next_cursor is Some),
                    )
                },
                PageFetchOutcome::DecodeFailed => {
                    &&& r == Result::<(), ApiError>::Err(ApiError::DecodeFailure)
                    &&& *final(self) == *old(self)
                },
            }),
    {
        match outcome {
            PageFetchOutcome::Decoded(page) => {
                self.feed(page);
                Result::Ok(())
            },
            PageFetchOutcome::DecodeFailed => Result::Err(ApiError::DecodeFailure),
        }
    }

    /// The video-search policy: a page-level decode failure stops
    /// pagination early and the items already collected stand as the
    /// (partial) result.
    pub fn feed_or_stop(&mut self, outcome: PageFetchOutcome<T>)
        requires
            old(self).wf(),
            !old(self).done,
        ensures
            final(self).wf(),
            final(self).done <==> (match outcome {
                PageFetchOutcome::Decoded(page) => page.next_cursor is None,
                PageFetchOutcome::DecodeFailed => true,
            }),
            (match outcome {
                PageFetchOutcome::Decoded(page) => {
                    &&& final(self).items@ == old(self).items@ + page.items@
                    &&& final(self).cursor == page.next_cursor
                    &&& final(self).pages@ == old(self).pages@.push(
                        (page.items@, page.next_cursor is Some),
                    )
                },
                PageFetchOutcome::DecodeFailed => {
                    &&& final(self).items@ == old(self).items@
                    &&& final(self).cursor == old(self).cursor
                    &&& final(self).pages@ == old(self).pages@.push((Seq::<T>::empty(), false))
                },
            }),
    {
        match outcome {
            PageFetchOutcome::Decoded(page) => self.feed(page),
            PageFetchOutcome::DecodeFailed => self.stop(),
        }
    }

    /// Hands the collected items out, in arrival order.
    pub fn into_items(self) -> (v: Vec<T>)
        ensures
            v == self.items,
    {
        self.items
    }
}

/// The pagination law: over a run of N pages of which every page but the
/// last carries a continuation cursor and the last does not, the paginator
/// accepts exactly N feeds — it is unfinished before each of them and
/// finished after the last, so a driver that fetches until it is done
/// issues exactly N fetches — and what it collects is the concatenation of
/// all pages' items in arrival order.
pub proof fn lemma_paginator_run<T>(pages: Seq<(Seq<T>, bool)>)
    requires
        pages.len() > 0,
        forall|i: int| 0 <= i < pages.len() ==> ((#[trigger] pages[i].1) <==> i < pages.len() - 1),
    ensures
        forall|k: int| 0 <= k < pages.len() ==> !(#[trigger] run_feeds(pages.take(k)).1),
        run_feeds(pages).1,
        run_feeds(pages).0 == concat_items(pages),
{
    assert forall|k: int| 0 <= k < pages.len() implies !(#[trigger] run_feeds(pages.take(k)).1) by {
        let t = pages.take(k);
        if k > 0 {
            assert(t.last() == pages[k - 1]);
            assert(pages[k - 1].1);
        }
    }
    assert(pages.last() == pages[pages.len() - 1]);
    assert(!pages[pages.len() - 1].1);
    lemma_run_feeds_concat(pages);
}

/// The concatenation of the pages' items, in page order.
pub open spec fn concat_items<T>(pages: Seq<(Seq<T>, bool)>) -> Seq<T>
    decreases pages.len(),
{
    if pages.len() == 0 {
        Seq::<T>::empty()
    } else {
        concat_items(pages.drop_last()) + pages.last().0
    }
}

/// Whatever the cursor pattern, the paginator collects exactly the
/// concatenation of the fed pages' items.
pub proof fn lemma_run_feeds_concat<T>(pages: Seq<(Seq<T>, bool)>)
    ensures
        run_feeds(pages).0 == concat_items(pages),
    decreases pages.len(),
{
    if pages.len() > 0 {
        lemma_run_feeds_concat(pages.drop_last());
    }
}

} // verus!
