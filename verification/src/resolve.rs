//! The dependent lookups at the head of every workflow.
//!
//! A handle is resolved by a channel-type search: the first result is taken
//! unconditionally — no disambiguation or scoring, a known limitation kept
//! as such — and an empty result set is the graceful `NotFound` outcome.
//! The stats workflow then needs the channel's uploads playlist, whose
//! absence from the channel's content details is fatal.

use vstd::prelude::*;

use crate::errors::ApiError;

verus! {

/// Takes the first entry of a listing, or nothing when it is empty.
pub fn first_item<T>(items: Vec<T>) -> (r: Option<T>)
    ensures
        (match r {
            Option::Some(x) => items@.len() > 0 && x == items@[0],
            Option::None => items@.len() == 0,
        }),
{
    let mut items = items;
    if items.len() == 0 {
        Option::None
    } else {
        Option::Some(items.remove(0))
    }
}

/// Resolves a channel search to the channel identifier: the first result's
/// id, or `NotFound` exactly when the search returned no result.
pub fn resolve_channel(ids: Vec<String>) -> (r: Result<String, ApiError>)
    ensures
        (match r {
            Result::Ok(id) => ids@.len() > 0 && id == ids@[0],
            Result::Err(e) => ids@.len() == 0 && e == ApiError::NotFound,
        }),
{
    match first_item(ids) {
        Option::Some(id) => Result::Ok(id),
        Option::None => Result::Err(ApiError::NotFound),
    }
}

/// Extracts the uploads-playlist identifier from the channel lookup's
/// entries (one optional identifier per returned channel record):
/// the first record's identifier, or `MissingRequiredField` exactly when
/// there is no record or the first record lacks it.
pub fn uploads_playlist_id(uploads: Vec<Option<String>>) -> (r: Result<String, ApiError>)
    ensures
        (match r {
            Result::Ok(id) => uploads@.len() > 0 && uploads@[0] == Option::Some(id),
            Result::Err(e) => {
                &&& e == ApiError::MissingRequiredField
                &&& (uploads@.len() == 0 || uploads@[0] is None)
            },
        }),
{
    match first_item(uploads) {
        Option::Some(first) => {
            match first {
                Option::Some(id) => Result::Ok(id),
                Option::None => Result::Err(ApiError::MissingRequiredField),
            }
        },
        Option::None => Result::Err(ApiError::MissingRequiredField),
    }
}

/// The titles a subscriptions listing displays: the present ones, in
/// listing order; entries without a readable title are passed over.
pub open spec fn present_values(s: Seq<Option<Seq<char>>>) -> Seq<Seq<char>>
    decreases s.len(),
{
    if s.len() == 0 {
        Seq::<Seq<char>>::empty()
    } else {
        present_values(s.drop_last()) + (match s.last() {
            Option::Some(v) => seq![v],
            Option::None => Seq::<Seq<char>>::empty(),
        })
    }
}

/// Keeps the titles that are present, in order.
pub fn present_titles(titles: Vec<Option<String>>) -> (r: Vec<String>)
    ensures
        r.deep_view() == present_values(titles.deep_view()),
{
    let ghost input = titles.deep_view();
    let mut rest = titles;
    let mut out: Vec<String> = Vec::new();
    let ghost mut i: int = 0;
    while rest.len() > 0
        invariant
            0 <= i <= input.len(),
            rest.deep_view() == input.skip(i),
            rest@.len() == input.len() - i,
            out.deep_view() == present_values(input.take(i)),
        decreases rest@.len(),
    {
        let ghost rest0 = rest@;
        let ghost rest0dv = rest.deep_view();
        let ghost out0 = out@;
        let ghost out0dv = out.deep_view();
        let t = rest.remove(0);
        proof {
            assert(t == rest0[0]);
            assert(t.deep_view() == rest0dv[0]);
            assert(t.deep_view() == input[i]);
            assert forall|k: int| 0 <= k < rest@.len() implies rest.deep_view()[k] == input.skip(
                i + 1,
            )[k] by {
                assert(rest@[k] == rest0[k + 1]);
                assert(rest0dv[k + 1] == rest0[k + 1].deep_view());
            }
            assert(rest.deep_view() =~= input.skip(i + 1));
            assert(input.take(i + 1).drop_last() =~= input.take(i));
            assert(input.take(i + 1).last() == input[i]);
        }
        match t {
            Option::Some(title) => {
                proof {
                    assert(t.deep_view() == Option::Some(title@));
                }
                out.push(title);
                proof {
                    assert forall|k: int| 0 <= k < out@.len() implies out.deep_view()[k]
                        == (present_values(input.take(i)) + seq![title@])[k] by {
                        if k < out@.len() - 1 {
                            assert(out@[k] == out0[k]);
                            assert(out0dv[k] == out0[k].deep_view());
                        } else {
                            assert(out@[k] == title);
                        }
                    }
                    assert(out.deep_view() =~= present_values(input.take(i)) + seq![title@]);
                    assert(out.deep_view() =~= present_values(input.take(i + 1)));
                }
            },
            Option::None => {
                proof {
                    assert(present_values(input.take(i)) + Seq::<Seq<char>>::empty()
                        =~= present_values(input.take(i)));
                    assert(out.deep_view() =~= present_values(input.take(i + 1)));
                }
            },
        }
        proof {
            i = i + 1;
        }
    }
    proof {
        assert(input.take(i) =~= input);
    }
    out
}

} // verus!
