//! The report's sort policy.
//!
//! A requested sort names a key — likes or views — and an order — ascending
//! or descending, ascending when unspecified. Sorting is a total order on
//! the chosen numeric field and is stable: records with equal keys keep
//! their relative input order, since the field carries no secondary key.
//! When no key is requested the records stay in arrival order, and an
//! unrecognized key/order combination also leaves them unsorted — the
//! caller warns about it, it is not an error.

use vstd::prelude::*;

use crate::records::VideoRecord;

verus! {

#[derive(Clone, Copy, Debug, PartialEq, Eq, Structural)]
pub enum SortKey {
    Likes,
    Views,
}

#[derive(Clone, Copy, Debug, PartialEq, Eq, Structural)]
pub enum SortOrder {
    Asc,
    Desc,
}

/// What the requested sort strings mean: no sort requested, a recognized
/// key and order, or an unrecognized combination (to be warned about, with
/// the records left unsorted).
#[derive(Clone, Copy, Debug, PartialEq, Eq, Structural)]
pub enum SortDecision {
    NoSort,
    Sort(SortKey, SortOrder),
    Unknown,
}

/// The numeric field a key selects.
pub open spec fn sort_key_of(v: VideoRecord, key: SortKey) -> u64 {
    match key {
        SortKey::Likes => v.likes,
        SortKey::Views => v.views,
    }
}

/// Whether `a` may stand (weakly) before `b` under the chosen key and
/// order; ties hold in both directions, which is what keeps the sort
/// stable.
pub open spec fn keeps_order(a: VideoRecord, b: VideoRecord, key: SortKey, ord: SortOrder) -> bool {
    match ord {
        SortOrder::Asc => sort_key_of(a, key) <= sort_key_of(b, key),
        SortOrder::Desc => sort_key_of(a, key) >= sort_key_of(b, key),
    }
}

/// Stable insertion: `v` goes after every element it ties with or follows,
/// and before the first element that must come after it.
pub open spec fn insert_stable(
    v: VideoRecord,
    s: Seq<VideoRecord>,
    key: SortKey,
    ord: SortOrder,
) -> Seq<VideoRecord>
    decreases s.len(),
{
    if s.len() == 0 {
        seq![v]
    } else if keeps_order(s[0], v, key, ord) {
        seq![s[0]] + insert_stable(v, s.drop_first(), key, ord)
    } else {
        seq![v] + s
    }
}

/// The stable sort of a sequence: each record inserted, in input order,
/// after the records it ties with.
pub open spec fn stable_sorted(s: Seq<VideoRecord>, key: SortKey, ord: SortOrder) -> Seq<
    VideoRecord,
>
    decreases s.len(),
{
    if s.len() == 0 {
        Seq::<VideoRecord>::empty()
    } else {
        insert_stable(s.last(), stable_sorted(s.drop_last(), key, ord), key, ord)
    }
}

/// Whether adjacent records all keep the chosen order.
pub open spec fn sorted_by(s: Seq<VideoRecord>, key: SortKey, ord: SortOrder) -> bool {
    forall|i: int| 0 <= i < s.len() - 1 ==> keeps_order(#[trigger] s[i], s[i + 1], key, ord)
}

fn keeps_order_exec(a: &VideoRecord, b: &VideoRecord, key: SortKey, ord: SortOrder) -> (r: bool)
    ensures
        r == keeps_order(*a, *b, key, ord),
{
    let ka = match key {
        SortKey::Likes => a.likes,
        SortKey::Views => a.views,
    };
    let kb = match key {
        SortKey::Likes => b.likes,
        SortKey::Views => b.views,
    };
    match ord {
        SortOrder::Asc => ka <= kb,
        SortOrder::Desc => ka >= kb,
    }
}

/// Inserting at the position the scan finds is what `insert_stable` means.
proof fn lemma_insert_at(
    v: VideoRecord,
    s: Seq<VideoRecord>,
    key: SortKey,
    ord: SortOrder,
    j: int,
)
    requires
        0 <= j <= s.len(),
        forall|i: int| 0 <= i < j ==> keeps_order(#[trigger] s[i], v, key, ord),
        j < s.len() ==> !keeps_order(s[j], v, key, ord),
    ensures
        insert_stable(v, s, key, ord) == s.take(j) + seq![v] + s.skip(j),
    decreases j,
{
    if j == 0 {
        assert(insert_stable(v, s, key, ord) =~= s.take(0) + seq![v] + s.skip(0));
    } else {
        let rest = s.drop_first();
        assert forall|i: int| 0 <= i < j - 1 implies keeps_order(
            #[trigger] rest[i],
            v,
            key,
            ord,
        ) by {
            assert(rest[i] == s[i + 1]);
        }
        assert(j - 1 < rest.len() ==> rest[j - 1] == s[j]);
        lemma_insert_at(v, rest, key, ord, j - 1);
        assert(seq![s[0]] + (rest.take(j - 1) + seq![v] + rest.skip(j - 1)) =~= s.take(j)
            + seq![v] + s.skip(j));
    }
}

fn find_insert_pos(v: &VideoRecord, s: &Vec<VideoRecord>, key: SortKey, ord: SortOrder) -> (j:
    usize)
    ensures
        0 <= j <= s@.len(),
        forall|i: int| 0 <= i < j ==> keeps_order(#[trigger] s@[i], *v, key, ord),
        j < s@.len() ==> !keeps_order(s@[j as int], *v, key, ord),
{
    let n = s.len();
    let mut j: usize = 0;
    while j < n
        invariant
            0 <= j <= n,
            n == s@.len(),
            forall|i: int| 0 <= i < j ==> keeps_order(#[trigger] s@[i], *v, key, ord),
        decreases n - j,
    {
        if !keeps_order_exec(&s[j], v, key, ord) {
            return j;
        }
        j = j + 1;
    }
    j
}

fn insert_sorted(v: VideoRecord, s: Vec<VideoRecord>, key: SortKey, ord: SortOrder) -> (r: Vec<
    VideoRecord,
>)
    ensures
        r@ == insert_stable(v, s@, key, ord),
{
    let mut out = s;
    let ghost before = out@;
    let j = find_insert_pos(&v, &out, key, ord);
    proof {
        lemma_insert_at(v, before, key, ord, j as int);
    }
    out.insert(j, v);
    proof {
        assert(out@ =~= before.take(j as int) + seq![v] + before.skip(j as int));
    }
    out
}

proof fn lemma_insert_preserves_sorted(
    v: VideoRecord,
    s: Seq<VideoRecord>,
    key: SortKey,
    ord: SortOrder,
)
    requires
        sorted_by(s, key, ord),
    ensures
        sorted_by(insert_stable(v, s, key, ord), key, ord),
    decreases s.len(),
{
    let r = insert_stable(v, s, key, ord);
    if s.len() == 0 {
        assert(sorted_by(r, key, ord));
    } else if keeps_order(s[0], v, key, ord) {
        let rest = s.drop_first();
        assert forall|i: int| 0 <= i < rest.len() - 1 implies keeps_order(
            #[trigger] rest[i],
            rest[i + 1],
            key,
            ord,
        ) by {
            assert(rest[i] == s[i + 1]);
            assert(rest[i + 1] == s[i + 2]);
        }
        lemma_insert_preserves_sorted(v, rest, key, ord);
        let r2 = insert_stable(v, rest, key, ord);
        assert(r == seq![s[0]] + r2);
        assert forall|i: int| 0 <= i < r.len() - 1 implies keeps_order(
            #[trigger] r[i],
            r[i + 1],
            key,
            ord,
        ) by {
            if i == 0 {
                assert(r[1] == r2[0]);
                if rest.len() == 0 {
                    assert(r2[0] == v);
                } else if keeps_order(rest[0], v, key, ord) {
                    assert(r2[0] == rest[0]);
                    assert(rest[0] == s[1]);
                } else {
                    assert(r2[0] == v);
                }
            } else {
                assert(r[i] == r2[i - 1]);
                assert(r[i + 1] == r2[i]);
                assert(keeps_order(r2[i - 1], r2[i], key, ord));
            }
        }
    } else {
        assert(r == seq![v] + s);
        assert forall|i: int| 0 <= i < r.len() - 1 implies keeps_order(
            #[trigger] r[i],
            r[i + 1],
            key,
            ord,
        ) by {
            if i == 0 {
                assert(r[0] == v && r[1] == s[0]);
            } else {
                assert(r[i] == s[i - 1]);
                assert(r[i + 1] == s[i]);
            }
        }
    }
}

/// The sorting law: the stable sort of any record sequence keeps the
/// chosen order between every pair of adjacent records.
pub proof fn lemma_stable_sorted_is_sorted(s: Seq<VideoRecord>, key: SortKey, ord: SortOrder)
    ensures
        sorted_by(stable_sorted(s, key, ord), key, ord),
    decreases s.len(),
{
    if s.len() > 0 {
        lemma_stable_sorted_is_sorted(s.drop_last(), key, ord);
        lemma_insert_preserves_sorted(s.last(), stable_sorted(s.drop_last(), key, ord), key, ord);
    }
}

/// The subsequence of records whose sort key is exactly `k`, in order.
pub open spec fn with_key(s: Seq<VideoRecord>, key: SortKey, k: u64) -> Seq<VideoRecord>
    decreases s.len(),
{
    if s.len() == 0 {
        Seq::<VideoRecord>::empty()
    } else {
        with_key(s.drop_last(), key, k) + (if sort_key_of(s.last(), key) == k {
            seq![s.last()]
        } else {
            Seq::<VideoRecord>::empty()
        })
    }
}

proof fn lemma_with_key_prepend(x: VideoRecord, t: Seq<VideoRecord>, key: SortKey, k: u64)
    ensures
        with_key(seq![x] + t, key, k) == (if sort_key_of(x, key) == k {
            seq![x]
        } else {
            Seq::<VideoRecord>::empty()
        }) + with_key(t, key, k),
    decreases t.len(),
{
    if t.len() == 0 {
        let single = seq![x] + t;
        assert(single.len() == 1);
        assert(single.drop_last() =~= Seq::<VideoRecord>::empty());
        assert(single.last() == x);
        assert(with_key(Seq::<VideoRecord>::empty(), key, k) == Seq::<VideoRecord>::empty());
        assert(with_key(single, key, k) == with_key(single.drop_last(), key, k) + (if sort_key_of(
            x,
            key,
        ) == k {
            seq![x]
        } else {
            Seq::<VideoRecord>::empty()
        }));
        if sort_key_of(x, key) == k {
            assert(with_key(single, key, k) =~= seq![x]);
            assert(seq![x] + with_key(t, key, k) =~= seq![x]);
        } else {
            assert(with_key(single, key, k) =~= Seq::<VideoRecord>::empty());
            assert(Seq::<VideoRecord>::empty() + with_key(t, key, k) =~= Seq::<
                VideoRecord,
            >::empty());
        }
    } else {
        assert((seq![x] + t).drop_last() =~= seq![x] + t.drop_last());
        assert((seq![x] + t).last() == t.last());
        lemma_with_key_prepend(x, t.drop_last(), key, k);
        let head: Seq<VideoRecord> = if sort_key_of(x, key) == k {
            seq![x]
        } else {
            Seq::<VideoRecord>::empty()
        };
        let tail: Seq<VideoRecord> = if sort_key_of(t.last(), key) == k {
            seq![t.last()]
        } else {
            Seq::<VideoRecord>::empty()
        };
        assert((head + with_key(t.drop_last(), key, k)) + tail =~= head + (with_key(
            t.drop_last(),
            key,
            k,
        ) + tail));
    }
}

proof fn lemma_sorted_pair(s: Seq<VideoRecord>, key: SortKey, ord: SortOrder, i: int, j: int)
    requires
        sorted_by(s, key, ord),
        0 <= i <= j < s.len(),
    ensures
        keeps_order(s[i], s[j], key, ord),
    decreases j - i,
{
    if i < j {
        lemma_sorted_pair(s, key, ord, i, j - 1);
        assert(keeps_order(s[j - 1], s[j], key, ord));
    }
}

proof fn lemma_with_key_absent(s: Seq<VideoRecord>, key: SortKey, k: u64)
    requires
        forall|i: int| 0 <= i < s.len() ==> sort_key_of(#[trigger] s[i], key) != k,
    ensures
        with_key(s, key, k) == Seq::<VideoRecord>::empty(),
    decreases s.len(),
{
    if s.len() > 0 {
        assert(sort_key_of(s.last(), key) != k);
        lemma_with_key_absent(s.drop_last(), key, k);
        assert(with_key(s, key, k) =~= Seq::<VideoRecord>::empty());
    }
}

proof fn lemma_insert_with_key(
    v: VideoRecord,
    s: Seq<VideoRecord>,
    key: SortKey,
    ord: SortOrder,
    k: u64,
)
    requires
        sorted_by(s, key, ord),
    ensures
        with_key(insert_stable(v, s, key, ord), key, k) == with_key(s, key, k) + (if sort_key_of(
            v,
            key,
        ) == k {
            seq![v]
        } else {
            Seq::<VideoRecord>::empty()
        }),
    decreases s.len(),
{
    let r = insert_stable(v, s, key, ord);
    let vpart: Seq<VideoRecord> = if sort_key_of(v, key) == k {
        seq![v]
    } else {
        Seq::<VideoRecord>::empty()
    };
    if s.len() == 0 {
        lemma_with_key_prepend(v, s, key, k);
        assert(r == seq![v] + s);
        assert(vpart + with_key(s, key, k) =~= with_key(s, key, k) + vpart);
    } else if keeps_order(s[0], v, key, ord) {
        let rest = s.drop_first();
        let r2 = insert_stable(v, rest, key, ord);
        assert(r == seq![s[0]] + r2);
        assert forall|i: int| 0 <= i < rest.len() - 1 implies keeps_order(
            #[trigger] rest[i],
            rest[i + 1],
            key,
            ord,
        ) by {
            assert(rest[i] == s[i + 1]);
            assert(rest[i + 1] == s[i + 2]);
        }
        lemma_insert_with_key(v, rest, key, ord, k);
        lemma_with_key_prepend(s[0], r2, key, k);
        lemma_with_key_prepend(s[0], rest, key, k);
        assert(seq![s[0]] + rest =~= s);
        let head: Seq<VideoRecord> = if sort_key_of(s[0], key) == k {
            seq![s[0]]
        } else {
            Seq::<VideoRecord>::empty()
        };
        assert(head + (with_key(rest, key, k) + vpart) =~= (head + with_key(rest, key, k))
            + vpart);
    } else {
        // `v` goes in front: sortedness puts every key of `s` strictly on
        // the far side of `v`'s key, so no record of `s` ties with `v`.
        assert(r == seq![v] + s);
        lemma_with_key_prepend(v, s, key, k);
        if sort_key_of(v, key) == k {
            assert forall|i: int| 0 <= i < s.len() implies sort_key_of(#[trigger] s[i], key)
                != k by {
                lemma_sorted_pair(s, key, ord, 0, i);
            }
            lemma_with_key_absent(s, key, k);
            assert(vpart + with_key(s, key, k) =~= with_key(s, key, k) + vpart);
        } else {
            assert(vpart + with_key(s, key, k) =~= with_key(s, key, k) + vpart);
        }
    }
}

/// The stability law: for every key value `k`, the records whose chosen
/// sort key equals `k` stand in the stable sort exactly as they stood in
/// the input — ties preserve relative input order.
pub proof fn lemma_stable_sorted_preserves_ties(
    s: Seq<VideoRecord>,
    key: SortKey,
    ord: SortOrder,
    k: u64,
)
    ensures
        with_key(stable_sorted(s, key, ord), key, k) == with_key(s, key, k),
    decreases s.len(),
{
    if s.len() > 0 {
        let prev = stable_sorted(s.drop_last(), key, ord);
        lemma_stable_sorted_preserves_ties(s.drop_last(), key, ord, k);
        lemma_stable_sorted_is_sorted(s.drop_last(), key, ord);
        lemma_insert_with_key(s.last(), prev, key, ord, k);
    }
}

/// Sorts the records stably by the chosen key and order.
pub fn sort_videos(videos: Vec<VideoRecord>, key: SortKey, ord: SortOrder) -> (r: Vec<VideoRecord>)
    ensures
        r@ == stable_sorted(videos@, key, ord),
{
    let ghost input = videos@;
    let mut rest = videos;
    let mut out: Vec<VideoRecord> = Vec::new();
    let ghost mut i: int = 0;
    while rest.len() > 0
        invariant
            0 <= i <= input.len(),
            rest@ == input.skip(i),
            out@ == stable_sorted(input.take(i), key, ord),
        decreases rest@.len(),
    {
        let v = rest.remove(0);
        proof {
            assert(v == input[i]);
            assert(input.skip(i).skip(1) =~= input.skip(i + 1));
            assert(input.take(i + 1).drop_last() =~= input.take(i));
            assert(input.take(i + 1).last() == input[i]);
        }
        out = insert_sorted(v, out, key, ord);
        proof {
            i = i + 1;
        }
    }
    proof {
        assert(input.take(i) =~= input);
    }
    out
}

fn str_eq(a: &str, b: &str) -> (r: bool)
    ensures
        r == (a@ == b@),
{
    let sa = String::from_str(a);
    let sb = String::from_str(b);
    sa == sb
}

/// What requested sort strings mean. No key means no sort (and no warning);
/// with a key, the order defaults to ascending when unspecified, and the
/// recognized combinations are the keys `likes` and `views` with the orders
/// `asc` and `desc`; any other combination is `Unknown`.
pub open spec fn sort_decision_of(key: Option<Seq<char>>, order: Option<Seq<char>>) -> SortDecision {
    match key {
        Option::None => SortDecision::NoSort,
        Option::Some(k) => {
            let o = match order {
                Option::None => "asc"@,
                Option::Some(os) => os,
            };
            if k == "likes"@ && o == "asc"@ {
                SortDecision::Sort(SortKey::Likes, SortOrder::Asc)
            } else if k == "likes"@ && o == "desc"@ {
                SortDecision::Sort(SortKey::Likes, SortOrder::Desc)
            } else if k == "views"@ && o == "asc"@ {
                SortDecision::Sort(SortKey::Views, SortOrder::Asc)
            } else if k == "views"@ && o == "desc"@ {
                SortDecision::Sort(SortKey::Views, SortOrder::Desc)
            } else {
                SortDecision::Unknown
            }
        },
    }
}

/// Reads the requested sort key and order.
pub fn parse_sort_spec(key: &Option<String>, order: &Option<String>) -> (d: SortDecision)
    ensures
        d == sort_decision_of(key.deep_view(), order.deep_view()),
{
    match key {
        Option::None => SortDecision::NoSort,
        Option::Some(k) => {
            let k_likes = str_eq(k.as_str(), "likes");
            let k_views = str_eq(k.as_str(), "views");
            let o_asc: bool;
            let o_desc: bool;
            match order {
                Option::None => {
                    o_asc = true;
                    o_desc = false;
                },
                Option::Some(os) => {
                    o_asc = str_eq(os.as_str(), "asc");
                    o_desc = str_eq(os.as_str(), "desc");
                },
            }
            if k_likes && o_asc {
                SortDecision::Sort(SortKey::Likes, SortOrder::Asc)
            } else if k_likes && o_desc {
                SortDecision::Sort(SortKey::Likes, SortOrder::Desc)
            } else if k_views && o_asc {
                SortDecision::Sort(SortKey::Views, SortOrder::Asc)
            } else if k_views && o_desc {
                SortDecision::Sort(SortKey::Views, SortOrder::Desc)
            } else {
                SortDecision::Unknown
            }
        },
    }
}

/// The record order a sort decision produces: the stable sort for a
/// recognized request, and the arrival order unchanged both when no sort
/// was requested and when the combination was unrecognized.
pub open spec fn apply_sort_spec(s: Seq<VideoRecord>, d: SortDecision) -> Seq<VideoRecord> {
    match d {
        SortDecision::Sort(key, ord) => stable_sorted(s, key, ord),
        SortDecision::NoSort => s,
        SortDecision::Unknown => s,
    }
}

/// Applies a sort decision to the records.
pub fn apply_sort(videos: Vec<VideoRecord>, d: SortDecision) -> (r: Vec<VideoRecord>)
    ensures
        r@ == apply_sort_spec(videos@, d),
{
    match d {
        SortDecision::Sort(key, ord) => sort_videos(videos, key, ord),
        SortDecision::NoSort => videos,
        SortDecision::Unknown => videos,
    }
}

} // verus!
