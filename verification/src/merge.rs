use vstd::prelude::*;

use crate::item::{NewsItem, RawItem, opt_string_eq, item_eq, has_id, unique_ids};

verus! {

/// The first-seen timestamp the merge gives an id: the timestamp recorded
/// for that id in the previous generation (the last occurrence, were there
/// ever several), or the fetch time `now` when the id is new.
pub open spec fn seen_for(prev: Seq<NewsItem>, id: u32, now: u64) -> u64
    decreases prev.len(),
{
    if prev.len() == 0 {
        now
    } else if prev.last().id == id {
        prev.last().seen
    } else {
        seen_for(prev.drop_last(), id, now)
    }
}

/// `m` is the raw item `raw` stamped for a merge over `prev` at time `now`.
pub open spec fn merged_item(m: NewsItem, raw: RawItem, prev: Seq<NewsItem>, now: u64) -> bool {
    &&& m.id == raw.id
    &&& m.title@ == raw.title@
    &&& opt_string_eq(m.url, raw.url)
    &&& m.score == raw.score
    &&& m.seen == seen_for(prev, raw.id, now)
}

/// `r` is exactly the merge of `fetched` over `prev` at time `now`:
/// membership, order, titles, links and scores come from the fetch alone,
/// and each first-seen timestamp is carried forward or freshly stamped.
pub open spec fn is_merge(r: Seq<NewsItem>, prev: Seq<NewsItem>, fetched: Seq<RawItem>, now: u64) -> bool {
    &&& r.len() == fetched.len()
    &&& forall|i: int| 0 <= i < r.len() ==> merged_item(r[i], fetched[i], prev, now)
}

/// When an id is present in the previous generation (whose ids are
/// unique), `seen_for` yields that id's recorded timestamp.
proof fn lemma_seen_for_present(prev: Seq<NewsItem>, id: u32, now: u64, j: int)
    requires
        unique_ids(prev),
        0 <= j < prev.len(),
        prev[j].id == id,
    ensures
        seen_for(prev, id, now) == prev[j].seen,
    decreases prev.len(),
{
    if prev.last().id == id {
        assert(j == prev.len() - 1);
    } else {
        assert(j < prev.len() - 1);
        assert(prev.drop_last()[j] == prev[j]);
        lemma_seen_for_present(prev.drop_last(), id, now, j);
    }
}

/// An id absent from the previous generation gets the fetch time from
/// `seen_for`.
proof fn lemma_seen_for_absent(prev: Seq<NewsItem>, id: u32, now: u64)
    requires
        !has_id(prev, id),
    ensures
        seen_for(prev, id, now) == now,
    decreases prev.len(),
{
    if prev.len() > 0 {
        assert(prev.last() == prev[prev.len() - 1]);
        assert(forall|i: int| 0 <= i < prev.len() - 1 ==> prev.drop_last()[i] == prev[i]);
        lemma_seen_for_absent(prev.drop_last(), id, now);
    }
}

/// Timestamp preservation: an id present both in the previous generation
/// (whose ids are unique) and in the fetch keeps its first-seen timestamp,
/// unchanged, in the merged generation.
pub proof fn lemma_merge_preserves_timestamp(
    r: Seq<NewsItem>,
    prev: Seq<NewsItem>,
    fetched: Seq<RawItem>,
    now: u64,
    j: int,
    k: int,
)
    requires
        is_merge(r, prev, fetched, now),
        unique_ids(prev),
        0 <= j < prev.len(),
        0 <= k < fetched.len(),
        prev[j].id == fetched[k].id,
    ensures
        r[k].seen == prev[j].seen,
{
    lemma_seen_for_present(prev, fetched[k].id, now, j);
    assert(merged_item(r[k], fetched[k], prev, now));
}

/// New-id stamping: an id in the fetch but absent from the previous
/// generation is stamped with the fetch time in the merged generation.
pub proof fn lemma_merge_stamps_new_id(
    r: Seq<NewsItem>,
    prev: Seq<NewsItem>,
    fetched: Seq<RawItem>,
    now: u64,
    k: int,
)
    requires
        is_merge(r, prev, fetched, now),
        0 <= k < fetched.len(),
        !has_id(prev, fetched[k].id),
    ensures
        r[k].seen == now,
{
    lemma_seen_for_absent(prev, fetched[k].id, now);
    assert(merged_item(r[k], fetched[k], prev, now));
}

/// Dropped-id law: an id absent from the raw fetch does not appear in the
/// merged generation, whatever the previous generation held for it.
pub proof fn lemma_merge_drops_absent_id(
    r: Seq<NewsItem>,
    prev: Seq<NewsItem>,
    fetched: Seq<RawItem>,
    now: u64,
    id: u32,
)
    requires
        is_merge(r, prev, fetched, now),
        forall|k: int| 0 <= k < fetched.len() ==> fetched[k].id != id,
    ensures
        !has_id(r, id),
{
    assert forall|i: int| 0 <= i < r.len() implies r[i].id != id by {
        assert(merged_item(r[i], fetched[i], prev, now));
    }
}

/// A merge preserves the generation invariant that ids are unique: when
/// the fetched ids are pairwise distinct, so are the merged generation's.
pub proof fn lemma_merge_unique_ids(
    r: Seq<NewsItem>,
    prev: Seq<NewsItem>,
    fetched: Seq<RawItem>,
    now: u64,
)
    requires
        is_merge(r, prev, fetched, now),
        forall|i: int, j: int| 0 <= i < j < fetched.len() ==> fetched[i].id != fetched[j].id,
    ensures
        unique_ids(r),
{
    assert forall|i: int, j: int| 0 <= i < j < r.len() implies r[i].id != r[j].id by {
        assert(merged_item(r[i], fetched[i], prev, now));
        assert(merged_item(r[j], fetched[j], prev, now));
    }
}

/// Merge determinism: two merges of the same fetch over the same previous
/// generation at the same time agree item for item — the merge is a pure
/// function of `(prev, fetched, now)`.
pub proof fn lemma_merge_deterministic(
    r1: Seq<NewsItem>,
    r2: Seq<NewsItem>,
    prev: Seq<NewsItem>,
    fetched: Seq<RawItem>,
    now: u64,
)
    requires
        is_merge(r1, prev, fetched, now),
        is_merge(r2, prev, fetched, now),
    ensures
        r1.len() == r2.len(),
        forall|i: int| 0 <= i < r1.len() ==> item_eq(r1[i], r2[i]),
{
    assert forall|i: int| 0 <= i < r1.len() implies item_eq(r1[i], r2[i]) by {
        assert(merged_item(r1[i], fetched[i], prev, now));
        assert(merged_item(r2[i], fetched[i], prev, now));
    }
}

/// The executable search behind `seen_for`: scan the previous generation
/// and keep the timestamp of the last item carrying `id`, or `now`.
fn lookup_seen(prev: &Vec<NewsItem>, id: u32, now: u64) -> (r: u64)
    ensures
        r == seen_for(prev@, id, now),
{
    let mut r: u64 = now;
    let mut k: usize = 0;
    while k < prev.len()
        invariant
            k <= prev@.len(),
            r == seen_for(prev@.take(k as int), id, now),
        decreases prev@.len() - k,
    {
        let ghost pre = prev@.take(k as int);
        let ghost post = prev@.take(k as int + 1);
        assert(post.last() == prev@[k as int]);
        assert(post.drop_last() =~= pre);
        if prev[k].id == id {
            r = prev[k].seen;
        }
        k = k + 1;
    }
    assert(prev@.take(prev@.len() as int) =~= prev@);
    r
}

/// Duplicate an optional link, text for text.
fn clone_opt_string(o: &Option<String>) -> (r: Option<String>)
    ensures
        opt_string_eq(r, *o),
{
    match o {
        Option::None => Option::None,
        Option::Some(s) => Option::Some(s.clone()),
    }
}

/// Merge a fresh fetch with the previous generation: the result copies the
/// fetch's membership, order, titles, links and scores, while each item's
/// first-seen timestamp is the previous generation's for its id, or `now`.
pub fn merge(prev: &Vec<NewsItem>, fetched: &Vec<RawItem>, now: u64) -> (r: Vec<NewsItem>)
    ensures
        is_merge(r@, prev@, fetched@, now),
{
    let mut out: Vec<NewsItem> = Vec::new();
    let mut i: usize = 0;
    while i < fetched.len()
        invariant
            i <= fetched@.len(),
            out@.len() == i,
            forall|k: int| 0 <= k < i ==> merged_item(out@[k], fetched@[k], prev@, now),
        decreases fetched@.len() - i,
    {
        let raw = &fetched[i];
        let seen = lookup_seen(prev, raw.id, now);
        let item = NewsItem {
            id: raw.id,
            title: raw.title.clone(),
            url: clone_opt_string(&raw.url),
            score: raw.score,
            seen,
        };
        out.push(item);
        i = i + 1;
    }
    out
}

} // verus!
