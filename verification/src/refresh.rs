use vstd::prelude::*;

use crate::cache::Cache;
use crate::item::{NewsItem, RawItem, SourceError};
use crate::merge::{is_merge, merge};

verus! {

/// Decide the startup cycle. A successful first fetch yields the first
/// generation — merged over an empty previous one, so every id is stamped
/// `now` — and a failed one is fatal: the error is handed back and nothing
/// may be served.
pub fn initial_generation(fetched: Result<Vec<RawItem>, SourceError>, now: u64) -> (r: Result<
    Vec<NewsItem>,
    SourceError,
>)
    ensures
        r is Ok <==> fetched is Ok,
        fetched is Ok ==> is_merge(r->Ok_0@, Seq::<NewsItem>::empty(), fetched->Ok_0@, now),
        fetched is Err ==> r->Err_0 == fetched->Err_0,
{
    match fetched {
        Result::Ok(raw) => {
            let empty: Vec<NewsItem> = Vec::new();
            Result::Ok(merge(&empty, &raw, now))
        },
        Result::Err(e) => Result::Err(e),
    }
}

/// Decide one scheduled refresh cycle over the baseline snapshot taken
/// before the fetch: a successful fetch yields the merged next generation;
/// a failed one abandons the cycle and yields the baseline itself,
/// untouched.
pub fn refreshed_generation(
    prev: Vec<NewsItem>,
    fetched: Result<Vec<RawItem>, SourceError>,
    now: u64,
) -> (r: Vec<NewsItem>)
    ensures
        fetched is Ok ==> is_merge(r@, prev@, fetched->Ok_0@, now),
        fetched is Err ==> r == prev,
{
    match fetched {
        Result::Ok(raw) => merge(&prev, &raw, now),
        Result::Err(_) => prev,
    }
}

/// Land one refresh outcome in the cache. On a successful fetch the merged
/// next generation — baselined on the installed one — is published; on a
/// failed fetch the cache is left exactly as it was, so readers keep the
/// last good generation.
pub fn apply_refresh(cache: &mut Cache, fetched: Result<Vec<RawItem>, SourceError>, now: u64)
    ensures
        fetched is Ok ==> is_merge(
            final(cache).current(),
            old(cache).current(),
            fetched->Ok_0@,
            now,
        ),
        fetched is Ok ==> final(cache).history() == old(cache).history().push(
            final(cache).current(),
        ),
        fetched is Err ==> *final(cache) == *old(cache),
{
    match fetched {
        Result::Ok(raw) => {
            let g = merge(cache.snapshot(), &raw, now);
            cache.publish(g);
        },
        Result::Err(_) => {},
    }
}

} // verus!
