use vstd::prelude::*;

verus! {

/// Rank cap: a generation never holds more items than this.
pub const NEWSITEMS: usize = 30;

/// Score at and above which an item is classified as hot.
pub const HOTSCORE: u32 = 250;

/// One ranked news item as served to readers.
///
/// `seen` is the wall-clock second (since the epoch) at which this id was
/// first observed by this process; it is carried forward across refreshes
/// and never reset while the id stays in the list.
#[derive(Clone, Debug)]
pub struct NewsItem {
    pub id: u32,
    pub title: String,
    pub url: Option<String>,
    pub score: u32,
    pub seen: u64,
}

/// One freshly fetched item, before first-seen stamping.
#[derive(Clone, Debug)]
pub struct RawItem {
    pub id: u32,
    pub title: String,
    pub url: Option<String>,
    pub score: u32,
}

/// Why a fetch-and-parse cycle failed.
#[derive(Clone, Copy, Debug, PartialEq, Eq, Structural)]
pub enum SourceError {
    /// Transport failure reaching the item source.
    Fetch,
    /// Payload missing a required field, or of the wrong shape.
    Parse,
}

/// Two optional titles/links hold the same text.
pub open spec fn opt_string_eq(a: Option<String>, b: Option<String>) -> bool {
    match (a, b) {
        (Option::None, Option::None) => true,
        (Option::Some(x), Option::Some(y)) => x@ == y@,
        _ => false,
    }
}

/// Two items agree field by field (titles and links by their text).
pub open spec fn item_eq(a: NewsItem, b: NewsItem) -> bool {
    &&& a.id == b.id
    &&& a.title@ == b.title@
    &&& opt_string_eq(a.url, b.url)
    &&& a.score == b.score
    &&& a.seen == b.seen
}

/// Some item of the generation carries this id.
pub open spec fn has_id(g: Seq<NewsItem>, id: u32) -> bool {
    exists|i: int| 0 <= i < g.len() && g[i].id == id
}

/// No two items of the generation share an id.
pub open spec fn unique_ids(g: Seq<NewsItem>) -> bool {
    forall|i: int, j: int| 0 <= i < j < g.len() ==> g[i].id != g[j].id
}

} // verus!
