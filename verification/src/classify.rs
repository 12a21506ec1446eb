use vstd::prelude::*;

use crate::item::{HOTSCORE, NewsItem};

verus! {

/// The class text for one item: "hot" exactly when the score reaches
/// `HOTSCORE`; and, only when a last-visit marker is known, "old" when the
/// item was first seen before that visit, else "new" — appended after a
/// separating space when "hot" is already there. With no marker, no
/// old/new class is given at all.
pub open spec fn spec_classes(score: u32, seen: u64, last: Option<u64>) -> Seq<char> {
    let hot = if score >= HOTSCORE {
        "hot"@
    } else {
        ""@
    };
    match last {
        Option::None => hot,
        Option::Some(l) => {
            let sep = if hot.len() > 0 {
                " "@
            } else {
                ""@
            };
            let nov = if seen < l {
                "old"@
            } else {
                "new"@
            };
            hot + sep + nov
        },
    }
}

/// Classify one item against an optional last-visit marker (seconds since
/// the epoch), yielding its class text.
pub fn get_classes(news_item: &NewsItem, seen: &Option<u64>) -> (r: String)
    ensures
        r@ == spec_classes(news_item.score, news_item.seen, *seen),
{
    proof {
        reveal_strlit("hot");
        reveal_strlit("");
        reveal_strlit(" ");
        reveal_strlit("old");
        reveal_strlit("new");
    }
    let mut class_string = String::new();
    if news_item.score >= HOTSCORE {
        class_string.append("hot");
    }
    match seen {
        Option::None => {},
        Option::Some(s) => {
            if !class_string.as_str().is_empty() {
                class_string.append(" ");
            }
            if news_item.seen < *s {
                class_string.append("old");
            } else {
                class_string.append("new");
            }
        },
    }
    assert(class_string@ =~= spec_classes(news_item.score, news_item.seen, *seen));
    class_string
}

/// Classification determinism: for one snapshot entry and one last-visit
/// marker, any two classification results are the same text — the class of
/// an item depends on nothing but its score, its first-seen time and the
/// marker.
pub proof fn lemma_classification_deterministic(
    score: u32,
    seen: u64,
    last: Option<u64>,
    r1: Seq<char>,
    r2: Seq<char>,
)
    requires
        r1 == spec_classes(score, seen, last),
        r2 == spec_classes(score, seen, last),
    ensures
        r1 == r2,
{
}

/// Classify every item of a snapshot against one last-visit marker, in the
/// snapshot's rank order.
pub fn render_classes(items: &Vec<NewsItem>, seen: &Option<u64>) -> (r: Vec<String>)
    ensures
        r@.len() == items@.len(),
        forall|i: int|
            0 <= i < r@.len() ==> r@[i]@ == spec_classes(items@[i].score, items@[i].seen, *seen),
{
    let mut out: Vec<String> = Vec::new();
    let mut i: usize = 0;
    while i < items.len()
        invariant
            i <= items@.len(),
            out@.len() == i,
            forall|k: int|
                0 <= k < i ==> out@[k]@ == spec_classes(items@[k].score, items@[k].seen, *seen),
        decreases items@.len() - i,
    {
        let c = get_classes(&items[i], seen);
        out.push(c);
        i = i + 1;
    }
    out
}

} // verus!
