use vstd::prelude::*;

use crate::item::NewsItem;

verus! {

/// The shared refreshable cache: it holds the currently installed
/// generation, replaced only wholesale by `publish` and read only whole by
/// `snapshot`. A generation is never edited in place, so a reader holding a
/// snapshot can never observe a partial update. The ghost `gens` field
/// records every generation ever installed, in publish order; the installed
/// one is always the last of them. The surrounding program gives the single
/// refresher exclusive write access and serializes `publish` with each
/// `snapshot` under a short-held lock, never held across network I/O.
pub struct Cache {
    items: Vec<NewsItem>,
    gens: Ghost<Seq<Seq<NewsItem>>>,
}

impl Cache {
    /// Every generation ever installed, in publish order.
    pub closed spec fn history(&self) -> Seq<Seq<NewsItem>> {
        self.gens@
    }

    /// The generation currently installed.
    pub closed spec fn current(&self) -> Seq<NewsItem> {
        self.items@
    }

    #[verifier::type_invariant]
    spec fn inv(&self) -> bool {
        self.gens@.len() > 0 && self.items@ == self.gens@.last()
    }

    /// Build the cache around its first generation; serving must not start
    /// before this has happened.
    pub fn new(first: Vec<NewsItem>) -> (c: Cache)
        ensures
            c.current() == first@,
            c.history() == seq![first@],
    {
        let ghost firstv = first@;
        let ghost h: Seq<Seq<NewsItem>> = seq![firstv];
        Cache { items: first, gens: Ghost(h) }
    }

    /// Atomically replace the installed generation, wholesale: the new one
    /// is appended to the history and is what every later snapshot sees.
    pub fn publish(&mut self, g: Vec<NewsItem>)
        ensures
            final(self).current() == g@,
            final(self).history() == old(self).history().push(g@),
    {
        proof {
            use_type_invariant(&*self);
        }
        let ghost h = self.gens@;
        let ghost gv = g@;
        *self = Cache { items: g, gens: Ghost(h.push(gv)) };
    }

    /// The installed generation, whole and by reference: constant time, no
    /// copy, nothing to block on. What is returned is always the latest
    /// published generation, entire — never part of one.
    pub fn snapshot(&self) -> (r: &Vec<NewsItem>)
        ensures
            r@ == self.current(),
            self.history().len() > 0,
            self.current() == self.history().last(),
    {
        proof {
            use_type_invariant(self);
        }
        &self.items
    }
}

/// Snapshot atomicity: around one publish, each snapshot observes a whole
/// generation. With `h` the history before the publish of `fresh`, a
/// snapshot returns the last entry of `h` when taken before the publish and
/// the last entry of `h.push(fresh)` when taken after; either way the
/// observation agrees item for item with one of the two generations —
/// never with a mixture of both.
pub proof fn lemma_snapshot_atomicity(
    h: Seq<Seq<NewsItem>>,
    fresh: Seq<NewsItem>,
    observed: Seq<NewsItem>,
)
    requires
        h.len() > 0,
        observed == h.last() || observed == h.push(fresh).last(),
    ensures
        (observed.len() == h.last().len() && (forall|i: int|
            0 <= i < observed.len() ==> observed[i] == h.last()[i])) || (observed.len()
            == fresh.len() && (forall|i: int|
            0 <= i < observed.len() ==> observed[i] == fresh[i])),
{
}

} // verus!
