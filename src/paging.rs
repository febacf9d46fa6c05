use vstd::prelude::*;
use crate::model::{MirrorRecord, StarredRepo, has_star, names_unique};
use crate::reconcile::{find_star, is_first_star};

verus! {

/// What to do after a page of stars came in.
#[derive(Clone, Copy, Debug, PartialEq, Eq, Structural)]
pub enum PageStep {
    /// Ask for this page next.
    Fetch(u8),
    /// An empty page came in: the collection is complete.
    Done,
    /// The page counter ran out before the pages did.
    TooManyPages,
}

/// Collects the pages of stars, numbered from 1, until an empty page comes.
pub struct StarPager {
    pub stars: Vec<StarredRepo>,
    pub page: u8,
}

impl StarPager {
    pub fn new() -> (r: StarPager)
        ensures
            r.stars@ == Seq::<StarredRepo>::empty(),
            r.page == 1,
    {
        StarPager { stars: Vec::new(), page: 1 }
    }

    /// Takes in the page numbered `self.page` and says what comes next.
    pub fn on_page(&mut self, items: Vec<StarredRepo>) -> (r: PageStep)
        ensures
            items@.len() == 0 ==> r == PageStep::Done && *final(self) == *old(self),
            items@.len() > 0 ==> final(self).stars@ == old(self).stars@ + items@,
            items@.len() > 0 && old(self).page < u8::MAX ==> r == PageStep::Fetch((old(self).page + 1) as u8)
                && final(self).page == old(self).page + 1,
            items@.len() > 0 && old(self).page == u8::MAX ==> r == PageStep::TooManyPages
                && final(self).page == old(self).page,
    {
        if items.len() == 0 {
            return PageStep::Done;
        }
        let mut items = items;
        self.stars.append(&mut items);
        if self.page == u8::MAX {
            PageStep::TooManyPages
        } else {
            self.page = self.page + 1;
            PageStep::Fetch(self.page)
        }
    }

    /// The collected stars, one per name.
    pub fn finish(self) -> (r: Vec<StarredRepo>)
        ensures
            dedup_of(r@, self.stars@),
    {
        dedup_by_name(&self.stars)
    }
}

/// `out` holds exactly the first star of each name in `stars`, once each.
pub open spec fn dedup_of(out: Seq<StarredRepo>, stars: Seq<StarredRepo>) -> bool {
    &&& names_unique(out)
    &&& forall|a: int|
        #![trigger out[a]]
        0 <= a < out.len() ==> exists|i: int| is_first_star(stars, i, out[a].name@) && out[a] == stars[i]
    &&& forall|i: int|
        0 <= i < stars.len() && #[trigger] is_first_star(stars, i, stars[i].name@) ==> exists|a: int|
            0 <= a < out.len() && out[a] == stars[i]
}

/// Drops every star whose name an earlier star already carries.
#[verifier::rlimit(40)]
pub fn dedup_by_name(stars: &Vec<StarredRepo>) -> (r: Vec<StarredRepo>)
    ensures
        dedup_of(r@, stars@),
{
    let mut out: Vec<StarredRepo> = Vec::new();
    let mut i: usize = 0;
    while i < stars.len()
        invariant
            i <= stars@.len(),
            names_unique(out@),
            forall|a: int|
                #![trigger out@[a]]
                0 <= a < out@.len() ==> exists|x: int|
                    0 <= x < i && is_first_star(stars@, x, out@[a].name@) && out@[a] == stars@[x],
            forall|x: int|
                0 <= x < i && #[trigger] is_first_star(stars@, x, stars@[x].name@) ==> exists|a: int|
                    0 <= a < out@.len() && out@[a] == stars@[x],
            forall|x: int| 0 <= x < i ==> has_star(out@, #[trigger] stars@[x].name@),
        decreases stars@.len() - i,
    {
        let found = find_star(&out, &stars[i].name);
        let ghost prev = out@;
        let ghost n = stars@[i as int].name@;
        if found.is_none() {
            proof {
                lemma_new_name_first(stars@, prev, i as int);
            }
            out.push(stars[i].copy());
            proof {
                lemma_push_first(stars@, prev, out@, i as int);
            }
        } else {
            proof {
                let a = choose|a: int| 0 <= a < prev.len() && prev[a].name@ == n;
                let y = choose|y: int|
                    0 <= y < i && is_first_star(stars@, y, prev[a].name@) && prev[a] == stars@[y];
                assert(stars@[y].name@ == n);
                assert(!is_first_star(stars@, i as int, n));
            }
        }
        i = i + 1;
    }
    out
}

proof fn lemma_new_name_first(stars: Seq<StarredRepo>, prev: Seq<StarredRepo>, i: int)
    requires
        0 <= i < stars.len(),
        !has_star(prev, stars[i].name@),
        forall|x: int| 0 <= x < i ==> has_star(prev, #[trigger] stars[x].name@),
    ensures
        is_first_star(stars, i, stars[i].name@),
{
    assert forall|x: int| 0 <= x < i implies stars[x].name@ != stars[i].name@ by {
        assert(has_star(prev, stars[x].name@));
    }
}

proof fn lemma_push_first(stars: Seq<StarredRepo>, prev: Seq<StarredRepo>, out: Seq<StarredRepo>, i: int)
    requires
        0 <= i < stars.len(),
        out == prev.push(stars[i]),
        is_first_star(stars, i, stars[i].name@),
        !has_star(prev, stars[i].name@),
        names_unique(prev),
        forall|a: int|
            #![trigger prev[a]]
            0 <= a < prev.len() ==> exists|x: int|
                0 <= x < i && is_first_star(stars, x, prev[a].name@) && prev[a] == stars[x],
        forall|x: int|
            0 <= x < i && #[trigger] is_first_star(stars, x, stars[x].name@) ==> exists|a: int|
                0 <= a < prev.len() && prev[a] == stars[x],
        forall|x: int| 0 <= x < i ==> has_star(prev, #[trigger] stars[x].name@),
    ensures
        names_unique(out),
        forall|a: int|
            #![trigger out[a]]
            0 <= a < out.len() ==> exists|x: int|
                0 <= x < i + 1 && is_first_star(stars, x, out[a].name@) && out[a] == stars[x],
        forall|x: int|
            0 <= x < i + 1 && #[trigger] is_first_star(stars, x, stars[x].name@) ==> exists|a: int|
                0 <= a < out.len() && out[a] == stars[x],
        forall|x: int| 0 <= x < i + 1 ==> has_star(out, #[trigger] stars[x].name@),
{
    lemma_push_names(stars, prev, out, i);
    lemma_push_sources(stars, prev, out, i);
}

proof fn lemma_push_names(stars: Seq<StarredRepo>, prev: Seq<StarredRepo>, out: Seq<StarredRepo>, i: int)
    requires
        0 <= i < stars.len(),
        out == prev.push(stars[i]),
        !has_star(prev, stars[i].name@),
        names_unique(prev),
        forall|x: int| 0 <= x < i ==> has_star(prev, #[trigger] stars[x].name@),
    ensures
        names_unique(out),
        forall|x: int| 0 <= x < i + 1 ==> has_star(out, #[trigger] stars[x].name@),
{
    assert forall|x: int| 0 <= x < i + 1 implies has_star(out, #[trigger] stars[x].name@) by {
        if x < i {
            assert(has_star(prev, stars[x].name@));
            let a = choose|a: int| 0 <= a < prev.len() && prev[a].name@ == stars[x].name@;
            assert(out[a] == prev[a]);
        } else {
            assert(out[prev.len() as int] == stars[x]);
        }
    }
    assert forall|a: int, b: int|
        0 <= a < out.len() && 0 <= b < out.len() && a != b implies out[a].name@ != out[b].name@ by {
        if a < prev.len() && b < prev.len() {
            assert(out[a] == prev[a]);
            assert(out[b] == prev[b]);
        } else if a < prev.len() {
            assert(out[a] == prev[a]);
            assert(has_star(prev, prev[a].name@));
        } else if b < prev.len() {
            assert(out[b] == prev[b]);
            assert(has_star(prev, prev[b].name@));
        }
    }
}

proof fn lemma_push_sources(stars: Seq<StarredRepo>, prev: Seq<StarredRepo>, out: Seq<StarredRepo>, i: int)
    requires
        0 <= i < stars.len(),
        out == prev.push(stars[i]),
        is_first_star(stars, i, stars[i].name@),
        forall|a: int|
            #![trigger prev[a]]
            0 <= a < prev.len() ==> exists|x: int|
                0 <= x < i && is_first_star(stars, x, prev[a].name@) && prev[a] == stars[x],
        forall|x: int|
            0 <= x < i && #[trigger] is_first_star(stars, x, stars[x].name@) ==> exists|a: int|
                0 <= a < prev.len() && prev[a] == stars[x],
    ensures
        forall|a: int|
            #![trigger out[a]]
            0 <= a < out.len() ==> exists|x: int|
                0 <= x < i + 1 && is_first_star(stars, x, out[a].name@) && out[a] == stars[x],
        forall|x: int|
            0 <= x < i + 1 && #[trigger] is_first_star(stars, x, stars[x].name@) ==> exists|a: int|
                0 <= a < out.len() && out[a] == stars[x],
{
    assert forall|a: int|
        #![trigger out[a]]
        0 <= a < out.len() implies exists|x: int|
            0 <= x < i + 1 && is_first_star(stars, x, out[a].name@) && out[a] == stars[x] by {
        if a < prev.len() {
            assert(out[a] == prev[a]);
        } else {
            assert(out[a] == stars[i]);
        }
    }
    assert forall|x: int|
        0 <= x < i + 1 && #[trigger] is_first_star(stars, x, stars[x].name@) implies exists|a: int|
            0 <= a < out.len() && out[a] == stars[x] by {
        if x < i {
            let a = choose|a: int| 0 <= a < prev.len() && prev[a] == stars[x];
            assert(out[a] == prev[a]);
        } else {
            assert(out[prev.len() as int] == stars[x]);
        }
    }
}

/// Collects the pages of mirror records until the mirror reports no more.
pub struct RecordPager {
    pub records: Vec<MirrorRecord>,
}

impl RecordPager {
    pub fn new() -> (r: RecordPager)
        ensures
            r.records@ == Seq::<MirrorRecord>::empty(),
    {
        RecordPager { records: Vec::new() }
    }

    /// Takes in one page, and says whether to ask for the next one: only
    /// while the mirror reports that more pages follow.
    pub fn on_page(&mut self, items: Vec<MirrorRecord>, more: bool) -> (r: bool)
        ensures
            final(self).records@ == old(self).records@ + items@,
            r == more,
    {
        let mut items = items;
        self.records.append(&mut items);
        more
    }
}

} // verus!
