use vstd::prelude::*;

verus! {

/// A calendar date, as the mirror stores it.
#[derive(Clone, Copy, Debug, PartialEq, Eq, Structural)]
pub struct Date {
    pub year: i32,
    pub month: u8,
    pub day: u8,
}

impl Date {
    pub fn new(year: i32, month: u8, day: u8) -> (r: Date)
        ensures
            r.year == year,
            r.month == month,
            r.day == day,
    {
        Date { year, month, day }
    }
}

/// A repository starred by the user, together with the freshness signals
/// observed for it on this pass.
#[derive(Debug)]
pub struct StarredRepo {
    pub name: String,
    pub owner: String,
    pub html_url: String,
    pub latest_release: Option<Date>,
    pub latest_commit: Option<Date>,
}

/// One row of the mirror database.
#[derive(Debug)]
pub struct MirrorRecord {
    pub id: String,
    pub title: String,
    pub owner: String,
    pub url: String,
    pub stored_release: Option<Date>,
    pub stored_commit: Option<Date>,
    pub archived: bool,
}

/// Whether two freshness signals agree (both absent, or the same date).
pub fn same_signal(a: Option<Date>, b: Option<Date>) -> (r: bool)
    ensures
        r == (a == b),
{
    match (a, b) {
        (Some(x), Some(y)) => x == y,
        (None, None) => true,
        _ => false,
    }
}

impl StarredRepo {
    pub fn copy(&self) -> (r: StarredRepo)
        ensures
            r == *self,
    {
        StarredRepo {
            name: self.name.clone(),
            owner: self.owner.clone(),
            html_url: self.html_url.clone(),
            latest_release: self.latest_release,
            latest_commit: self.latest_commit,
        }
    }
}

impl MirrorRecord {
    pub fn copy(&self) -> (r: MirrorRecord)
        ensures
            r == *self,
    {
        MirrorRecord {
            id: self.id.clone(),
            title: self.title.clone(),
            owner: self.owner.clone(),
            url: self.url.clone(),
            stored_release: self.stored_release,
            stored_commit: self.stored_commit,
            archived: self.archived,
        }
    }
}

/// The star collection holds `name` among its names.
pub open spec fn has_star(stars: Seq<StarredRepo>, name: Seq<char>) -> bool {
    exists|j: int| 0 <= j < stars.len() && stars[j].name@ == name
}

/// The names of a star collection, as a set.
pub open spec fn star_names(stars: Seq<StarredRepo>) -> Set<Seq<char>> {
    Set::new(|n: Seq<char>| has_star(stars, n))
}

/// No two stars share a name.
pub open spec fn names_unique(stars: Seq<StarredRepo>) -> bool {
    forall|i: int, j: int|
        0 <= i < stars.len() && 0 <= j < stars.len() && i != j ==> stars[i].name@ != stars[j].name@
}

/// Some record that is not archived carries the title `title`.
pub open spec fn has_live_title(recs: Seq<MirrorRecord>, title: Seq<char>) -> bool {
    exists|k: int| 0 <= k < recs.len() && !recs[k].archived && recs[k].title@ == title
}

/// The titles of the records that are not archived, as a set.
pub open spec fn live_titles(recs: Seq<MirrorRecord>) -> Set<Seq<char>> {
    Set::new(|t: Seq<char>| has_live_title(recs, t))
}

/// Some record carries the id `id`.
pub open spec fn has_id(recs: Seq<MirrorRecord>, id: Seq<char>) -> bool {
    exists|k: int| 0 <= k < recs.len() && recs[k].id@ == id
}

/// No two records share an id.
pub open spec fn ids_unique(recs: Seq<MirrorRecord>) -> bool {
    forall|i: int, j: int|
        0 <= i < recs.len() && 0 <= j < recs.len() && i != j ==> recs[i].id@ != recs[j].id@
}

} // verus!
