use vstd::prelude::*;
use crate::model::{MirrorRecord, StarredRepo, has_live_title, has_star};
use crate::freshness::{Patch, freshness_patch, patch_of};

verus! {

/// Some entry of `v` is `i`.
pub open spec fn lists_index(v: Seq<usize>, i: int) -> bool {
    exists|a: int| 0 <= a < v.len() && v[a] == i
}

/// `v` lists, in increasing order, exactly the indices below `n` that satisfy `p`.
pub open spec fn lists_exactly(v: Seq<usize>, n: int, p: spec_fn(int) -> bool) -> bool {
    &&& forall|a: int, b: int| 0 <= a < b < v.len() ==> v[a] < v[b]
    &&& forall|a: int| 0 <= a < v.len() ==> v[a] < n && p(v[a] as int)
    &&& forall|i: int| 0 <= i < n && #[trigger] p(i) ==> lists_index(v, i)
}

/// The star at `i` has no live record and must be created.
pub open spec fn needs_create(stars: Seq<StarredRepo>, recs: Seq<MirrorRecord>, i: int) -> bool {
    !has_live_title(recs, stars[i].name@)
}

/// The record at `k` is live but its star is gone: it must be archived.
pub open spec fn needs_archive(stars: Seq<StarredRepo>, recs: Seq<MirrorRecord>, k: int) -> bool {
    !recs[k].archived && !has_star(stars, recs[k].title@)
}

/// The record at `k` is live and still starred: its freshness is checked.
pub open spec fn needs_check(stars: Seq<StarredRepo>, recs: Seq<MirrorRecord>, k: int) -> bool {
    !recs[k].archived && has_star(stars, recs[k].title@)
}

/// The three work lists of a pass, as indices into the stars (creates) and
/// into the records (archivals and checks).
pub struct Plan {
    pub to_create: Vec<usize>,
    pub to_archive: Vec<usize>,
    pub to_check: Vec<usize>,
}

/// Whether some live record carries the title `name`.
pub fn live_title_present(recs: &Vec<MirrorRecord>, name: &String) -> (r: bool)
    ensures
        r == has_live_title(recs@, name@),
{
    let mut k: usize = 0;
    while k < recs.len()
        invariant
            k <= recs@.len(),
            forall|i: int| 0 <= i < k ==> recs@[i].archived || recs@[i].title@ != name@,
        decreases recs@.len() - k,
    {
        if !recs[k].archived && recs[k].title == *name {
            return true;
        }
        k = k + 1;
    }
    false
}

/// The first star at `j` carries the name `name`.
pub open spec fn is_first_star(stars: Seq<StarredRepo>, j: int, name: Seq<char>) -> bool {
    &&& 0 <= j < stars.len()
    &&& stars[j].name@ == name
    &&& forall|i: int| 0 <= i < j ==> stars[i].name@ != name
}

/// The star that a record titled `name` is joined with: the first of that name.
pub open spec fn matched_star(stars: Seq<StarredRepo>, name: Seq<char>) -> StarredRepo {
    stars[choose|j: int| is_first_star(stars, j, name)]
}

pub proof fn lemma_first_star_unique(stars: Seq<StarredRepo>, j: int, name: Seq<char>)
    requires
        is_first_star(stars, j, name),
    ensures
        matched_star(stars, name) == stars[j],
{
    let c = choose|c: int| is_first_star(stars, c, name);
    assert(is_first_star(stars, c, name));
    if c < j {
        assert(stars[c].name@ != name);
    } else if j < c {
        assert(stars[j].name@ != name);
    }
}

proof fn lemma_push_keeps(prev: Seq<usize>, x: usize)
    ensures
        forall|y: int| lists_index(prev, y) ==> #[trigger] lists_index(prev.push(x), y),
        lists_index(prev.push(x), x as int),
{
    assert forall|y: int| lists_index(prev, y) implies #[trigger] lists_index(prev.push(x), y) by {
        let a = choose|a: int| 0 <= a < prev.len() && prev[a] == y;
        assert(prev.push(x)[a] == y);
    }
    assert(prev.push(x)[prev.len() as int] == x);
}

/// The index of the first star named `name`, if any.
pub fn find_star(stars: &Vec<StarredRepo>, name: &String) -> (r: Option<usize>)
    ensures
        r matches Some(j) ==> is_first_star(stars@, j as int, name@),
        r is None ==> !has_star(stars@, name@),
{
    let mut j: usize = 0;
    while j < stars.len()
        invariant
            j <= stars@.len(),
            forall|i: int| 0 <= i < j ==> stars@[i].name@ != name@,
        decreases stars@.len() - j,
    {
        if stars[j].name == *name {
            return Some(j);
        }
        j = j + 1;
    }
    None
}

/// Builds the three work lists: the stars without a live record, the live
/// records without a star, and the live records that keep their star.
/// Archived records take no part: they are neither archived again nor count
/// as mirroring a star.
pub fn plan(stars: &Vec<StarredRepo>, recs: &Vec<MirrorRecord>) -> (r: Plan)
    ensures
        lists_exactly(r.to_create@, stars@.len() as int, |i: int| needs_create(stars@, recs@, i)),
        lists_exactly(r.to_archive@, recs@.len() as int, |k: int| needs_archive(stars@, recs@, k)),
        lists_exactly(r.to_check@, recs@.len() as int, |k: int| needs_check(stars@, recs@, k)),
{
    let mut to_create: Vec<usize> = Vec::new();
    let mut i: usize = 0;
    while i < stars.len()
        invariant
            i <= stars@.len(),
            forall|a: int, b: int| 0 <= a < b < to_create@.len() ==> to_create@[a] < to_create@[b],
            forall|a: int| 0 <= a < to_create@.len() ==> to_create@[a] < i && needs_create(stars@, recs@, to_create@[a] as int),
            forall|x: int| 0 <= x < i && needs_create(stars@, recs@, x) ==> lists_index(to_create@, x),
        decreases stars@.len() - i,
    {
        if !live_title_present(recs, &stars[i].name) {
            proof {
                lemma_push_keeps(to_create@, i);
            }
            to_create.push(i);
        }
        i = i + 1;
    }
    let mut to_archive: Vec<usize> = Vec::new();
    let mut to_check: Vec<usize> = Vec::new();
    let mut k: usize = 0;
    while k < recs.len()
        invariant
            k <= recs@.len(),
            forall|a: int, b: int| 0 <= a < b < to_archive@.len() ==> to_archive@[a] < to_archive@[b],
            forall|a: int| 0 <= a < to_archive@.len() ==> to_archive@[a] < k && needs_archive(stars@, recs@, to_archive@[a] as int),
            forall|x: int| 0 <= x < k && needs_archive(stars@, recs@, x) ==> lists_index(to_archive@, x),
            forall|a: int, b: int| 0 <= a < b < to_check@.len() ==> to_check@[a] < to_check@[b],
            forall|a: int| 0 <= a < to_check@.len() ==> to_check@[a] < k && needs_check(stars@, recs@, to_check@[a] as int),
            forall|x: int| 0 <= x < k && needs_check(stars@, recs@, x) ==> lists_index(to_check@, x),
        decreases recs@.len() - k,
    {
        if !recs[k].archived {
            match find_star(stars, &recs[k].title) {
                Some(_) => {
                    proof {
                        lemma_push_keeps(to_check@, k);
                    }
                    to_check.push(k);
                },
                None => {
                    proof {
                        lemma_push_keeps(to_archive@, k);
                    }
                    to_archive.push(k);
                },
            }
        }
        k = k + 1;
    }
    Plan { to_create, to_archive, to_check }
}

/// The patch owed to the record at `k`: none unless the record is live and
/// starred, and then the one its stored signals call for against those of
/// its star.
pub open spec fn owed_patch(stars: Seq<StarredRepo>, recs: Seq<MirrorRecord>, k: int) -> Option<Patch> {
    if needs_check(stars, recs, k) {
        let s = matched_star(stars, recs[k].title@);
        patch_of(recs[k].stored_release, recs[k].stored_commit, s.latest_release, s.latest_commit)
    } else {
        None
    }
}

/// A patch to send to the record at index `record`.
#[derive(Clone, Copy, Debug, PartialEq, Eq, Structural)]
pub struct PatchCommand {
    pub record: usize,
    pub patch: Patch,
}

/// `cmds` holds, by increasing record index, exactly the patches owed.
pub open spec fn lists_owed(cmds: Seq<PatchCommand>, stars: Seq<StarredRepo>, recs: Seq<MirrorRecord>) -> bool {
    &&& forall|a: int, b: int| 0 <= a < b < cmds.len() ==> cmds[a].record < cmds[b].record
    &&& forall|a: int|
        0 <= a < cmds.len() ==> cmds[a].record < recs.len() && owed_patch(stars, recs, cmds[a].record as int)
            == Some(cmds[a].patch)
    &&& forall|k: int|
        0 <= k < recs.len() && #[trigger] owed_patch(stars, recs, k) is Some ==> exists|a: int|
            0 <= a < cmds.len() && cmds[a].record == k
}

/// Checks every live, still starred record against the signals of its star
/// and lists the patches to send. Records whose signals match get none.
pub fn freshness_checks(stars: &Vec<StarredRepo>, recs: &Vec<MirrorRecord>) -> (r: Vec<PatchCommand>)
    ensures
        lists_owed(r@, stars@, recs@),
{
    let mut cmds: Vec<PatchCommand> = Vec::new();
    let mut k: usize = 0;
    while k < recs.len()
        invariant
            k <= recs@.len(),
            forall|a: int, b: int| 0 <= a < b < cmds@.len() ==> cmds@[a].record < cmds@[b].record,
            forall|a: int|
                0 <= a < cmds@.len() ==> cmds@[a].record < k && owed_patch(stars@, recs@, cmds@[a].record as int)
                    == Some(cmds@[a].patch),
            forall|x: int|
                0 <= x < k && #[trigger] owed_patch(stars@, recs@, x) is Some ==> exists|a: int|
                    0 <= a < cmds@.len() && cmds@[a].record == x,
        decreases recs@.len() - k,
    {
        if !recs[k].archived {
            match find_star(stars, &recs[k].title) {
                Some(j) => {
                    proof {
                        lemma_first_star_unique(stars@, j as int, recs@[k as int].title@);
                    }
                    let star = &stars[j];
                    match freshness_patch(&recs[k], star.latest_release, star.latest_commit) {
                        Some(p) => {
                            let ghost prev = cmds@;
                            cmds.push(PatchCommand { record: k, patch: p });
                            assert forall|x: int|
                                0 <= x <= k && #[trigger] owed_patch(stars@, recs@, x) is Some implies exists|a: int|
                                    0 <= a < cmds@.len() && cmds@[a].record == x by {
                                if x < k {
                                    let a = choose|a: int| 0 <= a < prev.len() && prev[a].record == x;
                                    assert(cmds@[a] == prev[a]);
                                } else {
                                    assert(cmds@[prev.len() as int].record == x);
                                }
                            }
                        },
                        None => {},
                    }
                },
                None => {},
            }
        }
        k = k + 1;
    }
    cmds
}

} // verus!
