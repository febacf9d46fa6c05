use vstd::prelude::*;
use crate::model::{MirrorRecord, StarredRepo, has_id};
use crate::store::{MirrorStore, archive_in, archived_record, created_record, patched_record};
use crate::reconcile::{PatchCommand, lists_owed, owed_patch};

verus! {

/// The records that the creates of a pass add, in order: the star at
/// `creates[a]` under the id `ids[a]`.
pub open spec fn created_records(stars: Seq<StarredRepo>, creates: Seq<usize>, ids: Seq<String>) -> Seq<MirrorRecord> {
    Seq::new(creates.len(), |a: int| created_record(stars[creates[a] as int], ids[a]))
}

/// The ids of the records at the indices `archives`.
pub open spec fn archived_ids(recs: Seq<MirrorRecord>, archives: Seq<usize>) -> Set<Seq<char>> {
    Set::new(|id: Seq<char>| exists|a: int| 0 <= a < archives.len() && recs[archives[a] as int].id@ == id)
}

/// The records after archiving every record whose id is in `ids`.
pub open spec fn archive_all(recs: Seq<MirrorRecord>, ids: Set<Seq<char>>) -> Seq<MirrorRecord> {
    recs.map_values(|r: MirrorRecord| if ids.contains(r.id@) { archived_record(r) } else { r })
}

/// The records once the creates and archivals of a pass are done.
pub open spec fn after_membership(
    stars: Seq<StarredRepo>,
    recs: Seq<MirrorRecord>,
    creates: Seq<usize>,
    archives: Seq<usize>,
    ids: Seq<String>,
) -> Seq<MirrorRecord> {
    archive_all(recs + created_records(stars, creates, ids), archived_ids(recs, archives))
}

/// The records once every owed freshness patch is applied.
pub open spec fn refreshed(stars: Seq<StarredRepo>, recs: Seq<MirrorRecord>) -> Seq<MirrorRecord> {
    Seq::new(
        recs.len(),
        |k: int|
            match owed_patch(stars, recs, k) {
                Some(p) => patched_record(recs[k], p),
                None => recs[k],
            },
    )
}

/// The ids handed out for the creates of a pass are new to the mirror.
pub open spec fn fresh_ids(recs: Seq<MirrorRecord>, creates: Seq<usize>, ids: Seq<String>) -> bool {
    &&& ids.len() == creates.len()
    &&& forall|a: int| 0 <= a < ids.len() ==> !has_id(recs, #[trigger] ids[a]@)
}

impl MirrorStore {
    /// Sends the listed patches to the local store, one by one and in order.
    /// Applying every owed patch in this way yields the refreshed records.
    pub fn apply_patches(&mut self, stars: &Vec<StarredRepo>, cmds: &Vec<PatchCommand>)
        requires
            old(self).wf(),
            lists_owed(cmds@, stars@, old(self).records@),
        ensures
            final(self).wf(),
            final(self).records@ == refreshed(stars@, old(self).records@),
    {
        let ghost start = self.records@;
        let mut c: usize = 0;
        while c < cmds.len()
            invariant
                self.wf(),
                lists_owed(cmds@, stars@, start),
                c <= cmds@.len(),
                self.records@.len() == start.len(),
                forall|k: int|
                    0 <= k < start.len() ==> #[trigger] self.records@[k] == (if patched_before(cmds@, c as int, k) {
                        refreshed(stars@, start)[k]
                    } else {
                        start[k]
                    }),
            decreases cmds@.len() - c,
        {
            let cmd = cmds[c];
            let ghost before = self.records@;
            let k = cmd.record;
            let id = self.records[k].id.clone();
            proof {
                lemma_first_unpatched(cmds@, c as int);
            }
            self.patch(&id, cmd.patch);
            assert forall|x: int|
                0 <= x < start.len() implies #[trigger] self.records@[x] == (if patched_before(cmds@, c + 1, x) {
                    refreshed(stars@, start)[x]
                } else {
                    start[x]
                }) by {
                if x != k as int {
                    assert(before[x].id@ != id@);
                    assert(patched_before(cmds@, c + 1, x) == patched_before(cmds@, c as int, x)) by {
                        if patched_before(cmds@, c + 1, x) {
                            let a = choose|a: int| 0 <= a < c + 1 && cmds@[a].record == x;
                        }
                    }
                } else {
                    assert(patched_before(cmds@, c + 1, x));
                }
            }
            c = c + 1;
        }
        assert forall|k: int| 0 <= k < start.len() implies #[trigger] self.records@[k] == refreshed(stars@, start)[k] by {
            if !patched_before(cmds@, c as int, k) {
                if owed_patch(stars@, start, k) is Some {
                    let a = choose|a: int| 0 <= a < cmds@.len() && cmds@[a].record == k;
                }
            }
        }
        assert(self.records@ =~= refreshed(stars@, start));
    }
}

/// One of the first `c` commands is for the record at `k`.
pub open spec fn patched_before(cmds: Seq<PatchCommand>, c: int, k: int) -> bool {
    exists|a: int| 0 <= a < c && cmds[a].record == k
}

proof fn lemma_first_unpatched(cmds: Seq<PatchCommand>, c: int)
    requires
        0 <= c < cmds.len(),
        forall|a: int, b: int| 0 <= a < b < cmds.len() ==> cmds[a].record < cmds[b].record,
    ensures
        !patched_before(cmds, c, cmds[c].record as int),
{
    if patched_before(cmds, c, cmds[c].record as int) {
        let a = choose|a: int| 0 <= a < c && cmds[a].record == cmds[c].record;
        assert(cmds[a].record < cmds[c].record);
    }
}

/// The ids handed out for the creates of a pass differ from one another.
pub open spec fn distinct_ids(ids: Seq<String>) -> bool {
    forall|a: int, b: int| 0 <= a < ids.len() && 0 <= b < ids.len() && a != b ==> ids[a]@ != ids[b]@
}

proof fn lemma_archive_one_more(all: Seq<MirrorRecord>, start: Seq<MirrorRecord>, archives: Seq<usize>, b: int)
    requires
        0 <= b < archives.len(),
        0 <= archives[b] < start.len(),
    ensures
        archive_in(archive_all(all, archived_ids(start, archives.take(b))), start[archives[b] as int].id@)
            == archive_all(all, archived_ids(start, archives.take(b + 1))),
{
    let id = start[archives[b] as int].id@;
    let t0 = archives.take(b);
    let t1 = archives.take(b + 1);
    let s0 = archived_ids(start, t0);
    let s1 = archived_ids(start, t1);
    assert forall|x: Seq<char>| s1.contains(x) == (s0.contains(x) || x == id) by {
        if s1.contains(x) {
            let a = choose|a: int| 0 <= a < t1.len() && start[t1[a] as int].id@ == x;
            if a < b {
                assert(t0[a] == t1[a]);
            }
        }
        if s0.contains(x) {
            let a = choose|a: int| 0 <= a < t0.len() && start[t0[a] as int].id@ == x;
            assert(t0[a] == t1[a]);
        }
        if x == id {
            assert(t1[b] == archives[b]);
        }
    }
    assert(archive_in(archive_all(all, s0), id) =~= archive_all(all, s1));
}

impl MirrorStore {
    /// Applies the creates and the archivals of a pass to the local store:
    /// first the star at `to_create[a]` under the id `ids[a]`, for each `a`,
    /// then the archive of each record at an index of `to_archive`.
    pub fn apply_membership(&mut self, stars: &Vec<StarredRepo>, to_create: &Vec<usize>, to_archive: &Vec<usize>, ids: &Vec<String>)
        requires
            old(self).wf(),
            forall|a: int| 0 <= a < to_create@.len() ==> to_create@[a] < stars@.len(),
            forall|a: int| 0 <= a < to_archive@.len() ==> to_archive@[a] < old(self).records@.len(),
            fresh_ids(old(self).records@, to_create@, ids@),
            distinct_ids(ids@),
        ensures
            final(self).wf(),
            final(self).records@ == after_membership(stars@, old(self).records@, to_create@, to_archive@, ids@),
    {
        let ghost start = self.records@;
        let ghost made = created_records(stars@, to_create@, ids@);
        let mut a: usize = 0;
        while a < to_create.len()
            invariant
                self.wf(),
                a <= to_create@.len(),
                forall|x: int| 0 <= x < to_create@.len() ==> to_create@[x] < stars@.len(),
                fresh_ids(start, to_create@, ids@),
                distinct_ids(ids@),
                made == created_records(stars@, to_create@, ids@),
                self.records@.len() == start.len() + a,
                forall|k: int| 0 <= k < start.len() ==> #[trigger] self.records@[k] == start[k],
                forall|x: int| 0 <= x < a ==> #[trigger] self.records@[start.len() + x] == made[x],
            decreases to_create@.len() - a,
        {
            let id = ids[a].clone();
            assert(!has_id(self.records@, id@)) by {
                if has_id(self.records@, id@) {
                    let k = choose|k: int| 0 <= k < self.records@.len() && self.records@[k].id@ == id@;
                    if k < start.len() {
                        assert(self.records@[k] == start[k]);
                        assert(has_id(start, ids@[a as int]@));
                    } else {
                        assert(self.records@[start.len() + (k - start.len())] == made[k - start.len()]);
                    }
                }
            }
            self.create(&stars[to_create[a]], id);
            a = a + 1;
        }
        let ghost all = self.records@;
        assert(made.len() == to_create@.len());
        assert forall|k: int| 0 <= k < all.len() implies all[k] == (start + made)[k] by {
            if k >= start.len() {
                assert(all[start.len() + (k - start.len())] == made[k - start.len()]);
            }
        }
        assert(all =~= start + made);
        let mut b: usize = 0;
        while b < to_archive.len()
            invariant
                self.wf(),
                b <= to_archive@.len(),
                forall|x: int| 0 <= x < to_archive@.len() ==> to_archive@[x] < start.len(),
                all.len() >= start.len(),
                forall|k: int| 0 <= k < start.len() ==> #[trigger] all[k].id == start[k].id,
                self.records@ == archive_all(all, archived_ids(start, to_archive@.take(b as int))),
            decreases to_archive@.len() - b,
        {
            let k = to_archive[b];
            assert(self.records@[k as int].id == start[k as int].id);
            let id = self.records[k].id.clone();
            proof {
                lemma_archive_one_more(all, start, to_archive@, b as int);
            }
            self.archive(&id);
            b = b + 1;
        }
        assert(to_archive@.take(to_archive@.len() as int) =~= to_archive@);
    }
}

} // verus!
