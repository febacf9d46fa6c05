use vstd::prelude::*;
use crate::model::{MirrorRecord, StarredRepo, has_id, ids_unique};
use crate::freshness::Patch;

verus! {

/// The record that a create of `repo` under the id `id` stores.
pub open spec fn created_record(repo: StarredRepo, id: String) -> MirrorRecord {
    MirrorRecord {
        id: id,
        title: repo.name,
        owner: repo.owner,
        url: repo.html_url,
        stored_release: repo.latest_release,
        stored_commit: repo.latest_commit,
        archived: false,
    }
}

pub open spec fn archived_record(r: MirrorRecord) -> MirrorRecord {
    MirrorRecord { archived: true, ..r }
}

pub open spec fn patched_record(r: MirrorRecord, p: Patch) -> MirrorRecord {
    MirrorRecord {
        stored_release: match p.release {
            Some(d) => Some(d),
            None => r.stored_release,
        },
        stored_commit: match p.commit {
            Some(d) => Some(d),
            None => r.stored_commit,
        },
        ..r
    }
}

/// The records after archiving the one with id `id`.
pub open spec fn archive_in(recs: Seq<MirrorRecord>, id: Seq<char>) -> Seq<MirrorRecord> {
    recs.map_values(|r: MirrorRecord| if r.id@ == id { archived_record(r) } else { r })
}

/// The records after patching the one with id `id`.
pub open spec fn patch_in(recs: Seq<MirrorRecord>, id: Seq<char>, p: Patch) -> Seq<MirrorRecord> {
    recs.map_values(|r: MirrorRecord| if r.id@ == id { patched_record(r, p) } else { r })
}

/// A local copy of the mirror database, kept in step with the remote one by
/// applying each create, archive and patch that was sent.
pub struct MirrorStore {
    pub records: Vec<MirrorRecord>,
}

impl MirrorStore {
    /// Each record has an id of its own.
    pub open spec fn wf(&self) -> bool {
        ids_unique(self.records@)
    }

    pub fn new() -> (r: MirrorStore)
        ensures
            r.wf(),
            r.records@ == Seq::<MirrorRecord>::empty(),
    {
        MirrorStore { records: Vec::new() }
    }

    /// Whether a record carries the id `id`.
    pub fn contains_id(&self, id: &String) -> (r: bool)
        ensures
            r == has_id(self.records@, id@),
    {
        let mut k: usize = 0;
        while k < self.records.len()
            invariant
                k <= self.records@.len(),
                forall|i: int| 0 <= i < k ==> self.records@[i].id@ != id@,
            decreases self.records@.len() - k,
        {
            if self.records[k].id == *id {
                return true;
            }
            k = k + 1;
        }
        false
    }

    /// Adds the record of a freshly created mirror row. The id is the one the
    /// mirror assigned; it must be new.
    pub fn create(&mut self, repo: &StarredRepo, id: String)
        requires
            old(self).wf(),
            !has_id(old(self).records@, id@),
        ensures
            final(self).wf(),
            final(self).records@ == old(self).records@.push(created_record(*repo, id)),
    {
        let rec = MirrorRecord {
            id,
            title: repo.name.clone(),
            owner: repo.owner.clone(),
            url: repo.html_url.clone(),
            stored_release: repo.latest_release,
            stored_commit: repo.latest_commit,
            archived: false,
        };
        self.records.push(rec);
    }

    /// Marks the record with id `id` archived. Archiving an archived record,
    /// or an id that no record has, changes nothing.
    pub fn archive(&mut self, id: &String)
        requires
            old(self).wf(),
        ensures
            final(self).wf(),
            final(self).records@ == archive_in(old(self).records@, id@),
    {
        let ghost start = self.records@;
        let mut k: usize = 0;
        while k < self.records.len()
            invariant
                self.records@.len() == start.len(),
                k <= start.len(),
                ids_unique(start),
                forall|i: int| 0 <= i < k ==> self.records@[i] == archive_in(start, id@)[i],
                forall|i: int| k <= i < start.len() ==> self.records@[i] == start[i],
            decreases start.len() - k,
        {
            if self.records[k].id == *id && !self.records[k].archived {
                let mut r = self.records[k].copy();
                r.archived = true;
                self.records.set(k, r);
            }
            k = k + 1;
        }
        assert(self.records@ =~= archive_in(start, id@));
        assert(ids_unique(self.records@)) by {
            assert forall|i: int, j: int|
                0 <= i < self.records@.len() && 0 <= j < self.records@.len() && i != j implies
                self.records@[i].id@ != self.records@[j].id@ by {
                assert(self.records@[i].id == start[i].id);
                assert(self.records@[j].id == start[j].id);
            }
        }
    }

    /// Writes the present fields of `p` into the record with id `id`; an
    /// absent field keeps its stored value. A patch without fields is never
    /// sent.
    pub fn patch(&mut self, id: &String, p: Patch)
        requires
            old(self).wf(),
            !p.is_empty(),
        ensures
            final(self).wf(),
            final(self).records@ == patch_in(old(self).records@, id@, p),
    {
        let ghost start = self.records@;
        let mut k: usize = 0;
        while k < self.records.len()
            invariant
                self.records@.len() == start.len(),
                k <= start.len(),
                ids_unique(start),
                forall|i: int| 0 <= i < k ==> self.records@[i] == patch_in(start, id@, p)[i],
                forall|i: int| k <= i < start.len() ==> self.records@[i] == start[i],
            decreases start.len() - k,
        {
            if self.records[k].id == *id {
                let mut r = self.records[k].copy();
                if let Some(d) = p.release {
                    r.stored_release = Some(d);
                }
                if let Some(d) = p.commit {
                    r.stored_commit = Some(d);
                }
                self.records.set(k, r);
            }
            k = k + 1;
        }
        assert(self.records@ =~= patch_in(start, id@, p));
        assert(ids_unique(self.records@)) by {
            assert forall|i: int, j: int|
                0 <= i < self.records@.len() && 0 <= j < self.records@.len() && i != j implies
                self.records@[i].id@ != self.records@[j].id@ by {
                assert(self.records@[i].id == start[i].id);
                assert(self.records@[j].id == start[j].id);
            }
        }
    }
}

} // verus!
