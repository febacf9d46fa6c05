use vstd::prelude::*;
use crate::model::{Date, MirrorRecord, StarredRepo, has_id, has_live_title, has_star, ids_unique, live_titles, star_names};
use crate::freshness::{Patch, delta_of};
use crate::store::{archive_in, patch_in};
use crate::pass::{after_membership, archived_ids, created_records, fresh_ids, refreshed};
use crate::reconcile::{PatchCommand, lists_exactly, lists_owed, matched_star, needs_archive, needs_check, needs_create, owed_patch};

verus! {

/// Archiving a record a second time leaves the mirror as the first archive
/// left it.
pub proof fn archive_twice_is_archive_once(recs: Seq<MirrorRecord>, id: Seq<char>)
    ensures
        archive_in(archive_in(recs, id), id) == archive_in(recs, id),
{
    assert(archive_in(archive_in(recs, id), id) =~= archive_in(recs, id));
}

/// A patch changes only the fields it carries: a field it leaves out keeps
/// its stored value in every record, and records with another id are
/// untouched.
pub proof fn patch_keeps_absent_fields(recs: Seq<MirrorRecord>, id: Seq<char>, p: Patch, k: int)
    requires
        0 <= k < recs.len(),
    ensures
        p.release is None ==> patch_in(recs, id, p)[k].stored_release == recs[k].stored_release,
        p.commit is None ==> patch_in(recs, id, p)[k].stored_commit == recs[k].stored_commit,
        recs[k].id@ != id ==> patch_in(recs, id, p)[k] == recs[k],
        patch_in(recs, id, p)[k].title == recs[k].title,
        patch_in(recs, id, p)[k].archived == recs[k].archived,
{
}

/// A freshness check never asks for a patch without fields.
pub proof fn owed_patch_is_never_empty(stars: Seq<StarredRepo>, recs: Seq<MirrorRecord>, k: int)
    ensures
        owed_patch(stars, recs, k) matches Some(p) ==> !p.is_empty(),
{
}

/// Once the creates and archivals of a pass are done, the titles of the live
/// records are exactly the names of the stars.
pub proof fn join_after_membership(
    stars: Seq<StarredRepo>,
    recs: Seq<MirrorRecord>,
    creates: Seq<usize>,
    archives: Seq<usize>,
    ids: Seq<String>,
)
    requires
        ids_unique(recs),
        lists_exactly(creates, stars.len() as int, |i: int| needs_create(stars, recs, i)),
        lists_exactly(archives, recs.len() as int, |k: int| needs_archive(stars, recs, k)),
        fresh_ids(recs, creates, ids),
    ensures
        live_titles(after_membership(stars, recs, creates, archives, ids)) == star_names(stars),
{
    let after = after_membership(stars, recs, creates, archives, ids);
    let made = created_records(stars, creates, ids);
    let gone = archived_ids(recs, archives);
    let all = recs + made;
    let n = recs.len();
    assert forall|t: Seq<char>| has_live_title(after, t) implies has_star(stars, t) by {
        let k = choose|k: int| 0 <= k < after.len() && !after[k].archived && after[k].title@ == t;
        if k < n {
            assert(all[k] == recs[k]);
            assert(!gone.contains(recs[k].id@));
            if !has_star(stars, t) {
                assert(needs_archive(stars, recs, k));
                assert((|k: int| needs_archive(stars, recs, k))(k));
                let a = choose|a: int| 0 <= a < archives.len() && archives[a] == k;
                assert(gone.contains(recs[k].id@));
            }
        } else {
            let a = k - n;
            assert(all[k] == made[a]);
            assert(0 <= creates[a] < stars.len());
            assert(stars[creates[a] as int].name@ == t);
        }
    }
    assert forall|t: Seq<char>| has_star(stars, t) implies has_live_title(after, t) by {
        let j = choose|j: int| 0 <= j < stars.len() && stars[j].name@ == t;
        if has_live_title(recs, t) {
            let k = choose|k: int| 0 <= k < n && !recs[k].archived && recs[k].title@ == t;
            assert(all[k] == recs[k]);
            if gone.contains(recs[k].id@) {
                let a = choose|a: int| 0 <= a < archives.len() && recs[archives[a] as int].id@ == recs[k].id@;
                let m = archives[a] as int;
                assert(needs_archive(stars, recs, m));
                assert(m == k);
            }
            assert(after[k] == recs[k]);
        } else {
            assert(needs_create(stars, recs, j));
            assert((|i: int| needs_create(stars, recs, i))(j));
            let a = choose|a: int| 0 <= a < creates.len() && creates[a] == j;
            assert(all[n + a] == made[a]);
            let id = ids[a]@;
            assert(!has_id(recs, id));
            if gone.contains(id) {
                let b = choose|b: int| 0 <= b < archives.len() && recs[archives[b] as int].id@ == id;
                assert(has_id(recs, id));
            }
            assert(after[n + a] == made[a]);
        }
    }
    assert(live_titles(after) =~= star_names(stars));
}

/// A field that a freshness patch brought up to date owes nothing on the
/// next check.
proof fn lemma_delta_settles(observed: Option<Date>, stored: Option<Date>)
    ensures
        delta_of(
            observed,
            match delta_of(observed, stored) {
                Some(d) => Some(d),
                None => stored,
            },
        ) is None,
{
}

/// Running a whole pass (creates, archivals, then the owed patches) and then
/// planning again against the same stars finds nothing to create, nothing to
/// archive and nothing to patch.
pub proof fn second_pass_is_quiet(
    stars: Seq<StarredRepo>,
    recs: Seq<MirrorRecord>,
    creates: Seq<usize>,
    archives: Seq<usize>,
    ids: Seq<String>,
)
    requires
        ids_unique(recs),
        lists_exactly(creates, stars.len() as int, |i: int| needs_create(stars, recs, i)),
        lists_exactly(archives, recs.len() as int, |k: int| needs_archive(stars, recs, k)),
        fresh_ids(recs, creates, ids),
    ensures
        ({
            let done = refreshed(stars, after_membership(stars, recs, creates, archives, ids));
            &&& forall|i: int| 0 <= i < stars.len() ==> !needs_create(stars, done, i)
            &&& forall|k: int| 0 <= k < done.len() ==> !needs_archive(stars, done, k)
            &&& forall|k: int| 0 <= k < done.len() ==> owed_patch(stars, done, k) is None
            &&& forall|v: Seq<usize>|
                lists_exactly(v, stars.len() as int, |i: int| needs_create(stars, done, i)) ==> v.len() == 0
            &&& forall|v: Seq<usize>|
                lists_exactly(v, done.len() as int, |k: int| needs_archive(stars, done, k)) ==> v.len() == 0
            &&& forall|c: Seq<PatchCommand>| lists_owed(c, stars, done) ==> c.len() == 0
        }),
{
    let after = after_membership(stars, recs, creates, archives, ids);
    let done = refreshed(stars, after);
    join_after_membership(stars, recs, creates, archives, ids);
    assert forall|k: int| 0 <= k < done.len() implies done[k].title == after[k].title && done[k].archived
        == after[k].archived by {}
    assert forall|t: Seq<char>| has_live_title(done, t) == has_live_title(after, t) by {
        if has_live_title(after, t) {
            let k = choose|k: int| 0 <= k < after.len() && !after[k].archived && after[k].title@ == t;
            assert(done[k].title == after[k].title && done[k].archived == after[k].archived);
        }
        if has_live_title(done, t) {
            let k = choose|k: int| 0 <= k < done.len() && !done[k].archived && done[k].title@ == t;
            assert(done[k].title == after[k].title && done[k].archived == after[k].archived);
        }
    }
    assert forall|i: int| 0 <= i < stars.len() implies !needs_create(stars, done, i) by {
        assert(star_names(stars).contains(stars[i].name@));
        assert(live_titles(after).contains(stars[i].name@));
    }
    assert forall|k: int| 0 <= k < done.len() implies !needs_archive(stars, done, k) by {
        assert(done[k].title == after[k].title && done[k].archived == after[k].archived);
        if !after[k].archived {
            assert(live_titles(after).contains(after[k].title@));
            assert(star_names(stars).contains(after[k].title@));
        }
    }
    assert forall|k: int| 0 <= k < done.len() implies owed_patch(stars, done, k) is None by {
        assert(done[k].title == after[k].title && done[k].archived == after[k].archived);
        if needs_check(stars, after, k) {
            let s = matched_star(stars, after[k].title@);
            lemma_delta_settles(s.latest_release, after[k].stored_release);
            lemma_delta_settles(s.latest_commit, after[k].stored_commit);
        }
    }
    assert forall|v: Seq<usize>|
        lists_exactly(v, stars.len() as int, |i: int| needs_create(stars, done, i)) implies v.len() == 0 by {
        if v.len() > 0 {
            assert((|i: int| needs_create(stars, done, i))(v[0] as int));
        }
    }
    assert forall|v: Seq<usize>|
        lists_exactly(v, done.len() as int, |k: int| needs_archive(stars, done, k)) implies v.len() == 0 by {
        if v.len() > 0 {
            assert((|k: int| needs_archive(stars, done, k))(v[0] as int));
        }
    }
    assert forall|c: Seq<PatchCommand>| lists_owed(c, stars, done) implies c.len() == 0 by {
        if c.len() > 0 {
            assert(owed_patch(stars, done, c[0].record as int) is None);
        }
    }
}

} // verus!
