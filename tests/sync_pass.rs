use star_mirror::freshness::{delta, freshness_patch, Lookup, Patch};
use star_mirror::model::{same_signal, Date, MirrorRecord, StarredRepo};
use star_mirror::paging::{dedup_by_name, PageStep, RecordPager, StarPager};
use star_mirror::reconcile::{find_star, freshness_checks, live_title_present, plan, PatchCommand};
use star_mirror::store::MirrorStore;

fn d(y: i32, m: u8, day: u8) -> Date {
    Date::new(y, m, day)
}

fn star(name: &str, release: Option<Date>, commit: Option<Date>) -> StarredRepo {
    StarredRepo {
        name: name.to_string(),
        owner: "octo".to_string(),
        html_url: format!("https://example.com/octo/{}", name),
        latest_release: release,
        latest_commit: commit,
    }
}

fn record(id: &str, title: &str, release: Option<Date>, commit: Option<Date>, archived: bool) -> MirrorRecord {
    MirrorRecord {
        id: id.to_string(),
        title: title.to_string(),
        owner: "octo".to_string(),
        url: format!("https://example.com/octo/{}", title),
        stored_release: release,
        stored_commit: commit,
        archived,
    }
}

/// Runs one whole pass on the local store, handing out ids `new-<n>`;
/// returns the number of creates, archivals and patches made.
fn run_pass(store: &mut MirrorStore, stars: &Vec<StarredRepo>, next_id: &mut u32) -> (usize, usize, usize) {
    let p = plan(stars, &store.records);
    for &i in &p.to_create {
        let id = format!("new-{}", next_id);
        *next_id += 1;
        assert!(!store.contains_id(&id));
        store.create(&stars[i], id);
    }
    let archive_ids: Vec<String> = p.to_archive.iter().map(|&k| store.records[k].id.clone()).collect();
    for id in &archive_ids {
        store.archive(id);
    }
    let cmds = freshness_checks(stars, &store.records);
    for c in &cmds {
        let id = store.records[c.record].id.clone();
        store.patch(&id, c.patch);
    }
    (p.to_create.len(), p.to_archive.len(), cmds.len())
}

fn live_titles(store: &MirrorStore) -> Vec<String> {
    let mut t: Vec<String> = store.records.iter().filter(|r| !r.archived).map(|r| r.title.clone()).collect();
    t.sort();
    t
}

#[test]
fn plan_creates_archives_and_checks() {
    let recs = vec![record("1", "A", None, None, false), record("2", "B", None, None, false)];
    let stars = vec![star("B", None, None), star("C", None, None)];
    let p = plan(&stars, &recs);
    assert_eq!(p.to_create, vec![1]);
    assert_eq!(p.to_archive, vec![0]);
    assert_eq!(p.to_check, vec![1]);
}

#[test]
fn commit_change_patches_commit_only() {
    let recs = vec![record("b", "B", Some(d(2023, 1, 1)), Some(d(2023, 1, 1)), false)];
    let stars = vec![star("B", Some(d(2023, 1, 1)), Some(d(2023, 3, 5)))];
    let cmds = freshness_checks(&stars, &recs);
    assert_eq!(cmds, vec![PatchCommand { record: 0, patch: Patch { release: None, commit: Some(d(2023, 3, 5)) } }]);
}

#[test]
fn failed_release_lookup_with_nothing_stored_patches_nothing() {
    let observed_release = Lookup::Failed.observed();
    assert_eq!(observed_release, None);
    let rec = record("b", "B", None, Some(d(2024, 6, 1)), false);
    assert_eq!(freshness_patch(&rec, observed_release, Some(d(2024, 6, 1))), None);
    let rec2 = record("b", "B", None, Some(d(2024, 6, 1)), false);
    let p = freshness_patch(&rec2, observed_release, Some(d(2024, 7, 1))).unwrap();
    assert_eq!(p.release, None);
    assert_eq!(p.commit, Some(d(2024, 7, 1)));
}

#[test]
fn second_pass_makes_no_calls() {
    let mut store = MirrorStore::new();
    store.records.push(record("1", "A", None, None, false));
    store.records.push(record("2", "B", Some(d(2022, 2, 2)), None, false));
    store.records.push(record("3", "Z", None, None, true));
    let stars = vec![
        star("B", Some(d(2023, 1, 1)), Some(d(2023, 1, 9))),
        star("C", None, Some(d(2021, 5, 5))),
        star("Z", None, None),
    ];
    let mut next_id: u32 = 0;
    let first = run_pass(&mut store, &stars, &mut next_id);
    assert_eq!(first, (2, 1, 1));
    let second = run_pass(&mut store, &stars, &mut next_id);
    assert_eq!(second, (0, 0, 0));
}

#[test]
fn live_titles_match_star_names_after_membership() {
    let mut store = MirrorStore::new();
    store.records.push(record("1", "A", None, None, false));
    store.records.push(record("2", "B", None, None, false));
    store.records.push(record("3", "B", None, None, true));
    let stars = vec![star("B", None, None), star("C", None, None), star("D", None, None)];
    let mut next_id: u32 = 0;
    run_pass(&mut store, &stars, &mut next_id);
    assert_eq!(live_titles(&store), vec!["B".to_string(), "C".to_string(), "D".to_string()]);
}

#[test]
fn archive_twice_equals_archive_once() {
    let mut once = MirrorStore::new();
    once.records.push(record("1", "A", None, None, false));
    once.records.push(record("2", "B", None, None, false));
    let mut twice = MirrorStore::new();
    twice.records.push(record("1", "A", None, None, false));
    twice.records.push(record("2", "B", None, None, false));
    once.archive(&"1".to_string());
    twice.archive(&"1".to_string());
    twice.archive(&"1".to_string());
    assert_eq!(format!("{:?}", once.records), format!("{:?}", twice.records));
    assert!(once.records[0].archived);
    assert!(!once.records[1].archived);
}

#[test]
fn archive_of_unknown_id_changes_nothing() {
    let mut store = MirrorStore::new();
    store.records.push(record("1", "A", None, None, false));
    store.archive(&"9".to_string());
    assert!(!store.records[0].archived);
}

#[test]
fn patch_keeps_the_absent_field() {
    let mut store = MirrorStore::new();
    store.records.push(record("1", "A", Some(d(2020, 1, 1)), Some(d(2020, 2, 2)), false));
    store.records.push(record("2", "B", Some(d(2019, 1, 1)), None, false));
    store.patch(&"1".to_string(), Patch { release: None, commit: Some(d(2021, 3, 3)) });
    assert_eq!(store.records[0].stored_release, Some(d(2020, 1, 1)));
    assert_eq!(store.records[0].stored_commit, Some(d(2021, 3, 3)));
    assert_eq!(store.records[1].stored_release, Some(d(2019, 1, 1)));
    store.patch(&"2".to_string(), Patch { release: Some(d(2019, 9, 9)), commit: None });
    assert_eq!(store.records[1].stored_release, Some(d(2019, 9, 9)));
    assert_eq!(store.records[1].stored_commit, None);
}

#[test]
fn create_copies_the_star() {
    let mut store = MirrorStore::new();
    let s = star("C", Some(d(2022, 4, 4)), None);
    store.create(&s, "x1".to_string());
    let r = &store.records[0];
    assert_eq!(r.id, "x1");
    assert_eq!(r.title, "C");
    assert_eq!(r.owner, "octo");
    assert_eq!(r.url, "https://example.com/octo/C");
    assert_eq!(r.stored_release, Some(d(2022, 4, 4)));
    assert_eq!(r.stored_commit, None);
    assert!(!r.archived);
    assert!(store.contains_id(&"x1".to_string()));
    assert!(!store.contains_id(&"x2".to_string()));
}

#[test]
fn archived_record_neither_archived_again_nor_live() {
    let recs = vec![record("1", "A", None, None, true), record("2", "B", None, None, true)];
    let stars = vec![star("A", None, None)];
    let p = plan(&stars, &recs);
    assert_eq!(p.to_create, vec![0]);
    assert!(p.to_archive.is_empty());
    assert!(p.to_check.is_empty());
}

#[test]
fn names_join_case_sensitively() {
    let recs = vec![record("1", "repo", None, None, false)];
    let stars = vec![star("Repo", None, None)];
    let p = plan(&stars, &recs);
    assert_eq!(p.to_create, vec![0]);
    assert_eq!(p.to_archive, vec![0]);
    assert!(p.to_check.is_empty());
}

#[test]
fn empty_inputs_give_empty_plan() {
    let p = plan(&Vec::new(), &Vec::new());
    assert!(p.to_create.is_empty() && p.to_archive.is_empty() && p.to_check.is_empty());
    assert!(freshness_checks(&Vec::new(), &Vec::new()).is_empty());
}

#[test]
fn unchanged_signals_give_no_patch() {
    let recs = vec![record("1", "A", Some(d(2020, 1, 1)), Some(d(2020, 1, 2)), false)];
    let stars = vec![star("A", Some(d(2020, 1, 1)), Some(d(2020, 1, 2)))];
    assert!(freshness_checks(&stars, &recs).is_empty());
}

#[test]
fn absent_observation_does_not_clear_stored_signal() {
    let rec = record("1", "A", Some(d(2020, 1, 1)), Some(d(2020, 1, 2)), false);
    assert_eq!(freshness_patch(&rec, None, None), None);
}

#[test]
fn delta_values() {
    assert_eq!(delta(Some(d(2023, 1, 1)), Some(d(2023, 1, 1))), None);
    assert_eq!(delta(Some(d(2023, 1, 2)), Some(d(2023, 1, 1))), Some(d(2023, 1, 2)));
    assert_eq!(delta(Some(d(2023, 1, 2)), None), Some(d(2023, 1, 2)));
    assert_eq!(delta(None, Some(d(2023, 1, 1))), None);
    assert_eq!(delta(None, None), None);
    assert!(same_signal(None, None));
    assert!(!same_signal(Some(d(1, 1, 1)), None));
}

#[test]
fn lookup_outcomes() {
    assert_eq!(Lookup::Found(d(2024, 2, 29)).observed(), Some(d(2024, 2, 29)));
    assert_eq!(Lookup::NoData.observed(), None);
    assert_eq!(Lookup::Failed.observed(), None);
}

#[test]
fn freshness_pairs_with_first_star_of_a_name() {
    let recs = vec![record("1", "A", None, None, false)];
    let stars = vec![star("A", Some(d(2020, 1, 1)), None), star("A", Some(d(2021, 1, 1)), None)];
    assert_eq!(find_star(&stars, &"A".to_string()), Some(0));
    let cmds = freshness_checks(&stars, &recs);
    assert_eq!(cmds.len(), 1);
    assert_eq!(cmds[0].patch.release, Some(d(2020, 1, 1)));
}

#[test]
fn live_title_lookup_skips_archived() {
    let recs = vec![record("1", "A", None, None, true), record("2", "B", None, None, false)];
    assert!(!live_title_present(&recs, &"A".to_string()));
    assert!(live_title_present(&recs, &"B".to_string()));
}

#[test]
fn dedup_keeps_first_of_each_name() {
    let stars = vec![star("A", Some(d(1, 1, 1)), None), star("B", None, None), star("A", None, None)];
    let out = dedup_by_name(&stars);
    assert_eq!(out.len(), 2);
    assert_eq!(out[0].name, "A");
    assert_eq!(out[0].latest_release, Some(d(1, 1, 1)));
    assert_eq!(out[1].name, "B");
}

#[test]
fn star_pager_follows_pages_until_empty() {
    let mut pager = StarPager::new();
    assert_eq!(pager.page, 1);
    assert_eq!(pager.on_page(vec![star("A", None, None), star("B", None, None)]), PageStep::Fetch(2));
    assert_eq!(pager.on_page(vec![star("B", None, None)]), PageStep::Fetch(3));
    assert_eq!(pager.on_page(Vec::new()), PageStep::Done);
    assert_eq!(pager.page, 3);
    let stars = pager.finish();
    let names: Vec<String> = stars.iter().map(|s| s.name.clone()).collect();
    assert_eq!(names, vec!["A".to_string(), "B".to_string()]);
}

#[test]
fn star_pager_stops_at_last_page_number() {
    let mut pager = StarPager { stars: Vec::new(), page: u8::MAX };
    assert_eq!(pager.on_page(vec![star("A", None, None)]), PageStep::TooManyPages);
    assert_eq!(pager.stars.len(), 1);
}

#[test]
fn record_pager_reads_until_last_page() {
    let mut pager = RecordPager::new();
    assert!(pager.on_page(vec![record("1", "A", None, None, false)], true));
    assert!(!pager.on_page(vec![record("2", "B", None, None, true)], false));
    assert_eq!(pager.records.len(), 2);
    assert_eq!(pager.records[1].id, "2");
}

#[test]
fn whole_pass_applied_at_once_is_quiet_the_second_time() {
    let mut store = MirrorStore::new();
    store.records.push(record("1", "A", None, None, false));
    store.records.push(record("2", "B", None, Some(d(2020, 1, 1)), false));
    let stars = vec![star("B", Some(d(2023, 1, 1)), Some(d(2023, 2, 2))), star("C", None, None)];
    let p = plan(&stars, &store.records);
    let ids = vec!["n1".to_string()];
    store.apply_membership(&stars, &p.to_create, &p.to_archive, &ids);
    assert_eq!(store.records.len(), 3);
    assert!(store.records[0].archived);
    assert_eq!(store.records[2].id, "n1");
    assert_eq!(store.records[2].title, "C");
    let cmds = freshness_checks(&stars, &store.records);
    assert_eq!(cmds, vec![PatchCommand { record: 1, patch: Patch { release: Some(d(2023, 1, 1)), commit: Some(d(2023, 2, 2)) } }]);
    store.apply_patches(&stars, &cmds);
    assert_eq!(store.records[1].stored_release, Some(d(2023, 1, 1)));
    assert_eq!(store.records[1].stored_commit, Some(d(2023, 2, 2)));
    let again = plan(&stars, &store.records);
    assert!(again.to_create.is_empty() && again.to_archive.is_empty());
    assert_eq!(again.to_check, vec![1, 2]);
    assert!(freshness_checks(&stars, &store.records).is_empty());
}
