use prowl::changes::{Changes, Tracker};
use prowl::merged::MergedRow;
use prowl::prs::PrRow;
use prowl::snapshot::{should_ring, Snapshot};
use prowl::status::Status;
use std::collections::HashSet;

fn pr(number: i64, status: Option<Status>) -> PrRow {
    PrRow {
        number,
        is_draft: false,
        title: format!("PR {number}"),
        status,
        merge_state: Some("CLEAN".to_string()),
        queue: None,
        fail: 0,
        url: format!("https://x/{number}"),
        updated_at: Some("2026-06-19T00:00:00Z".to_string()),
    }
}

fn merged(number: i64) -> MergedRow {
    MergedRow {
        number,
        title: format!("PR {number}"),
        url: format!("https://x/{number}"),
        release: None,
        merged_at: Some("2026-06-19T00:00:00Z".to_string()),
        updated_at: Some("2026-06-19T00:00:00Z".to_string()),
    }
}

#[test]
fn status_change_rings_and_is_pinpointed() {
    let before = Tracker::build(
        Some(&[pr(1, Some(Status::Pending)), pr(2, Some(Status::Pass))]),
        None,
    );
    let after = Tracker::build(
        Some(&[pr(1, Some(Status::Pass)), pr(2, Some(Status::Pass))]),
        None,
    );
    let c = after.diff(&before);
    assert!(c.any());
    assert_eq!(c.status_changed, HashSet::from([1]));
    assert!(c.newly_merged.is_empty());
}

#[test]
fn merging_rings() {
    let before = Tracker::build(Some(&[pr(7, Some(Status::Pass))]), Some(&[]));
    let after = Tracker::build(Some(&[]), Some(&[merged(7)]));
    let c = after.diff(&before);
    assert!(c.any());
    assert_eq!(c.newly_merged, HashSet::from([7]));
}

#[test]
fn reordering_and_new_prs_do_not_ring() {
    let before = Tracker::build(
        Some(&[pr(1, Some(Status::Pass)), pr(2, Some(Status::Pass))]),
        None,
    );
    let after = Tracker::build(
        Some(&[
            pr(2, Some(Status::Pass)),
            pr(1, Some(Status::Pass)),
            pr(3, Some(Status::Fail)),
        ]),
        None,
    );
    assert!(!after.diff(&before).any());
}

#[test]
fn first_refresh_is_silent() {
    let cur = Tracker::build(Some(&[pr(1, Some(Status::Fail))]), Some(&[merged(2)]));
    assert!(!Changes::default().any());
    // Against nothing at all, only the merged pull request is new.
    let c = cur.diff(&Tracker::default());
    assert!(c.status_changed.is_empty());
    assert_eq!(c.newly_merged, HashSet::from([2]));
}

fn pr_row(number: i64, status: Option<Status>, fail: usize, title: &str) -> PrRow {
    PrRow {
        title: title.to_string(),
        fail,
        updated_at: None,
        ..pr(number, status)
    }
}

fn merged_row(number: i64, at: &str) -> MergedRow {
    MergedRow {
        merged_at: Some(at.to_string()),
        updated_at: None,
        ..merged(number)
    }
}

#[test]
fn identical_rows_are_unchanged() {
    let a = vec![pr_row(1, Some(Status::Pass), 0, "t")];
    let s1 = Snapshot::build(None, None, Some(&a));
    let s2 = Snapshot::build(None, None, Some(&a));
    assert_eq!(s1, s2);
    assert!(!should_ring(Some(&s1), &s2));
}

#[test]
fn status_change_is_detected() {
    let before = Snapshot::build(None, None, Some(&[pr_row(1, Some(Status::Pending), 0, "t")]));
    let after = Snapshot::build(None, None, Some(&[pr_row(1, Some(Status::Pass), 0, "t")]));
    assert_ne!(before, after);
    assert!(should_ring(Some(&before), &after));
}

#[test]
fn fail_count_and_title_changes_are_detected() {
    let base = pr_row(1, Some(Status::Fail), 1, "t");
    let s = Snapshot::build(None, None, Some(&[base.clone()]));
    let more_fails = Snapshot::build(None, None, Some(&[pr_row(1, Some(Status::Fail), 2, "t")]));
    let retitled = Snapshot::build(None, None, Some(&[pr_row(1, Some(Status::Fail), 1, "t2")]));
    assert_ne!(s, more_fails);
    assert_ne!(s, retitled);
    assert!(should_ring(Some(&s), &more_fails));
    assert!(should_ring(Some(&s), &retitled));
}

#[test]
fn a_pr_merging_is_detected_and_reported() {
    let before = Snapshot::build(None, None, Some(&[pr_row(7, Some(Status::Pass), 0, "t")]));
    let after = Snapshot::build(Some(&[merged_row(7, "2026-06-19T00:00:00Z")]), None, None);
    assert_ne!(before, after);
    assert_eq!(after.newly_merged(&before), vec![7]);
}

#[test]
fn disabled_sections_do_not_register_as_change() {
    let prs = vec![pr_row(1, Some(Status::Pass), 0, "t")];
    let enabled_empty = Snapshot::build(None, Some(&[]), Some(&prs));
    let disabled = Snapshot::build(None, None, Some(&prs));
    assert_eq!(enabled_empty, disabled);
}

#[test]
fn rings_exactly_once_per_changed_refresh() {
    let a = Snapshot::build(None, None, Some(&[pr_row(1, Some(Status::Pending), 0, "t")]));
    let b = Snapshot::build(None, None, Some(&[pr_row(1, Some(Status::Pass), 0, "t")]));
    let seq = [a.clone(), a.clone(), b.clone(), b.clone(), a.clone()];
    let mut prev: Option<Snapshot> = None;
    let mut rings = Vec::new();
    for s in &seq {
        rings.push(should_ring(prev.as_ref(), s));
        prev = Some(s.clone());
    }
    assert_eq!(rings, vec![false, false, true, false, true]);
}

#[test]
fn known_merges_are_not_reported_again() {
    let before = Snapshot::build(Some(&[merged_row(7, "a")]), None, None);
    let after = Snapshot::build(
        Some(&[merged_row(9, "c"), merged_row(7, "b"), merged_row(8, "a")]),
        None,
        None,
    );
    assert_eq!(after.newly_merged(&before), vec![9, 8]);
    assert_eq!(Snapshot::default().newly_merged(&before), Vec::<i64>::new());
}

#[test]
fn copies_see_the_same_changes() {
    let before = Tracker::build(Some(&[pr(1, Some(Status::Pass))]), Some(&[]));
    let after = Tracker::build(Some(&[pr(1, Some(Status::Fail))]), Some(&[merged(2)]));
    let c = after.clone().diff(&before.clone());
    assert!(c.status_changed.contains(&1));
    assert!(c.newly_merged.contains(&2));
    let copy = c.clone();
    assert_eq!(copy.status_changed, c.status_changed);
    assert_eq!(copy.newly_merged, c.newly_merged);
    assert!(after.clone().diff(&after).status_changed.is_empty());
}
