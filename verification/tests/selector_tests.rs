use gitmirrors::jobs::MirrorJob;
use gitmirrors::jobs::select_due_jobs;

fn job(id: &str, enabled: bool, period: u32, last: Option<u64>) -> MirrorJob {
    MirrorJob {
        id: id.to_string(),
        source_url: format!("ssh://src/{}", id),
        source_key: None,
        target_url: format!("ssh://dst/{}", id),
        target_key: None,
        period_seconds: period,
        last_run_at: last,
        enabled,
    }
}

fn ids(jobs: &[MirrorJob]) -> Vec<String> {
    jobs.iter().map(|j| j.id.clone()).collect()
}

#[test]
fn disabled_jobs_are_never_selected() {
    let now: u64 = 1_000_000;
    let jobs = vec![
        job("a", false, 60, None),
        job("b", false, 60, Some(now - 100_000)),
        job("c", true, 60, Some(now - 120)),
    ];
    let picked = select_due_jobs(jobs, now, 10);
    assert_eq!(ids(&picked), vec!["c".to_string()]);
}

#[test]
fn never_run_jobs_are_immediately_due() {
    let j = job("a", true, 3_600, None);
    assert!(j.is_due_at(0));
    assert!(j.is_due_at(u64::MAX));
    let picked = select_due_jobs(vec![job("a", true, 3_600, None)], 5, 3);
    assert_eq!(picked.len(), 1);
}

#[test]
fn due_boundary_is_inclusive() {
    let now: u64 = 10_000;
    assert!(job("a", true, 60, Some(now - 60)).is_due_at(now));
    assert!(!job("a", true, 60, Some(now - 59)).is_due_at(now));
    assert!(job("a", true, 60, Some(now - 61)).is_due_at(now));
}

#[test]
fn selection_caps_at_limit_and_orders_most_overdue_first() {
    let now: u64 = 1_000_000;
    // overdue amounts: e=5000, d=4000, c=3000, b=2000, a=1000
    let jobs = vec![
        job("a", true, 60, Some(now - 1_000)),
        job("d", true, 60, Some(now - 4_000)),
        job("b", true, 60, Some(now - 2_000)),
        job("e", true, 60, Some(now - 5_000)),
        job("c", true, 60, Some(now - 3_000)),
    ];
    let picked = select_due_jobs(jobs, now, 3);
    assert_eq!(ids(&picked), vec!["e".to_string(), "d".to_string(), "c".to_string()]);
}

#[test]
fn selection_returns_all_due_when_under_limit() {
    let now: u64 = 1_000_000;
    let jobs = vec![
        job("a", true, 60, Some(now - 1_000)),
        job("b", true, 60, Some(now - 30)),  // not due
        job("c", true, 60, None),            // never run: most overdue of all
    ];
    let picked = select_due_jobs(jobs, now, 10);
    assert_eq!(ids(&picked), vec!["c".to_string(), "a".to_string()]);
}

#[test]
fn empty_selection_when_nothing_due() {
    let now: u64 = 1_000_000;
    let jobs = vec![
        job("a", true, 600, Some(now - 10)),
        job("b", false, 60, None),
    ];
    let picked = select_due_jobs(jobs, now, 3);
    assert!(picked.is_empty());
}

#[test]
fn ties_keep_both_jobs_when_room_allows() {
    let now: u64 = 1_000_000;
    let jobs = vec![
        job("a", true, 60, Some(now - 2_000)),
        job("b", true, 60, Some(now - 2_000)),
    ];
    let picked = select_due_jobs(jobs, now, 5);
    let mut got = ids(&picked);
    got.sort();
    assert_eq!(got, vec!["a".to_string(), "b".to_string()]);
}
