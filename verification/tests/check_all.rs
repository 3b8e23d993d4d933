use latexlings::check_all::{plan_sweep, run_blocking, Job, JobResult};
use latexlings::info::{
    format_done_state, parse_done_state, truncate_to_secs, DoneState, Exercise, Mode, SysTime,
};
use latexlings::verify::Status;
use std::sync::atomic::{AtomicUsize, Ordering};
use std::sync::Arc;

fn fake_exercise(name: &str) -> Exercise {
    Exercise {
        name: name.to_string(),
        dir: "00_intro".to_string(),
        mode: Mode::Fix,
        hint: "hint".to_string(),
        checks: vec![],
        compiles_as_shipped: false,
        strict_chktex: false,
    }
}

fn job(index: usize, name: &str) -> Job {
    Job { index, root: "/tmp".to_string(), exercise: fake_exercise(name) }
}

#[test]
fn run_blocking_returns_one_result_per_job_tagged_by_index() {
    let calls = Arc::new(AtomicUsize::new(0));
    let calls_clone = Arc::clone(&calls);
    let verifier = move |_root: &String, ex: &Exercise| {
        calls_clone.fetch_add(1, Ordering::SeqCst);
        if ex.name == "fails" {
            Status::CompileFail("boom".into())
        } else {
            Status::Done
        }
    };

    let jobs = vec![job(0, "a"), job(1, "fails"), job(2, "c")];

    let mut results: Vec<JobResult> = run_blocking(jobs, verifier);
    results.sort_by_key(|r| r.index);

    assert_eq!(calls.load(Ordering::SeqCst), 3);
    assert_eq!(results.len(), 3);
    assert!(results[0].status.is_done());
    assert!(!results[1].status.is_done());
    assert!(results[2].status.is_done());
}

#[test]
fn run_blocking_on_empty_jobs_returns_empty() {
    let verifier = |_: &String, _: &Exercise| Status::Done;
    let results = run_blocking(Vec::new(), verifier);
    assert!(results.is_empty());
}

#[test]
fn run_blocking_keeps_the_jobs_indices() {
    let jobs = vec![job(7, "x"), job(3, "y")];
    let results = run_blocking(jobs, |_: &String, ex: &Exercise| {
        if ex.name == "y" {
            Status::MarkerPresent
        } else {
            Status::Done
        }
    });
    assert_eq!(results.len(), 2);
    assert_eq!(results[0].index, 7);
    assert!(results[0].status.is_done());
    assert_eq!(results[1].index, 3);
    assert!(!results[1].status.is_done());
}

#[test]
fn plan_sweep_skips_unchanged_done_exercises_and_queues_the_rest() {
    let exercises = vec![fake_exercise("a"), fake_exercise("b"), fake_exercise("c")];
    // The whole-second modification times the sources have now.
    let a_mtime = truncate_to_secs(SysTime { since_epoch: true, secs: 1_700_000_123, nanos: 456_000_000 });
    let mtimes = vec![Some(a_mtime), Some(1_700_000_500), Some(1_700_000_900)];

    let mut done = DoneState::new();
    done.insert("a".to_string(), Some(a_mtime));
    // "b" is done but with a stale mtime far in the past -> must be rechecked.
    done.insert("b".to_string(), Some(1));
    // "c" was never verified -> must be checked.

    let (jobs, cached) = plan_sweep("/tmp/latexlings-plan", &exercises, &done, &mtimes);

    assert_eq!(cached.len(), 1);
    assert_eq!(cached[0].0, 0); // index of "a"
    assert!(cached[0].1.is_done());

    let mut job_names: Vec<&str> = jobs.iter().map(|j| j.exercise.name.as_str()).collect();
    job_names.sort();
    assert_eq!(job_names, vec!["b", "c"]);
    assert_eq!(jobs[0].index, 1);
    assert_eq!(jobs[1].index, 2);
    assert_eq!(jobs[0].root, "/tmp/latexlings-plan");
}

#[test]
fn plan_sweep_hits_cache_after_mtime_round_trips_through_saved_state() {
    let exercises = vec![fake_exercise("a")];
    // A fresh, sub-second modification time of the untouched source.
    let fresh = SysTime { since_epoch: true, secs: 1_700_000_042, nanos: 987_654_321 };

    let mut done = DoneState::new();
    done.insert("a".to_string(), Some(truncate_to_secs(fresh)));
    let saved = format_done_state(&done);
    let done = parse_done_state(&saved);

    let (jobs, cached) = plan_sweep("/tmp/latexlings-plan-roundtrip", &exercises, &done, &vec![Some(truncate_to_secs(fresh))]);

    assert_eq!(
        cached.len(),
        1,
        "expected 'a' to be a cache hit after its mtime round-tripped through disk state"
    );
    assert_eq!(cached[0].0, 0);
    assert!(cached[0].1.is_done());
    assert!(jobs.is_empty());
}

#[test]
fn plan_sweep_rechecks_when_the_mtime_is_unknown() {
    let exercises = vec![fake_exercise("a"), fake_exercise("b")];
    let mut done = DoneState::new();
    done.insert("a".to_string(), None);
    done.insert("b".to_string(), Some(5));
    let (jobs, cached) = plan_sweep("r", &exercises, &done, &vec![None, None]);
    assert!(cached.is_empty());
    assert_eq!(jobs.len(), 2);
}

#[test]
fn plan_sweep_partitions_every_exercise() {
    let exercises = vec![fake_exercise("a"), fake_exercise("b"), fake_exercise("c"), fake_exercise("d")];
    let mut done = DoneState::new();
    done.insert("b".to_string(), Some(10));
    done.insert("d".to_string(), Some(20));
    let mtimes = vec![Some(1), Some(10), Some(3), Some(20)];
    let (jobs, cached) = plan_sweep("r", &exercises, &done, &mtimes);
    let mut seen: Vec<usize> = jobs.iter().map(|j| j.index).chain(cached.iter().map(|c| c.0)).collect();
    seen.sort();
    assert_eq!(seen, vec![0, 1, 2, 3]);
    assert_eq!(cached.iter().map(|c| c.0).collect::<Vec<_>>(), vec![1, 3]);
}
