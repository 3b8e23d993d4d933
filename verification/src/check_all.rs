//! Checking many exercises: which ones a sweep can skip because their
//! source is unchanged since they were last verified done, and running a
//! verifier over the rest.

use vstd::prelude::*;
use crate::info::{DoneState, Exercise, format_state, lemma_done_round_trip, parse_state, storable_name};
use crate::verify::{Status, StatusView};

verus! {

/// One unit of verification work: an exercise checked against a specific
/// root (the practice root, or a scratch root holding a solution).
pub struct Job {
    pub index: usize,
    pub root: String,
    pub exercise: Exercise,
}

/// A job's outcome, tagged with its job's index.
pub struct JobResult {
    pub index: usize,
    pub status: Status,
}

/// The exercise's source is unchanged since it was last verified done:
/// it is recorded done, its current whole-second modification time `m` is
/// known, and equals the recorded one.
pub open spec fn sweep_hit(done: Map<Seq<char>, Option<u64>>, ex: Exercise, m: Option<u64>) -> bool {
    done.contains_key(ex.name@) && m is Some && done[ex.name@] == m
}

/// The positions below `n` whose exercise is (`hit`) or is not (`!hit`)
/// unchanged, in increasing order.
pub open spec fn sweep_positions(
    done: Map<Seq<char>, Option<u64>>,
    exs: Seq<Exercise>,
    mtimes: Seq<Option<u64>>,
    n: int,
    hit: bool,
) -> Seq<int>
    decreases n,
{
    if n <= 0 {
        seq![]
    } else {
        let prev = sweep_positions(done, exs, mtimes, n - 1, hit);
        if sweep_hit(done, exs[n - 1], mtimes[n - 1]) == hit {
            prev.push(n - 1)
        } else {
            prev
        }
    }
}

/// Splits a sweep over `exercises` into jobs to run and results known at
/// once: an exercise whose source is unchanged since it was last verified
/// done (`mtimes[i]` is the current whole-second modification time of
/// exercise `i`'s source, `None` if it cannot be read) is reported `Done`
/// without running anything; every other one becomes a job, in order.
pub fn plan_sweep(
    root: &str,
    exercises: &Vec<Exercise>,
    done: &DoneState,
    mtimes: &Vec<Option<u64>>,
) -> (r: (Vec<Job>, Vec<(usize, Status)>))
    requires
        done.wf(),
        mtimes.len() == exercises.len(),
    ensures
        ({
            let misses = sweep_positions(done@, exercises@, mtimes@, exercises.len() as int, false);
            &&& r.0.len() == misses.len()
            &&& forall|k: int|
                0 <= k < misses.len() ==> {
                    &&& (#[trigger] r.0[k]).index == misses[k]
                    &&& r.0[k].root@ == root@
                    &&& r.0[k].exercise.same_as(exercises[misses[k]])
                }
        }),
        ({
            let hits = sweep_positions(done@, exercises@, mtimes@, exercises.len() as int, true);
            &&& r.1.len() == hits.len()
            &&& forall|k: int|
                0 <= k < hits.len() ==> (#[trigger] r.1[k]).0 == hits[k] && r.1[k].1@
                    is Done
        }),
{
    let mut jobs: Vec<Job> = Vec::new();
    let mut cached: Vec<(usize, Status)> = Vec::new();
    let mut i: usize = 0;
    while i < exercises.len()
        invariant
            i <= exercises.len() == mtimes.len(),
            done.wf(),
            ({
                let misses = sweep_positions(done@, exercises@, mtimes@, i as int, false);
                &&& jobs.len() == misses.len()
                &&& forall|k: int|
                    0 <= k < misses.len() ==> {
                        &&& (#[trigger] jobs[k]).index == misses[k]
                        &&& jobs[k].root@ == root@
                        &&& jobs[k].exercise.same_as(exercises[misses[k]])
                    }
            }),
            ({
                let hits = sweep_positions(done@, exercises@, mtimes@, i as int, true);
                &&& cached.len() == hits.len()
                &&& forall|k: int|
                    0 <= k < hits.len() ==> (#[trigger] cached[k]).0 == hits[k] && cached[k].1@
                        is Done
            }),
        decreases exercises.len() - i,
    {
        let ex = &exercises[i];
        let current = mtimes[i];
        let unchanged = done.contains(ex.name.as_str()) && current.is_some() && done.mtime(
            ex.name.as_str(),
        ) == current;
        assert(unchanged == sweep_hit(done@, exercises@[i as int], mtimes@[i as int]));
        if unchanged {
            cached.push((i, Status::Done));
        } else {
            jobs.push(Job { index: i, root: String::from_str(root), exercise: ex.clone() });
        }
        i = i + 1;
    }
    (jobs, cached)
}

/// A sweep reports every exercise exactly once: each position below `n`
/// is either known `Done` at once (its source is unchanged since it was
/// last verified done) or becomes a job, never both, and nothing else is
/// reported.
pub proof fn lemma_sweep_partition(
    done: Map<Seq<char>, Option<u64>>,
    exs: Seq<Exercise>,
    mtimes: Seq<Option<u64>>,
    n: int,
)
    requires
        0 <= n,
    ensures
        sweep_positions(done, exs, mtimes, n, true).len() + sweep_positions(
            done,
            exs,
            mtimes,
            n,
            false,
        ).len() == n,
        forall|i: int|
            0 <= i < n ==> (sweep_positions(done, exs, mtimes, n, true).contains(i) <==> sweep_hit(
                done,
                exs[i],
                mtimes[i],
            )),
        forall|i: int|
            0 <= i < n ==> (sweep_positions(done, exs, mtimes, n, false).contains(i) <==> !sweep_hit(
                done,
                exs[i],
                mtimes[i],
            )),
        forall|i: int|
            sweep_positions(done, exs, mtimes, n, true).contains(i) || sweep_positions(
                done,
                exs,
                mtimes,
                n,
                false,
            ).contains(i) ==> 0 <= i < n,
    decreases n,
{
    if n > 0 {
        lemma_sweep_partition(done, exs, mtimes, n - 1);
        let h0 = sweep_positions(done, exs, mtimes, n - 1, true);
        let m0 = sweep_positions(done, exs, mtimes, n - 1, false);
        let h = sweep_positions(done, exs, mtimes, n, true);
        let m = sweep_positions(done, exs, mtimes, n, false);
        if sweep_hit(done, exs[n - 1], mtimes[n - 1]) {
            assert(h == h0.push(n - 1));
            assert(m == m0);
            assert forall|i: int| h.contains(i) <==> (h0.contains(i) || i == n - 1) by {
                if h.contains(i) {
                    let k = choose|k: int| 0 <= k < h.len() && h[k] == i;
                    if k < h0.len() {
                        assert(h0[k] == i);
                    }
                }
                if i == n - 1 {
                    assert(h[h.len() - 1] == i);
                }
                if h0.contains(i) {
                    let k = choose|k: int| 0 <= k < h0.len() && h0[k] == i;
                    assert(h[k] == i);
                }
            }
        } else {
            assert(m == m0.push(n - 1));
            assert(h == h0);
            assert forall|i: int| m.contains(i) <==> (m0.contains(i) || i == n - 1) by {
                if m.contains(i) {
                    let k = choose|k: int| 0 <= k < m.len() && m[k] == i;
                    if k < m0.len() {
                        assert(m0[k] == i);
                    }
                }
                if i == n - 1 {
                    assert(m[m.len() - 1] == i);
                }
                if m0.contains(i) {
                    let k = choose|k: int| 0 <= k < m0.len() && m0[k] == i;
                    assert(m[k] == i);
                }
            }
        }
    }
}

/// An exercise recorded done with its source's whole-second modification
/// time `m` is still skipped by a sweep after the record is saved and
/// loaded again, as long as its source keeps that modification time.
pub proof fn lemma_saved_record_skips_unchanged(d: &DoneState, ex: Exercise, m: u64)
    requires
        d.wf(),
        forall|k: Seq<char>| d@.contains_key(k) ==> storable_name(k),
        d@.contains_key(ex.name@),
        d@[ex.name@] == Some(m),
    ensures
        sweep_hit(parse_state(format_state(d.ordered())), ex, Some(m)),
{
    lemma_done_round_trip(d);
}

/// The outcomes the verifier gave for the jobs: one per job, tagged with
/// its index.
pub open spec fn verified_all<F: Fn(&String, &Exercise) -> Status>(
    jobs: Seq<Job>,
    verifier: F,
    results: Seq<JobResult>,
) -> bool {
    &&& results.len() == jobs.len()
    &&& forall|k: int|
        0 <= k < jobs.len() ==> {
            &&& (#[trigger] results[k]).index == jobs[k].index
            &&& verifier.ensures((&jobs[k].root, &jobs[k].exercise), results[k].status)
        }
}


/// Runs `verifier` on every job and collects every result, one per job,
/// in job order (any order of completion is acceptable to callers, which
/// recover input order through `JobResult::index`).
pub fn run_blocking<F: Fn(&String, &Exercise) -> Status>(jobs: Vec<Job>, verifier: F) -> (r: Vec<
    JobResult,
>)
    requires
        forall|root: &String, ex: &Exercise| verifier.requires((root, ex)),
    ensures
        verified_all(jobs@, verifier, r@),
{
    let n = jobs.len();
    let mut results: Vec<JobResult> = Vec::new();
    if n == 0 {
        return results;
    }
    let mut i: usize = 0;
    while i < n
        invariant
            n == jobs.len(),
            i <= n,
            forall|root: &String, ex: &Exercise| verifier.requires((root, ex)),
            verified_all(jobs@.take(i as int), verifier, results@),
        decreases n - i,
    {
        let job = &jobs[i];
        let status = verifier(&job.root, &job.exercise);
        results.push(JobResult { index: job.index, status });
        assert(jobs@.take(i + 1)[i as int] == jobs@[i as int]);
        i = i + 1;
    }
    assert(jobs@.take(n as int) =~= jobs@);
    results
}

} // verus!
