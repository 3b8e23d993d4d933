//! The watch mode's state and its decisions: which exercise is current,
//! what each key does, what a finished compile records, how a check-all
//! sweep starts and is reconciled, and when the watched file counts as
//! changed. Drawing, the terminal and the running of tools are the
//! caller's.

use vstd::prelude::*;
use crate::check_all::{Job, plan_sweep, sweep_hit, sweep_positions};
use crate::cli::record_result;
use crate::editor::EditorConfig;
use crate::info::{DoneState, Exercise, SysTime, truncate_to_secs};
use crate::text::{chars_of, contains_chars, contains_sub, string_of};
use crate::verify::{LintResult, Status, StatusView, lint_notes};

verus! {

/// Which screen is shown.
#[derive(Clone, Copy, Debug, PartialEq, Eq, Structural)]
pub enum UiMode {
    Watch,
    List,
    CheckAll,
}

/// Which exercises the list shows.
#[derive(Clone, Copy, Debug, PartialEq, Eq, Structural)]
pub enum ListFilter {
    All,
    Done,
    Pending,
}

/// A key press, as far as the watch mode tells keys apart.
#[derive(Clone, Copy, Debug, PartialEq, Eq, Structural)]
pub enum Key {
    Char(char),
    /// Ctrl-C.
    CtrlC,
    Esc,
    Enter,
    Up,
    Down,
    PageUp,
    PageDown,
    Backspace,
    Other,
}

/// What the caller must do after a key.
#[derive(Clone, Copy, Debug, PartialEq, Eq, Structural)]
pub enum KeyOutcome {
    /// Nothing beyond redrawing.
    Continue,
    /// Leave the watch mode.
    Quit,
    /// Open exercise `i` in the editor.
    OpenEditor(usize),
    /// Restore exercise `i` to its shipped state, then call `after_reset`.
    Reset(usize),
    /// Start a check-all sweep: call `start_check_all` with the current
    /// modification times and run the jobs it returns.
    StartCheckAll,
    /// The finished sweep is to be reconciled: call `finish_check_all`
    /// with the current modification times.
    FinishCheckAll,
}

/// The watch mode's state.
pub struct App {
    pub root: String,
    pub exercises: Vec<Exercise>,
    pub done: DoneState,
    /// The exercise being worked on; `exercises.len()` once all are done.
    pub current: usize,
    pub status: Option<Status>,
    pub lints: Option<LintResult>,
    pub show_hint: bool,
    pub scroll: u16,
    pub mode: UiMode,
    /// The selected row of the list, if any.
    pub selected: Option<usize>,
    /// The current exercise's modification time when it was last compiled.
    pub last_mtime: Option<SysTime>,
    /// The current exercise must be compiled again.
    pub dirty: bool,
    pub flash: Option<String>,
    /// The sweep's result for each exercise, once known.
    pub check_results: Vec<Option<Status>>,
    /// A sweep is still running.
    pub check_running: bool,
    pub list_filter: ListFilter,
    /// The search being typed in the list, if any.
    pub search: Option<String>,
    pub editor_config: EditorConfig,
    /// The exercise last opened in the editor.
    pub last_opened: Option<usize>,
}

/// The state as plain values.
pub struct AppView {
    pub root: Seq<char>,
    pub exercises: Seq<Exercise>,
    pub done: Map<Seq<char>, Option<u64>>,
    pub current: usize,
    pub status: Option<StatusView>,
    pub lints: Option<Seq<Seq<char>>>,
    pub show_hint: bool,
    pub scroll: u16,
    pub mode: UiMode,
    pub selected: Option<usize>,
    pub last_mtime: Option<SysTime>,
    pub dirty: bool,
    pub flash: Option<Seq<char>>,
    pub check_results: Seq<Option<StatusView>>,
    pub check_running: bool,
    pub list_filter: ListFilter,
    pub search: Option<Seq<char>>,
    pub edit_cmd: Option<Seq<char>>,
    pub editor_disabled: bool,
    pub last_opened: Option<usize>,
}

pub open spec fn opt_view(s: Option<String>) -> Option<Seq<char>> {
    match s {
        Some(x) => Some(x@),
        None => None,
    }
}

pub open spec fn opt_status(s: Option<Status>) -> Option<StatusView> {
    match s {
        Some(x) => Some(x@),
        None => None,
    }
}

pub open spec fn results_view(r: Seq<Option<Status>>) -> Seq<Option<StatusView>> {
    r.map_values(|x: Option<Status>| opt_status(x))
}

impl App {
    pub open spec fn view(&self) -> AppView {
        AppView {
            root: self.root@,
            exercises: self.exercises@,
            done: self.done@,
            current: self.current,
            status: opt_status(self.status),
            lints: lint_notes(self.lints),
            show_hint: self.show_hint,
            scroll: self.scroll,
            mode: self.mode,
            selected: self.selected,
            last_mtime: self.last_mtime,
            dirty: self.dirty,
            flash: opt_view(self.flash),
            check_results: results_view(self.check_results@),
            check_running: self.check_running,
            list_filter: self.list_filter,
            search: opt_view(self.search),
            edit_cmd: opt_view(self.editor_config.edit_cmd),
            editor_disabled: self.editor_config.disabled,
            last_opened: self.last_opened,
        }
    }

    /// The state is consistent: the record is well formed, the current
    /// exercise and the list selection are in range, and the sweep results
    /// are at most one per exercise.
    pub open spec fn wf(&self) -> bool {
        &&& self.done.wf()
        &&& self.current <= self.exercises.len()
        &&& (self.selected matches Some(i) ==> i <= self.exercises.len())
        &&& self.check_results.len() <= self.exercises.len()
    }
}

/// The first exercise from position `i` on that is not done, or the
/// number of exercises when there is none.
pub open spec fn first_pending_from(
    exs: Seq<Exercise>,
    done: Map<Seq<char>, Option<u64>>,
    i: int,
) -> int
    decreases exs.len() - i,
{
    if i >= exs.len() {
        exs.len() as int
    } else if !done.contains_key(exs[i].name@) {
        i
    } else {
        first_pending_from(exs, done, i + 1)
    }
}

proof fn lemma_first_pending_range(exs: Seq<Exercise>, done: Map<Seq<char>, Option<u64>>, i: int)
    requires
        0 <= i,
    ensures
        i <= first_pending_from(exs, done, i) <= exs.len() || (i > exs.len()
            && first_pending_from(exs, done, i) == exs.len()),
    decreases exs.len() - i,
{
    if i < exs.len() && done.contains_key(exs[i].name@) {
        lemma_first_pending_range(exs, done, i + 1);
    }
}

fn first_pending_exec(exs: &Vec<Exercise>, done: &DoneState, from: usize) -> (r: usize)
    requires
        done.wf(),
    ensures
        r == first_pending_from(exs@, done@, from as int),
{
    let mut i = from;
    if i >= exs.len() {
        return exs.len();
    }
    while i < exs.len()
        invariant
            from <= i <= exs.len(),
            done.wf(),
            first_pending_from(exs@, done@, from as int) == first_pending_from(
                exs@,
                done@,
                i as int,
            ),
        decreases exs.len() - i,
    {
        if !done.contains(exs[i].name.as_str()) {
            return i;
        }
        i = i + 1;
    }
    i
}

/// The exercises the list shows, below position `n`, in order.
pub open spec fn visible_upto(
    exs: Seq<Exercise>,
    done: Map<Seq<char>, Option<u64>>,
    filter: ListFilter,
    n: int,
) -> Seq<usize>
    decreases n,
{
    if n <= 0 {
        seq![]
    } else {
        let prev = visible_upto(exs, done, filter, n - 1);
        let shown = match filter {
            ListFilter::All => true,
            ListFilter::Done => done.contains_key(exs[n - 1].name@),
            ListFilter::Pending => !done.contains_key(exs[n - 1].name@),
        };
        if shown {
            prev.push((n - 1) as usize)
        } else {
            prev
        }
    }
}

/// The rows the list shows.
pub open spec fn visible(v: AppView) -> Seq<usize> {
    visible_upto(v.exercises, v.done, v.list_filter, v.exercises.len() as int)
}

pub(crate) proof fn lemma_visible_bounds(
    exs: Seq<Exercise>,
    done: Map<Seq<char>, Option<u64>>,
    filter: ListFilter,
    n: int,
)
    requires
        0 <= n <= exs.len(),
    ensures
        visible_upto(exs, done, filter, n).len() <= n,
        forall|k: int|
            0 <= k < visible_upto(exs, done, filter, n).len() ==> #[trigger] visible_upto(
                exs,
                done,
                filter,
                n,
            )[k] < n,
    decreases n,
{
    if n > 0 {
        lemma_visible_bounds(exs, done, filter, n - 1);
    }
}

impl App {
    /// The watch mode's starting state: the first exercise not yet done is
    /// current (or none, when all are), and it is to be compiled.
    pub fn new(root: String, exercises: Vec<Exercise>, done: DoneState, editor_config: EditorConfig) -> (app: App)
        requires
            done.wf(),
        ensures
            app.wf(),
            app.root == root,
            app.exercises@ == exercises@,
            app.done@ == done@,
            app.current == first_pending_from(exercises@, done@, 0),
            app.selected == Some(
                if app.current as int <= exercises.len() - 1 {
                    app.current
                } else if exercises.len() == 0 {
                    0
                } else {
                    (exercises.len() - 1) as usize
                },
            ),
            app.status is None,
            app.lints is None,
            !app.show_hint,
            app.scroll == 0,
            app.mode == UiMode::Watch,
            app.last_mtime is None,
            app.dirty,
            app.flash is None,
            app.check_results.len() == 0,
            !app.check_running,
            app.list_filter == ListFilter::All,
            app.search is None,
            app.editor_config == editor_config,
            app.last_opened is None,
    {
        let current = first_pending_exec(&exercises, &done, 0);
        proof {
            lemma_first_pending_range(exercises@, done@, 0);
        }
        let last = if exercises.len() == 0 {
            0
        } else {
            exercises.len() - 1
        };
        let sel = if current <= last {
            current
        } else {
            last
        };
        App {
            root,
            exercises,
            done,
            current,
            status: None,
            lints: None,
            show_hint: false,
            scroll: 0,
            mode: UiMode::Watch,
            selected: Some(sel),
            last_mtime: None,
            dirty: true,
            flash: None,
            check_results: Vec::new(),
            check_running: false,
            list_filter: ListFilter::All,
            search: None,
            editor_config,
            last_opened: None,
        }
    }

    /// Every exercise is done.
    pub fn all_done(&self) -> (b: bool)
        ensures
            b == (self.current >= self.exercises.len()),
    {
        self.current >= self.exercises.len()
    }

    /// The exercise being worked on, if any.
    pub fn cur(&self) -> (r: Option<&Exercise>)
        ensures
            self.current < self.exercises.len() ==> r == Some(&self.exercises[self.current as int]),
            self.current >= self.exercises.len() ==> r is None,
    {
        if self.current < self.exercises.len() {
            Some(&self.exercises[self.current])
        } else {
            None
        }
    }

    /// The rows the list shows: every exercise, the done ones, or the
    /// pending ones, in order.
    pub fn visible_rows(&self) -> (rows: Vec<usize>)
        requires
            self.wf(),
        ensures
            rows@ == visible(self.view()),
    {
        let mut rows: Vec<usize> = Vec::new();
        let mut i: usize = 0;
        while i < self.exercises.len()
            invariant
                i <= self.exercises.len(),
                self.wf(),
                rows@ == visible_upto(self.exercises@, self.done@, self.list_filter, i as int),
            decreases self.exercises.len() - i,
        {
            let shown = match self.list_filter {
                ListFilter::All => true,
                ListFilter::Done => self.done.contains(self.exercises[i].name.as_str()),
                ListFilter::Pending => !self.done.contains(self.exercises[i].name.as_str()),
            };
            if shown {
                rows.push(i);
            }
            i = i + 1;
        }
        rows
    }
}


// ---------------------------------------------------------------------------
// moving on, compiling, watching
// ---------------------------------------------------------------------------

/// The exercise after the current one that is not done, wrapping around
/// to the first one not done; the number of exercises when all are done.
pub open spec fn next_pending(v: AppView) -> int {
    let after = first_pending_from(v.exercises, v.done, v.current + 1);
    if after < v.exercises.len() {
        after
    } else {
        first_pending_from(v.exercises, v.done, 0)
    }
}

/// The state after moving on to the next exercise not done.
pub open spec fn advanced(v: AppView) -> AppView {
    let next = next_pending(v);
    AppView {
        current: next as usize,
        status: None,
        lints: None,
        show_hint: false,
        scroll: 0,
        last_mtime: None,
        dirty: next < v.exercises.len(),
        ..v
    }
}

proof fn lemma_first_pending(exs: Seq<Exercise>, done: Map<Seq<char>, Option<u64>>, i: int)
    requires
        0 <= i,
    ensures
        first_pending_from(exs, done, i) < exs.len() ==> !done.contains_key(
            exs[first_pending_from(exs, done, i)].name@,
        ),
        forall|j: int|
            i <= j < first_pending_from(exs, done, i) ==> done.contains_key(
                #[trigger] exs[j].name@,
            ),
    decreases exs.len() - i,
{
    if i < exs.len() && done.contains_key(exs[i].name@) {
        lemma_first_pending(exs, done, i + 1);
    }
}

/// Moving on picks an exercise that is not done: the first one after the
/// current exercise, else the first one from the start; every exercise it
/// passes over is done, and it reports the course finished only when every
/// exercise is done.
pub proof fn lemma_advance_picks_pending(v: AppView)
    requires
        v.current <= v.exercises.len(),
    ensures
        next_pending(v) < v.exercises.len() ==> !v.done.contains_key(
            v.exercises[next_pending(v)].name@,
        ),
        next_pending(v) > v.current ==> forall|j: int|
            v.current < j < next_pending(v) ==> v.done.contains_key(#[trigger] v.exercises[j].name@),
        next_pending(v) <= v.current ==> forall|j: int|
            (0 <= j < next_pending(v) || v.current < j < v.exercises.len()) ==> v.done.contains_key(
                #[trigger] v.exercises[j].name@,
            ),
        next_pending(v) >= v.exercises.len() ==> forall|j: int|
            0 <= j < v.exercises.len() ==> v.done.contains_key(#[trigger] v.exercises[j].name@),
{
    let exs = v.exercises;
    let after = first_pending_from(exs, v.done, v.current + 1);
    lemma_first_pending(exs, v.done, v.current + 1);
    lemma_first_pending(exs, v.done, 0);
    lemma_first_pending_range(exs, v.done, v.current + 1);
    lemma_first_pending_range(exs, v.done, 0);
}

pub open spec fn clamp_selection(current: usize, n: nat) -> usize {
    if n == 0 {
        0
    } else if current < n {
        current
    } else {
        (n - 1) as usize
    }
}

impl App {
    /// Moves on to the next exercise that is not done.
    pub fn advance(&mut self)
        requires
            old(self).wf(),
        ensures
            final(self).wf(),
            final(self).view() == advanced(old(self).view()),
    {
        proof {
            lemma_first_pending_range(self.exercises@, self.done@, 0);
            lemma_first_pending_range(self.exercises@, self.done@, self.current + 1);
        }
        let n = self.exercises.len();
        let after = if self.current < n {
            first_pending_exec(&self.exercises, &self.done, self.current + 1)
        } else {
            n
        };
        let next = if after < n {
            after
        } else {
            first_pending_exec(&self.exercises, &self.done, 0)
        };
        self.current = next;
        self.status = None;
        self.lints = None;
        self.show_hint = false;
        self.scroll = 0;
        self.last_mtime = None;
        self.dirty = next < n;
    }

    /// Starts compiling the current exercise: shows that it is compiling,
    /// and says which exercise to open in the editor (the current one,
    /// unless it was the last one opened).
    pub fn start_compile(&mut self) -> (open: Option<usize>)
        requires
            old(self).wf(),
            old(self).current < old(self).exercises.len(),
        ensures
            final(self).wf(),
            final(self).view() == (AppView {
                flash: Some("compiling…"@),
                last_opened: Some(old(self).current),
                ..old(self).view()
            }),
            open == (if old(self).last_opened == Some(old(self).current) {
                None
            } else {
                Some(old(self).current)
            }),
    {
        self.flash = Some(String::from_str("compiling…"));
        if self.last_opened == Some(self.current) {
            None
        } else {
            self.last_opened = Some(self.current);
            Some(self.current)
        }
    }

    /// Takes in the result of compiling the current exercise. A `Done`
    /// exercise is recorded with its source's truncated modification time
    /// (`record_stamp`); `after_stamp` is the modification time now being
    /// watched. True when the record changed and must be saved.
    pub fn finish_compile(
        &mut self,
        status: Status,
        lints: Option<LintResult>,
        record_stamp: Option<SysTime>,
        after_stamp: Option<SysTime>,
    ) -> (save: bool)
        requires
            old(self).wf(),
            old(self).current < old(self).exercises.len(),
        ensures
            final(self).wf(),
            ({
                let v = old(self).view();
                let name = v.exercises[v.current as int].name@;
                let m = match record_stamp {
                    Some(t) => Some(if t.since_epoch { t.secs } else { 0 }),
                    None => None,
                };
                let d = if status@ is Done {
                    v.done.insert(name, m)
                } else {
                    v.done
                };
                &&& final(self).view() == (AppView {
                    done: d,
                    status: Some(status@),
                    lints: lint_notes(lints),
                    flash: None,
                    last_mtime: after_stamp,
                    dirty: false,
                    ..v
                })
                &&& save == (d != v.done)
            }),
    {
        let ok = status.is_done();
        let mut save = false;
        if ok {
            let m = match record_stamp {
                Some(t) => Some(truncate_to_secs(t)),
                None => None,
            };
            let name = self.exercises[self.current].name.clone();
            save = record_result(&mut self.done, name.as_str(), true, m);
        }
        self.status = Some(status);
        self.lints = lints;
        self.flash = None;
        self.last_mtime = after_stamp;
        self.dirty = false;
        save
    }

    /// While watching an unfinished course, the current exercise is to be
    /// compiled again once its modification time `now` is known and differs
    /// from the one last compiled.
    pub fn tick(&mut self, now: Option<SysTime>)
        requires
            old(self).wf(),
        ensures
            final(self).wf(),
            final(self).view() == (AppView {
                dirty: old(self).dirty || (old(self).mode == UiMode::Watch && old(self).current
                    < old(self).exercises.len() && now is Some && now != old(self).last_mtime),
                ..old(self).view()
            }),
    {
        if self.mode == UiMode::Watch && !self.all_done() {
            if now.is_some() && now != self.last_mtime {
                self.dirty = true;
            }
        }
    }
}


// ---------------------------------------------------------------------------
// check-all sweeps
// ---------------------------------------------------------------------------

/// The sweep's initial results: `Done` for the exercises whose source is
/// unchanged since they were last verified done, unknown for the others.
pub open spec fn initial_results(
    done: Map<Seq<char>, Option<u64>>,
    exs: Seq<Exercise>,
    mtimes: Seq<Option<u64>>,
) -> Seq<Option<StatusView>> {
    Seq::new(
        exs.len(),
        |i: int|
            if sweep_positions(done, exs, mtimes, exs.len() as int, true).contains(i) {
                Some(StatusView::Done)
            } else {
                None
            },
    )
}

/// The record after reconciling a finished sweep over the first `n`
/// exercises: each exercise found done is recorded with its truncated
/// modification time.
pub open spec fn reconciled(
    done: Map<Seq<char>, Option<u64>>,
    exs: Seq<Exercise>,
    results: Seq<Option<StatusView>>,
    stamps: Seq<Option<SysTime>>,
    n: int,
) -> Map<Seq<char>, Option<u64>>
    decreases n,
{
    if n <= 0 {
        done
    } else {
        let d = reconciled(done, exs, results, stamps, n - 1);
        if results[n - 1] == Some(StatusView::Done) {
            d.insert(
                exs[n - 1].name@,
                match stamps[n - 1] {
                    Some(t) => Some(if t.since_epoch { t.secs } else { 0 }),
                    None => None,
                },
            )
        } else {
            d
        }
    }
}

/// Reconciling a sweep records exactly the exercises whose result was
/// `Done`: a name is recorded afterwards when it was recorded before or
/// some exercise of that name among the first `n` was found `Done`; a
/// recorded name that no such exercise has keeps its entry.
pub proof fn lemma_sweep_records_only_done(
    done: Map<Seq<char>, Option<u64>>,
    exs: Seq<Exercise>,
    results: Seq<Option<StatusView>>,
    stamps: Seq<Option<SysTime>>,
    n: int,
)
    requires
        0 <= n <= results.len(),
        n <= exs.len(),
    ensures
        forall|k: Seq<char>|
            #[trigger] reconciled(done, exs, results, stamps, n).contains_key(k) <==> (
            done.contains_key(k) || exists|i: int|
                #![trigger exs[i]]
                0 <= i < n && results[i] == Some(StatusView::Done) && exs[i].name@ == k),
        forall|k: Seq<char>|
            done.contains_key(k) && !(exists|i: int|
                #![trigger exs[i]]
                0 <= i < n && results[i] == Some(StatusView::Done) && exs[i].name@ == k) ==> (
            #[trigger] reconciled(done, exs, results, stamps, n))[k] == done[k],
    decreases n,
{
    if n > 0 {
        lemma_sweep_records_only_done(done, exs, results, stamps, n - 1);
        let d = reconciled(done, exs, results, stamps, n - 1);
        let r = reconciled(done, exs, results, stamps, n);
        assert forall|k: Seq<char>| #[trigger] r.contains_key(k) <==> (done.contains_key(k)
            || exists|i: int|
            #![trigger exs[i]]
            0 <= i < n && results[i] == Some(StatusView::Done) && exs[i].name@ == k) by {
            if exists|i: int|
                #![trigger exs[i]]
                0 <= i < n && results[i] == Some(StatusView::Done) && exs[i].name@ == k {
                let i = choose|i: int|
                    #![trigger exs[i]]
                    0 <= i < n && results[i] == Some(StatusView::Done) && exs[i].name@ == k;
                if i < n - 1 {
                    assert(d.contains_key(k));
                }
            }
            if results[n - 1] == Some(StatusView::Done) && k == exs[n - 1].name@ {
                assert(exs[n - 1].name@ == k);
            }
        }
        assert forall|k: Seq<char>|
            done.contains_key(k) && !(exists|i: int|
                #![trigger exs[i]]
                0 <= i < n && results[i] == Some(StatusView::Done) && exs[i].name@ == k) implies (
            #[trigger] reconciled(done, exs, results, stamps, n))[k] == done[k] by {
            if results[n - 1] == Some(StatusView::Done) {
                assert(exs[n - 1].name@ != k);
            }
        }
    }
}

/// On the watch screen, `n` moves on only once the current exercise is
/// `Done`: with any other status (or none yet) the key changes nothing.
pub proof fn lemma_next_only_when_done(v: AppView)
    requires
        v.mode == UiMode::Watch,
    ensures
        v.status != Some(StatusView::Done) ==> key_step(v, Key::Char('n')) == (
            v,
            KeyOutcome::Continue,
        ),
        key_step(v, Key::Char('n')).0.current != v.current ==> v.status == Some(
            StatusView::Done,
        ),
{
}

/// Position `j` is among the first `k` positions of `hits`.
pub open spec fn marked(hits: Seq<int>, k: int, j: int) -> bool {
    exists|a: int| 0 <= a < k && hits[a] == j
}

impl App {
    /// Starts a check-all sweep: unchanged exercises are known `Done` at
    /// once, the others are returned as jobs to run (`mtimes[i]` is the
    /// current whole-second modification time of exercise `i`'s source).
    pub fn start_check_all(&mut self, mtimes: &Vec<Option<u64>>) -> (jobs: Vec<Job>)
        requires
            old(self).wf(),
            mtimes.len() == old(self).exercises.len(),
        ensures
            final(self).wf(),
            final(self).view() == (AppView {
                check_results: initial_results(old(self).done@, old(self).exercises@, mtimes@),
                check_running: true,
                mode: UiMode::CheckAll,
                ..old(self).view()
            }),
            ({
                let misses = sweep_positions(
                    old(self).done@,
                    old(self).exercises@,
                    mtimes@,
                    old(self).exercises.len() as int,
                    false,
                );
                &&& jobs.len() == misses.len()
                &&& forall|k: int|
                    0 <= k < misses.len() ==> {
                        &&& (#[trigger] jobs[k]).index == misses[k]
                        &&& jobs[k].root@ == old(self).root@
                        &&& jobs[k].exercise.same_as(old(self).exercises[misses[k]])
                    }
            }),
    {
        let n = self.exercises.len();
        let (jobs, cached) = plan_sweep(self.root.as_str(), &self.exercises, &self.done, mtimes);
        let ghost hits = sweep_positions(self.done@, self.exercises@, mtimes@, n as int, true);
        proof {
            lemma_sweep_positions_increasing(self.done@, self.exercises@, mtimes@, n as int, true);
        }
        let mut results: Vec<Option<Status>> = Vec::new();
        let mut i: usize = 0;
        while i < n
            invariant
                i <= n,
                results@.len() == i,
                forall|j: int| 0 <= j < i ==> results@[j] is None,
            decreases n - i,
        {
            results.push(None);
            i = i + 1;
        }
        let mut k: usize = 0;
        while k < cached.len()
            invariant
                k <= cached.len() == hits.len(),
                results@.len() == n,
                n == self.exercises.len(),
                forall|a: int| 0 <= a < hits.len() ==> 0 <= #[trigger] hits[a] < n,
                forall|a: int|
                    0 <= a < cached.len() ==> (#[trigger] cached[a]).0 == hits[a] && cached[a].1@
                        is Done,
                forall|j: int|
                    #![trigger results@[j]]
                    0 <= j < n ==> (results@[j] is Some <==> marked(hits, k as int, j)),
                forall|j: int| 0 <= j < n ==> (#[trigger] results@[j] matches Some(st) ==> st@ is Done),
            decreases cached.len() - k,
        {
            let idx = cached[k].0;
            let ghost prev = results@;
            results.set(idx, Some(Status::Done));
            proof {
                assert(idx == hits[k as int]);
                assert forall|j: int| 0 <= j < n implies (results@[j] is Some <==> marked(
                    hits,
                    k + 1,
                    j,
                )) by {
                    if j != idx {
                        assert(results@[j] == prev[j]);
                        if marked(hits, k + 1, j) {
                            let a = choose|a: int| 0 <= a < k + 1 && hits[a] == j;
                            assert(a < k);
                        }
                    } else {
                        assert(hits[k as int] == j);
                    }
                }
                assert forall|j: int| 0 <= j < n implies (#[trigger] results@[j] matches Some(st)
                    ==> st@ is Done) by {
                    if j != idx {
                        assert(results@[j] == prev[j]);
                    }
                }
            }
            k = k + 1;
        }
        proof {
            assert forall|j: int| 0 <= j < n implies results_view(results@)[j] == initial_results(
                self.done@,
                self.exercises@,
                mtimes@,
            )[j] by {
                if marked(hits, hits.len() as int, j) {
                    let a = choose|a: int| 0 <= a < hits.len() && hits[a] == j;
                    assert(hits.contains(j));
                } else {
                    if hits.contains(j) {
                        let a = choose|a: int| 0 <= a < hits.len() && hits[a] == j;
                        assert(marked(hits, hits.len() as int, j));
                    }
                }
            }
        }
        assert(results_view(results@) =~= initial_results(self.done@, self.exercises@, mtimes@));
        self.check_results = results;
        self.check_running = true;
        self.mode = UiMode::CheckAll;
        jobs
    }
}

/// The sweep positions are increasing and below `n`.
pub proof fn lemma_sweep_positions_increasing(
    done: Map<Seq<char>, Option<u64>>,
    exs: Seq<Exercise>,
    mtimes: Seq<Option<u64>>,
    n: int,
    hit: bool,
)
    ensures
        forall|a: int, b: int|
            0 <= a < b < sweep_positions(done, exs, mtimes, n, hit).len() ==> #[trigger] sweep_positions(
                done,
                exs,
                mtimes,
                n,
                hit,
            )[a] < #[trigger] sweep_positions(done, exs, mtimes, n, hit)[b],
        forall|a: int|
            0 <= a < sweep_positions(done, exs, mtimes, n, hit).len() ==> 0 <= #[trigger] sweep_positions(
                done,
                exs,
                mtimes,
                n,
                hit,
            )[a] < n,
    decreases n,
{
    if n > 0 {
        lemma_sweep_positions_increasing(done, exs, mtimes, n - 1, hit);
        let p = sweep_positions(done, exs, mtimes, n - 1, hit);
        let q = sweep_positions(done, exs, mtimes, n, hit);
        if sweep_hit(done, exs[n - 1], mtimes[n - 1]) == hit {
            assert(q == p.push(n - 1));
            assert forall|a: int, b: int| 0 <= a < b < q.len() implies #[trigger] q[a] < #[trigger] q[b] by {
                if b < p.len() {
                    assert(q[a] == p[a] && q[b] == p[b]);
                } else {
                    assert(q[a] == p[a]);
                }
            }
            assert forall|a: int| 0 <= a < q.len() implies 0 <= #[trigger] q[a] < n by {
                if a < p.len() {
                    assert(q[a] == p[a]);
                }
            }
        } else {
            assert(q == p);
        }
    }
}


impl App {
    /// Takes in one job's result of the running sweep.
    pub fn receive_check_result(&mut self, index: usize, status: Status)
        requires
            old(self).wf(),
            index < old(self).check_results.len(),
        ensures
            final(self).wf(),
            final(self).view() == (AppView {
                check_results: old(self).view().check_results.update(index as int, Some(status@)),
                ..old(self).view()
            }),
    {
        let ghost prev = self.check_results@;
        let ghost sv = status@;
        self.check_results.set(index, Some(status));
        assert(results_view(self.check_results@) =~= results_view(prev).update(
            index as int,
            Some(sv),
        ));
    }

    /// Every job of the sweep has reported.
    pub fn check_finished(&mut self)
        requires
            old(self).wf(),
        ensures
            final(self).wf(),
            final(self).view() == (AppView { check_running: false, ..old(self).view() }),
    {
        self.check_running = false;
    }

    /// Reconciles a finished sweep and returns to watching: each exercise
    /// found done is recorded with its truncated modification time
    /// (`stamps[i]` for exercise `i`), and the first exercise not done
    /// becomes current. The record is then to be saved.
    pub fn finish_check_all(&mut self, stamps: &Vec<Option<SysTime>>)
        requires
            old(self).wf(),
            stamps.len() == old(self).exercises.len(),
        ensures
            final(self).wf(),
            ({
                let v = old(self).view();
                let d = reconciled(
                    v.done,
                    v.exercises,
                    v.check_results,
                    stamps@,
                    v.check_results.len() as int,
                );
                let cur = first_pending_from(v.exercises, d, 0);
                final(self).view() == (AppView {
                    done: d,
                    current: cur as usize,
                    status: None,
                    lints: None,
                    dirty: cur < v.exercises.len(),
                    mode: UiMode::Watch,
                    ..v
                })
            }),
            forall|k: Seq<char>|
                #[trigger] final(self).done@.contains_key(k) && !old(self).done@.contains_key(k)
                    ==> exists|i: int|
                    #![trigger old(self).exercises@[i]]
                    0 <= i < old(self).check_results.len() && old(self).view().check_results[i]
                        == Some(StatusView::Done) && old(self).exercises@[i].name@ == k,
    {
        let ghost v = self.view();
        proof {
            lemma_sweep_records_only_done(
                v.done,
                v.exercises,
                v.check_results,
                stamps@,
                v.check_results.len() as int,
            );
        }
        let mut d = DoneState::new();
        std::mem::swap(&mut d, &mut self.done);
        let mut i: usize = 0;
        while i < self.check_results.len()
            invariant
                i <= self.check_results.len() <= self.exercises.len() == stamps.len(),
                d.wf(),
                self.exercises@ == v.exercises,
                results_view(self.check_results@) == v.check_results,
                d@ == reconciled(v.done, v.exercises, v.check_results, stamps@, i as int),
            decreases self.check_results.len() - i,
        {
            let found = match &self.check_results[i] {
                Some(st) => st.is_done(),
                None => false,
            };
            assert(found == (v.check_results[i as int] == Some(StatusView::Done)));
            if found {
                let m = match stamps[i] {
                    Some(t) => Some(truncate_to_secs(t)),
                    None => None,
                };
                let name = self.exercises[i].name.clone();
                d.insert(name, m);
            }
            i = i + 1;
        }
        self.done = d;
        proof {
            lemma_first_pending_range(self.exercises@, self.done@, 0);
        }
        self.current = first_pending_exec(&self.exercises, &self.done, 0);
        self.status = None;
        self.lints = None;
        self.dirty = self.current < self.exercises.len();
        self.mode = UiMode::Watch;
    }

    /// After exercise `index` was restored to its shipped state: it is no
    /// longer done, and if it is the current one it is compiled again. The
    /// record is then to be saved.
    pub fn after_reset(&mut self, index: usize)
        requires
            old(self).wf(),
            index < old(self).exercises.len(),
        ensures
            final(self).wf(),
            final(self).view() == (AppView {
                done: old(self).done@.remove(old(self).exercises[index as int].name@),
                dirty: old(self).dirty || index == old(self).current,
                ..old(self).view()
            }),
    {
        let name = self.exercises[index].name.clone();
        self.done.remove(name.as_str());
        if index == self.current {
            self.dirty = true;
        }
    }
}

// ---------------------------------------------------------------------------
// keys
// ---------------------------------------------------------------------------

pub open spec fn scroll_less(s: u16, by: u16) -> u16 {
    if s < by {
        0
    } else {
        (s - by) as u16
    }
}

pub open spec fn scroll_more(s: u16, by: u16) -> u16 {
    if s + by > u16::MAX {
        u16::MAX
    } else {
        (s + by) as u16
    }
}

/// The first of the rows, from row `k` on, whose exercise's name contains
/// `q`.
pub open spec fn first_match(exs: Seq<Exercise>, rows: Seq<usize>, q: Seq<char>, k: int) -> Option<
    usize,
>
    decreases rows.len() - k,
{
    if k < 0 || k >= rows.len() {
        None
    } else if contains_sub(exs[rows[k] as int].name@, q) {
        Some(k as usize)
    } else {
        first_match(exs, rows, q, k + 1)
    }
}

/// The exercise on the selected row of the list, if a shown row is
/// selected.
pub open spec fn selected_row(v: AppView) -> Option<usize> {
    match v.selected {
        Some(s) => if s < visible(v).len() {
            Some(visible(v)[s as int])
        } else {
            None
        },
        None => None,
    }
}

/// A key on the watch screen.
pub open spec fn watch_key(v: AppView, key: Key) -> (AppView, KeyOutcome) {
    if key == Key::Char('q') || key == Key::Esc {
        (v, KeyOutcome::Quit)
    } else if key == Key::Char('n') {
        if v.status == Some(StatusView::Done) {
            (advanced(v), KeyOutcome::Continue)
        } else {
            (v, KeyOutcome::Continue)
        }
    } else if key == Key::Char('h') {
        (AppView { show_hint: !v.show_hint, ..v }, KeyOutcome::Continue)
    } else if key == Key::Char('r') {
        (AppView { dirty: true, ..v }, KeyOutcome::Continue)
    } else if key == Key::Char('l') {
        (
            AppView {
                selected: Some(clamp_selection(v.current, v.exercises.len())),
                mode: UiMode::List,
                ..v
            },
            KeyOutcome::Continue,
        )
    } else if key == Key::Char('c') {
        (v, KeyOutcome::StartCheckAll)
    } else if key == Key::Up {
        (AppView { scroll: scroll_less(v.scroll, 1), ..v }, KeyOutcome::Continue)
    } else if key == Key::Down {
        (AppView { scroll: scroll_more(v.scroll, 1), ..v }, KeyOutcome::Continue)
    } else if key == Key::PageUp {
        (AppView { scroll: scroll_less(v.scroll, 10), ..v }, KeyOutcome::Continue)
    } else if key == Key::PageDown {
        (AppView { scroll: scroll_more(v.scroll, 10), ..v }, KeyOutcome::Continue)
    } else {
        (v, KeyOutcome::Continue)
    }
}

/// A key on the list while a search `q` is being typed.
pub open spec fn search_key(v: AppView, q: Seq<char>, key: Key) -> AppView {
    match key {
        Key::Esc => AppView { search: None, ..v },
        Key::Enter => AppView { search: None, ..v },
        Key::Backspace => AppView {
            search: Some(
                if q.len() > 0 {
                    q.drop_last()
                } else {
                    q
                },
            ),
            ..v
        },
        Key::Char(c) => {
            let q2 = q.push(c);
            let found = first_match(v.exercises, visible(v), q2, 0);
            AppView {
                search: Some(q2),
                selected: if found is Some {
                    found
                } else {
                    v.selected
                },
                ..v
            }
        },
        _ => v,
    }
}

/// A key on the list.
pub open spec fn list_key(v: AppView, key: Key) -> (AppView, KeyOutcome) {
    let rows = visible(v);
    let i = match v.selected {
        Some(s) => s,
        None => 0usize,
    };
    if key == Key::Char('q') || key == Key::Esc || key == Key::Char('l') {
        (AppView { mode: UiMode::Watch, ..v }, KeyOutcome::Continue)
    } else if key == Key::Up || key == Key::Char('k') {
        (AppView { selected: Some(if i == 0 { 0 } else { (i - 1) as usize }), ..v }, KeyOutcome::Continue)
    } else if key == Key::Down || key == Key::Char('j') {
        let last: int = if rows.len() == 0 { 0 } else { rows.len() - 1 };
        (
            AppView { selected: Some(if i + 1 <= last { (i + 1) as usize } else { last as usize }), ..v },
            KeyOutcome::Continue,
        )
    } else if key == Key::Enter {
        match selected_row(v) {
            Some(e) => (
                AppView {
                    current: e,
                    last_opened: Some(e),
                    status: None,
                    lints: None,
                    scroll: 0,
                    show_hint: false,
                    dirty: true,
                    mode: UiMode::Watch,
                    ..v
                },
                if v.last_opened == Some(e) {
                    KeyOutcome::Continue
                } else {
                    KeyOutcome::OpenEditor(e)
                },
            ),
            None => (v, KeyOutcome::Continue),
        }
    } else if key == Key::Char('r') {
        match selected_row(v) {
            Some(e) => (v, KeyOutcome::Reset(e)),
            None => (v, KeyOutcome::Continue),
        }
    } else if key == Key::Char('d') {
        (
            AppView {
                list_filter: if v.list_filter == ListFilter::Done {
                    ListFilter::All
                } else {
                    ListFilter::Done
                },
                selected: Some(0),
                ..v
            },
            KeyOutcome::Continue,
        )
    } else if key == Key::Char('p') {
        (
            AppView {
                list_filter: if v.list_filter == ListFilter::Pending {
                    ListFilter::All
                } else {
                    ListFilter::Pending
                },
                selected: Some(0),
                ..v
            },
            KeyOutcome::Continue,
        )
    } else if key == Key::Char('/') {
        (AppView { search: Some(Seq::empty()), ..v }, KeyOutcome::Continue)
    } else {
        (v, KeyOutcome::Continue)
    }
}

/// What a key press does: the next state and what the caller must do.
/// Ctrl-C quits from every screen.
pub open spec fn key_step(v: AppView, key: Key) -> (AppView, KeyOutcome) {
    if key == Key::CtrlC {
        (v, KeyOutcome::Quit)
    } else {
        match v.mode {
            UiMode::Watch => watch_key(v, key),
            UiMode::List => match v.search {
                Some(q) => (search_key(v, q, key), KeyOutcome::Continue),
                None => list_key(v, key),
            },
            UiMode::CheckAll => if (key == Key::Char('q') || key == Key::Esc || key == Key::Enter)
                && !v.check_running {
                (v, KeyOutcome::FinishCheckAll)
            } else {
                (v, KeyOutcome::Continue)
            },
        }
    }
}

proof fn lemma_first_match_range(exs: Seq<Exercise>, rows: Seq<usize>, q: Seq<char>, k: int)
    requires
        0 <= k,
        rows.len() <= usize::MAX,
    ensures
        first_match(exs, rows, q, k) matches Some(p) ==> k <= p < rows.len(),
    decreases rows.len() - k,
{
    if k < rows.len() && !contains_sub(exs[rows[k] as int].name@, q) {
        lemma_first_match_range(exs, rows, q, k + 1);
    }
}

impl App {
    /// The exercise on the selected row of the list, if a shown row is
    /// selected.
    fn selected_exercise(&self, rows: &Vec<usize>) -> (r: Option<usize>)
        requires
            self.wf(),
            rows@ == visible(self.view()),
        ensures
            r == selected_row(self.view()),
            r matches Some(e) ==> e < self.exercises.len(),
    {
        proof {
            lemma_visible_bounds(
                self.exercises@,
                self.done@,
                self.list_filter,
                self.exercises.len() as int,
            );
        }
        match self.selected {
            Some(s) => if s < rows.len() {
                Some(rows[s])
            } else {
                None
            },
            None => None,
        }
    }

    /// A key on the list while a search is being typed.
    fn search_key_exec(&mut self, key: Key)
        requires
            old(self).wf(),
            old(self).mode == UiMode::List,
            old(self).search is Some,
        ensures
            final(self).wf(),
            final(self).view() == search_key(
                old(self).view(),
                old(self).view().search.unwrap(),
                key,
            ),
    {
        let q = match &self.search {
            Some(s) => chars_of(s.as_str()),
            None => Vec::new(),
        };
        match key {
            Key::Esc => {
                self.search = None;
            },
            Key::Enter => {
                self.search = None;
            },
            Key::Backspace => {
                let mut q2 = q;
                if q2.len() > 0 {
                    q2.pop();
                }
                self.search = Some(string_of(&q2));
            },
            Key::Char(c) => {
                let mut q2 = q;
                q2.push(c);
                let rows = self.visible_rows();
                proof {
                    lemma_visible_bounds(
                        self.exercises@,
                        self.done@,
                        self.list_filter,
                        self.exercises.len() as int,
                    );
                    lemma_first_match_range(self.exercises@, rows@, q2@, 0);
                }
                let mut k: usize = 0;
                let mut found: Option<usize> = None;
                while k < rows.len() && found.is_none()
                    invariant
                        k <= rows.len(),
                        rows@ == visible(self.view()),
                        forall|a: int| 0 <= a < rows.len() ==> #[trigger] rows@[a] < self.exercises.len(),
                        found is None ==> first_match(self.exercises@, rows@, q2@, 0) == first_match(
                            self.exercises@,
                            rows@,
                            q2@,
                            k as int,
                        ),
                        found is Some ==> first_match(self.exercises@, rows@, q2@, 0) == found,
                    decreases rows.len() - k + if found is None { 1int } else { 0int },
                {
                    let name = chars_of(self.exercises[rows[k]].name.as_str());
                    if contains_chars(&name, &q2) {
                        found = Some(k);
                    } else {
                        k = k + 1;
                    }
                }
                if found.is_some() {
                    self.selected = found;
                }
                self.search = Some(string_of(&q2));
            },
            _ => {},
        }
    }
}

impl App {
    /// A key on the watch screen.
    fn watch_key_exec(&mut self, key: Key) -> (out: KeyOutcome)
        requires
            old(self).wf(),
            old(self).mode == UiMode::Watch,
        ensures
            final(self).wf(),
            (final(self).view(), out) == watch_key(old(self).view(), key),
            key == Key::Char('n') && old(self).view().status != Some(StatusView::Done) ==> final(self).view()
                == old(self).view() && out == KeyOutcome::Continue,
    {
        if key == Key::Char('q') || key == Key::Esc {
            KeyOutcome::Quit
        } else if key == Key::Char('n') {
            let finished = match &self.status {
                Some(st) => st.is_done(),
                None => false,
            };
            if finished {
                self.advance();
            }
            KeyOutcome::Continue
        } else if key == Key::Char('h') {
            self.show_hint = !self.show_hint;
            KeyOutcome::Continue
        } else if key == Key::Char('r') {
            self.dirty = true;
            KeyOutcome::Continue
        } else if key == Key::Char('l') {
            let n = self.exercises.len();
            let last = if n == 0 {
                0
            } else {
                n - 1
            };
            self.selected = Some(
                if self.current <= last {
                    self.current
                } else {
                    last
                },
            );
            self.mode = UiMode::List;
            KeyOutcome::Continue
        } else if key == Key::Char('c') {
            KeyOutcome::StartCheckAll
        } else if key == Key::Up {
            self.scroll = self.scroll.saturating_sub(1);
            KeyOutcome::Continue
        } else if key == Key::Down {
            self.scroll = self.scroll.saturating_add(1);
            KeyOutcome::Continue
        } else if key == Key::PageUp {
            self.scroll = self.scroll.saturating_sub(10);
            KeyOutcome::Continue
        } else if key == Key::PageDown {
            self.scroll = self.scroll.saturating_add(10);
            KeyOutcome::Continue
        } else {
            KeyOutcome::Continue
        }
    }

    /// A key on the list, with no search being typed.
    fn list_key_exec(&mut self, key: Key) -> (out: KeyOutcome)
        requires
            old(self).wf(),
            old(self).mode == UiMode::List,
            old(self).search is None,
        ensures
            final(self).wf(),
            (final(self).view(), out) == list_key(old(self).view(), key),
    {
        proof {
            lemma_visible_bounds(
                self.exercises@,
                self.done@,
                self.list_filter,
                self.exercises.len() as int,
            );
        }
        let i = match self.selected {
            Some(s) => s,
            None => 0,
        };
        if key == Key::Char('q') || key == Key::Esc || key == Key::Char('l') {
            self.mode = UiMode::Watch;
            KeyOutcome::Continue
        } else if key == Key::Up || key == Key::Char('k') {
            self.selected = Some(
                if i == 0 {
                    0
                } else {
                    i - 1
                },
            );
            KeyOutcome::Continue
        } else if key == Key::Down || key == Key::Char('j') {
            let rows = self.visible_rows();
            let last = if rows.len() == 0 {
                0
            } else {
                rows.len() - 1
            };
            self.selected = Some(
                if i < last {
                    i + 1
                } else {
                    last
                },
            );
            KeyOutcome::Continue
        } else if key == Key::Enter {
            let rows = self.visible_rows();
            match self.selected_exercise(&rows) {
                Some(e) => {
                    let out = if self.last_opened == Some(e) {
                        KeyOutcome::Continue
                    } else {
                        KeyOutcome::OpenEditor(e)
                    };
                    self.current = e;
                    self.last_opened = Some(e);
                    self.status = None;
                    self.lints = None;
                    self.scroll = 0;
                    self.show_hint = false;
                    self.dirty = true;
                    self.mode = UiMode::Watch;
                    out
                },
                None => KeyOutcome::Continue,
            }
        } else if key == Key::Char('r') {
            let rows = self.visible_rows();
            match self.selected_exercise(&rows) {
                Some(e) => KeyOutcome::Reset(e),
                None => KeyOutcome::Continue,
            }
        } else if key == Key::Char('d') {
            self.list_filter = if self.list_filter == ListFilter::Done {
                ListFilter::All
            } else {
                ListFilter::Done
            };
            self.selected = Some(0);
            KeyOutcome::Continue
        } else if key == Key::Char('p') {
            self.list_filter = if self.list_filter == ListFilter::Pending {
                ListFilter::All
            } else {
                ListFilter::Pending
            };
            self.selected = Some(0);
            KeyOutcome::Continue
        } else if key == Key::Char('/') {
            self.search = Some(String::new());
            KeyOutcome::Continue
        } else {
            KeyOutcome::Continue
        }
    }

    /// Handles one key press and says what the caller must do next (quit,
    /// open an exercise in the editor, restore one, start or reconcile a
    /// sweep). Ctrl-C quits from every screen; on the watch screen `q` and
    /// Esc quit, `n` moves on once the exercise is done, `h` toggles the
    /// hint, `r` recompiles, `l` opens the list, `c` starts a sweep and the
    /// arrows scroll; on the list the arrows (or `k`/`j`) move, Enter works
    /// on the selected exercise, `r` restores it, `d`/`p` show only the
    /// done/pending ones, `/` starts a search and `q`/Esc/`l` go back; a
    /// finished sweep is left with `q`, Esc or Enter.
    pub fn handle_key(&mut self, key: Key) -> (out: KeyOutcome)
        requires
            old(self).wf(),
        ensures
            final(self).wf(),
            (final(self).view(), out) == key_step(old(self).view(), key),
    {
        if key == Key::CtrlC {
            return KeyOutcome::Quit;
        }
        match self.mode {
            UiMode::Watch => self.watch_key_exec(key),
            UiMode::List => {
                if self.search.is_some() {
                    self.search_key_exec(key);
                    KeyOutcome::Continue
                } else {
                    self.list_key_exec(key)
                }
            },
            UiMode::CheckAll => {
                if (key == Key::Char('q') || key == Key::Esc || key == Key::Enter)
                    && !self.check_running {
                    KeyOutcome::FinishCheckAll
                } else {
                    KeyOutcome::Continue
                }
            },
        }
    }
}

} // verus!
