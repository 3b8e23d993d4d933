//! The exercise-author checks: every exercise's name and directory are
//! safe identifiers, every `.tex` file is referenced, every shipped
//! exercise carries the marker and fails as declared, and every solution
//! verifies done.

use vstd::prelude::*;
use crate::info::{Exercise, Mode, MARKER, rel_path_spec, solution_rel_spec, text_has_marker};
use crate::text::{
    chars_of, concat, contains_sub, is_ws, join, lines, string_of, string_views, trim, trim_chars,
    views, lines_of, join_chars,
};
use crate::verify::{Status, StatusView, summarize, summary};

verus! {

/// A problem found with one exercise.
pub struct Failure {
    pub exercise: String,
    pub problem: String,
}

/// A failure as plain values.
pub open spec fn failure_view(f: Failure) -> (Seq<char>, Seq<char>) {
    (f.exercise@, f.problem@)
}

/// The failures as plain values.
pub open spec fn failures_view(fs: Seq<Failure>) -> Seq<(Seq<char>, Seq<char>)> {
    fs.map_values(|f: Failure| failure_view(f))
}

pub open spec fn is_ident_char(c: char) -> bool {
    ('a' <= c && c <= 'z') || ('A' <= c && c <= 'Z') || ('0' <= c && c <= '9') || c == '_'
}

/// A valid exercise or category identifier: non-empty, ASCII letters,
/// digits and underscores only.
pub open spec fn valid_ident(s: Seq<char>) -> bool {
    s.len() > 0 && forall|i: int| 0 <= i < s.len() ==> is_ident_char(#[trigger] s[i])
}

/// Is `s` a valid identifier?
pub fn is_valid_ident(s: &str) -> (b: bool)
    ensures
        b == valid_ident(s@),
{
    let c = chars_of(s);
    if c.len() == 0 {
        return false;
    }
    let mut i: usize = 0;
    while i < c.len()
        invariant
            i <= c.len(),
            c@ == s@,
            forall|j: int| 0 <= j < i ==> is_ident_char(#[trigger] c@[j]),
        decreases c.len() - i,
    {
        let ch = c[i];
        if !(('a' <= ch && ch <= 'z') || ('A' <= ch && ch <= 'Z') || ('0' <= ch && ch <= '9')
            || ch == '_') {
            return false;
        }
        i = i + 1;
    }
    true
}

fn failure(exercise: String, problem: String) -> (f: Failure)
    ensures
        f.exercise == exercise,
        f.problem == problem,
{
    Failure { exercise, problem }
}

/// `<what> `<value>` must be non-empty alphanumeric/underscore`
pub open spec fn ident_problem(what: Seq<char>, value: Seq<char>) -> Seq<char> {
    what + " `"@ + value + "` must be non-empty alphanumeric/underscore"@
}

fn ident_problem_exec(what: &str, value: &str) -> (r: String)
    ensures
        r@ == ident_problem(what@, value@),
{
    let mut s = String::from_str(what);
    s.append(" `");
    s.append(value);
    s.append("` must be non-empty alphanumeric/underscore");
    s
}

/// The failures of one exercise's name and directory.
pub open spec fn ident_failures(ex: Exercise) -> Seq<(Seq<char>, Seq<char>)> {
    (if valid_ident(ex.name@) {
        seq![]
    } else {
        seq![(ex.name@, ident_problem("name"@, ex.name@))]
    }) + (if valid_ident(ex.dir@) {
        seq![]
    } else {
        seq![(ex.name@, ident_problem("dir"@, ex.dir@))]
    })
}

/// The failures of all exercises' names and directories, in order.
pub open spec fn names_and_dirs_failures(exs: Seq<Exercise>) -> Seq<(Seq<char>, Seq<char>)>
    decreases exs.len(),
{
    if exs.len() == 0 {
        seq![]
    } else {
        names_and_dirs_failures(exs.drop_last()) + ident_failures(exs.last())
    }
}

/// Every exercise's name and directory must be a valid identifier, or
/// they risk unsafe paths or broken lookups by name.
pub fn check_names_and_dirs(exercises: &Vec<Exercise>) -> (fs: Vec<Failure>)
    ensures
        failures_view(fs@) == names_and_dirs_failures(exercises@),
{
    let mut fs: Vec<Failure> = Vec::new();
    let mut i: usize = 0;
    while i < exercises.len()
        invariant
            i <= exercises.len(),
            failures_view(fs@) == names_and_dirs_failures(exercises@.take(i as int)),
        decreases exercises.len() - i,
    {
        let ex = &exercises[i];
        let ghost before = failures_view(fs@);
        assert(exercises@.take(i + 1).drop_last() =~= exercises@.take(i as int));
        if !is_valid_ident(ex.name.as_str()) {
            let p = ident_problem_exec("name", ex.name.as_str());
            fs.push(failure(ex.name.clone(), p));
        }
        let ghost mid = failures_view(fs@);
        if !is_valid_ident(ex.dir.as_str()) {
            let p = ident_problem_exec("dir", ex.dir.as_str());
            fs.push(failure(ex.name.clone(), p));
        }
        assert(failures_view(fs@) =~= before + ident_failures(exercises@[i as int]));
        i = i + 1;
    }
    assert(exercises@.take(exercises.len() as int) =~= exercises@);
    fs
}


// ---------------------------------------------------------------------------
// orphan files
// ---------------------------------------------------------------------------

/// A path with every `\` turned into `/`.
pub open spec fn slashed(p: Seq<char>) -> Seq<char> {
    p.map_values(|c: char| if c == '\\' { '/' } else { c })
}

/// The failures for files under one directory (paths relative to the
/// practice root) that no known path names.
pub open spec fn orphan_failures(found: Seq<Seq<char>>, known: Seq<Seq<char>>) -> Seq<
    (Seq<char>, Seq<char>),
>
    decreases found.len(),
{
    if found.len() == 0 {
        seq![]
    } else {
        let rel = slashed(found.last());
        orphan_failures(found.drop_last(), known) + (if known.contains(rel) {
            seq![]
        } else {
            seq![("(orphan)"@, rel + " is not referenced by any exercise in info.toml"@)]
        })
    }
}

fn slashed_exec(p: &str) -> (r: String)
    ensures
        r@ == slashed(p@),
{
    let c = chars_of(p);
    let mut v: Vec<char> = Vec::new();
    let mut i: usize = 0;
    while i < c.len()
        invariant
            i <= c.len(),
            c@ == p@,
            v@ == slashed(c@.take(i as int)),
        decreases c.len() - i,
    {
        let ch = if c[i] == '\\' {
            '/'
        } else {
            c[i]
        };
        v.push(ch);
        assert(v@ =~= slashed(c@.take(i + 1)));
        i = i + 1;
    }
    assert(c@.take(c.len() as int) =~= c@);
    string_of(&v)
}

fn contains_string(known: &Vec<String>, s: &str) -> (b: bool)
    ensures
        b == string_views(known@).contains(s@),
{
    let sc = chars_of(s);
    let mut i: usize = 0;
    while i < known.len()
        invariant
            i <= known.len(),
            sc@ == s@,
            forall|j: int| 0 <= j < i ==> known@[j]@ != s@,
        decreases known.len() - i,
    {
        let kc = chars_of(known[i].as_str());
        if crate::info::chars_eq(&kc, &sc) {
            assert(string_views(known@)[i as int] == s@);
            return true;
        }
        i = i + 1;
    }
    assert forall|j: int| 0 <= j < string_views(known@).len() implies string_views(known@)[j]
        != s@ by {
        assert(string_views(known@)[j] == known@[j]@);
    }
    false
}

/// The orphan failures among `found` (paths relative to the practice
/// root) against the `known` paths.
pub fn check_orphans_in(found: &Vec<String>, known: &Vec<String>) -> (fs: Vec<Failure>)
    ensures
        failures_view(fs@) == orphan_failures(string_views(found@), string_views(known@)),
{
    let mut fs: Vec<Failure> = Vec::new();
    let mut i: usize = 0;
    while i < found.len()
        invariant
            i <= found.len(),
            failures_view(fs@) == orphan_failures(
                string_views(found@).take(i as int),
                string_views(known@),
            ),
        decreases found.len() - i,
    {
        let ghost before = failures_view(fs@);
        let ghost t = string_views(found@).take(i + 1);
        assert(t.drop_last() =~= string_views(found@).take(i as int));
        assert(t.last() == found@[i as int]@);
        let rel = slashed_exec(found[i].as_str());
        if !contains_string(known, rel.as_str()) {
            let mut p = String::from_str(rel.as_str());
            p.append(" is not referenced by any exercise in info.toml");
            fs.push(failure(String::from_str("(orphan)"), p));
        }
        assert(failures_view(fs@) =~= orphan_failures(t, string_views(known@)));
        i = i + 1;
    }
    assert(string_views(found@).take(found.len() as int) =~= string_views(found@));
    fs
}

/// The exercises' relative paths, in order.
pub open spec fn exercise_rels(exs: Seq<Exercise>) -> Seq<Seq<char>> {
    exs.map_values(|e: Exercise| rel_path_spec(e.dir@, e.name@))
}

/// The solutions' relative paths, in order.
pub open spec fn solution_rels(exs: Seq<Exercise>) -> Seq<Seq<char>> {
    exs.map_values(|e: Exercise| solution_rel_spec(e.dir@, e.name@))
}

/// Every `.tex` file under `exercises/` and `solutions/` must be named by
/// `info.toml`. `exercise_files` and `solution_files` are the `.tex` files
/// found under each directory, as paths relative to the practice root.
pub fn check_no_orphan_files(
    exercises: &Vec<Exercise>,
    exercise_files: &Vec<String>,
    solution_files: &Vec<String>,
) -> (fs: Vec<Failure>)
    ensures
        failures_view(fs@) == orphan_failures(string_views(exercise_files@), exercise_rels(
            exercises@,
        )) + orphan_failures(string_views(solution_files@), solution_rels(exercises@)),
{
    let mut known_ex: Vec<String> = Vec::new();
    let mut known_sol: Vec<String> = Vec::new();
    let mut i: usize = 0;
    while i < exercises.len()
        invariant
            i <= exercises.len(),
            string_views(known_ex@) == exercise_rels(exercises@.take(i as int)),
            string_views(known_sol@) == solution_rels(exercises@.take(i as int)),
        decreases exercises.len() - i,
    {
        let ghost a = string_views(known_ex@);
        let ghost b = string_views(known_sol@);
        let r = exercises[i].rel_path();
        let q = exercises[i].solution_rel();
        known_ex.push(r);
        known_sol.push(q);
        let ghost e = exercises@[i as int];
        assert(exercises@.take(i + 1) =~= exercises@.take(i as int).push(e));
        assert(exercise_rels(exercises@.take(i + 1)) =~= a.push(rel_path_spec(e.dir@, e.name@)));
        assert(solution_rels(exercises@.take(i + 1)) =~= b.push(
            solution_rel_spec(e.dir@, e.name@),
        ));
        assert(string_views(known_ex@) =~= a.push(r@));
        assert(string_views(known_sol@) =~= b.push(q@));
        i = i + 1;
    }
    assert(exercises@.take(exercises.len() as int) =~= exercises@);
    let mut fs = check_orphans_in(exercise_files, &known_ex);
    let mut more = check_orphans_in(solution_files, &known_sol);
    let ghost a = failures_view(fs@);
    let ghost b = failures_view(more@);
    fs.append(&mut more);
    assert(failures_view(fs@) =~= a + b);
    fs
}

// ---------------------------------------------------------------------------
// per-exercise checks
// ---------------------------------------------------------------------------

/// The failures an exercise's entry shows by itself: an empty hint, a
/// writing assignment with no checks.
pub open spec fn entry_failures(ex: Exercise) -> Seq<(Seq<char>, Seq<char>)> {
    (if trim(ex.hint@).len() == 0 {
        seq![(ex.name@, "empty hint"@)]
    } else {
        seq![]
    }) + (if ex.mode == Mode::Write && ex.checks@.len() == 0 {
        seq![(ex.name@, "write-mode exercise with no checks"@)]
    } else {
        seq![]
    })
}

pub fn check_entry(ex: &Exercise) -> (fs: Vec<Failure>)
    ensures
        failures_view(fs@) == entry_failures(*ex),
{
    let mut fs: Vec<Failure> = Vec::new();
    let h = trim_chars(&chars_of(ex.hint.as_str()));
    if h.len() == 0 {
        fs.push(failure(ex.name.clone(), String::from_str("empty hint")));
    }
    let ghost a = failures_view(fs@);
    let write = match ex.mode {
        Mode::Write => true,
        Mode::Fix => false,
    };
    if write && ex.checks.len() == 0 {
        fs.push(failure(ex.name.clone(), String::from_str("write-mode exercise with no checks")));
    }
    assert(failures_view(fs@) =~= entry_failures(*ex));
    fs
}

/// The marker's failures: the shipped exercise must hold it, the solution
/// must not.
pub open spec fn marker_failures(ex: Exercise, ex_text: Seq<char>, sol_text: Seq<char>) -> Seq<
    (Seq<char>, Seq<char>),
> {
    (if contains_sub(ex_text, MARKER@) {
        seq![]
    } else {
        seq![(ex.name@, "shipped exercise lacks `% "@ + MARKER@ + "` marker"@)]
    }) + (if contains_sub(sol_text, MARKER@) {
        seq![(ex.name@, "solution still contains the marker"@)]
    } else {
        seq![]
    })
}

pub fn check_markers(ex: &Exercise, ex_text: &str, sol_text: &str) -> (fs: Vec<Failure>)
    ensures
        failures_view(fs@) == marker_failures(*ex, ex_text@, sol_text@),
{
    let mut fs: Vec<Failure> = Vec::new();
    if !text_has_marker(ex_text) {
        let mut p = String::from_str("shipped exercise lacks `% ");
        p.append(MARKER);
        p.append("` marker");
        fs.push(failure(ex.name.clone(), p));
    }
    let ghost a = failures_view(fs@);
    if text_has_marker(sol_text) {
        fs.push(failure(ex.name.clone(), String::from_str("solution still contains the marker")));
    }
    assert(failures_view(fs@) =~= marker_failures(*ex, ex_text@, sol_text@));
    fs
}

/// What is wrong, if anything, with how the shipped exercise verified: a
/// fix exercise must fail to compile (or, if it compiles as shipped, stop
/// at the marker), a writing assignment must compile and fail its checks.
pub open spec fn shipped_problem(ex: Exercise, s: StatusView) -> Option<Seq<char>> {
    match ex.mode {
        Mode::Fix => if (s is CompileFail && !ex.compiles_as_shipped) || (s is MarkerPresent
            && ex.compiles_as_shipped) {
            None
        } else {
            Some(
                "shipped fix exercise should "@ + (if ex.compiles_as_shipped {
                    "compile (marker gate only)"@
                } else {
                    "FAIL to compile"@
                }) + " but got: "@ + summary(s),
            )
        },
        Mode::Write => if s is ChecksFail {
            None
        } else {
            Some("shipped write exercise should compile but fail its checks; got: "@ + summary(s))
        },
    }
}

/// A shipped exercise passes only in the state it declares: a fix
/// exercise fails to compile, or (when it compiles as shipped) stops at the
/// marker; a writing assignment compiles and fails its checks.
pub proof fn lemma_shipped_passes_only_as_declared(ex: Exercise, s: StatusView)
    ensures
        ex.mode == Mode::Fix && !ex.compiles_as_shipped ==> (shipped_problem(ex, s) is None <==> s is CompileFail),
        ex.mode == Mode::Fix && ex.compiles_as_shipped ==> (shipped_problem(ex, s) is None <==> s is MarkerPresent),
        ex.mode == Mode::Write ==> (shipped_problem(ex, s) is None <==> s is ChecksFail),
{
}

pub fn check_shipped(ex: &Exercise, shipped: &Status) -> (r: Option<Failure>)
    ensures
        match (r, shipped_problem(*ex, shipped@)) {
            (Some(f), Some(p)) => f.exercise@ == ex.name@ && f.problem@ == p,
            (None, None) => true,
            _ => false,
        },
        r is None <==> (match ex.mode {
            Mode::Fix => if ex.compiles_as_shipped {
                shipped@ is MarkerPresent
            } else {
                shipped@ is CompileFail
            },
            Mode::Write => shipped@ is ChecksFail,
        }),
{
    proof {
        lemma_shipped_passes_only_as_declared(*ex, shipped@);
    }
    match ex.mode {
        Mode::Fix => {
            let ok = match shipped {
                Status::CompileFail(_) => !ex.compiles_as_shipped,
                Status::MarkerPresent => ex.compiles_as_shipped,
                _ => false,
            };
            if ok {
                None
            } else {
                let mut p = String::from_str("shipped fix exercise should ");
                if ex.compiles_as_shipped {
                    p.append("compile (marker gate only)");
                } else {
                    p.append("FAIL to compile");
                }
                p.append(" but got: ");
                let sm = summarize(shipped);
                p.append(sm.as_str());
                Some(failure(ex.name.clone(), p))
            }
        },
        Mode::Write => match shipped {
            Status::ChecksFail(..) => None,
            _ => {
                let mut p = String::from_str(
                    "shipped write exercise should compile but fail its checks; got: ",
                );
                let sm = summarize(shipped);
                p.append(sm.as_str());
                Some(failure(ex.name.clone(), p))
            },
        },
    }
}

/// What is wrong, if anything, with how the solution verified: it must be
/// done; a compile error is quoted by its first three lines, failed checks
/// by their notes and the rendered text.
pub open spec fn solution_problem(s: StatusView) -> Option<Seq<char>> {
    match s {
        StatusView::Done => None,
        StatusView::CompileFail(e) => Some(
            "solution failed to compile: "@ + join(
                lines(e).take(if lines(e).len() <= 3 { lines(e).len() as int } else { 3 }),
                " | "@,
            ),
        ),
        StatusView::ChecksFail(notes, excerpt) => Some(
            "solution failed checks: "@ + join(notes, "; "@) + " (text: "@ + excerpt + ")"@,
        ),
        _ => Some("solution not Done: "@ + summary(s)),
    }
}

fn join_strings(list: &Vec<String>, sep: &str) -> (r: String)
    ensures
        r@ == join(string_views(list@), sep@),
{
    let mut parts: Vec<Vec<char>> = Vec::new();
    let mut i: usize = 0;
    while i < list.len()
        invariant
            i <= list.len(),
            views(parts@) == string_views(list@).take(i as int),
        decreases list.len() - i,
    {
        let c = chars_of(list[i].as_str());
        let ghost prev = views(parts@);
        parts.push(c);
        assert(views(parts@) =~= prev.push(c@));
        assert(string_views(list@).take(i + 1) =~= string_views(list@).take(i as int).push(
            list@[i as int]@,
        ));
        i = i + 1;
    }
    assert(string_views(list@).take(list.len() as int) =~= string_views(list@));
    let j = join_chars(&parts, &chars_of(sep));
    string_of(&j)
}

pub fn check_solution(ex: &Exercise, status: &Status) -> (r: Option<Failure>)
    ensures
        match (r, solution_problem(status@)) {
            (Some(f), Some(p)) => f.exercise@ == ex.name@ && f.problem@ == p,
            (None, None) => true,
            _ => false,
        },
{
    match status {
        Status::Done => None,
        Status::CompileFail(e) => {
            let ls = lines_of(&chars_of(e.as_str()));
            let n = if ls.len() <= 3 {
                ls.len()
            } else {
                3
            };
            let mut head: Vec<Vec<char>> = Vec::new();
            let mut i: usize = 0;
            while i < n
                invariant
                    i <= n <= ls.len(),
                    views(head@) == views(ls@).take(i as int),
                decreases n - i,
            {
                let c = ls[i].clone();
                assert(c@ =~= ls@[i as int]@);
                let ghost prev = views(head@);
                head.push(c);
                assert(views(head@) =~= prev.push(c@));
                assert(views(ls@).take(i + 1) =~= views(ls@).take(i as int).push(ls@[i as int]@));
                i = i + 1;
            }
            let j = join_chars(&head, &chars_of(" | "));
            let mut p = String::from_str("solution failed to compile: ");
            let js = string_of(&j);
            p.append(js.as_str());
            Some(failure(ex.name.clone(), p))
        },
        Status::ChecksFail(notes, excerpt) => {
            let mut p = String::from_str("solution failed checks: ");
            let jn = join_strings(notes, "; ");
            p.append(jn.as_str());
            p.append(" (text: ");
            p.append(excerpt.as_str());
            p.append(")");
            Some(failure(ex.name.clone(), p))
        },
        _ => {
            let mut p = String::from_str("solution not Done: ");
            let sm = summarize(status);
            p.append(sm.as_str());
            Some(failure(ex.name.clone(), p))
        },
    }
}


// ---------------------------------------------------------------------------
// checking one exercise, one external step at a time
// ---------------------------------------------------------------------------

/// Where the checks of one exercise stand.
#[derive(Clone, Copy, Debug, PartialEq, Eq, Structural)]
pub enum DevStage {
    /// Waiting to learn whether the exercise and solution files exist.
    Files,
    /// Waiting for the two files' texts.
    Texts,
    /// Waiting for the shipped exercise's verification status.
    Shipped,
    /// Waiting for the scratch root holding the solution.
    Scratch,
}

/// What the caller found for the last action.
pub enum DevProbe {
    /// Whether the exercise file and the solution file exist.
    Files { exercise_file: bool, solution_file: bool },
    /// The two files' texts, or the text of the error reading each.
    Texts { exercise: Result<String, String>, solution: Result<String, String> },
    /// The shipped exercise's status.
    Shipped(Status),
    /// Whether a scratch root holding the solution could be built (the
    /// error's text if not).
    Scratch(Result<(), String>),
}

/// What the caller should do next.
#[derive(Clone, Copy, Debug, PartialEq, Eq, Structural)]
pub enum DevAction {
    /// Check that the exercise and solution files exist.
    CheckFiles,
    /// Read both files.
    ReadTexts,
    /// Verify the shipped exercise in the practice root.
    VerifyShipped,
    /// Build a scratch root holding the solution in the exercise's place.
    BuildScratch,
    /// Stop checking this exercise.
    Skip,
    /// Queue the solution, in its scratch root, for verification.
    QueueSolution,
}

pub open spec fn dev_stage_action(stage: DevStage) -> DevAction {
    match stage {
        DevStage::Files => DevAction::CheckFiles,
        DevStage::Texts => DevAction::ReadTexts,
        DevStage::Shipped => DevAction::VerifyShipped,
        DevStage::Scratch => DevAction::BuildScratch,
    }
}

/// The next stage, action and failures after `probe` at `stage`. A probe
/// that does not answer the stage's action leaves the stage as it is and
/// asks again.
pub open spec fn dev_next(ex: Exercise, stage: DevStage, probe: DevProbe) -> (
    DevStage,
    DevAction,
    Seq<(Seq<char>, Seq<char>)>,
) {
    match (stage, probe) {
        (DevStage::Files, DevProbe::Files { exercise_file, solution_file }) => if !exercise_file {
            (
                stage,
                DevAction::Skip,
                seq![(ex.name@, "missing exercise file "@ + rel_path_spec(ex.dir@, ex.name@))],
            )
        } else if !solution_file {
            (
                stage,
                DevAction::Skip,
                seq![(ex.name@, "missing solution file "@ + solution_rel_spec(ex.dir@, ex.name@))],
            )
        } else {
            (DevStage::Texts, DevAction::ReadTexts, entry_failures(ex))
        },
        (DevStage::Texts, DevProbe::Texts { exercise, solution }) => match (exercise, solution) {
            (Err(e), _) => (
                stage,
                DevAction::Skip,
                seq![(ex.name@, "cannot read exercise file: "@ + e@)],
            ),
            (Ok(_), Err(e)) => (
                stage,
                DevAction::Skip,
                seq![(ex.name@, "cannot read solution file: "@ + e@)],
            ),
            (Ok(t), Ok(u)) => (DevStage::Shipped, DevAction::VerifyShipped, marker_failures(
                ex,
                t@,
                u@,
            )),
        },
        (DevStage::Shipped, DevProbe::Shipped(st)) => (
            DevStage::Scratch,
            DevAction::BuildScratch,
            match shipped_problem(ex, st@) {
                Some(p) => seq![(ex.name@, p)],
                None => seq![],
            },
        ),
        (DevStage::Scratch, DevProbe::Scratch(r)) => match r {
            Ok(_) => (stage, DevAction::QueueSolution, seq![]),
            Err(e) => (
                stage,
                DevAction::Skip,
                seq![(ex.name@, "cannot build scratch root: "@ + e@)],
            ),
        },
        _ => (stage, dev_stage_action(stage), seq![]),
    }
}

fn one_failure(f: Failure) -> (v: Vec<Failure>)
    ensures
        failures_view(v@) == seq![failure_view(f)],
{
    let mut v: Vec<Failure> = Vec::new();
    v.push(f);
    assert(failures_view(v@) =~= seq![failure_view(f)]);
    v
}

fn no_failures() -> (v: Vec<Failure>)
    ensures
        failures_view(v@) == Seq::<(Seq<char>, Seq<char>)>::empty(),
{
    let v: Vec<Failure> = Vec::new();
    assert(failures_view(v@) =~= Seq::<(Seq<char>, Seq<char>)>::empty());
    v
}

/// One step of checking `ex`: given where it stands and what the last
/// action found, the next stage and action, and the failures found.
pub fn dev_step(ex: &Exercise, stage: DevStage, probe: DevProbe) -> (r: (
    DevStage,
    DevAction,
    Vec<Failure>,
))
    ensures
        (r.0, r.1, failures_view(r.2@)) == dev_next(*ex, stage, probe),
{
    match stage {
        DevStage::Files => match probe {
            DevProbe::Files { exercise_file, solution_file } => {
                if !exercise_file {
                    let rel = ex.rel_path();
                    let p = concat("missing exercise file ", rel.as_str());
                    (stage, DevAction::Skip, one_failure(failure(ex.name.clone(), p)))
                } else if !solution_file {
                    let rel = ex.solution_rel();
                    let p = concat("missing solution file ", rel.as_str());
                    (stage, DevAction::Skip, one_failure(failure(ex.name.clone(), p)))
                } else {
                    (DevStage::Texts, DevAction::ReadTexts, check_entry(ex))
                }
            },
            _ => (stage, DevAction::CheckFiles, no_failures()),
        },
        DevStage::Texts => match probe {
            DevProbe::Texts { exercise, solution } => match (exercise, solution) {
                (Err(e), _) => {
                    let p = concat("cannot read exercise file: ", e.as_str());
                    (stage, DevAction::Skip, one_failure(failure(ex.name.clone(), p)))
                },
                (Ok(_), Err(e)) => {
                    let p = concat("cannot read solution file: ", e.as_str());
                    (stage, DevAction::Skip, one_failure(failure(ex.name.clone(), p)))
                },
                (Ok(t), Ok(u)) => (
                    DevStage::Shipped,
                    DevAction::VerifyShipped,
                    check_markers(ex, t.as_str(), u.as_str()),
                ),
            },
            _ => (stage, DevAction::ReadTexts, no_failures()),
        },
        DevStage::Shipped => match probe {
            DevProbe::Shipped(st) => {
                let fs = match check_shipped(ex, &st) {
                    Some(f) => one_failure(f),
                    None => no_failures(),
                };
                (DevStage::Scratch, DevAction::BuildScratch, fs)
            },
            _ => (stage, DevAction::VerifyShipped, no_failures()),
        },
        DevStage::Scratch => match probe {
            DevProbe::Scratch(Ok(_)) => (stage, DevAction::QueueSolution, no_failures()),
            DevProbe::Scratch(Err(e)) => {
                let p = concat("cannot build scratch root: ", e.as_str());
                (stage, DevAction::Skip, one_failure(failure(ex.name.clone(), p)))
            },
            _ => (stage, DevAction::BuildScratch, no_failures()),
        },
    }
}

/// The failures of the solutions' verification, in exercise order:
/// `statuses[i]` is the status of exercise `i`'s solution, `None` when it
/// was not verified.
pub open spec fn solution_failures_spec(exs: Seq<Exercise>, statuses: Seq<Option<Status>>) -> Seq<
    (Seq<char>, Seq<char>),
>
    decreases statuses.len(),
{
    if statuses.len() == 0 {
        seq![]
    } else {
        let i = statuses.len() - 1;
        solution_failures_spec(exs, statuses.drop_last()) + match statuses.last() {
            Some(st) => match solution_problem(st@) {
                Some(p) => seq![(exs[i].name@, p)],
                None => seq![],
            },
            None => seq![],
        }
    }
}

pub fn solution_failures(exercises: &Vec<Exercise>, statuses: &Vec<Option<Status>>) -> (fs: Vec<
    Failure,
>)
    requires
        statuses.len() <= exercises.len(),
    ensures
        failures_view(fs@) == solution_failures_spec(exercises@, statuses@),
{
    let mut fs: Vec<Failure> = Vec::new();
    let mut i: usize = 0;
    while i < statuses.len()
        invariant
            i <= statuses.len() <= exercises.len(),
            failures_view(fs@) == solution_failures_spec(exercises@, statuses@.take(i as int)),
        decreases statuses.len() - i,
    {
        let ghost before = failures_view(fs@);
        assert(statuses@.take(i + 1).drop_last() =~= statuses@.take(i as int));
        match &statuses[i] {
            Some(st) => match check_solution(&exercises[i], st) {
                Some(f) => {
                    fs.push(f);
                    assert(failures_view(fs@) =~= before.push(failure_view(f)));
                },
                None => {},
            },
            None => {},
        }
        assert(failures_view(fs@) =~= solution_failures_spec(exercises@, statuses@.take(i + 1)));
        i = i + 1;
    }
    assert(statuses@.take(statuses.len() as int) =~= statuses@);
    fs
}


// ---------------------------------------------------------------------------
// scaffolding a new exercise
// ---------------------------------------------------------------------------

/// What `dev-new` writes and prints for a new exercise.
pub struct Scaffold {
    /// The new exercise file, relative to the practice root.
    pub exercise_rel: String,
    /// The new solution file, relative to the practice root.
    pub solution_rel: String,
    /// The exercise file's text.
    pub skeleton: String,
    /// The solution file's text.
    pub solution: String,
    /// The `info.toml` entry to paste, with the line that introduces it.
    pub stanza: String,
}

pub open spec fn skeleton_text(mode: Mode) -> Seq<char> {
    match mode {
        Mode::Fix => "% I AM NOT DONE\n\\documentclass{article}\n\\begin{document}\nHello\n\\end{document}\n"@,
        Mode::Write => "% I AM NOT DONE\n\\documentclass{article}\n\\begin{document}\n% write the requested content here\n\\end{document}\n"@,
    }
}

pub open spec fn solution_text(mode: Mode) -> Seq<char> {
    match mode {
        Mode::Fix => "\\documentclass{article}\n\\begin{document}\nHello\n\\end{document}\n"@,
        Mode::Write => "\\documentclass{article}\n\\begin{document}\nExpected content\n\\end{document}\n"@,
    }
}

pub open spec fn checks_text(mode: Mode) -> Seq<char> {
    match mode {
        Mode::Fix => seq![],
        Mode::Write => "checks = [{ pattern = \"...\", note = \"...\" }]\n"@,
    }
}

/// The `info.toml` entry for a new exercise, with the line introducing it.
pub open spec fn stanza_text(category: Seq<char>, name: Seq<char>, mode: Mode) -> Seq<char> {
    "Paste this into info.toml under the `"@ + category + "` section:\n\n[[exercises]]\nname = \""@
        + name + "\"\ndir = \""@ + category + "\"\nmode = \""@ + mode.label_spec() + "\"\n"@
        + checks_text(mode) + "hint = \"\"\"\nWrite a hint here.\"\"\"\n"@
}

/// What `dev-new` produces for `category/name`, or the error when either is
/// not a valid identifier (the category is checked first).
pub open spec fn scaffold_spec(category: Seq<char>, name: Seq<char>, mode: Mode) -> Result<
    (Seq<char>, Seq<char>, Seq<char>, Seq<char>, Seq<char>),
    Seq<char>,
> {
    if !valid_ident(category) {
        Err(ident_problem("category"@, category))
    } else if !valid_ident(name) {
        Err(ident_problem("name"@, name))
    } else {
        Ok(
            (
                rel_path_spec(category, name),
                solution_rel_spec(category, name),
                skeleton_text(mode),
                solution_text(mode),
                stanza_text(category, name, mode),
            ),
        )
    }
}

/// Plans a new exercise `category/name` and its solution skeleton.
pub fn dev_new_scaffold(category: &str, name: &str, mode: Mode) -> (r: Result<Scaffold, String>)
    ensures
        match (r, scaffold_spec(category@, name@, mode)) {
            (Ok(s), Ok(t)) => (s.exercise_rel@, s.solution_rel@, s.skeleton@, s.solution@, s.stanza@)
                == t,
            (Err(e), Err(f)) => e@ == f,
            _ => false,
        },
{
    if !is_valid_ident(category) {
        return Err(ident_problem_exec("category", category));
    }
    if !is_valid_ident(name) {
        return Err(ident_problem_exec("name", name));
    }
    let ex = Exercise {
        name: String::from_str(name),
        dir: String::from_str(category),
        mode,
        hint: String::new(),
        checks: Vec::new(),
        compiles_as_shipped: false,
        strict_chktex: false,
    };
    let (skeleton, solution, checks) = match mode {
        Mode::Fix => (
            "% I AM NOT DONE\n\\documentclass{article}\n\\begin{document}\nHello\n\\end{document}\n",
            "\\documentclass{article}\n\\begin{document}\nHello\n\\end{document}\n",
            "",
        ),
        Mode::Write => (
            "% I AM NOT DONE\n\\documentclass{article}\n\\begin{document}\n% write the requested content here\n\\end{document}\n",
            "\\documentclass{article}\n\\begin{document}\nExpected content\n\\end{document}\n",
            "checks = [{ pattern = \"...\", note = \"...\" }]\n",
        ),
    };
    proof {
        reveal_strlit("");
        assert(""@ =~= Seq::<char>::empty());
    }
    let mut stanza = String::from_str("Paste this into info.toml under the `");
    stanza.append(category);
    stanza.append("` section:\n\n[[exercises]]\nname = \"");
    stanza.append(name);
    stanza.append("\"\ndir = \"");
    stanza.append(category);
    stanza.append("\"\nmode = \"");
    stanza.append(mode.label());
    stanza.append("\"\n");
    stanza.append(checks);
    stanza.append("hint = \"\"\"\nWrite a hint here.\"\"\"\n");
    Ok(
        Scaffold {
            exercise_rel: ex.rel_path(),
            solution_rel: ex.solution_rel(),
            skeleton: String::from_str(skeleton),
            solution: String::from_str(solution),
            stanza,
        },
    )
}

/// `<name> already exists under <category> — pick a different name`
pub fn already_exists_message(category: &str, name: &str) -> (r: String)
    ensures
        r@ == name@ + " already exists under "@ + category@ + " — pick a different name"@,
{
    let mut s = String::from_str(name);
    s.append(" already exists under ");
    s.append(category);
    s.append(" — pick a different name");
    s
}

} // verus!
