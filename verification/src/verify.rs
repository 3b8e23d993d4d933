//! Deciding an exercise's status: what a pdflatex run's output means, which
//! lines of its log to show, whether a second pass is needed, whether the
//! rendered text passes the content checks, and what chktex's notes change.

use vstd::prelude::*;
use crate::info::{Check, Exercise, Mode, MARKER, join_path, join_path_exec, text_has_marker};
use crate::text::{
    chars_of, concat, contains_sub, decimal, decimal_string, join, join_chars, lines, lines_of,
    starts_with, starts_with_chars, string_of, string_views, views, words, words_of,
};

verus! {

// ---------------------------------------------------------------------------
// patterns (the regex crate)
// ---------------------------------------------------------------------------

#[verifier::external_type_specification]
#[verifier::external_body]
pub struct ExRegex(regex::Regex);

/// What `regex::Regex::new(pattern)` gives: `None` when the pattern
/// compiles, else the text of the error it reports.
pub uninterp spec fn regex_compile_error(pattern: Seq<char>) -> Option<Seq<char>>;

/// What `Regex::is_match(text)` answers for a regex compiled from `pattern`:
/// whether the pattern matches somewhere in `text`.
pub uninterp spec fn regex_is_match(pattern: Seq<char>, text: Seq<char>) -> bool;

/// A compiled pattern together with the text it was compiled from.
pub struct CompiledPattern {
    source: Ghost<Seq<char>>,
    re: regex::Regex,
}

impl CompiledPattern {
    /// The pattern text this was compiled from.
    pub closed spec fn source(&self) -> Seq<char> {
        self.source@
    }
}

/// Compiles `pattern`.
///
/// Trusted: `regex::Regex::new`, which returns an error for an invalid
/// pattern or one over the default size limit; the error is kept as the
/// text it displays. The contract names the outcome (`regex_compile_error`),
/// a function of the pattern alone, and ties the compiled value to its
/// pattern; it does not say which patterns compile.
#[verifier::external_body]
fn compile_pattern(pattern: &str) -> (r: Result<CompiledPattern, String>)
    ensures
        match r {
            Ok(p) => regex_compile_error(pattern@) is None && p.source() == pattern@,
            Err(e) => regex_compile_error(pattern@) == Some(e@),
        },
{
    match regex::Regex::new(pattern) {
        Ok(re) => Ok(CompiledPattern { source: Ghost(pattern@), re }),
        Err(e) => Err(e.to_string()),
    }
}

/// Does the compiled pattern match somewhere in `text`?
///
/// Trusted: `regex::Regex::is_match`. A `CompiledPattern` is only built by
/// `compile_pattern`, so its regex is the one compiled from `source()`; the
/// answer is named `regex_is_match`, a function of pattern and text alone,
/// and nothing more is claimed of it.
#[verifier::external_body]
fn pattern_is_match(p: &CompiledPattern, text: &str) -> (r: bool)
    ensures
        r == regex_is_match(p.source(), text@),
{
    p.re.is_match(text)
}

// ---------------------------------------------------------------------------
// status
// ---------------------------------------------------------------------------

/// The outcome of verifying one exercise.
pub enum Status {
    /// Compiles, checks pass, marker removed.
    Done,
    /// Compiles and passes checks, but the marker line is still present.
    MarkerPresent,
    /// pdflatex failed; payload is the extracted error excerpt.
    CompileFail(String),
    /// Compiles, but the rendered text does not satisfy the checks:
    /// failed-check notes, plus an excerpt of the rendered text.
    ChecksFail(Vec<String>, String),
    /// A required external tool is missing.
    ToolMissing(String),
}

/// A status as plain values.
pub enum StatusView {
    Done,
    MarkerPresent,
    CompileFail(Seq<char>),
    ChecksFail(Seq<Seq<char>>, Seq<char>),
    ToolMissing(Seq<char>),
}

impl View for Status {
    type V = StatusView;

    open spec fn view(&self) -> StatusView {
        match self {
            Status::Done => StatusView::Done,
            Status::MarkerPresent => StatusView::MarkerPresent,
            Status::CompileFail(e) => StatusView::CompileFail(e@),
            Status::ChecksFail(n, x) => StatusView::ChecksFail(string_views(n@), x@),
            Status::ToolMissing(m) => StatusView::ToolMissing(m@),
        }
    }
}

impl Clone for Status {
    fn clone(&self) -> (r: Self)
        ensures
            r@ == self@,
    {
        match self {
            Status::Done => Status::Done,
            Status::MarkerPresent => Status::MarkerPresent,
            Status::CompileFail(e) => Status::CompileFail(e.clone()),
            Status::ChecksFail(n, x) => {
                let n2 = n.clone();
                assert(n2@ =~= n@);
                Status::ChecksFail(n2, x.clone())
            },
            Status::ToolMissing(m) => Status::ToolMissing(m.clone()),
        }
    }
}

impl Status {
    /// Is this `Done`?
    pub fn is_done(&self) -> (b: bool)
        ensures
            b == (self@ is Done),
    {
        match self {
            Status::Done => true,
            _ => false,
        }
    }
}

/// `passing — remove the `% I AM NOT DONE` line to finish`
pub open spec fn marker_summary() -> Seq<char> {
    "passing — remove the `% "@ + MARKER@ + "` line to finish"@
}

/// The one-line summary of a status.
pub open spec fn summary(s: StatusView) -> Seq<char> {
    match s {
        StatusView::Done => "done"@,
        StatusView::MarkerPresent => marker_summary(),
        StatusView::CompileFail(_) => "compile error"@,
        StatusView::ChecksFail(notes, _) => "output checks failed ("@ + decimal(notes.len()) + ")"@,
        StatusView::ToolMissing(_) => "missing tool"@,
    }
}

/// One-line human summary of a status.
pub fn summarize(status: &Status) -> (r: String)
    ensures
        r@ == summary(status@),
{
    match status {
        Status::Done => String::from_str("done"),
        Status::MarkerPresent => {
            let mut s = String::from_str("passing — remove the `% ");
            s.append(MARKER);
            s.append("` line to finish");
            s
        },
        Status::CompileFail(_) => String::from_str("compile error"),
        Status::ChecksFail(notes, _) => {
            let mut s = String::from_str("output checks failed (");
            let n = decimal_string(notes.len() as u64);
            s.append(n.as_str());
            s.append(")");
            s
        },
        Status::ToolMissing(_) => String::from_str("missing tool"),
    }
}

// ---------------------------------------------------------------------------
// chktex
// ---------------------------------------------------------------------------

/// chktex's notes on an exercise.
pub struct LintResult {
    pub notes: Vec<String>,
}

/// The lines of chktex's output that start with `Warning`, in order.
pub open spec fn warning_lines(ls: Seq<Seq<char>>) -> Seq<Seq<char>>
    decreases ls.len(),
{
    if ls.len() == 0 {
        seq![]
    } else if starts_with(ls.last(), "Warning"@) {
        warning_lines(ls.drop_last()).push(ls.last())
    } else {
        warning_lines(ls.drop_last())
    }
}

/// The `Warning ...` lines of chktex's standard output.
pub fn parse_chktex_output(stdout: &str) -> (notes: Vec<String>)
    ensures
        string_views(notes@) == warning_lines(lines(stdout@)),
{
    let ls = lines_of(&chars_of(stdout));
    let w = chars_of("Warning");
    let mut notes: Vec<String> = Vec::new();
    let mut i: usize = 0;
    while i < ls.len()
        invariant
            i <= ls.len(),
            views(ls@) == lines(stdout@),
            w@ == "Warning"@,
            string_views(notes@) == warning_lines(views(ls@).take(i as int)),
        decreases ls.len() - i,
    {
        let ghost pre = views(ls@).take(i as int);
        let ghost x = ls@[i as int]@;
        assert(views(ls@).take(i + 1) =~= pre.push(x));
        assert(pre.push(x).drop_last() =~= pre);
        assert(pre.push(x).last() == x);
        if starts_with_chars(&ls[i], &w) {
            let s = string_of(&ls[i]);
            notes.push(s);
            assert(string_views(notes@) =~= warning_lines(pre).push(s@));
        } else {
            assert(string_views(notes@) =~= warning_lines(pre));
        }
        i = i + 1;
    }
    assert(views(ls@).take(ls.len() as int) =~= views(ls@));
    notes
}


/// The notes of an optional chktex result, as plain values.
pub open spec fn lint_notes(l: Option<LintResult>) -> Option<Seq<Seq<char>>> {
    match l {
        Some(r) => Some(string_views(r.notes@)),
        None => None,
    }
}

/// chktex runs only on exercises that compiled and whose tools were found.
pub open spec fn lints_apply(s: StatusView) -> bool {
    !(s is CompileFail) && !(s is ToolMissing)
}

/// Should chktex run after this status?
pub fn wants_lints(status: &Status) -> (b: bool)
    ensures
        b == lints_apply(status@),
{
    match status {
        Status::CompileFail(_) => false,
        Status::ToolMissing(_) => false,
        _ => true,
    }
}

/// Should a bulk sweep run chktex after this status? Only for an exercise
/// that sets `strict_chktex`, where its notes can block completion, and only
/// once it compiled and its tools were found.
pub fn sweep_wants_lints(ex: &Exercise, status: &Status) -> (b: bool)
    ensures
        b == (ex.strict_chktex && lints_apply(status@)),
{
    ex.strict_chktex && wants_lints(status)
}

/// Each note with `chktex: ` in front.
pub open spec fn chktex_prefixed(notes: Seq<Seq<char>>) -> Seq<Seq<char>> {
    notes.map_values(|n: Seq<char>| "chktex: "@ + n)
}

/// The status once chktex's notes are taken into account: with
/// `strict_chktex` and at least one note, a passing exercise fails its
/// checks with the notes, and one that already failed its checks gets the
/// notes added (prefixed `chktex: `) after its own.
pub open spec fn status_with_lints(
    strict: bool,
    status: StatusView,
    notes: Option<Seq<Seq<char>>>,
) -> StatusView {
    match notes {
        Some(ns) if strict && ns.len() > 0 => match status {
            StatusView::ChecksFail(old, excerpt) => StatusView::ChecksFail(
                old + chktex_prefixed(ns),
                excerpt,
            ),
            _ => StatusView::ChecksFail(ns, seq![]),
        },
        _ => status,
    }
}

/// Combines a verification status with the chktex result gathered after it
/// (`None` when chktex was not run or could not be started). A status on
/// which chktex does not run (see `wants_lints`) is returned alone.
pub fn verify_with_lints(ex: &Exercise, status: Status, lints: Option<LintResult>) -> (r: (
    Status,
    Option<LintResult>,
))
    ensures
        !lints_apply(status@) ==> r.0@ == status@ && r.1 is None,
        lints_apply(status@) ==> lint_notes(r.1) == lint_notes(lints) && r.0@ == status_with_lints(
            ex.strict_chktex,
            status@,
            lint_notes(lints),
        ),
        (lints is None || lints->0.notes.len() == 0) ==> r.0@ == status@,
        r.0@ != status@ ==> ex.strict_chktex,
{
    if !wants_lints(&status) {
        return (status, None);
    }
    let has_notes = match &lints {
        Some(l) => l.notes.len() > 0,
        None => false,
    };
    if ex.strict_chktex && has_notes {
        let chktex_notes = match &lints {
            Some(l) => clone_strings(&l.notes),
            None => Vec::new(),
        };
        let new_status = match status {
            Status::ChecksFail(notes, excerpt) => {
                let mut notes = notes;
                let ghost before = string_views(notes@);
                let mut i: usize = 0;
                while i < chktex_notes.len()
                    invariant
                        i <= chktex_notes.len(),
                        string_views(notes@) == before + chktex_prefixed(
                            string_views(chktex_notes@),
                        ).take(i as int),
                    decreases chktex_notes.len() - i,
                {
                    let n = concat("chktex: ", chktex_notes[i].as_str());
                    let ghost pv = chktex_prefixed(string_views(chktex_notes@));
                    assert(string_views(chktex_notes@)[i as int] == chktex_notes@[i as int]@);
                    assert(pv[i as int] == n@);
                    assert(pv.take(i + 1) =~= pv.take(i as int).push(n@));
                    let ghost prev = string_views(notes@);
                    notes.push(n);
                    assert(string_views(notes@) =~= prev.push(n@));
                    assert(string_views(notes@) =~= before + chktex_prefixed(
                        string_views(chktex_notes@),
                    ).take(i + 1));
                    i = i + 1;
                }
                assert(chktex_prefixed(string_views(chktex_notes@)).take(
                    chktex_notes.len() as int,
                ) =~= chktex_prefixed(string_views(chktex_notes@)));
                Status::ChecksFail(notes, excerpt)
            },
            _ => Status::ChecksFail(chktex_notes, String::new()),
        };
        return (new_status, lints);
    }
    (status, lints)
}

/// A copy of a list of strings.
pub fn clone_strings(v: &Vec<String>) -> (r: Vec<String>)
    ensures
        r@ == v@,
{
    let r = v.clone();
    assert(r@ =~= v@);
    r
}


// ---------------------------------------------------------------------------
// pdflatex's log
// ---------------------------------------------------------------------------

/// Where an exercise is built: `<name>` joined onto `build` under the
/// root, as paths join (an absolute name replaces the directory).
pub fn build_dir(root: &str, ex: &Exercise) -> (r: String)
    ensures
        r@ == join_path(join_path(root@, "build"@), ex.name@),
{
    let base = join_path_exec(root, "build");
    join_path_exec(base.as_str(), ex.name.as_str())
}

/// A line such as `./exercises/06_math_basics/math1.tex:18: ...`.
pub const ERROR_LINE_PATTERN: &'static str = "^[^ ]*\\.tex:\\d+:";

/// A log line where an error report starts: one starting with `!`, or one
/// in `file.tex:NN:` form.
pub open spec fn is_error_line(l: Seq<char>) -> bool {
    ||| (l.len() > 0 && l[0] == '!')
    ||| (regex_compile_error(ERROR_LINE_PATTERN@) is None && regex_is_match(ERROR_LINE_PATTERN@, l))
}

/// The first flagged position (meaningful when one is flagged).
pub open spec fn first_flagged(flags: Seq<bool>) -> int {
    choose|i: int| 0 <= i < flags.len() && flags[i] && forall|j: int| 0 <= j < i ==> !flags[j]
}

/// The lines to show: from the first flagged line, at most 18 lines; with
/// no flagged line, the last 12 lines.
pub open spec fn excerpt_lines(ls: Seq<Seq<char>>, flags: Seq<bool>) -> Seq<Seq<char>> {
    if exists|i: int| 0 <= i < flags.len() && flags[i] {
        let i = first_flagged(flags);
        ls.subrange(i, if i + 18 <= ls.len() { i + 18 } else { ls.len() as int })
    } else {
        ls.skip(if ls.len() >= 12 { ls.len() - 12 } else { 0 })
    }
}

/// The excerpt starts at the first line that starts an error report: for
/// a flagged line `i` with no flagged line before it, the excerpt is the
/// lines from `i` on, at most 18 of them; with no flagged line it is the
/// last 12 lines (all of them when there are fewer).
pub proof fn lemma_excerpt_starts_at_first_error(ls: Seq<Seq<char>>, flags: Seq<bool>)
    requires
        flags.len() == ls.len(),
    ensures
        forall|i: int|
            0 <= i < flags.len() && #[trigger] flags[i] && (forall|j: int| 0 <= j < i ==> !flags[j])
                ==> excerpt_lines(ls, flags) == ls.subrange(
                i,
                if i + 18 <= ls.len() {
                    i + 18
                } else {
                    ls.len() as int
                },
            ),
        (forall|j: int| 0 <= j < flags.len() ==> !flags[j]) ==> excerpt_lines(ls, flags) == ls.subrange(
            if ls.len() >= 12 {
                ls.len() - 12
            } else {
                0
            },
            ls.len() as int,
        ),
{
    assert forall|i: int|
        0 <= i < flags.len() && #[trigger] flags[i] && (forall|j: int| 0 <= j < i ==> !flags[j])
            implies excerpt_lines(ls, flags) == ls.subrange(
            i,
            if i + 18 <= ls.len() {
                i + 18
            } else {
                ls.len() as int
            },
        ) by {
        let f = first_flagged(flags);
        assert(0 <= f < flags.len() && flags[f] && forall|j: int| 0 <= j < f ==> !flags[j]);
        if f < i {
            assert(!flags[f]);
        } else if f > i {
            assert(!flags[i]);
        }
    }
    if forall|j: int| 0 <= j < flags.len() ==> !flags[j] {
        let start: int = if ls.len() >= 12 { ls.len() - 12 } else { 0 };
        assert(ls.skip(start) =~= ls.subrange(start, ls.len() as int));
    }
}

/// The excerpt of pdflatex's output that is shown for a failed compile.
pub open spec fn error_excerpt(out: Seq<char>) -> Seq<char> {
    let ls = lines(out);
    join(excerpt_lines(ls, ls.map_values(|l: Seq<char>| is_error_line(l))), "\n"@)
}

/// The excerpt for the log lines `ls`, given which of them start an error
/// report (`flags[i]` for `ls[i]`).
pub fn excerpt_from_flags(ls: &Vec<String>, flags: &Vec<bool>) -> (r: String)
    requires
        flags.len() == ls.len(),
    ensures
        r@ == join(excerpt_lines(string_views(ls@), flags@), "\n"@),
        forall|i: int|
            0 <= i < flags.len() && #[trigger] flags@[i] && (forall|j: int| 0 <= j < i ==> !flags@[j])
                ==> r@ == join(
                string_views(ls@).subrange(
                    i,
                    if i + 18 <= ls.len() {
                        i + 18
                    } else {
                        ls.len() as int
                    },
                ),
                "\n"@,
            ),
{
    proof {
        lemma_excerpt_starts_at_first_error(string_views(ls@), flags@);
    }
    let mut i: usize = 0;
    while i < flags.len() && !flags[i]
        invariant
            i <= flags.len(),
            forall|j: int| 0 <= j < i ==> !flags@[j],
        decreases flags.len() - i,
    {
        i = i + 1;
    }
    let (start, end) = if i < flags.len() {
        assert(first_flagged(flags@) == i as int) by {
            let f = first_flagged(flags@);
            assert(0 <= i < flags@.len() && flags@[i as int] && forall|j: int|
                0 <= j < i ==> !flags@[j]);
            if f < i {
            } else if f > i {
            }
        }
        let end = if ls.len() - i >= 18 {
            i + 18
        } else {
            ls.len()
        };
        (i, end)
    } else {
        let start = if ls.len() >= 12 {
            ls.len() - 12
        } else {
            0
        };
        (start, ls.len())
    };
    let mut parts: Vec<Vec<char>> = Vec::new();
    let mut k: usize = start;
    while k < end
        invariant
            start <= k <= end <= ls.len(),
            views(parts@) == string_views(ls@).subrange(start as int, k as int),
        decreases end - k,
    {
        let c = chars_of(ls[k].as_str());
        let ghost prev = views(parts@);
        parts.push(c);
        assert(views(parts@) =~= prev.push(c@));
        assert(string_views(ls@).subrange(start as int, k + 1) =~= string_views(ls@).subrange(
            start as int,
            k as int,
        ).push(ls@[k as int]@));
        k = k + 1;
    }
    let sep = chars_of("\n");
    let joined = join_chars(&parts, &sep);
    assert(string_views(ls@).subrange(start as int, end as int) =~= excerpt_lines(
        string_views(ls@),
        flags@,
    ));
    string_of(&joined)
}

/// Extracts the interesting part of pdflatex's output: from the first line
/// that starts an error report onward (at most 18 lines), or else its last
/// 12 lines.
pub fn extract_errors(stdout: &str) -> (r: String)
    ensures
        r@ == error_excerpt(stdout@),
{
    let ls = lines_of(&chars_of(stdout));
    let re = compile_pattern(ERROR_LINE_PATTERN);
    let mut strs: Vec<String> = Vec::new();
    let mut flags: Vec<bool> = Vec::new();
    let mut i: usize = 0;
    while i < ls.len()
        invariant
            i <= ls.len(),
            views(ls@) == lines(stdout@),
            strs.len() == i,
            flags.len() == i,
            string_views(strs@) == views(ls@).take(i as int),
            match re {
                Ok(p) => regex_compile_error(ERROR_LINE_PATTERN@) is None && p.source()
                    == ERROR_LINE_PATTERN@,
                Err(_) => !(regex_compile_error(ERROR_LINE_PATTERN@) is None),
            },
            forall|j: int| 0 <= j < i ==> flags@[j] == is_error_line(#[trigger] views(ls@)[j]),
        decreases ls.len() - i,
    {
        let line = string_of(&ls[i]);
        let bang = ls[i].len() > 0 && ls[i][0] == '!';
        let flagged = if bang {
            true
        } else {
            match &re {
                Ok(p) => pattern_is_match(p, line.as_str()),
                Err(_) => false,
            }
        };
        let ghost prev = string_views(strs@);
        strs.push(line);
        flags.push(flagged);
        assert(string_views(strs@) =~= prev.push(ls@[i as int]@));
        assert(views(ls@).take(i + 1) =~= views(ls@).take(i as int).push(ls@[i as int]@));
        i = i + 1;
    }
    assert(views(ls@).take(ls.len() as int) =~= views(ls@));
    let ghost lv = lines(stdout@);
    assert(flags@ =~= lv.map_values(|l: Seq<char>| is_error_line(l)));
    excerpt_from_flags(&strs, &flags)
}

/// Does this source need a second pdflatex pass for references or the
/// table of contents to resolve?
pub open spec fn needs_second_pass_spec(src: Seq<char>) -> bool {
    ||| contains_sub(src, "\\ref"@)
    ||| contains_sub(src, "\\pageref"@)
    ||| contains_sub(src, "\\eqref"@)
    ||| contains_sub(src, "\\cite"@)
    ||| contains_sub(src, "\\tableofcontents"@)
}

/// Does this source need a second pdflatex pass?
pub fn needs_second_pass(src: &str) -> (b: bool)
    ensures
        b == needs_second_pass_spec(src@),
{
    let t = chars_of(src);
    crate::text::contains_chars(&t, &chars_of("\\ref")) || crate::text::contains_chars(
        &t,
        &chars_of("\\pageref"),
    ) || crate::text::contains_chars(&t, &chars_of("\\eqref")) || crate::text::contains_chars(
        &t,
        &chars_of("\\cite"),
    ) || crate::text::contains_chars(&t, &chars_of("\\tableofcontents"))
}

// ---------------------------------------------------------------------------
// rendered text and content checks
// ---------------------------------------------------------------------------

/// The rendered text with each run of whitespace replaced by one space and
/// none at either end, so checks do not depend on layout.
pub open spec fn normalized(raw: Seq<char>) -> Seq<char> {
    join(words(raw), " "@)
}

/// `pdftotext`'s output normalized for the checks.
pub fn normalize_rendered(raw: &str) -> (r: String)
    ensures
        r@ == normalized(raw@),
{
    let w = words_of(&chars_of(raw));
    let j = join_chars(&w, &chars_of(" "));
    string_of(&j)
}

/// The note a failed check reports, if the check fails on `text`.
pub open spec fn check_failure(c: Check, text: Seq<char>) -> Option<Seq<char>> {
    outcome_note(c, pattern_outcome(c.pattern@, text))
}

/// The notes of the checks that fail on `text`, in order.
pub open spec fn check_failures(cs: Seq<Check>, text: Seq<char>) -> Seq<Seq<char>>
    decreases cs.len(),
{
    if cs.len() == 0 {
        seq![]
    } else {
        match check_failure(cs.last(), text) {
            Some(n) => check_failures(cs.drop_last(), text).push(n),
            None => check_failures(cs.drop_last(), text),
        }
    }
}

/// What a pattern did with the rendered text: whether it matched, or the
/// text of the error compiling it.
pub open spec fn pattern_outcome(pattern: Seq<char>, text: Seq<char>) -> Result<bool, Seq<char>> {
    match regex_compile_error(pattern) {
        None => Ok(regex_is_match(pattern, text)),
        Some(e) => Err(e),
    }
}

/// The note a check reports given its pattern's outcome, if it fails.
pub open spec fn outcome_note(c: Check, outcome: Result<bool, Seq<char>>) -> Option<Seq<char>> {
    match outcome {
        Ok(matched) => if matched {
            None
        } else {
            Some(c.note@)
        },
        Err(e) => Some("(bad check pattern `"@ + c.pattern@ + "`: "@ + e + ")"@),
    }
}

/// The note check `c` reports, given what its pattern did (`Ok(matched)`,
/// or `Err` with the text of the error compiling it): none when it
/// matched, its own note when it did not, a note quoting the pattern and
/// the error when it did not compile.
pub fn check_note(c: &Check, outcome: Result<bool, String>) -> (r: Option<String>)
    ensures
        match r {
            Some(n) => outcome_note(
                *c,
                match outcome {
                    Ok(m) => Ok(m),
                    Err(e) => Err(e@),
                },
            ) == Some(n@),
            None => outcome_note(
                *c,
                match outcome {
                    Ok(m) => Ok(m),
                    Err(e) => Err(e@),
                },
            ) is None,
        },
{
    match outcome {
        Ok(matched) => if matched {
            None
        } else {
            Some(c.note.clone())
        },
        Err(e) => {
            let mut m = String::from_str("(bad check pattern `");
            m.append(c.pattern.as_str());
            m.append("`: ");
            m.append(e.as_str());
            m.append(")");
            Some(m)
        },
    }
}

/// Runs every check against the rendered text; the notes of those that
/// fail, in order (a pattern that does not compile fails with a note
/// quoting it and the error).
pub fn run_checks(checks: &Vec<Check>, text: &str) -> (failed: Vec<String>)
    ensures
        string_views(failed@) == check_failures(checks@, text@),
{
    let mut failed: Vec<String> = Vec::new();
    let mut i: usize = 0;
    while i < checks.len()
        invariant
            i <= checks.len(),
            string_views(failed@) == check_failures(checks@.take(i as int), text@),
        decreases checks.len() - i,
    {
        let c = &checks[i];
        let ghost pre = checks@.take(i as int);
        assert(checks@.take(i + 1).drop_last() =~= pre);
        assert(checks@.take(i + 1).last() == *c);
        let ghost prev = string_views(failed@);
        let outcome = match compile_pattern(c.pattern.as_str()) {
            Ok(p) => Ok(pattern_is_match(&p, text)),
            Err(e) => Err(e),
        };
        match check_note(c, outcome) {
            Some(n) => {
                let ghost nv = n@;
                failed.push(n);
                assert(string_views(failed@) =~= prev.push(nv));
            },
            None => {},
        }
        i = i + 1;
    }
    assert(checks@.take(checks.len() as int) =~= checks@);
    failed
}

/// How much of the rendered text a failed-checks status quotes.
pub const EXCERPT_CHARS: usize = 360;

/// The start of the rendered text, at most `EXCERPT_CHARS` characters.
pub open spec fn rendered_excerpt(text: Seq<char>) -> Seq<char> {
    text.take(if text.len() <= 360 { text.len() as int } else { 360 })
}

fn excerpt_of(text: &str) -> (r: String)
    ensures
        r@ == rendered_excerpt(text@),
{
    let t = chars_of(text);
    let n = if t.len() <= EXCERPT_CHARS {
        t.len()
    } else {
        EXCERPT_CHARS
    };
    let mut v: Vec<char> = Vec::new();
    let mut i: usize = 0;
    while i < n
        invariant
            i <= n <= t.len(),
            v@ == t@.take(i as int),
        decreases n - i,
    {
        v.push(t[i]);
        assert(t@.take(i as int).push(t@[i as int]) =~= t@.take(i + 1));
        i = i + 1;
    }
    string_of(&v)
}


// ---------------------------------------------------------------------------
// the verification procedure, one external step at a time
// ---------------------------------------------------------------------------

pub const PDFLATEX_MISSING: &'static str = "pdflatex not found on PATH.\nInstall a TeX distribution:\n  macOS:  brew install --cask mactex-no-gui\n  Debian: sudo apt install texlive-latex-extra";

pub const PDFTOTEXT_MISSING: &'static str = "pdftotext not found — writing exercises check the rendered PDF text.\nInstall poppler:\n  macOS:  brew install poppler\n  Debian: sudo apt install poppler-utils";

/// What starting an external program produced.
pub enum ToolOutput {
    /// The program is not on the `PATH`.
    NotFound,
    /// It could not be started for another reason (the error's text).
    SpawnFailed(String),
    /// It ran: whether it exited successfully, and its standard output.
    Exited { success: bool, stdout: String },
}

/// Where the verification of one exercise stands.
#[derive(Clone, Copy, Debug, PartialEq, Eq, Structural)]
pub enum VerifyStage {
    /// Waiting for the first pdflatex run.
    FirstPass,
    /// Waiting for the source text, to decide on a second pass.
    SourceForSecondPass,
    /// Waiting for the second pdflatex run.
    SecondPass,
    /// Waiting for pdftotext's rendering of the PDF.
    Render,
    /// Waiting for the source text, to look for the marker.
    SourceForMarker,
}

/// What the caller did for the last action.
pub enum VerifyEvent {
    /// The build directory could not be created (the error's text).
    BuildDirFailed(String),
    /// pdflatex was run on the exercise.
    Pdflatex(ToolOutput),
    /// The exercise's source was read (`None` if it could not be read).
    Source(Option<String>),
    /// pdftotext was run on the exercise's PDF.
    Pdftotext(ToolOutput),
}

/// What the caller should do next.
pub enum VerifyAction {
    /// Create the build directory and run pdflatex on the exercise.
    RunPdflatex,
    /// Read the exercise's source text.
    ReadSource,
    /// Run pdftotext on the exercise's PDF.
    RunPdftotext,
    /// Verification is over with this status.
    Finish(Status),
}

pub enum ActionView {
    RunPdflatex,
    ReadSource,
    RunPdftotext,
    Finish(StatusView),
}

impl View for VerifyAction {
    type V = ActionView;

    open spec fn view(&self) -> ActionView {
        match self {
            VerifyAction::RunPdflatex => ActionView::RunPdflatex,
            VerifyAction::ReadSource => ActionView::ReadSource,
            VerifyAction::RunPdftotext => ActionView::RunPdftotext,
            VerifyAction::Finish(s) => ActionView::Finish(s@),
        }
    }
}

/// Once the exercise compiled: render and check it if it is a writing
/// assignment with checks, else look for the marker.
pub open spec fn after_compiles(ex: Exercise) -> (VerifyStage, ActionView) {
    if ex.mode == Mode::Write && ex.checks@.len() > 0 {
        (VerifyStage::Render, ActionView::RunPdftotext)
    } else {
        (VerifyStage::SourceForMarker, ActionView::ReadSource)
    }
}

/// Is this the outcome of a pdflatex step?
pub open spec fn is_compile_event(ev: VerifyEvent) -> bool {
    ev is BuildDirFailed || ev is Pdflatex
}

/// The status a pdflatex step ends verification with, if it failed.
pub open spec fn compile_failure(ev: VerifyEvent) -> Option<StatusView> {
    match ev {
        VerifyEvent::BuildDirFailed(e) => Some(
            StatusView::ToolMissing("cannot create build dir: "@ + e@),
        ),
        VerifyEvent::Pdflatex(ToolOutput::NotFound) => Some(
            StatusView::ToolMissing(PDFLATEX_MISSING@),
        ),
        VerifyEvent::Pdflatex(ToolOutput::SpawnFailed(e)) => Some(
            StatusView::ToolMissing("failed to run pdflatex: "@ + e@),
        ),
        VerifyEvent::Pdflatex(ToolOutput::Exited { success, stdout }) => if success {
            None
        } else {
            Some(StatusView::CompileFail(error_excerpt(stdout@)))
        },
        _ => None,
    }
}

/// The next stage and action after `ev` at `stage`. An event that does not
/// answer the stage's action leaves the stage as it is and asks again.
pub open spec fn verify_next(ex: Exercise, stage: VerifyStage, ev: VerifyEvent) -> (
    VerifyStage,
    ActionView,
) {
    match stage {
        VerifyStage::FirstPass | VerifyStage::SecondPass => if !is_compile_event(ev) {
            (stage, ActionView::RunPdflatex)
        } else {
            match compile_failure(ev) {
                Some(st) => (stage, ActionView::Finish(st)),
                None => if stage == VerifyStage::FirstPass {
                    (VerifyStage::SourceForSecondPass, ActionView::ReadSource)
                } else {
                    after_compiles(ex)
                },
            }
        },
        VerifyStage::SourceForSecondPass => match ev {
            VerifyEvent::Source(t) => if t matches Some(src) && needs_second_pass_spec(src@) {
                (VerifyStage::SecondPass, ActionView::RunPdflatex)
            } else {
                after_compiles(ex)
            },
            _ => (stage, ActionView::ReadSource),
        },
        VerifyStage::Render => match ev {
            VerifyEvent::Pdftotext(ToolOutput::NotFound) => (
                stage,
                ActionView::Finish(StatusView::ToolMissing(PDFTOTEXT_MISSING@)),
            ),
            VerifyEvent::Pdftotext(ToolOutput::SpawnFailed(e)) => (
                stage,
                ActionView::Finish(StatusView::ToolMissing("failed to run pdftotext: "@ + e@)),
            ),
            VerifyEvent::Pdftotext(ToolOutput::Exited { success, stdout }) => {
                let text = normalized(stdout@);
                let failed = check_failures(ex.checks@, text);
                if failed.len() > 0 {
                    (
                        stage,
                        ActionView::Finish(StatusView::ChecksFail(failed, rendered_excerpt(text))),
                    )
                } else {
                    (VerifyStage::SourceForMarker, ActionView::ReadSource)
                }
            },
            _ => (stage, ActionView::RunPdftotext),
        },
        VerifyStage::SourceForMarker => match ev {
            VerifyEvent::Source(t) => (
                stage,
                ActionView::Finish(
                    if t matches Some(src) && contains_sub(src@, MARKER@) {
                        StatusView::MarkerPresent
                    } else {
                        StatusView::Done
                    },
                ),
            ),
            _ => (stage, ActionView::ReadSource),
        },
    }
}

/// Verification starts with a pdflatex run.
pub fn verify_start() -> (r: (VerifyStage, VerifyAction))
    ensures
        r.0 == VerifyStage::FirstPass,
        r.1@ == ActionView::RunPdflatex,
{
    (VerifyStage::FirstPass, VerifyAction::RunPdflatex)
}

fn after_compiles_exec(ex: &Exercise) -> (r: (VerifyStage, VerifyAction))
    ensures
        (r.0, r.1@) == after_compiles(*ex),
{
    let write = match ex.mode {
        Mode::Write => true,
        Mode::Fix => false,
    };
    if write && ex.checks.len() > 0 {
        (VerifyStage::Render, VerifyAction::RunPdftotext)
    } else {
        (VerifyStage::SourceForMarker, VerifyAction::ReadSource)
    }
}

/// One step of verifying `ex`: given where it stands and what the last
/// action produced, the next stage and action.
pub fn verify_step(ex: &Exercise, stage: VerifyStage, event: VerifyEvent) -> (r: (
    VerifyStage,
    VerifyAction,
))
    ensures
        (r.0, r.1@) == verify_next(*ex, stage, event),
{
    match stage {
        VerifyStage::FirstPass | VerifyStage::SecondPass => {
            match event {
                VerifyEvent::BuildDirFailed(e) => {
                    let m = concat("cannot create build dir: ", e.as_str());
                    (stage, VerifyAction::Finish(Status::ToolMissing(m)))
                },
                VerifyEvent::Pdflatex(ToolOutput::NotFound) => (
                    stage,
                    VerifyAction::Finish(Status::ToolMissing(String::from_str(PDFLATEX_MISSING))),
                ),
                VerifyEvent::Pdflatex(ToolOutput::SpawnFailed(e)) => {
                    let m = concat("failed to run pdflatex: ", e.as_str());
                    (stage, VerifyAction::Finish(Status::ToolMissing(m)))
                },
                VerifyEvent::Pdflatex(ToolOutput::Exited { success, stdout }) => {
                    if success {
                        match stage {
                            VerifyStage::FirstPass => (
                                VerifyStage::SourceForSecondPass,
                                VerifyAction::ReadSource,
                            ),
                            _ => after_compiles_exec(ex),
                        }
                    } else {
                        let e = extract_errors(stdout.as_str());
                        (stage, VerifyAction::Finish(Status::CompileFail(e)))
                    }
                },
                _ => (stage, VerifyAction::RunPdflatex),
            }
        },
        VerifyStage::SourceForSecondPass => match event {
            VerifyEvent::Source(t) => {
                let again = match &t {
                    Some(src) => needs_second_pass(src.as_str()),
                    None => false,
                };
                if again {
                    (VerifyStage::SecondPass, VerifyAction::RunPdflatex)
                } else {
                    after_compiles_exec(ex)
                }
            },
            _ => (stage, VerifyAction::ReadSource),
        },
        VerifyStage::Render => match event {
            VerifyEvent::Pdftotext(ToolOutput::NotFound) => (
                stage,
                VerifyAction::Finish(Status::ToolMissing(String::from_str(PDFTOTEXT_MISSING))),
            ),
            VerifyEvent::Pdftotext(ToolOutput::SpawnFailed(e)) => {
                let m = concat("failed to run pdftotext: ", e.as_str());
                (stage, VerifyAction::Finish(Status::ToolMissing(m)))
            },
            VerifyEvent::Pdftotext(ToolOutput::Exited { success: _, stdout }) => {
                let text = normalize_rendered(stdout.as_str());
                let failed = run_checks(&ex.checks, text.as_str());
                if failed.len() > 0 {
                    let excerpt = excerpt_of(text.as_str());
                    (stage, VerifyAction::Finish(Status::ChecksFail(failed, excerpt)))
                } else {
                    (VerifyStage::SourceForMarker, VerifyAction::ReadSource)
                }
            },
            _ => (stage, VerifyAction::RunPdftotext),
        },
        VerifyStage::SourceForMarker => match event {
            VerifyEvent::Source(t) => {
                let marked = match &t {
                    Some(src) => text_has_marker(src.as_str()),
                    None => false,
                };
                if marked {
                    (stage, VerifyAction::Finish(Status::MarkerPresent))
                } else {
                    (stage, VerifyAction::Finish(Status::Done))
                }
            },
            _ => (stage, VerifyAction::ReadSource),
        },
    }
}


// ---------------------------------------------------------------------------
// whole runs
// ---------------------------------------------------------------------------

/// Where verifying `ex` stands after the events `evs`, starting from
/// `verify_start`; once an action is `Finish`, later events change nothing.
pub open spec fn verify_run(ex: Exercise, evs: Seq<VerifyEvent>) -> (VerifyStage, ActionView)
    decreases evs.len(),
{
    if evs.len() == 0 {
        (VerifyStage::FirstPass, ActionView::RunPdflatex)
    } else {
        let prev = verify_run(ex, evs.drop_last());
        if prev.1 is Finish {
            prev
        } else {
            verify_next(ex, prev.0, evs.last())
        }
    }
}

/// A rendering of the PDF on whose text every check of `ex` passes.
pub open spec fn passing_render(ex: Exercise, ev: VerifyEvent) -> bool {
    match ev {
        VerifyEvent::Pdftotext(ToolOutput::Exited { success, stdout }) => check_failures(
            ex.checks@,
            normalized(stdout@),
        ).len() == 0,
        _ => false,
    }
}

/// A writing assignment with checks had its rendered text pass every
/// check at some point of `evs`; other exercises need nothing.
pub open spec fn rendered_checks_pass(ex: Exercise, evs: Seq<VerifyEvent>) -> bool {
    ex.mode == Mode::Write && ex.checks@.len() > 0 ==> exists|i: int|
        0 <= i < evs.len() && passing_render(ex, #[trigger] evs[i])
}

/// The only way to `Done` is through the marker check, and an exercise
/// reaches the marker check only when its checks (if it is a writing
/// assignment with checks) passed on the rendered text.
pub proof fn lemma_marker_check_follows_passing_checks(ex: Exercise, evs: Seq<VerifyEvent>)
    ensures
        verify_run(ex, evs).0 == VerifyStage::SourceForMarker ==> rendered_checks_pass(ex, evs),
        verify_run(ex, evs).1 == ActionView::Finish(StatusView::Done) ==> verify_run(ex, evs).0
            == VerifyStage::SourceForMarker,
    decreases evs.len(),
{
    if evs.len() > 0 {
        let pre = evs.drop_last();
        lemma_marker_check_follows_passing_checks(ex, pre);
        if rendered_checks_pass(ex, pre) && ex.mode == Mode::Write && ex.checks@.len() > 0 {
            let i = choose|i: int| 0 <= i < pre.len() && passing_render(ex, #[trigger] pre[i]);
            assert(evs[i] == pre[i]);
        }
        if ex.mode == Mode::Write && ex.checks@.len() > 0 {
            let prev = verify_run(ex, pre);
            if !(prev.1 is Finish) && prev.0 == VerifyStage::Render {
                let last = evs.last();
                if let VerifyEvent::Pdftotext(ToolOutput::Exited { success, stdout }) = last {
                    assert(evs[evs.len() - 1] == last);
                }
            }
        }
    }
}

/// The marker must be gone: when a step ends verification with `Done`, that
/// step read the source, and the source did not hold the marker; and the
/// checks, where there are any, passed.
pub proof fn lemma_done_means_marker_removed(ex: Exercise, evs: Seq<VerifyEvent>)
    requires
        evs.len() > 0,
        verify_run(ex, evs).1 == ActionView::Finish(StatusView::Done),
        !(verify_run(ex, evs.drop_last()).1 is Finish),
    ensures
        evs.last() matches VerifyEvent::Source(t) && !(t matches Some(src) && contains_sub(
            src@,
            MARKER@,
        )),
        rendered_checks_pass(ex, evs),
{
    lemma_marker_check_follows_passing_checks(ex, evs);
    lemma_marker_check_follows_passing_checks(ex, evs.drop_last());
}

/// With `strict_chktex`, an exercise with chktex notes is never `Done`;
/// without it, chktex's notes never change the status.
pub proof fn lemma_strict_chktex_blocks_done(
    strict: bool,
    status: StatusView,
    notes: Option<Seq<Seq<char>>>,
)
    ensures
        strict && (notes matches Some(ns) && ns.len() > 0) ==> status_with_lints(
            strict,
            status,
            notes,
        ) is ChecksFail,
        !strict ==> status_with_lints(strict, status, notes) == status,
        (notes is None || notes->0.len() == 0) ==> status_with_lints(strict, status, notes)
            == status,
        status matches StatusView::ChecksFail(old, x) ==> status_with_lints(
            strict,
            status,
            notes,
        ) matches StatusView::ChecksFail(new, y) && new.take(old.len() as int) == old && y == x,
{
    if let StatusView::ChecksFail(old, x) = status {
        if let Some(ns) = notes {
            if strict && ns.len() > 0 {
                assert((old + chktex_prefixed(ns)).take(old.len() as int) =~= old);
            }
        }
        assert(old.take(old.len() as int) =~= old);
    }
}

} // verus!
