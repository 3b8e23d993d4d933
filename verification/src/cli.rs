//! The command line: which command the arguments ask for, the editor flags
//! taken out of them, finding an exercise by name, recording a verified
//! result, and the lines that report results.

use vstd::prelude::*;
use crate::editor::EditorConfig;
use crate::info::{DoneState, Exercise, Mode, rel_path_spec, split_once, split_once_chars};
use crate::text::{
    chars_of, decimal, decimal_string, pad_left, pad_left_string, pad_right, pad_right_string,
    starts_with, starts_with_chars, str_is, string_of, string_views,
};
use crate::verify::{Status, StatusView, summarize, summary};

verus! {

/// The first position of `lit` among `args`.
pub open spec fn first_arg(args: Seq<Seq<char>>, lit: Seq<char>) -> Option<int> {
    if exists|i: int| 0 <= i < args.len() && args[i] == lit {
        Some(
            choose|i: int|
                0 <= i < args.len() && args[i] == lit && forall|j: int|
                    0 <= j < i ==> args[j] != lit,
        )
    } else {
        None
    }
}

fn position(args: &Vec<String>, lit: &str) -> (r: Option<usize>)
    ensures
        match (r, first_arg(string_views(args@), lit@)) {
            (Some(i), Some(j)) => i == j,
            (None, None) => true,
            _ => false,
        },
        r matches Some(i) ==> i < args.len(),
{
    let mut i: usize = 0;
    while i < args.len()
        invariant
            i <= args.len(),
            forall|j: int| 0 <= j < i ==> string_views(args@)[j] != lit@,
        decreases args.len() - i,
    {
        if str_is(args[i].as_str(), lit) {
            let ghost a = string_views(args@);
            assert(a[i as int] == lit@);
            assert(first_arg(a, lit@) == Some(i as int)) by {
                let f = choose|k: int|
                    0 <= k < a.len() && a[k] == lit@ && forall|j: int| 0 <= j < k ==> a[j] != lit@;
                assert(0 <= i < a.len() && a[i as int] == lit@ && forall|j: int|
                    0 <= j < i ==> a[j] != lit@);
                if f < i {
                } else if f > i {
                }
            }
            return Some(i);
        }
        i = i + 1;
    }
    None
}

/// The arguments left and the editor command once `--edit-cmd <cmd>` is
/// taken out of `args`: the word after `--edit-cmd` is its value unless it
/// starts with `--`.
pub open spec fn edit_cmd_flag(args: Seq<Seq<char>>) -> (Seq<Seq<char>>, Option<Seq<char>>) {
    match first_arg(args, "--edit-cmd"@) {
        Some(i) => {
            let b = args.remove(i);
            if i < b.len() && !starts_with(b[i], "--"@) {
                (b.remove(i), Some(b[i]))
            } else {
                (b, None)
            }
        },
        None => (args, None),
    }
}

/// The arguments left and whether the editor is disabled once
/// `--no-editor` is taken out of `args`; `env_no_editor` is whether
/// `LATEXLINGS_NO_EDITOR` is set.
pub open spec fn no_editor_flag(args: Seq<Seq<char>>, env_no_editor: bool) -> (Seq<Seq<char>>, bool) {
    match first_arg(args, "--no-editor"@) {
        Some(j) => (args.remove(j), true),
        None => (args, env_no_editor),
    }
}

/// The arguments left, the editor command and whether the editor is
/// disabled, once `--edit-cmd <cmd>` and then `--no-editor` are taken out
/// of `args` (wherever they stand).
pub open spec fn editor_flags(args: Seq<Seq<char>>, env_no_editor: bool) -> (
    Seq<Seq<char>>,
    Option<Seq<char>>,
    bool,
) {
    let (a1, cmd) = edit_cmd_flag(args);
    let (a2, disabled) = no_editor_flag(a1, env_no_editor);
    (a2, cmd, disabled)
}

fn take_edit_cmd(args: &mut Vec<String>) -> (cmd: Option<String>)
    ensures
        ({
            let (rest, c) = edit_cmd_flag(string_views(old(args)@));
            &&& string_views(final(args)@) == rest
            &&& match (cmd, c) {
                (Some(x), Some(y)) => x@ == y,
                (None, None) => true,
                _ => false,
            }
        }),
{
    let ghost a0 = string_views(args@);
    match position(args, "--edit-cmd") {
        Some(i) => {
            args.remove(i);
            assert(string_views(args@) =~= a0.remove(i as int));
            if i < args.len() && !starts_with_chars(&chars_of(args[i].as_str()), &chars_of("--")) {
                let ghost b = string_views(args@);
                let v = args.remove(i);
                assert(string_views(args@) =~= b.remove(i as int));
                Some(v)
            } else {
                None
            }
        },
        None => None,
    }
}

fn take_no_editor(args: &mut Vec<String>, env_no_editor: bool) -> (disabled: bool)
    ensures
        (string_views(final(args)@), disabled) == no_editor_flag(
            string_views(old(args)@),
            env_no_editor,
        ),
{
    let ghost a1 = string_views(args@);
    match position(args, "--no-editor") {
        Some(j) => {
            args.remove(j);
            assert(string_views(args@) =~= a1.remove(j as int));
            true
        },
        None => env_no_editor,
    }
}

/// Takes `--edit-cmd <value>` and `--no-editor` out of `args`, wherever
/// they appear, and builds the editor configuration.
pub fn take_editor_flags(args: &mut Vec<String>, env_no_editor: bool) -> (c: EditorConfig)
    ensures
        ({
            let (rest, cmd, disabled) = editor_flags(string_views(old(args)@), env_no_editor);
            &&& string_views(final(args)@) == rest
            &&& match (c.edit_cmd, cmd) {
                (Some(x), Some(y)) => x@ == y,
                (None, None) => true,
                _ => false,
            }
            &&& c.disabled == disabled
        }),
{
    let edit_cmd = take_edit_cmd(args);
    let disabled = take_no_editor(args, env_no_editor);
    EditorConfig { edit_cmd, disabled }
}

/// The first position of an exercise named `name` (meaningful when there
/// is one).
pub open spec fn first_named(exs: Seq<Exercise>, name: Seq<char>) -> int {
    choose|i: int|
        0 <= i < exs.len() && exs[i].name@ == name && forall|j: int|
            0 <= j < i ==> exs[j].name@ != name
}

/// `no exercise named `<name>` — try `latexlings list``
pub open spec fn no_such_exercise(name: Seq<char>) -> Seq<char> {
    "no exercise named `"@ + name + "` — try `latexlings list`"@
}

/// The first exercise named `name`, or the error naming it.
pub fn find_exercise<'a>(exercises: &'a Vec<Exercise>, name: &str) -> (r: Result<&'a Exercise, String>)
    ensures
        (exists|i: int| 0 <= i < exercises.len() && exercises[i].name@ == name@) ==> (r matches Ok(
            e,
        ) && *e == exercises[first_named(exercises@, name@)]),
        !(exists|i: int| 0 <= i < exercises.len() && exercises[i].name@ == name@) ==> (r matches Err(
            m,
        ) && m@ == no_such_exercise(name@)),
{
    let mut i: usize = 0;
    while i < exercises.len()
        invariant
            i <= exercises.len(),
            forall|j: int| 0 <= j < i ==> exercises[j].name@ != name@,
        decreases exercises.len() - i,
    {
        if str_is(exercises[i].name.as_str(), name) {
            assert(first_named(exercises@, name@) == i as int) by {
                let f = first_named(exercises@, name@);
                assert(0 <= i < exercises@.len() && exercises@[i as int].name@ == name@ && forall|
                    j: int,
                | 0 <= j < i ==> exercises@[j].name@ != name@);
                if f < i {
                } else if f > i {
                }
            }
            return Ok(&exercises[i]);
        }
        i = i + 1;
    }
    let mut m = String::from_str("no exercise named `");
    m.append(name);
    m.append("` — try `latexlings list`");
    Err(m)
}

/// Records a verified result: a `Done` exercise is recorded with its
/// source's whole-second modification time `mtime`, any other is
/// forgotten. True when the record changed (and so must be saved again).
pub fn record_result(done: &mut DoneState, name: &str, ok: bool, mtime: Option<u64>) -> (changed: bool)
    requires
        old(done).wf(),
    ensures
        final(done).wf(),
        final(done)@ == if ok {
            old(done)@.insert(name@, mtime)
        } else {
            old(done)@.remove(name@)
        },
        changed == (final(done)@ != old(done)@),
{
    if ok {
        let previous = done.mtime(name);
        let ghost before = done@;
        let is_new = done.insert(String::from_str(name), mtime);
        proof {
            if !is_new && previous == mtime {
                assert(done@ =~= before);
            }
            if is_new {
                assert(!before.contains_key(name@));
                assert(done@.contains_key(name@));
            }
            if !is_new && previous != mtime {
                assert(done@[name@] == mtime);
                assert(before[name@] == previous);
            }
        }
        is_new || previous != mtime
    } else {
        let ghost before = done@;
        let was = done.remove(name);
        proof {
            if was {
                assert(before.contains_key(name@));
                assert(!done@.contains_key(name@));
            } else {
                assert(done@ =~= before);
            }
        }
        was
    }
}

/// `[  3/50] ✓ exercises/00_intro/intro3.tex — done`
pub open spec fn report_line_spec(index: int, total: int, ok: bool, ex: Exercise, s: StatusView) -> Seq<char> {
    "["@ + pad_left(decimal((index + 1) as nat), 3) + "/"@ + decimal(total as nat) + "] "@ + (if ok {
        "✓"@
    } else {
        "✗"@
    }) + " "@ + rel_path_spec(ex.dir@, ex.name@) + " — "@ + summary(s)
}

/// The line that reports one exercise's result in a sweep.
pub fn report_line(index: usize, total: usize, ok: bool, ex: &Exercise, status: &Status) -> (r: String)
    requires
        index < usize::MAX,
    ensures
        r@ == report_line_spec(index as int, total as int, ok, *ex, status@),
{
    let mut s = String::from_str("[");
    let n = decimal_string((index + 1) as u64);
    let p = pad_left_string(n.as_str(), 3);
    s.append(p.as_str());
    s.append("/");
    let t = decimal_string(total as u64);
    s.append(t.as_str());
    s.append("] ");
    if ok {
        s.append("✓");
    } else {
        s.append("✗");
    }
    s.append(" ");
    let rel = ex.rel_path();
    s.append(rel.as_str());
    s.append(" — ");
    let sm = summarize(status);
    s.append(sm.as_str());
    s
}

/// `  1 ✓ intro1                     00_intro               fix`
pub open spec fn list_line_spec(index: int, done: bool, ex: Exercise) -> Seq<char> {
    pad_left(decimal((index + 1) as nat), 3) + " "@ + (if done {
        "✓"@
    } else {
        "·"@
    }) + " "@ + pad_right(ex.name@, 26) + " "@ + pad_right(ex.dir@, 22) + " "@ + ex.mode.label_spec()
}

/// One line of the plain exercise list.
pub fn list_line(index: usize, done: bool, ex: &Exercise) -> (r: String)
    requires
        index < usize::MAX,
    ensures
        r@ == list_line_spec(index as int, done, *ex),
{
    let n = decimal_string((index + 1) as u64);
    let mut s = pad_left_string(n.as_str(), 3);
    s.append(" ");
    if done {
        s.append("✓");
    } else {
        s.append("·");
    }
    s.append(" ");
    let a = pad_right_string(ex.name.as_str(), 26);
    s.append(a.as_str());
    s.append(" ");
    let b = pad_right_string(ex.dir.as_str(), 22);
    s.append(b.as_str());
    s.append(" ");
    s.append(ex.mode.label());
    s
}

/// The list's closing line: `\n<done>/<total> done`.
pub fn list_footer(done: usize, total: usize) -> (r: String)
    ensures
        r@ == "\n"@ + decimal(done as nat) + "/"@ + decimal(total as nat) + " done"@,
{
    let mut s = String::from_str("\n");
    let d = decimal_string(done as u64);
    s.append(d.as_str());
    s.append("/");
    let t = decimal_string(total as u64);
    s.append(t.as_str());
    s.append(" done");
    s
}



/// The heading `run` prints for an exercise.
pub open spec fn run_head(ex: Exercise) -> Seq<Seq<char>> {
    seq!["── "@ + rel_path_spec(ex.dir@, ex.name@) + " ["@ + ex.mode.label_spec() + "]"@]
}

/// What `run` prints of a status.
pub open spec fn run_body(s: StatusView) -> Seq<Seq<char>> {
    match s {
        StatusView::Done => seq!["✓ done"@],
        StatusView::MarkerPresent => seq!["✓ "@ + summary(s)],
        StatusView::CompileFail(err) => seq!["✗ pdflatex failed:\n"@ + err],
        StatusView::ChecksFail(ns, excerpt) => seq![
            "✗ compiles, but the rendered output isn't right yet:"@,
        ] + ns.map_values(|n: Seq<char>| "  • "@ + n) + seq!["  rendered text starts with: "@ + excerpt],
        StatusView::ToolMissing(msg) => seq!["✗ "@ + msg],
    }
}

/// What `run` prints of chktex's notes: nothing when there are none.
pub open spec fn run_tail(notes: Option<Seq<Seq<char>>>) -> Seq<Seq<char>> {
    match notes {
        Some(ns) => if ns.len() > 0 {
            seq!["── chktex notes:"@] + ns.map_values(|n: Seq<char>| "  • "@ + n)
        } else {
            Seq::empty()
        },
        None => Seq::empty(),
    }
}

/// The lines `run` prints for one exercise: its path and mode, what the
/// compile found, and chktex's notes when there are any.
pub open spec fn run_report_spec(ex: Exercise, s: StatusView, notes: Option<Seq<Seq<char>>>) -> Seq<Seq<char>> {
    run_head(ex) + run_body(s) + run_tail(notes)
}

fn push_string(out: &mut Vec<String>, l: String)
    ensures
        string_views(final(out)@) == string_views(old(out)@).push(l@),
{
    let ghost prev = out@;
    let ghost lv = l@;
    out.push(l);
    assert(string_views(out@) =~= string_views(prev).push(lv));
}

/// Each of `items` after a bullet.
fn bulleted(items: &Vec<String>) -> (out: Vec<String>)
    ensures
        string_views(out@) == string_views(items@).map_values(|n: Seq<char>| "  • "@ + n),
{
    let mut out: Vec<String> = Vec::new();
    let mut i: usize = 0;
    while i < items.len()
        invariant
            i <= items.len(),
            string_views(out@) == string_views(items@).take(i as int).map_values(
                |n: Seq<char>| "  • "@ + n,
            ),
        decreases items.len() - i,
    {
        let mut line = String::from_str("  • ");
        line.append(items[i].as_str());
        let ghost prev = out@;
        let ghost lv = line@;
        out.push(line);
        assert(string_views(out@) =~= string_views(prev).push(lv));
        assert(string_views(items@).take(i + 1) =~= string_views(items@).take(i as int).push(
            items@[i as int]@,
        ));
        assert(string_views(items@).take(i + 1).map_values(|n: Seq<char>| "  • "@ + n)
            =~= string_views(items@).take(i as int).map_values(|n: Seq<char>| "  • "@ + n).push(
            "  • "@ + items@[i as int]@,
        ));
        i = i + 1;
    }
    assert(string_views(items@).take(items.len() as int) =~= string_views(items@));
    out
}

fn append_strings(out: &mut Vec<String>, more: Vec<String>)
    ensures
        string_views(final(out)@) == string_views(old(out)@) + string_views(more@),
{
    let ghost prev = out@;
    let ghost added = more@;
    let mut more = more;
    out.append(&mut more);
    assert(string_views(out@) =~= string_views(prev) + string_views(added));
}

/// The heading `run` prints before verifying an exercise: its path and
/// mode.
pub fn run_heading(ex: &Exercise) -> (r: String)
    ensures
        seq![r@] == run_head(*ex),
{
    let mut head = String::from_str("── ");
    let rel = ex.rel_path();
    head.append(rel.as_str());
    head.append(" [");
    head.append(ex.mode.label());
    head.append("]");
    head
}

/// The lines `run` prints for exercise `ex` after verifying it.
pub fn run_report(ex: &Exercise, status: &Status, lints: &Option<crate::verify::LintResult>) -> (out: Vec<String>)
    ensures
        string_views(out@) == run_report_spec(*ex, status@, crate::verify::lint_notes(*lints)),
{
    let mut out: Vec<String> = Vec::new();
    push_string(&mut out, run_heading(ex));
    assert(string_views(out@) =~= run_head(*ex));
    match status {
        Status::Done => {
            push_string(&mut out, String::from_str("✓ done"));
        },
        Status::MarkerPresent => {
            let mut l = String::from_str("✓ ");
            let sm = summarize(status);
            l.append(sm.as_str());
            push_string(&mut out, l);
        },
        Status::CompileFail(err) => {
            let mut l = String::from_str("✗ pdflatex failed:\n");
            l.append(err.as_str());
            push_string(&mut out, l);
        },
        Status::ChecksFail(notes, excerpt) => {
            push_string(&mut out, String::from_str("✗ compiles, but the rendered output isn't right yet:"));
            append_strings(&mut out, bulleted(notes));
            let mut l = String::from_str("  rendered text starts with: ");
            l.append(excerpt.as_str());
            push_string(&mut out, l);
        },
        Status::ToolMissing(msg) => {
            let mut l = String::from_str("✗ ");
            l.append(msg.as_str());
            push_string(&mut out, l);
        },
    }
    assert(string_views(out@) =~= run_head(*ex) + run_body(status@));
    let ghost mid = string_views(out@);
    match lints {
        Some(l) => {
            if l.notes.len() > 0 {
                push_string(&mut out, String::from_str("── chktex notes:"));
                append_strings(&mut out, bulleted(&l.notes));
            }
        },
        None => {},
    }
    assert(string_views(out@) =~= mid + run_tail(crate::verify::lint_notes(*lints)));
    out
}

/// The help text.
pub const USAGE: &'static str = "latexlings — small exercises for learning LaTeX (inspired by rustlings)\n\nUsage:\n  latexlings init [dir]      extract the exercises into a practice directory\n                             (default: ./latexlings)\n  latexlings [watch]         interactive watch mode — recompiles on save\n  latexlings run <name>      verify one exercise, print the result\n  latexlings verify          verify every exercise, print a summary\n  latexlings hint <name>     show the hint for an exercise\n  latexlings list            plain list of all exercises and their status\n  latexlings reset <name>    restore an exercise to its original state\n  latexlings solution <name> print the reference solution\n  latexlings dev-new <category>/<name> [--mode fix|write]\n                             scaffold a new exercise + solution skeleton\n\nFlags (watch mode only):\n  --edit-cmd <cmd>           open the current exercise with this command\n                             instead of auto-detecting an editor\n  --no-editor                never auto-open an editor (same as setting\n                             LATEXLINGS_NO_EDITOR)\n\nWorkflow: run `latexlings` in one terminal pane, edit the shown .tex file\nwith vim in another. On every :w it recompiles; fix the file (or write the\nrequested document), make the checks pass, delete the `% I AM NOT DONE`\nline, press n.";

/// What the command line asks for.
pub enum Command {
    /// Extract the exercises into this directory.
    Init(String),
    Help,
    Version,
    /// The interactive watch mode.
    Watch,
    /// Verify one exercise.
    Run(String),
    /// Verify every exercise.
    Verify,
    /// The exercise-author checks.
    DevCheck,
    /// Scaffold a new exercise.
    DevNew { category: String, name: String, mode: Mode },
    /// Show an exercise's hint.
    Hint(String),
    /// List the exercises.
    List,
    /// Restore an exercise to its shipped state.
    Reset(String),
    /// Show an exercise's reference solution.
    Solution(String),
    /// The arguments are not a valid command: the message to report.
    Usage(String),
}

pub enum CommandView {
    Init(Seq<char>),
    Help,
    Version,
    Watch,
    Run(Seq<char>),
    Verify,
    DevCheck,
    DevNew { category: Seq<char>, name: Seq<char>, mode: Mode },
    Hint(Seq<char>),
    List,
    Reset(Seq<char>),
    Solution(Seq<char>),
    Usage(Seq<char>),
}

impl View for Command {
    type V = CommandView;

    open spec fn view(&self) -> CommandView {
        match self {
            Command::Init(d) => CommandView::Init(d@),
            Command::Help => CommandView::Help,
            Command::Version => CommandView::Version,
            Command::Watch => CommandView::Watch,
            Command::Run(n) => CommandView::Run(n@),
            Command::Verify => CommandView::Verify,
            Command::DevCheck => CommandView::DevCheck,
            Command::DevNew { category, name, mode } => CommandView::DevNew {
                category: category@,
                name: name@,
                mode: *mode,
            },
            Command::Hint(n) => CommandView::Hint(n@),
            Command::List => CommandView::List,
            Command::Reset(n) => CommandView::Reset(n@),
            Command::Solution(n) => CommandView::Solution(n@),
            Command::Usage(m) => CommandView::Usage(m@),
        }
    }
}

/// The word after `--mode` decides a new exercise's mode: `write`, or else
/// fix.
pub open spec fn dev_new_mode(args: Seq<Seq<char>>) -> Mode {
    match first_arg(args, "--mode"@) {
        Some(i) => if i + 1 < args.len() && args[i + 1] == "write"@ {
            Mode::Write
        } else {
            Mode::Fix
        },
        None => Mode::Fix,
    }
}

/// The command that the arguments (the editor flags already taken out) ask
/// for; commands taking a name report their usage when it is missing.
pub open spec fn command_of(args: Seq<Seq<char>>) -> CommandView {
    if args.len() == 0 {
        CommandView::Watch
    } else {
        let c = args[0];
        if c == "init"@ {
            CommandView::Init(if args.len() > 1 { args[1] } else { "latexlings"@ })
        } else if c == "help"@ || c == "--help"@ || c == "-h"@ {
            CommandView::Help
        } else if c == "--version"@ || c == "-V"@ {
            CommandView::Version
        } else if c == "watch"@ {
            CommandView::Watch
        } else if c == "run"@ {
            if args.len() > 1 { CommandView::Run(args[1]) } else { CommandView::Usage("usage: latexlings run <name>"@) }
        } else if c == "verify"@ {
            CommandView::Verify
        } else if c == "dev-check"@ {
            CommandView::DevCheck
        } else if c == "dev-new"@ {
            if args.len() <= 1 {
                CommandView::Usage("usage: latexlings dev-new <category>/<name> [--mode fix|write]"@)
            } else {
                match split_once(args[1], '/') {
                    Some((category, name)) => CommandView::DevNew {
                        category,
                        name,
                        mode: dev_new_mode(args),
                    },
                    None => CommandView::Usage("expected <category>/<name>, e.g. 16_something/foo1"@),
                }
            }
        } else if c == "hint"@ {
            if args.len() > 1 { CommandView::Hint(args[1]) } else { CommandView::Usage("usage: latexlings hint <name>"@) }
        } else if c == "list"@ {
            CommandView::List
        } else if c == "reset"@ {
            if args.len() > 1 { CommandView::Reset(args[1]) } else { CommandView::Usage("usage: latexlings reset <name>"@) }
        } else if c == "solution"@ {
            if args.len() > 1 { CommandView::Solution(args[1]) } else { CommandView::Usage("usage: latexlings solution <name>"@) }
        } else {
            CommandView::Usage("unknown command `"@ + c + "`\n\n"@ + USAGE@)
        }
    }
}

fn second_arg(args: &Vec<String>) -> (r: Option<String>)
    ensures
        match r {
            Some(a) => args.len() > 1 && a@ == args@[1]@,
            None => args.len() <= 1,
        },
{
    if args.len() > 1 {
        Some(args[1].clone())
    } else {
        None
    }
}

fn dev_new_mode_exec(args: &Vec<String>) -> (m: Mode)
    ensures
        m == dev_new_mode(string_views(args@)),
{
    match position(args, "--mode") {
        Some(i) => {
            if i + 1 < args.len() && str_is(args[i + 1].as_str(), "write") {
                Mode::Write
            } else {
                Mode::Fix
            }
        },
        None => Mode::Fix,
    }
}

/// Reads the command from the arguments (with the editor flags already
/// taken out).
pub fn parse_command(args: &Vec<String>) -> (r: Command)
    ensures
        r@ == command_of(string_views(args@)),
{
    if args.len() == 0 {
        return Command::Watch;
    }
    let c = args[0].as_str();
    let ghost a = string_views(args@);
    assert(a[0] == c@);
    if str_is(c, "init") {
        match second_arg(args) {
            Some(d) => Command::Init(d),
            None => Command::Init(String::from_str("latexlings")),
        }
    } else if str_is(c, "help") || str_is(c, "--help") || str_is(c, "-h") {
        Command::Help
    } else if str_is(c, "--version") || str_is(c, "-V") {
        Command::Version
    } else if str_is(c, "watch") {
        Command::Watch
    } else if str_is(c, "run") {
        match second_arg(args) {
            Some(n) => Command::Run(n),
            None => Command::Usage(String::from_str("usage: latexlings run <name>")),
        }
    } else if str_is(c, "verify") {
        Command::Verify
    } else if str_is(c, "dev-check") {
        Command::DevCheck
    } else if str_is(c, "dev-new") {
        match second_arg(args) {
            None => Command::Usage(
                String::from_str("usage: latexlings dev-new <category>/<name> [--mode fix|write]"),
            ),
            Some(spec) => {
                let sc = chars_of(spec.as_str());
                match split_once_chars(&sc, '/') {
                    Some((category, name)) => Command::DevNew {
                        category: string_of(&category),
                        name: string_of(&name),
                        mode: dev_new_mode_exec(args),
                    },
                    None => Command::Usage(
                        String::from_str("expected <category>/<name>, e.g. 16_something/foo1"),
                    ),
                }
            },
        }
    } else if str_is(c, "hint") {
        match second_arg(args) {
            Some(n) => Command::Hint(n),
            None => Command::Usage(String::from_str("usage: latexlings hint <name>")),
        }
    } else if str_is(c, "list") {
        Command::List
    } else if str_is(c, "reset") {
        match second_arg(args) {
            Some(n) => Command::Reset(n),
            None => Command::Usage(String::from_str("usage: latexlings reset <name>")),
        }
    } else if str_is(c, "solution") {
        match second_arg(args) {
            Some(n) => Command::Solution(n),
            None => Command::Usage(String::from_str("usage: latexlings solution <name>")),
        }
    } else {
        let mut m = String::from_str("unknown command `");
        m.append(c);
        m.append("`\n\n");
        m.append(USAGE);
        Command::Usage(m)
    }
}

} // verus!
