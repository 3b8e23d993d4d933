use latexlings::cli::{
    find_exercise, list_footer, list_line, parse_command, record_result, report_line, run_report,
    take_editor_flags, Command, USAGE,
};
use latexlings::info::{DoneState, Exercise, Mode};
use latexlings::verify::{LintResult, Status};

fn ex(name: &str, dir: &str, mode: Mode) -> Exercise {
    Exercise {
        name: name.to_string(),
        dir: dir.to_string(),
        mode,
        hint: String::new(),
        checks: vec![],
        compiles_as_shipped: false,
        strict_chktex: false,
    }
}

fn args(a: &[&str]) -> Vec<String> {
    a.iter().map(|s| s.to_string()).collect()
}

#[test]
fn edit_cmd_does_not_swallow_a_following_flag_as_its_value() {
    let mut args = vec!["--edit-cmd".to_string(), "--no-editor".to_string()];
    let config = take_editor_flags(&mut args, false);
    assert_eq!(config.edit_cmd, None, "--no-editor must not become --edit-cmd's value");
    assert!(config.disabled, "--no-editor must still be recognized and applied");
    assert!(args.is_empty(), "both flags should be consumed from args");
}

#[test]
fn edit_cmd_still_takes_a_real_value() {
    let mut args = vec!["--edit-cmd".to_string(), "vim".to_string(), "run".to_string()];
    let config = take_editor_flags(&mut args, false);
    assert_eq!(config.edit_cmd, Some("vim".to_string()));
    assert!(!config.disabled);
    assert_eq!(args, vec!["run".to_string()]);
}

#[test]
fn no_editor_flag_alone_disables_without_edit_cmd() {
    let mut args = vec!["--no-editor".to_string()];
    let config = take_editor_flags(&mut args, false);
    assert_eq!(config.edit_cmd, None);
    assert!(config.disabled);
    assert!(args.is_empty());
}

#[test]
fn editor_flags_are_taken_from_anywhere_and_the_environment_disables() {
    let mut a = args(&["run", "intro1", "--edit-cmd", "code -w"]);
    let config = take_editor_flags(&mut a, true);
    assert_eq!(config.edit_cmd, Some("code -w".to_string()));
    assert!(config.disabled);
    assert_eq!(a, args(&["run", "intro1"]));

    let mut b = args(&["--edit-cmd"]);
    let config = take_editor_flags(&mut b, false);
    assert_eq!(config.edit_cmd, None);
    assert!(!config.disabled);
    assert!(b.is_empty());
}

#[test]
fn find_exercise_by_name_or_explain() {
    let exs = vec![ex("intro1", "00_intro", Mode::Fix), ex("intro2", "00_intro", Mode::Write)];
    assert_eq!(find_exercise(&exs, "intro2").unwrap().name, "intro2");
    let err = find_exercise(&exs, "nope").err().unwrap();
    assert_eq!(err, "no exercise named `nope` — try `latexlings list`");
}

#[test]
fn record_result_records_done_and_forgets_failures() {
    let mut d = DoneState::new();
    assert!(record_result(&mut d, "a", true, Some(5)));
    assert!(!record_result(&mut d, "a", true, Some(5)), "unchanged record needs no save");
    assert!(record_result(&mut d, "a", true, Some(6)));
    assert_eq!(d.mtime("a"), Some(6));
    assert!(record_result(&mut d, "a", false, Some(6)), "a regression is not left recorded done");
    assert!(!d.contains("a"));
    assert!(!record_result(&mut d, "a", false, None));
}

#[test]
fn report_and_list_lines_are_formatted() {
    let e = ex("intro3", "00_intro", Mode::Fix);
    assert_eq!(report_line(2, 50, true, &e, &Status::Done), "[  3/50] ✓ exercises/00_intro/intro3.tex — done");
    assert_eq!(
        report_line(9, 12, false, &e, &Status::ChecksFail(vec!["x".into(), "y".into()], String::new())),
        "[ 10/12] ✗ exercises/00_intro/intro3.tex — output checks failed (2)"
    );
    assert_eq!(
        list_line(0, true, &ex("intro1", "00_intro", Mode::Fix)),
        format!("  1 ✓ {:<26} {:<22} fix", "intro1", "00_intro")
    );
    assert_eq!(list_line(11, false, &ex("w", "d", Mode::Write)), format!(" 12 · {:<26} {:<22} write", "w", "d"));
    assert_eq!(list_footer(3, 50), "\n3/50 done");
}

#[test]
fn run_report_lists_status_and_lints() {
    let e = ex("essay1", "15_typesetting", Mode::Write);
    let lints = Some(LintResult { notes: vec!["Warning 1 in x line 2".to_string()] });
    let out = run_report(
        &e,
        &Status::ChecksFail(vec!["needs a title".to_string()], "Hello world".to_string()),
        &lints,
    );
    assert_eq!(
        out,
        vec![
            "── exercises/15_typesetting/essay1.tex [write]".to_string(),
            "✗ compiles, but the rendered output isn't right yet:".to_string(),
            "  • needs a title".to_string(),
            "  rendered text starts with: Hello world".to_string(),
            "── chktex notes:".to_string(),
            "  • Warning 1 in x line 2".to_string(),
        ]
    );
    let out = run_report(&e, &Status::Done, &Some(LintResult { notes: vec![] }));
    assert_eq!(out, vec!["── exercises/15_typesetting/essay1.tex [write]".to_string(), "✓ done".to_string()]);
    let out = run_report(&e, &Status::CompileFail("l.3 oops".to_string()), &None);
    assert_eq!(out[1], "✗ pdflatex failed:\nl.3 oops");
    let out = run_report(&e, &Status::MarkerPresent, &None);
    assert_eq!(out[1], "✓ passing — remove the `% I AM NOT DONE` line to finish");
    let out = run_report(&e, &Status::ToolMissing("pdflatex not found".to_string()), &None);
    assert_eq!(out[1], "✗ pdflatex not found");
}

#[test]
fn commands_are_read_from_the_arguments() {
    assert!(matches!(parse_command(&args(&[])), Command::Watch));
    assert!(matches!(parse_command(&args(&["watch"])), Command::Watch));
    assert!(matches!(parse_command(&args(&["init"])), Command::Init(d) if d == "latexlings"));
    assert!(matches!(parse_command(&args(&["init", "course"])), Command::Init(d) if d == "course"));
    assert!(matches!(parse_command(&args(&["-h"])), Command::Help));
    assert!(matches!(parse_command(&args(&["run", "intro1"])), Command::Run(n) if n == "intro1"));
    assert!(matches!(parse_command(&args(&["run"])), Command::Usage(m) if m == "usage: latexlings run <name>"));
    assert!(matches!(parse_command(&args(&["verify"])), Command::Verify));
    assert!(matches!(parse_command(&args(&["list"])), Command::List));
    assert!(matches!(parse_command(&args(&["hint", "x"])), Command::Hint(n) if n == "x"));
    assert!(matches!(parse_command(&args(&["reset", "x"])), Command::Reset(n) if n == "x"));
    assert!(matches!(parse_command(&args(&["solution", "x"])), Command::Solution(n) if n == "x"));
    assert!(matches!(parse_command(&args(&["dev-check"])), Command::DevCheck));
    assert!(matches!(
        parse_command(&args(&["dev-new", "16_more/foo1", "--mode", "write"])),
        Command::DevNew { category, name, mode: Mode::Write } if category == "16_more" && name == "foo1"
    ));
    assert!(matches!(
        parse_command(&args(&["dev-new", "16_more/foo1"])),
        Command::DevNew { mode: Mode::Fix, .. }
    ));
    assert!(matches!(
        parse_command(&args(&["dev-new", "nofolder"])),
        Command::Usage(m) if m == "expected <category>/<name>, e.g. 16_something/foo1"
    ));
    assert!(matches!(
        parse_command(&args(&["frobnicate"])),
        Command::Usage(m) if m == format!("unknown command `frobnicate`\n\n{USAGE}")
    ));
}
