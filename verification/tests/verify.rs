use latexlings::info::{Check, Exercise, Mode};
use latexlings::verify::{
    build_dir, check_note, extract_errors, needs_second_pass, normalize_rendered, parse_chktex_output,
    run_checks, summarize, sweep_wants_lints, verify_start, verify_step, verify_with_lints, wants_lints, LintResult,
    Status, ToolOutput, VerifyAction, VerifyEvent, VerifyStage, PDFLATEX_MISSING, PDFTOTEXT_MISSING,
};

fn exercise(mode: Mode, checks: Vec<Check>, strict: bool) -> Exercise {
    Exercise {
        name: "ex1".to_string(),
        dir: "00_intro".to_string(),
        mode,
        hint: String::new(),
        checks,
        compiles_as_shipped: false,
        strict_chktex: strict,
    }
}

fn check(pattern: &str, note: &str) -> Check {
    Check { pattern: pattern.to_string(), note: note.to_string() }
}

fn exited(success: bool, stdout: &str) -> ToolOutput {
    ToolOutput::Exited { success, stdout: stdout.to_string() }
}

/// Feeds the events to the verification steps, starting fresh, and returns
/// the status it finishes with, if it does.
fn drive(ex: &Exercise, events: Vec<VerifyEvent>) -> Option<Status> {
    let (mut stage, mut action) = verify_start();
    assert!(matches!(action, VerifyAction::RunPdflatex));
    for ev in events {
        if let VerifyAction::Finish(_) = action {
            break;
        }
        let (s, a) = verify_step(ex, stage, ev);
        stage = s;
        action = a;
    }
    match action {
        VerifyAction::Finish(st) => Some(st),
        _ => None,
    }
}

#[test]
fn parse_chktex_notes_extracts_warning_lines() {
    let sample = "\
Warning 1 in ./foo.tex line 12: Command terminated with space.\n\
Warning 24 in ./foo.tex line 20: Delete this space to maintain correctness.\n\
\n\
ChkTeX: 2 warnings printed; 0 errors printed.\n";
    let notes = parse_chktex_output(sample);
    assert_eq!(notes.len(), 2);
    assert!(notes[0].contains("line 12"));
    assert!(notes[1].contains("line 20"));
}

#[test]
fn parse_chktex_notes_on_clean_output_is_empty() {
    let sample = "ChkTeX: No warnings printed.\n";
    assert!(parse_chktex_output(sample).is_empty());
}

#[test]
fn extract_errors_starts_at_the_first_file_line_error() {
    let out = "This is pdfTeX\n(./exercises/06_math_basics/math1.tex\n./exercises/06_math_basics/math1.tex:18: Missing $ inserted.\nl.18 x^2\n";
    assert_eq!(
        extract_errors(out),
        "./exercises/06_math_basics/math1.tex:18: Missing $ inserted.\nl.18 x^2"
    );
}

#[test]
fn extract_errors_starts_at_a_bang_line_and_caps_at_eighteen() {
    let mut out = String::from("a\nb\n! Undefined control sequence.\n");
    for i in 0..30 {
        out.push_str(&format!("line{i}\n"));
    }
    let got = extract_errors(&out);
    let lines: Vec<&str> = got.lines().collect();
    assert_eq!(lines.len(), 18);
    assert_eq!(lines[0], "! Undefined control sequence.");
    assert_eq!(lines[17], "line16");
}

#[test]
fn extract_errors_without_an_error_line_shows_the_tail() {
    let mut out = String::new();
    for i in 0..20 {
        out.push_str(&format!("log {i}\n"));
    }
    let got = extract_errors(&out);
    let lines: Vec<&str> = got.lines().collect();
    assert_eq!(lines.len(), 12);
    assert_eq!(lines[0], "log 8");
    assert_eq!(lines[11], "log 19");
    // a space before `.tex:` is not a file-line error
    assert_eq!(extract_errors("my file.tex:3: x\nend"), "my file.tex:3: x\nend");
}

#[test]
fn second_pass_is_needed_for_references_and_contents() {
    assert!(needs_second_pass("see \\ref{fig}"));
    assert!(needs_second_pass("\\tableofcontents"));
    assert!(needs_second_pass("\\cite{knuth}"));
    assert!(!needs_second_pass("\\section{Intro} plain text"));
}

#[test]
fn rendered_text_is_normalized_to_single_spaces() {
    assert_eq!(normalize_rendered("  Hello\n\n  world\t again \u{c}\n"), "Hello world again");
    assert_eq!(normalize_rendered(" \n\t"), "");
}

#[test]
fn checks_report_failed_notes_and_bad_patterns() {
    let checks = vec![
        check(r"Hello\s+world", "say hello"),
        check("Goodbye", "say goodbye"),
        check("(unclosed", "broken"),
    ];
    let failed = run_checks(&checks, "Hello world");
    assert_eq!(failed.len(), 2);
    assert_eq!(failed[0], "say goodbye");
    assert!(failed[1].starts_with("(bad check pattern `(unclosed`: "));
    assert!(failed[1].ends_with(")"));
    assert!(run_checks(&checks[..1].to_vec(), "Hello   world").is_empty());
}

#[test]
fn summaries_name_the_outcome() {
    assert_eq!(summarize(&Status::Done), "done");
    assert_eq!(summarize(&Status::MarkerPresent), "passing — remove the `% I AM NOT DONE` line to finish");
    assert_eq!(summarize(&Status::CompileFail("x".into())), "compile error");
    assert_eq!(summarize(&Status::ChecksFail(vec!["a".into(), "b".into(), "c".into()], "t".into())), "output checks failed (3)");
    assert_eq!(summarize(&Status::ToolMissing("x".into())), "missing tool");
}

#[test]
fn fix_exercise_without_marker_is_done() {
    let ex = exercise(Mode::Fix, vec![], false);
    let st = drive(
        &ex,
        vec![
            VerifyEvent::Pdflatex(exited(true, "ok")),
            VerifyEvent::Source(Some("\\documentclass{article}".into())),
            VerifyEvent::Source(Some("\\documentclass{article}".into())),
        ],
    );
    assert!(matches!(st, Some(Status::Done)));
}

#[test]
fn marker_still_present_keeps_the_exercise_open() {
    let ex = exercise(Mode::Fix, vec![], false);
    let src = "% I AM NOT DONE\n\\documentclass{article}";
    let st = drive(
        &ex,
        vec![
            VerifyEvent::Pdflatex(exited(true, "")),
            VerifyEvent::Source(Some(src.into())),
            VerifyEvent::Source(Some(src.into())),
        ],
    );
    assert!(matches!(st, Some(Status::MarkerPresent)));
}

#[test]
fn references_trigger_a_second_pass() {
    let ex = exercise(Mode::Fix, vec![], false);
    let src = "see \\ref{x}";
    let (stage, _) = verify_step(&ex, VerifyStage::FirstPass, VerifyEvent::Pdflatex(exited(true, "")));
    assert_eq!(stage, VerifyStage::SourceForSecondPass);
    let (stage, action) = verify_step(&ex, stage, VerifyEvent::Source(Some(src.into())));
    assert_eq!(stage, VerifyStage::SecondPass);
    assert!(matches!(action, VerifyAction::RunPdflatex));
    let (stage, action) = verify_step(&ex, stage, VerifyEvent::Pdflatex(exited(true, "")));
    assert_eq!(stage, VerifyStage::SourceForMarker);
    assert!(matches!(action, VerifyAction::ReadSource));
}

#[test]
fn compile_failures_and_missing_tools_end_verification() {
    let ex = exercise(Mode::Fix, vec![], false);
    let st = drive(&ex, vec![VerifyEvent::Pdflatex(exited(false, "! Missing $ inserted.\nl.3"))]);
    assert!(matches!(st, Some(Status::CompileFail(e)) if e == "! Missing $ inserted.\nl.3"));
    let st = drive(&ex, vec![VerifyEvent::Pdflatex(ToolOutput::NotFound)]);
    assert!(matches!(st, Some(Status::ToolMissing(m)) if m == PDFLATEX_MISSING));
    let st = drive(&ex, vec![VerifyEvent::Pdflatex(ToolOutput::SpawnFailed("denied".into()))]);
    assert!(matches!(st, Some(Status::ToolMissing(m)) if m == "failed to run pdflatex: denied"));
    let st = drive(&ex, vec![VerifyEvent::BuildDirFailed("read-only".into())]);
    assert!(matches!(st, Some(Status::ToolMissing(m)) if m == "cannot create build dir: read-only"));
}

#[test]
fn writing_assignment_checks_the_rendered_text() {
    let ex = exercise(Mode::Write, vec![check("Dear reader", "greet the reader")], false);
    let st = drive(
        &ex,
        vec![
            VerifyEvent::Pdflatex(exited(true, "")),
            VerifyEvent::Source(Some("plain".into())),
            VerifyEvent::Pdftotext(exited(true, "Hello\n  there")),
        ],
    );
    assert!(matches!(st, Some(Status::ChecksFail(ref n, ref x)) if n.len() == 1 && n[0] == "greet the reader" && x == "Hello there"));
    let st = drive(
        &ex,
        vec![
            VerifyEvent::Pdflatex(exited(true, "")),
            VerifyEvent::Source(Some("plain".into())),
            VerifyEvent::Pdftotext(exited(true, "Dear\nreader")),
            VerifyEvent::Source(Some("done now".into())),
        ],
    );
    assert!(matches!(st, Some(Status::Done)));
    let st = drive(
        &ex,
        vec![
            VerifyEvent::Pdflatex(exited(true, "")),
            VerifyEvent::Source(None),
            VerifyEvent::Pdftotext(ToolOutput::NotFound),
        ],
    );
    assert!(matches!(st, Some(Status::ToolMissing(m)) if m == PDFTOTEXT_MISSING));
}

#[test]
fn long_rendered_text_is_quoted_up_to_the_limit() {
    let ex = exercise(Mode::Write, vec![check("zzz", "never")], false);
    let long = "a ".repeat(400);
    let (_, action) = verify_step(&ex, VerifyStage::Render, VerifyEvent::Pdftotext(exited(true, &long)));
    match action {
        VerifyAction::Finish(Status::ChecksFail(_, excerpt)) => assert_eq!(excerpt.chars().count(), 360),
        _ => panic!("expected failed checks"),
    }
}

#[test]
fn an_unexpected_event_repeats_the_request() {
    let ex = exercise(Mode::Fix, vec![], false);
    let (stage, action) = verify_step(&ex, VerifyStage::SourceForMarker, VerifyEvent::Pdflatex(ToolOutput::NotFound));
    assert_eq!(stage, VerifyStage::SourceForMarker);
    assert!(matches!(action, VerifyAction::ReadSource));
}

#[test]
fn strict_chktex_turns_notes_into_failures() {
    let strict = exercise(Mode::Fix, vec![], true);
    let lints = Some(LintResult { notes: vec!["Warning 1".to_string()] });
    let (st, l) = verify_with_lints(&strict, Status::Done, lints);
    assert!(matches!(st, Status::ChecksFail(ref n, ref x) if n.len() == 1 && n[0] == "Warning 1" && x.is_empty()));
    assert_eq!(l.unwrap().notes, vec!["Warning 1".to_string()]);

    let lints = Some(LintResult { notes: vec!["Warning 2".to_string()] });
    let (st, _) = verify_with_lints(&strict, Status::ChecksFail(vec!["own".into()], "txt".into()), lints);
    assert!(matches!(st, Status::ChecksFail(ref n, ref x) if n == &vec!["own".to_string(), "chktex: Warning 2".to_string()] && x == "txt"));

    let relaxed = exercise(Mode::Fix, vec![], false);
    let lints = Some(LintResult { notes: vec!["Warning 1".to_string()] });
    let (st, l) = verify_with_lints(&relaxed, Status::Done, lints);
    assert!(st.is_done());
    assert_eq!(l.unwrap().notes.len(), 1);

    let (st, l) = verify_with_lints(&strict, Status::CompileFail("e".into()), Some(LintResult { notes: vec!["w".into()] }));
    assert!(matches!(st, Status::CompileFail(_)));
    assert!(l.is_none());
    assert!(!wants_lints(&Status::ToolMissing("x".into())));
    assert!(wants_lints(&Status::MarkerPresent));
}

#[test]
fn build_dir_is_under_the_root() {
    let ex = exercise(Mode::Fix, vec![], false);
    assert_eq!(build_dir("/course", &ex), "/course/build/ex1");
    assert_eq!(build_dir("/course/", &ex), "/course/build/ex1");
    assert_eq!(build_dir("", &ex), "build/ex1");
    let mut abs = exercise(Mode::Fix, vec![], false);
    abs.name = "/tmp/elsewhere".to_string();
    assert_eq!(build_dir("/course", &abs), "/tmp/elsewhere");
}

#[test]
fn sweeps_lint_only_strict_exercises_that_compiled() {
    let strict = exercise(Mode::Fix, vec![], true);
    let relaxed = exercise(Mode::Fix, vec![], false);
    assert!(sweep_wants_lints(&strict, &Status::Done));
    assert!(sweep_wants_lints(&strict, &Status::ChecksFail(vec![], String::new())));
    assert!(!sweep_wants_lints(&strict, &Status::CompileFail("e".into())));
    assert!(!sweep_wants_lints(&relaxed, &Status::Done));
}

#[test]
fn a_check_note_follows_its_pattern_outcome() {
    let c = check("Dear", "greet the reader");
    assert!(check_note(&c, Ok(true)).is_none());
    assert_eq!(check_note(&c, Ok(false)), Some("greet the reader".to_string()));
    assert_eq!(
        check_note(&c, Err("unclosed group".to_string())),
        Some("(bad check pattern `Dear`: unclosed group)".to_string())
    );
}
