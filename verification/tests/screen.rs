use latexlings::editor::EditorConfig;
use latexlings::info::{DoneState, Exercise, Mode};
use latexlings::screen::{footer_keys, CellMark, RowMark, ScreenLine, Tone};
use latexlings::tui::{App, UiMode};
use latexlings::verify::{LintResult, Status};

fn ex(name: &str, mode: Mode) -> Exercise {
    Exercise {
        name: name.to_string(),
        dir: "00_intro".to_string(),
        mode,
        hint: "first line\nsecond line".to_string(),
        checks: vec![],
        compiles_as_shipped: false,
        strict_chktex: false,
    }
}

fn app(done_names: &[&str]) -> App {
    let mut done = DoneState::new();
    for n in done_names {
        done.insert(n.to_string(), None);
    }
    App::new(
        "/course".to_string(),
        vec![ex("intro1", Mode::Fix), ex("intro2", Mode::Write)],
        done,
        EditorConfig::default(),
    )
}

fn texts(lines: &[ScreenLine]) -> Vec<(String, Tone)> {
    lines.iter().map(|l| (l.text.clone(), l.tone)).collect()
}

#[test]
fn watch_screen_shows_compile_errors_hint_and_lints() {
    let mut a = app(&[]);
    a.status = Some(Status::CompileFail("math1.tex:18: Missing $ inserted.\nl.18".to_string()));
    a.show_hint = true;
    a.lints = Some(LintResult { notes: vec!["Warning 1".to_string()] });
    let got = texts(&a.watch_lines());
    let want = vec![
        (String::new(), Tone::Plain),
        ("  ✗ pdflatex failed:".to_string(), Tone::FailureBold),
        (String::new(), Tone::Plain),
        ("    math1.tex:18: Missing $ inserted.".to_string(), Tone::Failure),
        ("    l.18".to_string(), Tone::Failure),
        (String::new(), Tone::Plain),
        ("  ── hint ────────────────────────────────".to_string(), Tone::Note),
        ("  first line".to_string(), Tone::Note),
        ("  second line".to_string(), Tone::Note),
        (String::new(), Tone::Plain),
        ("  ── chktex notes ────────────────────────".to_string(), Tone::Note),
        ("  • Warning 1".to_string(), Tone::Note),
    ];
    assert_eq!(got, want);
    assert_eq!(a.watch_title(), Some(" exercises/00_intro/intro1.tex [fix] ".to_string()));
}

#[test]
fn watch_screen_while_compiling_and_before_the_first_compile() {
    let mut a = app(&[]);
    let got = texts(&a.watch_lines());
    assert_eq!(got, vec![(String::new(), Tone::Plain), ("  waiting for first compile…".to_string(), Tone::Plain)]);
    a.start_compile();
    a.status = Some(Status::Done);
    let got = texts(&a.watch_lines());
    assert_eq!(got[1], ("  ⟳ compiling…".to_string(), Tone::Pending));
    a.flash = None;
    let got = texts(&a.watch_lines());
    assert_eq!(got[1], ("  ✓ exercise complete — press n to continue".to_string(), Tone::AccentBold));
    a.status = Some(Status::MarkerPresent);
    let got = texts(&a.watch_lines());
    assert_eq!(got[3], ("    Read the output, then delete the `% I AM NOT DONE` line to finish.".to_string(), Tone::Plain));
    a.status = Some(Status::ChecksFail(vec!["no title".to_string()], "Some text".to_string()));
    a.lints = Some(LintResult { notes: vec![] });
    let got = texts(&a.watch_lines());
    assert_eq!(
        got,
        vec![
            (String::new(), Tone::Plain),
            ("  ✗ compiles, but the rendered output isn't right yet:".to_string(), Tone::PendingBold),
            (String::new(), Tone::Plain),
            ("    • no title".to_string(), Tone::Pending),
            (String::new(), Tone::Plain),
            ("    rendered text starts with:".to_string(), Tone::Muted),
            ("    Some text".to_string(), Tone::Muted),
        ]
    );
    a.status = Some(Status::ToolMissing("pdftotext not found\ninstall it".to_string()));
    let got = texts(&a.watch_lines());
    assert_eq!(got[1], ("  ✗ missing tool:".to_string(), Tone::FailureBold));
    assert_eq!(got[3], ("    install it".to_string(), Tone::Plain));
}

#[test]
fn watch_screen_once_everything_is_done() {
    let a = app(&["intro1", "intro2"]);
    let got = texts(&a.watch_lines());
    assert_eq!(got.len(), 7);
    assert_eq!(got[1], ("  ✓ ALL EXERCISES COMPLETE".to_string(), Tone::AccentBold));
    assert!(a.watch_title().is_none());
}

#[test]
fn list_rows_mark_done_and_current() {
    let mut a = app(&["intro2"]);
    a.current = 0;
    let rows = a.list_rows();
    assert_eq!(rows.len(), 2);
    assert_eq!(rows[0].mark, RowMark::Current);
    assert_eq!(rows[0].number, "  1");
    assert_eq!(rows[0].name, "intro1");
    assert_eq!(rows[0].topic, "00_intro");
    assert_eq!(rows[0].mode, "fix");
    assert_eq!(rows[1].mark, RowMark::Done);
    assert_eq!(rows[1].index, 1);
    assert_eq!(rows[1].mode, "write");
    a.current = 2;
    a.done.remove("intro2");
    assert_eq!(a.list_rows()[1].mark, RowMark::Other);
}

#[test]
fn sweep_screen_counts_results() {
    let mut a = app(&[]);
    a.check_results = vec![Some(Status::Done), None];
    a.check_running = true;
    assert_eq!(a.sweep_title(), " checking all — 1/2 ");
    a.check_results = vec![Some(Status::Done), Some(Status::CompileFail("x".into()))];
    a.check_running = false;
    assert_eq!(a.sweep_title(), " check all complete — 1/2 done (press enter) ");
    assert_eq!(a.sweep_cells(), vec![CellMark::Passed, CellMark::Failed]);
    a.check_results = vec![None];
    assert_eq!(a.sweep_cells(), vec![CellMark::Unknown]);
}

#[test]
fn progress_title_and_key_help() {
    let a = app(&["intro2"]);
    assert_eq!(a.progress_title(), " 1/2 done ");
    assert_eq!(footer_keys(UiMode::Watch), "  n:next  h:hint  l:list  c:check-all  r:recompile  ↑↓:scroll  q:quit");
    assert!(footer_keys(UiMode::List).contains("/:search"));
    assert_eq!(footer_keys(UiMode::CheckAll), "  (running…)  q/esc/enter:back once done");
}
