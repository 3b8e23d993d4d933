use latexlings::editor::EditorConfig;
use latexlings::info::{DoneState, Exercise, Mode, SysTime};
use latexlings::tui::{App, Key, KeyOutcome, ListFilter, UiMode};
use latexlings::verify::{LintResult, Status};

fn ex(name: &str) -> Exercise {
    Exercise {
        name: name.to_string(),
        dir: "00_intro".to_string(),
        mode: Mode::Fix,
        hint: format!("hint for {name}"),
        checks: vec![],
        compiles_as_shipped: false,
        strict_chktex: false,
    }
}

fn app_with(done_names: &[&str]) -> App {
    let mut done = DoneState::new();
    for n in done_names {
        done.insert(n.to_string(), Some(100));
    }
    App::new("/course".to_string(), vec![ex("a"), ex("b"), ex("c")], done, EditorConfig::default())
}

fn t(secs: u64) -> SysTime {
    SysTime { since_epoch: true, secs, nanos: 250_000_000 }
}

#[test]
fn watch_starts_at_the_first_pending_exercise() {
    let app = app_with(&["a"]);
    assert_eq!(app.current, 1);
    assert_eq!(app.selected, Some(1));
    assert!(app.dirty);
    assert_eq!(app.mode, UiMode::Watch);
    assert_eq!(app.cur().unwrap().name, "b");
    let all = app_with(&["a", "b", "c"]);
    assert!(all.all_done());
    assert_eq!(all.current, 3);
    assert_eq!(all.selected, Some(2));
    assert!(all.cur().is_none());
}

#[test]
fn compiling_records_done_and_opens_the_editor_once() {
    let mut app = app_with(&[]);
    assert_eq!(app.start_compile(), Some(0));
    assert_eq!(app.flash.as_deref(), Some("compiling…"));
    assert_eq!(app.start_compile(), None, "the same exercise is not opened twice");
    let save = app.finish_compile(Status::Done, None, Some(t(1_700_000_001)), Some(t(1_700_000_001)));
    assert!(save);
    assert_eq!(app.done.mtime("a"), Some(1_700_000_001));
    assert!(app.flash.is_none());
    assert!(!app.dirty);
    assert_eq!(app.last_mtime, Some(t(1_700_000_001)));
    // the same result again changes nothing that needs saving
    let save = app.finish_compile(Status::Done, None, Some(t(1_700_000_001)), Some(t(1_700_000_001)));
    assert!(!save);
    let save = app.finish_compile(Status::MarkerPresent, Some(LintResult { notes: vec![] }), None, None);
    assert!(!save);
    assert!(app.done.contains("a"));
    assert!(app.lints.is_some());
}

#[test]
fn n_moves_on_only_once_done_and_wraps_to_earlier_pending() {
    let mut app = app_with(&["b"]);
    app.current = 2;
    assert!(matches!(app.handle_key(Key::Char('n')), KeyOutcome::Continue));
    assert_eq!(app.current, 2, "not done yet");
    app.status = Some(Status::Done);
    app.handle_key(Key::Char('n'));
    assert_eq!(app.current, 0, "wraps around to the first pending exercise");
    assert!(app.status.is_none());
    assert!(app.dirty);
}

#[test]
fn advancing_past_the_last_pending_finishes_the_course() {
    let mut app = app_with(&["a", "b"]);
    assert_eq!(app.current, 2);
    app.done.insert("c".to_string(), Some(1));
    app.advance();
    assert_eq!(app.current, 3);
    assert!(app.all_done());
    assert!(!app.dirty);
}

#[test]
fn watch_keys_toggle_scroll_and_quit() {
    let mut app = app_with(&[]);
    assert!(matches!(app.handle_key(Key::Char('h')), KeyOutcome::Continue));
    assert!(app.show_hint);
    app.handle_key(Key::Up);
    assert_eq!(app.scroll, 0);
    app.handle_key(Key::PageDown);
    app.handle_key(Key::Down);
    assert_eq!(app.scroll, 11);
    app.handle_key(Key::PageUp);
    assert_eq!(app.scroll, 1);
    app.scroll = u16::MAX - 3;
    app.handle_key(Key::PageDown);
    assert_eq!(app.scroll, u16::MAX);
    app.dirty = false;
    app.handle_key(Key::Char('r'));
    assert!(app.dirty);
    assert!(matches!(app.handle_key(Key::Char('c')), KeyOutcome::StartCheckAll));
    assert!(matches!(app.handle_key(Key::Char('q')), KeyOutcome::Quit));
    assert!(matches!(app.handle_key(Key::Esc), KeyOutcome::Quit));
    assert!(matches!(app.handle_key(Key::CtrlC), KeyOutcome::Quit));
}

#[test]
fn list_moves_selects_and_opens() {
    let mut app = app_with(&[]);
    app.handle_key(Key::Char('l'));
    assert_eq!(app.mode, UiMode::List);
    assert_eq!(app.selected, Some(0));
    app.handle_key(Key::Down);
    app.handle_key(Key::Char('j'));
    app.handle_key(Key::Down);
    assert_eq!(app.selected, Some(2), "stops at the last row");
    app.handle_key(Key::Char('k'));
    assert_eq!(app.selected, Some(1));
    let out = app.handle_key(Key::Enter);
    assert!(matches!(out, KeyOutcome::OpenEditor(1)));
    assert_eq!(app.current, 1);
    assert_eq!(app.mode, UiMode::Watch);
    assert!(app.dirty);
    assert_eq!(app.last_opened, Some(1));
    app.handle_key(Key::Char('l'));
    let out = app.handle_key(Key::Enter);
    assert!(matches!(out, KeyOutcome::Continue), "already open in the editor");
    app.handle_key(Key::Char('l'));
    assert!(matches!(app.handle_key(Key::Char('r')), KeyOutcome::Reset(1)));
    app.handle_key(Key::Esc);
    assert_eq!(app.mode, UiMode::Watch);
}

#[test]
fn list_filters_and_search() {
    let mut app = app_with(&["b"]);
    app.handle_key(Key::Char('l'));
    app.handle_key(Key::Char('d'));
    assert_eq!(app.list_filter, ListFilter::Done);
    assert_eq!(app.visible_rows(), vec![1]);
    assert_eq!(app.selected, Some(0));
    assert!(matches!(app.handle_key(Key::Enter), KeyOutcome::OpenEditor(1)));
    app.handle_key(Key::Char('l'));
    app.handle_key(Key::Char('d'));
    assert_eq!(app.list_filter, ListFilter::All);
    app.handle_key(Key::Char('p'));
    assert_eq!(app.visible_rows(), vec![0, 2]);
    app.handle_key(Key::Char('/'));
    assert_eq!(app.search.as_deref(), Some(""));
    app.handle_key(Key::Char('c'));
    assert_eq!(app.search.as_deref(), Some("c"));
    assert_eq!(app.selected, Some(1), "row of the first match");
    app.handle_key(Key::Char('z'));
    assert_eq!(app.selected, Some(1), "no match keeps the selection");
    app.handle_key(Key::Backspace);
    assert_eq!(app.search.as_deref(), Some("c"));
    app.handle_key(Key::Enter);
    assert!(app.search.is_none());
    assert_eq!(app.mode, UiMode::List);
}

#[test]
fn check_all_sweep_starts_collects_and_reconciles() {
    let mut app = app_with(&["a"]);
    app.done.insert("a".to_string(), Some(50));
    let jobs = app.start_check_all(&vec![Some(50), Some(60), None]);
    assert_eq!(app.mode, UiMode::CheckAll);
    assert!(app.check_running);
    assert_eq!(jobs.iter().map(|j| j.index).collect::<Vec<_>>(), vec![1, 2]);
    assert!(matches!(app.check_results[0], Some(Status::Done)));
    assert!(app.check_results[1].is_none());
    assert!(matches!(app.handle_key(Key::Enter), KeyOutcome::Continue), "still running");
    app.receive_check_result(1, Status::Done);
    app.receive_check_result(2, Status::CompileFail("x".into()));
    app.check_finished();
    assert!(matches!(app.handle_key(Key::Esc), KeyOutcome::FinishCheckAll));
    app.finish_check_all(&vec![Some(t(50)), Some(t(61)), Some(t(70))]);
    assert_eq!(app.mode, UiMode::Watch);
    assert_eq!(app.done.mtime("b"), Some(61));
    assert!(!app.done.contains("c"));
    assert_eq!(app.current, 2);
    assert!(app.dirty);
}

#[test]
fn reset_forgets_and_recompiles_the_current_exercise() {
    let mut app = app_with(&["a", "b"]);
    assert_eq!(app.current, 2);
    app.dirty = false;
    app.after_reset(0);
    assert!(!app.done.contains("a"));
    assert!(!app.dirty);
    app.after_reset(2);
    assert!(app.dirty);
}

#[test]
fn a_changed_file_is_recompiled() {
    let mut app = app_with(&[]);
    app.dirty = false;
    app.last_mtime = Some(t(5));
    app.tick(Some(t(5)));
    assert!(!app.dirty);
    app.tick(None);
    assert!(!app.dirty);
    app.tick(Some(t(6)));
    assert!(app.dirty);
    let mut listing = app_with(&[]);
    listing.dirty = false;
    listing.mode = UiMode::List;
    listing.tick(Some(t(9)));
    assert!(!listing.dirty, "only the watch screen watches the file");
}
