use latexlings::info::{
    check_unique_names, format_done_state, is_practice_root, parse_done_state, state_path,
    text_has_marker, truncate_to_secs, DoneState, Exercise, Mode, SysTime, MARKER, STATE_FILE,
    STATE_HEADER,
};

fn ex(name: &str, dir: &str) -> Exercise {
    Exercise {
        name: name.to_string(),
        dir: dir.to_string(),
        mode: Mode::Fix,
        hint: String::new(),
        checks: vec![],
        compiles_as_shipped: false,
        strict_chktex: false,
    }
}

#[test]
fn done_state_round_trips_with_and_without_mtime() {
    let mut done = DoneState::new();
    let mtime: u64 = 1_700_000_000;
    done.insert("intro1".to_string(), Some(mtime));
    done.insert("intro2".to_string(), None);
    let saved = format_done_state(&done);

    let loaded = parse_done_state(&saved);
    assert!(loaded.contains("intro1"));
    assert_eq!(loaded.mtime("intro1"), Some(mtime));
    assert!(loaded.contains("intro2"));
    assert_eq!(loaded.mtime("intro2"), None);
}

#[test]
fn done_state_reads_legacy_no_mtime_format() {
    let loaded = parse_done_state("# latexlings progress\nintro1\nintro2\n");
    assert!(loaded.contains("intro1"));
    assert_eq!(loaded.mtime("intro1"), None);
    assert!(loaded.contains("intro2"));
}

#[test]
fn done_state_file_text_is_sorted_with_tab_separated_seconds() {
    let mut done = DoneState::new();
    done.insert("zeta".to_string(), None);
    done.insert("alpha".to_string(), Some(42));
    let text = format_done_state(&done);
    assert_eq!(text, format!("{STATE_HEADER}alpha\t42\nzeta\n"));
    assert!(STATE_HEADER.starts_with("# latexlings progress"));
}

#[test]
fn done_state_parse_skips_blank_and_comment_lines_and_trims() {
    let d = parse_done_state("# header\n\n   intro1\t17  \r\n# another\n  \nintro2\tnot-a-number\n");
    assert_eq!(d.len(), 2);
    assert_eq!(d.mtime("intro1"), Some(17));
    assert!(d.contains("intro2"));
    assert_eq!(d.mtime("intro2"), None);
    assert!(!d.contains("# another"));
}

#[test]
fn done_state_insert_reports_new_names_and_remove_reports_presence() {
    let mut d = DoneState::new();
    assert!(d.is_empty());
    assert!(d.insert("a".to_string(), Some(1)));
    assert!(!d.insert("a".to_string(), Some(2)));
    assert_eq!(d.mtime("a"), Some(2));
    assert_eq!(d.len(), 1);
    assert!(d.remove("a"));
    assert!(!d.remove("a"));
    assert!(d.is_empty());
    assert_eq!(d.mtime("missing"), None);
}

#[test]
fn done_state_default_is_empty() {
    let d: DoneState = Default::default();
    assert!(d.is_empty());
    assert_eq!(d.len(), 0);
}

#[test]
fn truncate_to_secs_drops_the_fraction_and_clamps_before_epoch() {
    assert_eq!(truncate_to_secs(SysTime { since_epoch: true, secs: 1_700_000_000, nanos: 999_999_999 }), 1_700_000_000);
    assert_eq!(truncate_to_secs(SysTime { since_epoch: false, secs: 12, nanos: 5 }), 0);
}

#[test]
fn exercise_paths_follow_the_layout() {
    let e = ex("intro1", "00_intro");
    assert_eq!(e.rel_path(), "exercises/00_intro/intro1.tex");
    assert_eq!(e.solution_rel(), "solutions/00_intro/intro1.tex");
    assert_eq!(e.path("/home/me/latexlings"), "/home/me/latexlings/exercises/00_intro/intro1.tex");
    assert_eq!(e.path("/root/"), "/root/exercises/00_intro/intro1.tex");
    assert_eq!(state_path("/p"), format!("/p/{STATE_FILE}"));
    assert_eq!(Mode::Fix.label(), "fix");
    assert_eq!(Mode::Write.label(), "write");
}

#[test]
fn marker_is_found_anywhere_in_the_text() {
    assert!(text_has_marker(&format!("% {MARKER}\n\\documentclass{{article}}")));
    assert!(!text_has_marker("\\documentclass{article}\n% I AM DONE"));
}

#[test]
fn duplicate_exercise_names_are_refused() {
    assert!(check_unique_names(&vec![ex("a", "d"), ex("b", "d")]).is_ok());
    let err = check_unique_names(&vec![ex("a", "d"), ex("b", "d"), ex("a", "e")]).unwrap_err();
    assert_eq!(err, "duplicate exercise name in info.toml: a");
}

#[test]
fn practice_root_needs_exercises_and_a_marker_file() {
    assert!(is_practice_root(true, true, false));
    assert!(is_practice_root(true, false, true));
    assert!(!is_practice_root(false, true, true));
    assert!(!is_practice_root(true, false, false));
}
