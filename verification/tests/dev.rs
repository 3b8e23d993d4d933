use latexlings::dev::{
    already_exists_message, check_entry, check_markers, check_names_and_dirs,
    check_no_orphan_files, check_orphans_in, check_shipped, check_solution, dev_new_scaffold,
    dev_step, is_valid_ident, solution_failures, DevAction, DevProbe, DevStage,
};
use latexlings::info::{Check, Exercise, Mode};
use latexlings::verify::Status;

fn ex(name: &str, dir: &str, mode: Mode) -> Exercise {
    Exercise {
        name: name.to_string(),
        dir: dir.to_string(),
        mode,
        hint: "a hint".to_string(),
        checks: vec![],
        compiles_as_shipped: false,
        strict_chktex: false,
    }
}

fn strings(a: &[&str]) -> Vec<String> {
    a.iter().map(|s| s.to_string()).collect()
}

#[test]
fn identifiers_are_ascii_alphanumeric_or_underscore() {
    assert!(is_valid_ident("intro_1"));
    assert!(is_valid_ident("00_intro"));
    assert!(!is_valid_ident(""));
    assert!(!is_valid_ident(".."));
    assert!(!is_valid_ident("a-b"));
    assert!(!is_valid_ident("é"));
}

#[test]
fn bad_names_and_dirs_are_reported_in_order() {
    let fs = check_names_and_dirs(&vec![ex("ok", "d", Mode::Fix), ex("../x", "a b", Mode::Fix)]);
    assert_eq!(fs.len(), 2);
    assert_eq!(fs[0].exercise, "../x");
    assert_eq!(fs[0].problem, "name `../x` must be non-empty alphanumeric/underscore");
    assert_eq!(fs[1].problem, "dir `a b` must be non-empty alphanumeric/underscore");
}

#[test]
fn orphan_tex_files_are_reported() {
    let fs = check_orphans_in(&strings(&["exercises/a/x.tex", "exercises\\a\\y.tex"]), &strings(&["exercises/a/x.tex"]));
    assert_eq!(fs.len(), 1);
    assert_eq!(fs[0].exercise, "(orphan)");
    assert_eq!(fs[0].problem, "exercises/a/y.tex is not referenced by any exercise in info.toml");

    let exs = vec![ex("one", "a", Mode::Fix)];
    let fs = check_no_orphan_files(
        &exs,
        &strings(&["exercises/a/one.tex", "exercises/a/two.tex"]),
        &strings(&["solutions/a/one.tex", "solutions/b/one.tex"]),
    );
    assert_eq!(fs.len(), 2);
    assert_eq!(fs[0].problem, "exercises/a/two.tex is not referenced by any exercise in info.toml");
    assert_eq!(fs[1].problem, "solutions/b/one.tex is not referenced by any exercise in info.toml");
}

#[test]
fn entries_markers_and_shipped_state_are_checked() {
    let mut w = ex("w1", "d", Mode::Write);
    w.hint = "   ".to_string();
    let fs = check_entry(&w);
    assert_eq!(fs.len(), 2);
    assert_eq!(fs[0].problem, "empty hint");
    assert_eq!(fs[1].problem, "write-mode exercise with no checks");

    let f = ex("f1", "d", Mode::Fix);
    assert!(check_entry(&f).is_empty());
    let fs = check_markers(&f, "no marker here", "% I AM NOT DONE");
    assert_eq!(fs.len(), 2);
    assert_eq!(fs[0].problem, "shipped exercise lacks `% I AM NOT DONE` marker");
    assert_eq!(fs[1].problem, "solution still contains the marker");

    assert!(check_shipped(&f, &Status::CompileFail("e".into())).is_none());
    let p = check_shipped(&f, &Status::Done).unwrap();
    assert_eq!(p.problem, "shipped fix exercise should FAIL to compile but got: done");
    let mut c = ex("f2", "d", Mode::Fix);
    c.compiles_as_shipped = true;
    assert!(check_shipped(&c, &Status::MarkerPresent).is_none());
    assert_eq!(
        check_shipped(&c, &Status::CompileFail("e".into())).unwrap().problem,
        "shipped fix exercise should compile (marker gate only) but got: compile error"
    );
    let mut w2 = ex("w2", "d", Mode::Write);
    w2.checks = vec![Check { pattern: "x".into(), note: "n".into() }];
    assert!(check_shipped(&w2, &Status::ChecksFail(vec![], String::new())).is_none());
    assert_eq!(
        check_shipped(&w2, &Status::Done).unwrap().problem,
        "shipped write exercise should compile but fail its checks; got: done"
    );
}

#[test]
fn solutions_must_verify_done() {
    let f = ex("f1", "d", Mode::Fix);
    assert!(check_solution(&f, &Status::Done).is_none());
    assert_eq!(
        check_solution(&f, &Status::CompileFail("l1\nl2\nl3\nl4".into())).unwrap().problem,
        "solution failed to compile: l1 | l2 | l3"
    );
    assert_eq!(
        check_solution(&f, &Status::ChecksFail(strings(&["a", "b"]), "txt".into())).unwrap().problem,
        "solution failed checks: a; b (text: txt)"
    );
    assert_eq!(check_solution(&f, &Status::MarkerPresent).unwrap().problem, "solution not Done: passing — remove the `% I AM NOT DONE` line to finish");
    let exs = vec![f, ex("g", "d", Mode::Fix)];
    let fs = solution_failures(&exs, &vec![Some(Status::Done), Some(Status::ToolMissing("x".into()))]);
    assert_eq!(fs.len(), 1);
    assert_eq!(fs[0].exercise, "g");
}

#[test]
fn dev_check_of_one_exercise_walks_its_stages() {
    let f = ex("f1", "d", Mode::Fix);
    let (stage, action, fs) = dev_step(&f, DevStage::Files, DevProbe::Files { exercise_file: true, solution_file: false });
    assert_eq!((stage, action), (DevStage::Files, DevAction::Skip));
    assert_eq!(fs[0].problem, "missing solution file solutions/d/f1.tex");
    let (stage, action, fs) = dev_step(&f, DevStage::Files, DevProbe::Files { exercise_file: true, solution_file: true });
    assert_eq!((stage, action), (DevStage::Texts, DevAction::ReadTexts));
    assert!(fs.is_empty());
    let (stage, action, fs) = dev_step(
        &f,
        stage,
        DevProbe::Texts { exercise: Ok("% I AM NOT DONE".into()), solution: Ok("fine".into()) },
    );
    assert_eq!((stage, action), (DevStage::Shipped, DevAction::VerifyShipped));
    assert!(fs.is_empty());
    let (stage, action, fs) = dev_step(&f, stage, DevProbe::Shipped(Status::CompileFail("x".into())));
    assert_eq!((stage, action), (DevStage::Scratch, DevAction::BuildScratch));
    assert!(fs.is_empty());
    let (_, action, fs) = dev_step(&f, stage, DevProbe::Scratch(Ok(())));
    assert_eq!(action, DevAction::QueueSolution);
    assert!(fs.is_empty());
    let (_, action, fs) = dev_step(&f, DevStage::Scratch, DevProbe::Scratch(Err("disk full".into())));
    assert_eq!(action, DevAction::Skip);
    assert_eq!(fs[0].problem, "cannot build scratch root: disk full");
    let (stage, action, fs) = dev_step(&f, DevStage::Texts, DevProbe::Shipped(Status::Done));
    assert_eq!((stage, action), (DevStage::Texts, DevAction::ReadTexts));
    assert!(fs.is_empty());
}

#[test]
fn dev_new_plans_files_and_stanza() {
    let s = dev_new_scaffold("16_more", "foo1", Mode::Write).ok().unwrap();
    assert_eq!(s.exercise_rel, "exercises/16_more/foo1.tex");
    assert_eq!(s.solution_rel, "solutions/16_more/foo1.tex");
    assert!(s.skeleton.starts_with("% I AM NOT DONE\n"));
    assert_eq!(s.solution, "\\documentclass{article}\n\\begin{document}\nExpected content\n\\end{document}\n");
    assert_eq!(
        s.stanza,
        "Paste this into info.toml under the `16_more` section:\n\n[[exercises]]\nname = \"foo1\"\ndir = \"16_more\"\nmode = \"write\"\nchecks = [{ pattern = \"...\", note = \"...\" }]\nhint = \"\"\"\nWrite a hint here.\"\"\"\n"
    );
    let fix = dev_new_scaffold("c", "n", Mode::Fix).ok().unwrap();
    assert!(!fix.stanza.contains("checks"));
    assert_eq!(dev_new_scaffold("bad/cat", "n", Mode::Fix).err().unwrap(), "category `bad/cat` must be non-empty alphanumeric/underscore");
    assert_eq!(dev_new_scaffold("c", "", Mode::Fix).err().unwrap(), "name `` must be non-empty alphanumeric/underscore");
    assert_eq!(already_exists_message("c", "n"), "n already exists under c — pick a different name");
}
