use latexlings::editor::{
    choose_launch, edit_argv, find_titled_pane, pane_id_of, tmux_editor, tmux_keys, EditorConfig,
    EditorEnv, Launch,
};

fn env() -> EditorEnv {
    EditorEnv {
        term_program: None,
        code_on_path: false,
        codium_on_path: false,
        zellij_set: false,
        zellij_on_path: false,
        tmux_set: false,
        tmux_on_path: false,
        editor: None,
    }
}

#[test]
fn edit_commands_are_split_like_a_shell() {
    let argv = edit_argv("code --wait -n", "/c/ex.tex").unwrap();
    assert_eq!(argv, vec!["code", "--wait", "-n", "/c/ex.tex"]);
    let argv = edit_argv("'my editor' \"--flag x\"", "f.tex").unwrap();
    assert_eq!(argv, vec!["my editor", "--flag x", "f.tex"]);
    assert!(edit_argv("", "f.tex").is_none());
    assert!(edit_argv("vim 'unclosed", "f.tex").is_none());
}

#[test]
fn launch_prefers_explicit_then_vscode_then_panes_then_editor() {
    let off = EditorConfig { edit_cmd: Some("vim".into()), disabled: true };
    assert!(matches!(choose_launch(&off, &env()), Launch::Nothing));
    let explicit = EditorConfig { edit_cmd: Some("nano".into()), disabled: false };
    assert!(matches!(choose_launch(&explicit, &env()), Launch::Command(c) if c == "nano"));
    let auto = EditorConfig::default();
    let mut e = env();
    e.term_program = Some("vscode".into());
    e.codium_on_path = true;
    e.tmux_set = true;
    e.tmux_on_path = true;
    assert!(matches!(choose_launch(&auto, &e), Launch::Command(c) if c == "codium"));
    e.code_on_path = true;
    assert!(matches!(choose_launch(&auto, &e), Launch::Command(c) if c == "code"));
    e.term_program = None;
    assert!(matches!(choose_launch(&auto, &e), Launch::TmuxPane));
    e.zellij_set = true;
    e.zellij_on_path = true;
    assert!(matches!(choose_launch(&auto, &e), Launch::ZellijEdit));
    let mut e = env();
    e.editor = Some("hx".into());
    assert!(matches!(choose_launch(&auto, &e), Launch::Command(c) if c == "hx"));
    assert!(matches!(choose_launch(&auto, &env()), Launch::Nothing));
}

#[test]
fn the_titled_tmux_pane_is_reused() {
    let listing = "%1 bash\n%7 latexlings-editor\n%9 latexlings-editor\n";
    assert_eq!(find_titled_pane(listing), Some("%7".to_string()));
    assert_eq!(find_titled_pane("%1 bash\n"), None);
    assert_eq!(pane_id_of("%12\n"), "%12");
    assert_eq!(tmux_editor(None), "vi");
    assert_eq!(tmux_editor(Some("nvim".into())), "nvim");
    assert_eq!(tmux_keys("nvim", "/c/ex.tex"), "nvim /c/ex.tex");
}
