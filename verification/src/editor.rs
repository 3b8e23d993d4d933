//! Which way the current exercise is opened for the learner: an explicit
//! `--edit-cmd`, VS Code, a Zellij pane, a reused tmux pane, or `$EDITOR`;
//! the command line an editor command becomes; and the tmux pane to reuse.

use vstd::prelude::*;
use crate::text::{
    chars_of, concat3, ends_with, ends_with_chars, lines, lines_of, str_is, string_of,
    string_views, trim, trim_chars, views, words, words_of,
};

verus! {

/// How the learner wants exercises opened.
pub struct EditorConfig {
    /// A command to open the exercise with, instead of detecting one.
    pub edit_cmd: Option<String>,
    /// Never open an editor.
    pub disabled: bool,
}

impl Clone for EditorConfig {
    fn clone(&self) -> (r: Self)
        ensures
            r.edit_cmd == self.edit_cmd,
            r.disabled == self.disabled,
    {
        EditorConfig {
            edit_cmd: match &self.edit_cmd {
                Some(c) => Some(c.clone()),
                None => None,
            },
            disabled: self.disabled,
        }
    }
}

impl Default for EditorConfig {
    fn default() -> (r: Self)
        ensures
            r.edit_cmd is None,
            !r.disabled,
    {
        EditorConfig { edit_cmd: None, disabled: false }
    }
}

/// What the environment offers for opening an editor.
pub struct EditorEnv {
    /// `$TERM_PROGRAM`, if set (and Unicode).
    pub term_program: Option<String>,
    pub code_on_path: bool,
    pub codium_on_path: bool,
    /// `$ZELLIJ` is set (and Unicode).
    pub zellij_set: bool,
    pub zellij_on_path: bool,
    /// `$TMUX` is set (and Unicode).
    pub tmux_set: bool,
    pub tmux_on_path: bool,
    /// `$EDITOR`, if set (and Unicode).
    pub editor: Option<String>,
}

/// How to open the exercise.
pub enum Launch {
    /// Do not open it.
    Nothing,
    /// Run this editor command (split like a shell would) on the file.
    Command(String),
    /// `zellij action edit <file>`.
    ZellijEdit,
    /// Open it in a reused or new tmux pane.
    TmuxPane,
}

pub enum LaunchView {
    Nothing,
    Command(Seq<char>),
    ZellijEdit,
    TmuxPane,
}

impl View for Launch {
    type V = LaunchView;

    open spec fn view(&self) -> LaunchView {
        match self {
            Launch::Nothing => LaunchView::Nothing,
            Launch::Command(c) => LaunchView::Command(c@),
            Launch::ZellijEdit => LaunchView::ZellijEdit,
            Launch::TmuxPane => LaunchView::TmuxPane,
        }
    }
}

/// The first mechanism available: the explicit command; inside VS Code,
/// `code` or `codium`; a Zellij pane; a tmux pane; `$EDITOR`.
pub open spec fn launch_for(config: EditorConfig, env: EditorEnv) -> LaunchView {
    if config.disabled {
        LaunchView::Nothing
    } else if config.edit_cmd is Some {
        LaunchView::Command(config.edit_cmd->0@)
    } else if env.term_program matches Some(t) && t@ == "vscode"@ && env.code_on_path {
        LaunchView::Command("code"@)
    } else if env.term_program matches Some(t) && t@ == "vscode"@ && env.codium_on_path {
        LaunchView::Command("codium"@)
    } else if env.zellij_set && env.zellij_on_path {
        LaunchView::ZellijEdit
    } else if env.tmux_set && env.tmux_on_path {
        LaunchView::TmuxPane
    } else if env.editor is Some {
        LaunchView::Command(env.editor->0@)
    } else {
        LaunchView::Nothing
    }
}

/// Chooses how to open the current exercise.
pub fn choose_launch(config: &EditorConfig, env: &EditorEnv) -> (r: Launch)
    ensures
        r@ == launch_for(*config, *env),
{
    if config.disabled {
        return Launch::Nothing;
    }
    if let Some(c) = &config.edit_cmd {
        return Launch::Command(c.clone());
    }
    let vscode = match &env.term_program {
        Some(t) => str_is(t.as_str(), "vscode"),
        None => false,
    };
    if vscode {
        if env.code_on_path {
            return Launch::Command(String::from_str("code"));
        }
        if env.codium_on_path {
            return Launch::Command(String::from_str("codium"));
        }
    }
    if env.zellij_set && env.zellij_on_path {
        return Launch::ZellijEdit;
    }
    if env.tmux_set && env.tmux_on_path {
        return Launch::TmuxPane;
    }
    match &env.editor {
        Some(e) => Launch::Command(e.clone()),
        None => Launch::Nothing,
    }
}

// ---------------------------------------------------------------------------
// editor commands (the shlex crate)
// ---------------------------------------------------------------------------

/// What `shlex::split(s)` gives: the words of `s` split as a POSIX shell
/// would, or `None` for input it rejects (such as an unclosed quote).
pub uninterp spec fn shlex_words(s: Seq<char>) -> Option<Seq<Seq<char>>>;

/// Splits a command line into words.
///
/// Trusted: `shlex::split`. Its result is named `shlex_words`, a function of
/// the command text alone; nothing more is claimed of it.
#[verifier::external_body]
fn shlex_split(s: &str) -> (r: Option<Vec<String>>)
    ensures
        match r {
            Some(v) => shlex_words(s@) == Some(string_views(v@)),
            None => shlex_words(s@) is None,
        },
{
    shlex::split(s)
}

/// The program and arguments to run for an editor command split into
/// `words`, on `path`: the words followed by the path; nothing when the
/// command could not be split or has no words.
pub open spec fn argv_for(words: Option<Seq<Seq<char>>>, path: Seq<char>) -> Option<
    Seq<Seq<char>>,
> {
    match words {
        Some(w) => if w.len() == 0 {
            None
        } else {
            Some(w.push(path))
        },
        None => None,
    }
}

/// The command line for the split editor command `words` on `path`.
pub fn argv_from_words(words: Option<Vec<String>>, path: &str) -> (r: Option<Vec<String>>)
    ensures
        match r {
            Some(v) => argv_for(
                match words {
                    Some(w) => Some(string_views(w@)),
                    None => None,
                },
                path@,
            ) == Some(string_views(v@)),
            None => argv_for(
                match words {
                    Some(w) => Some(string_views(w@)),
                    None => None,
                },
                path@,
            ) is None,
        },
{
    match words {
        Some(mut w) => {
            if w.len() == 0 {
                None
            } else {
                let ghost before = string_views(w@);
                w.push(String::from_str(path));
                assert(string_views(w@) =~= before.push(path@));
                Some(w)
            }
        },
        None => None,
    }
}

/// The command line that runs the editor command `cmd` on `path`: program
/// first, then its arguments, the path last.
pub fn edit_argv(cmd: &str, path: &str) -> (r: Option<Vec<String>>)
    ensures
        match r {
            Some(v) => argv_for(shlex_words(cmd@), path@) == Some(string_views(v@)),
            None => argv_for(shlex_words(cmd@), path@) is None,
        },
{
    let words = shlex_split(cmd);
    argv_from_words(words, path)
}

// ---------------------------------------------------------------------------
// tmux
// ---------------------------------------------------------------------------

/// The title given to the tmux pane opened for exercises.
pub const PANE_TITLE: &'static str = "latexlings-editor";

/// The first position whose line ends with the pane title (meaningful
/// when there is one).
pub open spec fn first_titled(ls: Seq<Seq<char>>) -> int {
    choose|i: int|
        0 <= i < ls.len() && ends_with(ls[i], PANE_TITLE@) && forall|j: int|
            0 <= j < i ==> !ends_with(ls[j], PANE_TITLE@)
}

/// The pane to reuse, from `tmux list-panes` output of `<id> <title>`
/// lines: the first word of the first line ending with the pane title.
pub open spec fn titled_pane(listing: Seq<char>) -> Option<Seq<char>> {
    let ls = lines(listing);
    if exists|i: int| 0 <= i < ls.len() && ends_with(ls[i], PANE_TITLE@) {
        let w = words(ls[first_titled(ls)]);
        if w.len() > 0 {
            Some(w[0])
        } else {
            None
        }
    } else {
        None
    }
}

/// Finds the pane previously opened for exercises.
pub fn find_titled_pane(listing: &str) -> (r: Option<String>)
    ensures
        match r {
            Some(p) => titled_pane(listing@) == Some(p@),
            None => titled_pane(listing@) is None,
        },
{
    let ls = lines_of(&chars_of(listing));
    let t = chars_of(PANE_TITLE);
    let mut i: usize = 0;
    while i < ls.len()
        invariant
            i <= ls.len(),
            views(ls@) == lines(listing@),
            t@ == PANE_TITLE@,
            forall|j: int| 0 <= j < i ==> !ends_with(views(ls@)[j], PANE_TITLE@),
        decreases ls.len() - i,
    {
        if ends_with_chars(&ls[i], &t) {
            let ghost lv = views(ls@);
            assert(first_titled(lv) == i as int) by {
                let f = first_titled(lv);
                assert(0 <= i < lv.len() && ends_with(lv[i as int], PANE_TITLE@) && forall|j: int|
                    0 <= j < i ==> !ends_with(lv[j], PANE_TITLE@));
                if f < i {
                } else if f > i {
                }
            }
            let w = words_of(&ls[i]);
            if w.len() > 0 {
                return Some(string_of(&w[0]));
            } else {
                return None;
            }
        }
        i = i + 1;
    }
    None
}

/// The editor typed into the tmux pane: `$EDITOR`, else `vi`.
pub fn tmux_editor(env_editor: Option<String>) -> (r: String)
    ensures
        r@ == match env_editor {
            Some(e) => e@,
            None => "vi"@,
        },
{
    match env_editor {
        Some(e) => e,
        None => String::from_str("vi"),
    }
}

/// The keys typed into the tmux pane: `<editor> <path>`.
pub fn tmux_keys(editor: &str, path: &str) -> (r: String)
    ensures
        r@ == editor@ + " "@ + path@,
{
    concat3(editor, " ", path)
}

/// The id of the pane `tmux split-window -P` printed.
pub fn pane_id_of(out: &str) -> (r: String)
    ensures
        r@ == trim(out@),
{
    string_of(&trim_chars(&chars_of(out)))
}

} // verus!
