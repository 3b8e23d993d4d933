//! What the watch mode shows: the lines of the watch screen with the tone
//! each is drawn in, the list's rows, the check-all screen's title and
//! cells, the progress title and the key help. Colours, layout and the
//! progress ratio are the terminal front end's.

use vstd::prelude::*;
use crate::info::{Exercise, MARKER, rel_path_spec};
use crate::text::{chars_of, concat, concat3, decimal, decimal_string, lines, lines_of, pad_left, pad_left_string, string_of, string_views, views};
use crate::tui::{App, AppView, UiMode, opt_status, opt_view, visible};
use crate::verify::{Status, StatusView};

verus! {

/// How a line is drawn.
#[derive(Clone, Copy, Debug, PartialEq, Eq, Structural)]
pub enum Tone {
    Plain,
    /// Success.
    Accent,
    AccentBold,
    /// Work in progress, or close but not yet right.
    Pending,
    PendingBold,
    Failure,
    FailureBold,
    /// Secondary text.
    Muted,
    /// Hints and lint notes.
    Note,
}

/// One line of a screen.
pub struct ScreenLine {
    pub text: String,
    pub tone: Tone,
}

pub open spec fn line_view(l: ScreenLine) -> (Seq<char>, Tone) {
    (l.text@, l.tone)
}

pub open spec fn lines_view(s: Seq<ScreenLine>) -> Seq<(Seq<char>, Tone)> {
    s.map_values(|l: ScreenLine| line_view(l))
}

pub open spec fn blank() -> (Seq<char>, Tone) {
    (Seq::empty(), Tone::Plain)
}

/// One line per item: `prefix` followed by the item.
pub open spec fn each(prefix: Seq<char>, items: Seq<Seq<char>>, tone: Tone) -> Seq<(Seq<char>, Tone)> {
    items.map_values(|l: Seq<char>| (prefix + l, tone))
}

/// The screen shown once every exercise is done.
pub open spec fn all_done_lines() -> Seq<(Seq<char>, Tone)> {
    seq![
        blank(),
        ("  ✓ ALL EXERCISES COMPLETE"@, Tone::AccentBold),
        blank(),
        ("  You have typeset your way through the whole course."@, Tone::Plain),
        ("  Write something real now — a problem set, a paper, a resume."@, Tone::Plain),
        blank(),
        ("  (l: browse exercises · r in the list resets one · q: quit)"@, Tone::Plain),
    ]
}

/// What the last compile says, or that one is running.
pub open spec fn status_lines(flash: Option<Seq<char>>, status: Option<StatusView>) -> Seq<
    (Seq<char>, Tone),
> {
    match flash {
        Some(msg) => seq![("  ⟳ "@ + msg, Tone::Pending)],
        None => match status {
            Some(StatusView::Done) => seq![
                ("  ✓ exercise complete — press n to continue"@, Tone::AccentBold),
            ],
            Some(StatusView::MarkerPresent) => seq![
                ("  ✓ compiles and passes all checks!"@, Tone::Accent),
                blank(),
                ("    Read the output, then delete the `% "@ + MARKER@ + "` line to finish."@, Tone::Plain),
            ],
            Some(StatusView::CompileFail(err)) => seq![
                ("  ✗ pdflatex failed:"@, Tone::FailureBold),
                blank(),
            ] + each("    "@, lines(err), Tone::Failure),
            Some(StatusView::ChecksFail(notes, excerpt)) => seq![
                ("  ✗ compiles, but the rendered output isn't right yet:"@, Tone::PendingBold),
                blank(),
            ] + each("    • "@, notes, Tone::Pending) + seq![
                blank(),
                ("    rendered text starts with:"@, Tone::Muted),
                ("    "@ + excerpt, Tone::Muted),
            ],
            Some(StatusView::ToolMissing(msg)) => seq![("  ✗ missing tool:"@, Tone::FailureBold)]
                + each("    "@, lines(msg), Tone::Plain),
            None => seq![("  waiting for first compile…"@, Tone::Plain)],
        },
    }
}

/// The hint, when it is shown.
pub open spec fn hint_lines(show: bool, hint: Seq<char>) -> Seq<(Seq<char>, Tone)> {
    if show {
        seq![blank(), ("  ── hint ────────────────────────────────"@, Tone::Note)] + each(
            "  "@,
            lines(hint),
            Tone::Note,
        )
    } else {
        Seq::empty()
    }
}

/// chktex's notes, when there are any.
pub open spec fn lint_lines(notes: Option<Seq<Seq<char>>>) -> Seq<(Seq<char>, Tone)> {
    match notes {
        Some(ns) => if ns.len() > 0 {
            seq![blank(), ("  ── chktex notes ────────────────────────"@, Tone::Note)] + each(
                "  • "@,
                ns,
                Tone::Note,
            )
        } else {
            Seq::empty()
        },
        None => Seq::empty(),
    }
}

/// The watch screen's lines.
pub open spec fn watch_screen(v: AppView) -> Seq<(Seq<char>, Tone)> {
    if v.current >= v.exercises.len() {
        all_done_lines()
    } else {
        let ex = v.exercises[v.current as int];
        seq![blank()] + status_lines(v.flash, v.status) + hint_lines(v.show_hint, ex.hint@)
            + lint_lines(v.lints)
    }
}

/// The watch screen's title: the exercise's path and its mode.
pub open spec fn watch_title(ex: Exercise) -> Seq<char> {
    " "@ + rel_path_spec(ex.dir@, ex.name@) + " ["@ + ex.mode.label_spec() + "] "@
}

fn lit(s: &str, tone: Tone) -> (l: ScreenLine)
    ensures
        line_view(l) == (s@, tone),
{
    ScreenLine { text: String::from_str(s), tone }
}

fn blank_line() -> (l: ScreenLine)
    ensures
        line_view(l) == blank(),
{
    ScreenLine { text: String::new(), tone: Tone::Plain }
}

fn push_line(out: &mut Vec<ScreenLine>, l: ScreenLine)
    ensures
        lines_view(final(out)@) == lines_view(old(out)@).push(line_view(l)),
{
    let ghost prev = out@;
    out.push(l);
    assert(lines_view(out@) =~= lines_view(prev).push(line_view(l)));
}

fn append_lines(out: &mut Vec<ScreenLine>, more: Vec<ScreenLine>)
    ensures
        lines_view(final(out)@) == lines_view(old(out)@) + lines_view(more@),
{
    let ghost prev = out@;
    let ghost added = more@;
    let mut more = more;
    out.append(&mut more);
    assert(lines_view(out@) =~= lines_view(prev) + lines_view(added));
}

/// One line per character sequence of `items`, each after `prefix`.
fn each_chars(prefix: &str, items: &Vec<Vec<char>>, tone: Tone) -> (out: Vec<ScreenLine>)
    ensures
        lines_view(out@) == each(prefix@, views(items@), tone),
{
    let mut out: Vec<ScreenLine> = Vec::new();
    let mut i: usize = 0;
    while i < items.len()
        invariant
            i <= items.len(),
            lines_view(out@) == each(prefix@, views(items@).take(i as int), tone),
        decreases items.len() - i,
    {
        let item = string_of(items[i].as_slice());
        let l = ScreenLine { text: concat(prefix, item.as_str()), tone };
        push_line(&mut out, l);
        assert(views(items@).take(i + 1) =~= views(items@).take(i as int).push(items@[i as int]@));
        assert(each(prefix@, views(items@).take(i + 1), tone) =~= each(
            prefix@,
            views(items@).take(i as int),
            tone,
        ).push((prefix@ + items@[i as int]@, tone)));
        i = i + 1;
    }
    assert(views(items@).take(items.len() as int) =~= views(items@));
    out
}

/// One line per string of `items`, each after `prefix`.
fn each_string(prefix: &str, items: &Vec<String>, tone: Tone) -> (out: Vec<ScreenLine>)
    ensures
        lines_view(out@) == each(prefix@, string_views(items@), tone),
{
    let mut out: Vec<ScreenLine> = Vec::new();
    let mut i: usize = 0;
    while i < items.len()
        invariant
            i <= items.len(),
            lines_view(out@) == each(prefix@, string_views(items@).take(i as int), tone),
        decreases items.len() - i,
    {
        let l = ScreenLine { text: concat(prefix, items[i].as_str()), tone };
        push_line(&mut out, l);
        assert(string_views(items@).take(i + 1) =~= string_views(items@).take(i as int).push(
            items@[i as int]@,
        ));
        assert(each(prefix@, string_views(items@).take(i + 1), tone) =~= each(
            prefix@,
            string_views(items@).take(i as int),
            tone,
        ).push((prefix@ + items@[i as int]@, tone)));
        i = i + 1;
    }
    assert(string_views(items@).take(items.len() as int) =~= string_views(items@));
    out
}

/// One line per line of `s`, each after `prefix`.
fn each_line_of(prefix: &str, s: &str, tone: Tone) -> (out: Vec<ScreenLine>)
    ensures
        lines_view(out@) == each(prefix@, lines(s@), tone),
{
    let c = chars_of(s);
    let ls = lines_of(c.as_slice());
    each_chars(prefix, &ls, tone)
}

fn status_section(flash: &Option<String>, status: &Option<Status>) -> (out: Vec<ScreenLine>)
    ensures
        lines_view(out@) == status_lines(opt_view(*flash), opt_status(*status)),
{
    let mut out: Vec<ScreenLine> = Vec::new();
    match flash {
        Some(msg) => {
            push_line(&mut out, ScreenLine { text: concat("  ⟳ ", msg.as_str()), tone: Tone::Pending });
        },
        None => match status {
            Some(Status::Done) => {
                push_line(&mut out, lit("  ✓ exercise complete — press n to continue", Tone::AccentBold));
            },
            Some(Status::MarkerPresent) => {
                push_line(&mut out, lit("  ✓ compiles and passes all checks!", Tone::Accent));
                push_line(&mut out, blank_line());
                push_line(
                    &mut out,
                    ScreenLine {
                        text: concat3("    Read the output, then delete the `% ", MARKER, "` line to finish."),
                        tone: Tone::Plain,
                    },
                );
            },
            Some(Status::CompileFail(err)) => {
                push_line(&mut out, lit("  ✗ pdflatex failed:", Tone::FailureBold));
                push_line(&mut out, blank_line());
                append_lines(&mut out, each_line_of("    ", err.as_str(), Tone::Failure));
            },
            Some(Status::ChecksFail(notes, excerpt)) => {
                push_line(
                    &mut out,
                    lit("  ✗ compiles, but the rendered output isn't right yet:", Tone::PendingBold),
                );
                push_line(&mut out, blank_line());
                append_lines(&mut out, each_string("    • ", notes, Tone::Pending));
                push_line(&mut out, blank_line());
                push_line(&mut out, lit("    rendered text starts with:", Tone::Muted));
                push_line(&mut out, ScreenLine { text: concat("    ", excerpt.as_str()), tone: Tone::Muted });
            },
            Some(Status::ToolMissing(msg)) => {
                push_line(&mut out, lit("  ✗ missing tool:", Tone::FailureBold));
                append_lines(&mut out, each_line_of("    ", msg.as_str(), Tone::Plain));
            },
            None => {
                push_line(&mut out, lit("  waiting for first compile…", Tone::Plain));
            },
        },
    }
    proof {
        match flash {
            Some(msg) => {},
            None => match status {
                Some(Status::ChecksFail(notes, excerpt)) => {
                    assert(lines_view(out@) =~= status_lines(opt_view(*flash), opt_status(*status)));
                },
                _ => {
                    assert(lines_view(out@) =~= status_lines(opt_view(*flash), opt_status(*status)));
                },
            },
        }
    }
    out
}

impl App {
    /// The lines of the watch screen: what the last compile found (or that
    /// one is running), then the hint when it is shown, then chktex's notes
    /// when there are any; the closing message once every exercise is done.
    pub fn watch_lines(&self) -> (out: Vec<ScreenLine>)
        requires
            self.wf(),
        ensures
            lines_view(out@) == watch_screen(self.view()),
    {
        let mut out: Vec<ScreenLine> = Vec::new();
        if self.current >= self.exercises.len() {
            push_line(&mut out, blank_line());
            push_line(&mut out, lit("  ✓ ALL EXERCISES COMPLETE", Tone::AccentBold));
            push_line(&mut out, blank_line());
            push_line(&mut out, lit("  You have typeset your way through the whole course.", Tone::Plain));
            push_line(
                &mut out,
                lit("  Write something real now — a problem set, a paper, a resume.", Tone::Plain),
            );
            push_line(&mut out, blank_line());
            push_line(
                &mut out,
                lit("  (l: browse exercises · r in the list resets one · q: quit)", Tone::Plain),
            );
            assert(lines_view(out@) =~= all_done_lines());
            return out;
        }
        let ex = &self.exercises[self.current];
        push_line(&mut out, blank_line());
        append_lines(&mut out, status_section(&self.flash, &self.status));
        if self.show_hint {
            push_line(&mut out, blank_line());
            push_line(&mut out, lit("  ── hint ────────────────────────────────", Tone::Note));
            append_lines(&mut out, each_line_of("  ", ex.hint.as_str(), Tone::Note));
        }
        match &self.lints {
            Some(l) => {
                if l.notes.len() > 0 {
                    push_line(&mut out, blank_line());
                    push_line(&mut out, lit("  ── chktex notes ────────────────────────", Tone::Note));
                    append_lines(&mut out, each_string("  • ", &l.notes, Tone::Note));
                }
            },
            None => {},
        }
        assert(lines_view(out@) =~= watch_screen(self.view()));
        out
    }

    /// The watch screen's title, while an exercise is being worked on.
    pub fn watch_title(&self) -> (t: Option<String>)
        ensures
            self.current < self.exercises.len() ==> (t matches Some(s) && s@ == watch_title(
                self.exercises[self.current as int],
            )),
            self.current >= self.exercises.len() ==> t is None,
    {
        if self.current < self.exercises.len() {
            let ex = &self.exercises[self.current];
            let rel = ex.rel_path();
            let head = concat(" ", rel.as_str());
            let body = concat3(head.as_str(), " [", ex.mode.label());
            Some(concat(body.as_str(), "] "))
        } else {
            None
        }
    }
}

// ---------------------------------------------------------------------------
// the list, the sweep, the frame
// ---------------------------------------------------------------------------

/// How a row of the list is marked.
#[derive(Clone, Copy, Debug, PartialEq, Eq, Structural)]
pub enum RowMark {
    Done,
    Current,
    Other,
}

/// One row of the list: the exercise's position, its mark, its number
/// right-aligned in three columns, its name, topic and mode.
pub struct ListRow {
    pub index: usize,
    pub mark: RowMark,
    pub number: String,
    pub name: String,
    pub topic: String,
    pub mode: &'static str,
}

pub open spec fn row_view(r: ListRow) -> (usize, RowMark, Seq<char>, Seq<char>, Seq<char>, Seq<char>) {
    (r.index, r.mark, r.number@, r.name@, r.topic@, r.mode@)
}

/// The row of the list for exercise `i`.
pub open spec fn row_spec(v: AppView, i: usize) -> (usize, RowMark, Seq<char>, Seq<char>, Seq<char>, Seq<char>) {
    let ex = v.exercises[i as int];
    (
        i,
        if v.done.contains_key(ex.name@) {
            RowMark::Done
        } else if i == v.current {
            RowMark::Current
        } else {
            RowMark::Other
        },
        pad_left(decimal((i + 1) as nat), 3),
        ex.name@,
        ex.dir@,
        ex.mode.label_spec(),
    )
}

/// How a sweep result is shown.
#[derive(Clone, Copy, Debug, PartialEq, Eq, Structural)]
pub enum CellMark {
    Unknown,
    Passed,
    Failed,
}

pub open spec fn cell_mark(r: Option<StatusView>) -> CellMark {
    match r {
        None => CellMark::Unknown,
        Some(StatusView::Done) => CellMark::Passed,
        Some(_) => CellMark::Failed,
    }
}

/// How many results are known.
pub open spec fn count_known(r: Seq<Option<StatusView>>) -> nat
    decreases r.len(),
{
    if r.len() == 0 {
        0
    } else {
        count_known(r.drop_last()) + if r.last() is Some {
            1nat
        } else {
            0nat
        }
    }
}

/// How many results are `Done`.
pub open spec fn count_done(r: Seq<Option<StatusView>>) -> nat
    decreases r.len(),
{
    if r.len() == 0 {
        0
    } else {
        count_done(r.drop_last()) + if r.last() == Some(StatusView::Done) {
            1nat
        } else {
            0nat
        }
    }
}

/// The check-all screen's title: progress while the sweep runs, the tally
/// once it is over.
pub open spec fn sweep_title(v: AppView) -> Seq<char> {
    if v.check_running {
        " checking all — "@ + decimal(count_known(v.check_results)) + "/"@ + decimal(
            v.exercises.len(),
        ) + " "@
    } else {
        " check all complete — "@ + decimal(count_done(v.check_results)) + "/"@ + decimal(
            v.exercises.len(),
        ) + " done (press enter) "@
    }
}

/// The progress bar's title: how many exercises the record holds, of how
/// many.
pub open spec fn progress_title(v: AppView) -> Seq<char> {
    " "@ + decimal(v.done.dom().len()) + "/"@ + decimal(v.exercises.len()) + " done "@
}

/// The key help for each screen.
pub open spec fn footer_spec(mode: UiMode) -> Seq<char> {
    match mode {
        UiMode::Watch => "  n:next  h:hint  l:list  c:check-all  r:recompile  ↑↓:scroll  q:quit"@,
        UiMode::List => "  ↑↓/jk:move  enter:work on this  r:reset  d:done  p:pending  /:search  esc:back"@,
        UiMode::CheckAll => "  (running…)  q/esc/enter:back once done"@,
    }
}

/// The key help for each screen.
pub fn footer_keys(mode: UiMode) -> (k: &'static str)
    ensures
        k@ == footer_spec(mode),
{
    match mode {
        UiMode::Watch => "  n:next  h:hint  l:list  c:check-all  r:recompile  ↑↓:scroll  q:quit",
        UiMode::List => "  ↑↓/jk:move  enter:work on this  r:reset  d:done  p:pending  /:search  esc:back",
        UiMode::CheckAll => "  (running…)  q/esc/enter:back once done",
    }
}

impl App {
    /// The rows of the list, one per shown exercise, in order.
    pub fn list_rows(&self) -> (out: Vec<ListRow>)
        requires
            self.wf(),
        ensures
            out.len() == visible(self.view()).len(),
            forall|k: int|
                0 <= k < out.len() ==> row_view(#[trigger] out@[k]) == row_spec(
                    self.view(),
                    visible(self.view())[k],
                ),
    {
        let rows = self.visible_rows();
        proof {
            crate::tui::lemma_visible_bounds(
                self.exercises@,
                self.done@,
                self.list_filter,
                self.exercises.len() as int,
            );
        }
        let mut out: Vec<ListRow> = Vec::new();
        let mut k: usize = 0;
        while k < rows.len()
            invariant
                k <= rows.len(),
                self.wf(),
                rows@ == visible(self.view()),
                forall|a: int| 0 <= a < rows.len() ==> #[trigger] rows@[a] < self.exercises.len(),
                out.len() == k,
                forall|a: int|
                    0 <= a < k ==> row_view(#[trigger] out@[a]) == row_spec(self.view(), rows@[a]),
            decreases rows.len() - k,
        {
            let i = rows[k];
            let ex = &self.exercises[i];
            let mark = if self.done.contains(ex.name.as_str()) {
                RowMark::Done
            } else if i == self.current {
                RowMark::Current
            } else {
                RowMark::Other
            };
            let digits = decimal_string((i + 1) as u64);
            let number = pad_left_string(digits.as_str(), 3);
            out.push(
                ListRow {
                    index: i,
                    mark,
                    number,
                    name: string_of(chars_of(ex.name.as_str()).as_slice()),
                    topic: string_of(chars_of(ex.dir.as_str()).as_slice()),
                    mode: ex.mode.label(),
                },
            );
            k = k + 1;
        }
        out
    }

    /// How each exercise's sweep result is shown.
    pub fn sweep_cells(&self) -> (out: Vec<CellMark>)
        ensures
            out@ == self.view().check_results.map_values(|r: Option<StatusView>| cell_mark(r)),
    {
        let mut out: Vec<CellMark> = Vec::new();
        let mut i: usize = 0;
        while i < self.check_results.len()
            invariant
                i <= self.check_results.len(),
                out@ == self.view().check_results.take(i as int).map_values(
                    |r: Option<StatusView>| cell_mark(r),
                ),
            decreases self.check_results.len() - i,
        {
            let m = match &self.check_results[i] {
                None => CellMark::Unknown,
                Some(st) => if st.is_done() {
                    CellMark::Passed
                } else {
                    CellMark::Failed
                },
            };
            out.push(m);
            assert(self.view().check_results.take(i + 1) =~= self.view().check_results.take(
                i as int,
            ).push(self.view().check_results[i as int]));
            i = i + 1;
        }
        assert(self.view().check_results.take(i as int) =~= self.view().check_results);
        out
    }

    /// The check-all screen's title.
    pub fn sweep_title(&self) -> (t: String)
        requires
            self.wf(),
        ensures
            t@ == sweep_title(self.view()),
    {
        let ghost r = self.view().check_results;
        let mut known: usize = 0;
        let mut passed: usize = 0;
        let mut i: usize = 0;
        while i < self.check_results.len()
            invariant
                i <= self.check_results.len(),
                r == self.view().check_results,
                known == count_known(r.take(i as int)),
                passed == count_done(r.take(i as int)),
                known <= i,
                passed <= i,
            decreases self.check_results.len() - i,
        {
            assert(r.take(i + 1).drop_last() =~= r.take(i as int));
            match &self.check_results[i] {
                None => {},
                Some(st) => {
                    known = known + 1;
                    if st.is_done() {
                        passed = passed + 1;
                    }
                },
            }
            i = i + 1;
        }
        assert(r.take(i as int) =~= r);
        let total = decimal_string(self.exercises.len() as u64);
        if self.check_running {
            let a = concat(" checking all — ", decimal_string(known as u64).as_str());
            let b = concat3(a.as_str(), "/", total.as_str());
            concat(b.as_str(), " ")
        } else {
            let a = concat(" check all complete — ", decimal_string(passed as u64).as_str());
            let b = concat3(a.as_str(), "/", total.as_str());
            concat(b.as_str(), " done (press enter) ")
        }
    }

    /// The progress bar's title.
    pub fn progress_title(&self) -> (t: String)
        requires
            self.wf(),
        ensures
            t@ == progress_title(self.view()),
    {
        let done = self.done.len();
        let a = concat(" ", decimal_string(done as u64).as_str());
        let b = concat3(a.as_str(), "/", decimal_string(self.exercises.len() as u64).as_str());
        concat(b.as_str(), " done ")
    }
}

} // verus!
