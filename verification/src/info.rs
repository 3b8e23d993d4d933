//! Exercise metadata and the progress record: which exercises are done, and
//! the whole-second modification time each one's source had when it was
//! last verified done.

use vstd::prelude::*;
use crate::text::{
    lemma_lines_concat, lemma_lines_single, lemma_trim_noop, lemma_parse_decimal,
    lemma_decimal_digits, is_digit,
    chars_less, chars_of, decimal, decimal_string, lines, lines_from, lines_of,
    parse_u64, parse_u64_chars, strip_cr, trim, trim_chars, trim_end, trim_start, views,
    is_ws, digits_value, digit_char, digit_value, all_digits, string_of, concat, concat3, contains_chars, contains_sub, seq_less,
    lemma_seq_less_irreflexive, lemma_seq_less_total,
    lemma_seq_less_transitive,
};

verus! {

/// An exercise is finished only once this marker line is deleted.
pub const MARKER: &'static str = "I AM NOT DONE";

/// A content check of a writing assignment.
pub struct Check {
    /// Pattern matched against the whitespace-normalized rendered text.
    pub pattern: String,
    /// Human explanation shown when the pattern does not match.
    pub note: String,
}

impl Clone for Check {
    fn clone(&self) -> (r: Self)
        ensures
            r == *self,
    {
        Check { pattern: self.pattern.clone(), note: self.note.clone() }
    }
}

/// How an exercise is completed.
#[derive(Clone, Copy, Debug, PartialEq, Eq, Structural)]
pub enum Mode {
    /// Broken file: make it compile.
    Fix,
    /// Typesetting assignment: the rendered text must satisfy the checks.
    Write,
}

impl Mode {
    pub open spec fn label_spec(self) -> Seq<char> {
        match self {
            Mode::Fix => seq!['f', 'i', 'x'],
            Mode::Write => seq!['w', 'r', 'i', 't', 'e'],
        }
    }

    /// The word used for the mode in listings and in `info.toml`.
    pub fn label(self) -> (r: &'static str)
        ensures
            r@ == self.label_spec(),
    {
        match self {
            Mode::Fix => {
                proof {
                    reveal_strlit("fix");
                }
                "fix"
            },
            Mode::Write => {
                proof {
                    reveal_strlit("write");
                }
                "write"
            },
        }
    }
}

/// One exercise as listed in `info.toml`.
pub struct Exercise {
    pub name: String,
    pub dir: String,
    pub mode: Mode,
    pub hint: String,
    pub checks: Vec<Check>,
    /// Fix mode only: the shipped file intentionally compiles.
    pub compiles_as_shipped: bool,
    /// Non-empty chktex output blocks completion like a failing check.
    pub strict_chktex: bool,
}

impl Exercise {
    /// The two exercises hold the same values.
    pub open spec fn same_as(self, other: Exercise) -> bool {
        &&& self.name == other.name
        &&& self.dir == other.dir
        &&& self.mode == other.mode
        &&& self.hint == other.hint
        &&& self.checks@ == other.checks@
        &&& self.compiles_as_shipped == other.compiles_as_shipped
        &&& self.strict_chktex == other.strict_chktex
    }
}

impl Clone for Exercise {
    fn clone(&self) -> (r: Self)
        ensures
            r.same_as(*self),
    {
        let checks = self.checks.clone();
        assert(checks@ =~= self.checks@);
        Exercise {
            name: self.name.clone(),
            dir: self.dir.clone(),
            mode: self.mode,
            hint: self.hint.clone(),
            checks,
            compiles_as_shipped: self.compiles_as_shipped,
            strict_chktex: self.strict_chktex,
        }
    }
}

/// `exercises/<dir>/<name>.tex`
pub open spec fn rel_path_spec(dir: Seq<char>, name: Seq<char>) -> Seq<char> {
    "exercises/"@ + dir + "/"@ + name + ".tex"@
}

/// `solutions/<dir>/<name>.tex`
pub open spec fn solution_rel_spec(dir: Seq<char>, name: Seq<char>) -> Seq<char> {
    "solutions/"@ + dir + "/"@ + name + ".tex"@
}

/// A path joined onto a directory, as `Path::join` does: an absolute
/// path (one starting with `/`) replaces the directory; a relative one is
/// appended with one `/` between them.
pub open spec fn join_path(root: Seq<char>, rel: Seq<char>) -> Seq<char> {
    if rel.len() > 0 && rel[0] == '/' {
        rel
    } else if root.len() == 0 {
        rel
    } else if root.last() == '/' {
        root + rel
    } else {
        root + "/"@ + rel
    }
}

/// `rel` joined onto `root` (see `join_path`).
pub fn join_path_exec(root: &str, rel: &str) -> (r: String)
    ensures
        r@ == join_path(root@, rel@),
{
    let rc = chars_of(root);
    let relc = chars_of(rel);
    if rc.len() == 0 || (relc.len() > 0 && relc[0] == '/') {
        let mut s = String::new();
        s.append(rel);
        assert(s@ =~= rel@);
        s
    } else if rc[rc.len() - 1] == '/' {
        concat(root, rel)
    } else {
        proof {
            reveal_strlit("/");
        }
        concat3(root, "/", rel)
    }
}

fn tex_path(prefix: &str, dir: &str, name: &str) -> (r: String)
    ensures
        r@ == prefix@ + dir@ + "/"@ + name@ + ".tex"@,
{
    let mut s = String::new();
    s.append(prefix);
    s.append(dir);
    s.append("/");
    s.append(name);
    s.append(".tex");
    s
}

impl Exercise {
    /// The exercise's path relative to the practice root.
    pub fn rel_path(&self) -> (r: String)
        ensures
            r@ == rel_path_spec(self.dir@, self.name@),
    {
        tex_path("exercises/", self.dir.as_str(), self.name.as_str())
    }

    /// The exercise's path under `root`.
    pub fn path(&self, root: &str) -> (r: String)
        ensures
            r@ == join_path(root@, rel_path_spec(self.dir@, self.name@)),
    {
        let rel = self.rel_path();
        join_path_exec(root, rel.as_str())
    }

    /// The reference solution's path relative to the practice root.
    pub fn solution_rel(&self) -> (r: String)
        ensures
            r@ == solution_rel_spec(self.dir@, self.name@),
    {
        tex_path("solutions/", self.dir.as_str(), self.name.as_str())
    }
}

/// Does this source text still carry the `I AM NOT DONE` marker?
pub fn text_has_marker(text: &str) -> (b: bool)
    ensures
        b == contains_sub(text@, MARKER@),
{
    let t = chars_of(text);
    let m = chars_of(MARKER);
    contains_chars(&t, &m)
}

/// The exercises listed in `info.toml`.
pub struct Info {
    pub exercises: Vec<Exercise>,
}


// ---------------------------------------------------------------------------
// progress record
// ---------------------------------------------------------------------------

/// An exercise name with the modification time (whole seconds since the
/// Unix epoch) its source had when last verified done, if one was recorded.
pub type DoneEntry = (Seq<char>, Option<u64>);

/// A position of the entry named `k`.
pub open spec fn entry_index(s: Seq<DoneEntry>, k: Seq<char>) -> int {
    choose|i: int| 0 <= i < s.len() && s[i].0 == k
}

/// The map that a sequence of entries with distinct names describes.
pub open spec fn entries_map(s: Seq<DoneEntry>) -> Map<Seq<char>, Option<u64>> {
    Map::new(
        |k: Seq<char>| exists|i: int| 0 <= i < s.len() && s[i].0 == k,
        |k: Seq<char>| s[entry_index(s, k)].1,
    )
}

/// Names strictly increasing, hence distinct.
pub open spec fn sorted_entries(s: Seq<DoneEntry>) -> bool {
    forall|i: int, j: int| 0 <= i < j < s.len() ==> seq_less(#[trigger] s[i].0, #[trigger] s[j].0)
}

pub proof fn lemma_entries_map_at(s: Seq<DoneEntry>, i: int)
    requires
        sorted_entries(s),
        0 <= i < s.len(),
    ensures
        entries_map(s).contains_key(s[i].0),
        entries_map(s)[s[i].0] == s[i].1,
{
    let k = s[i].0;
    assert(exists|j: int| 0 <= j < s.len() && s[j].0 == k);
    let j = entry_index(s, k);
    if j != i {
        if j < i {
            assert(seq_less(s[j].0, s[i].0));
        } else {
            assert(seq_less(s[i].0, s[j].0));
        }
        lemma_seq_less_irreflexive(k);
    }
}

pub proof fn lemma_entries_map_finite(s: Seq<DoneEntry>)
    requires
        sorted_entries(s),
    ensures
        entries_map(s).dom() == s.map_values(|e: DoneEntry| e.0).to_set(),
        entries_map(s).dom().finite(),
        entries_map(s).dom().len() == s.len(),
{
    let ks = s.map_values(|e: DoneEntry| e.0);
    assert forall|k: Seq<char>| entries_map(s).dom().contains(k) <==> ks.to_set().contains(k) by {
        if entries_map(s).dom().contains(k) {
            let i = choose|i: int| 0 <= i < s.len() && s[i].0 == k;
            assert(ks[i] == k);
        }
        if ks.to_set().contains(k) {
            let i = choose|i: int| 0 <= i < ks.len() && ks[i] == k;
            assert(s[i].0 == k);
        }
    }
    assert(entries_map(s).dom() =~= ks.to_set());
    assert(ks.no_duplicates()) by {
        assert forall|i: int, j: int| 0 <= i < ks.len() && 0 <= j < ks.len() && i != j implies ks[i]
            != ks[j] by {
            if i < j {
                assert(seq_less(s[i].0, s[j].0));
            } else {
                assert(seq_less(s[j].0, s[i].0));
            }
            lemma_seq_less_irreflexive(ks[i]);
        }
    }
    ks.unique_seq_to_set();
}

/// Which exercises are done, and when each one's source was last seen.
pub struct DoneState {
    entries: Vec<(String, Option<u64>)>,
}

impl DoneState {
    /// The entries, in increasing name order.
    pub closed spec fn ordered(&self) -> Seq<DoneEntry> {
        self.entries@.map_values(|e: (String, Option<u64>)| (e.0@, e.1))
    }

    /// The names are kept in strictly increasing order.
    pub open spec fn wf(&self) -> bool {
        sorted_entries(self.ordered())
    }

    /// The record, as a map from exercise name to recorded time.
    pub open spec fn view(&self) -> Map<Seq<char>, Option<u64>> {
        entries_map(self.ordered())
    }

    /// The empty record.
    pub fn new() -> (r: Self)
        ensures
            r.wf(),
            r@ == Map::<Seq<char>, Option<u64>>::empty(),
            r.ordered().len() == 0,
    {
        let r = DoneState { entries: Vec::new() };
        assert(r.ordered() =~= seq![]);
        assert(r@ =~= Map::<Seq<char>, Option<u64>>::empty());
        r
    }

    /// Where `key` is or would go: the number of names before it, and
    /// whether the name there is `key`.
    fn find(&self, key: &[char]) -> (r: (usize, bool))
        requires
            self.wf(),
        ensures
            r.0 <= self.ordered().len(),
            forall|i: int| 0 <= i < r.0 ==> seq_less(#[trigger] self.ordered()[i].0, key@),
            r.1 == (r.0 < self.ordered().len() && self.ordered()[r.0 as int].0 == key@),
            !r.1 && r.0 < self.ordered().len() ==> seq_less(key@, self.ordered()[r.0 as int].0),
    {
        let mut i: usize = 0;
        while i < self.entries.len()
            invariant
                i <= self.entries.len(),
                self.ordered().len() == self.entries.len(),
                forall|j: int| 0 <= j < i ==> seq_less(#[trigger] self.ordered()[j].0, key@),
            decreases self.entries.len() - i,
        {
            let n = chars_of(self.entries[i].0.as_str());
            assert(n@ == self.ordered()[i as int].0);
            if !chars_less(&n, key) {
                let eq = chars_eq(&n, key);
                proof {
                    if !eq {
                        lemma_seq_less_total(n@, key@);
                    }
                }
                return (i, eq);
            }
            i = i + 1;
        }
        (i, false)
    }

    /// Is `name` recorded as done?
    pub fn contains(&self, name: &str) -> (b: bool)
        requires
            self.wf(),
        ensures
            b == self@.contains_key(name@),
    {
        let key = chars_of(name);
        let (i, found) = self.find(&key);
        proof {
            if found {
                lemma_entries_map_at(self.ordered(), i as int);
            } else {
                self.lemma_absent(key@, i as int);
            }
        }
        found
    }

    proof fn lemma_absent(&self, key: Seq<char>, i: int)
        requires
            self.wf(),
            0 <= i <= self.ordered().len(),
            forall|j: int| 0 <= j < i ==> seq_less(#[trigger] self.ordered()[j].0, key),
            i < self.ordered().len() ==> seq_less(key, self.ordered()[i].0),
        ensures
            !self@.contains_key(key),
    {
        let s = self.ordered();
        assert forall|j: int| 0 <= j < s.len() implies s[j].0 != key by {
            if j < i {
                assert(seq_less(s[j].0, key));
                lemma_seq_less_irreflexive(key);
            } else {
                if j > i {
                    assert(seq_less(s[i].0, s[j].0));
                    lemma_seq_less_transitive(key, s[i].0, s[j].0);
                }
                lemma_seq_less_irreflexive(key);
            }
        }
    }

    /// The time recorded for `name`; `None` when it is not recorded or was
    /// recorded without a time.
    pub fn mtime(&self, name: &str) -> (r: Option<u64>)
        requires
            self.wf(),
        ensures
            r == (if self@.contains_key(name@) {
                self@[name@]
            } else {
                None
            }),
    {
        let key = chars_of(name);
        let (i, found) = self.find(&key);
        if found {
            proof {
                lemma_entries_map_at(self.ordered(), i as int);
            }
            self.entries[i].1
        } else {
            proof {
                self.lemma_absent(key@, i as int);
            }
            None
        }
    }

    /// Records `name` as done with `mtime`; true if it was not recorded
    /// before.
    pub fn insert(&mut self, name: String, mtime: Option<u64>) -> (is_new: bool)
        requires
            old(self).wf(),
        ensures
            final(self).wf(),
            final(self)@ == old(self)@.insert(name@, mtime),
            is_new == !old(self)@.contains_key(name@),
    {
        let key = chars_of(name.as_str());
        let (i, found) = self.find(&key);
        let ghost s0 = self.ordered();
        proof {
            if found {
                lemma_entries_map_at(s0, i as int);
            } else {
                self.lemma_absent(key@, i as int);
            }
        }
        if found {
            self.entries.set(i, (name, mtime));
            let ghost s1 = self.ordered();
            assert(s1 =~= s0.update(i as int, (key@, mtime)));
            assert(sorted_entries(s1));
            assert forall|k: Seq<char>| #[trigger] entries_map(s1).contains_key(k) == entries_map(
                s0,
            ).insert(key@, mtime).contains_key(k) by {
                if entries_map(s1).contains_key(k) {
                    let j = choose|j: int| 0 <= j < s1.len() && s1[j].0 == k;
                    if j != i {
                        assert(s0[j].0 == k);
                    }
                }
                if entries_map(s0).contains_key(k) {
                    let j = choose|j: int| 0 <= j < s0.len() && s0[j].0 == k;
                    assert(s1[j].0 == k);
                }
            }
            assert forall|k: Seq<char>| #[trigger] entries_map(s1).contains_key(k) implies entries_map(
                s1,
            )[k] == entries_map(s0).insert(key@, mtime)[k] by {
                let j = choose|j: int| 0 <= j < s1.len() && s1[j].0 == k;
                lemma_entries_map_at(s1, j);
                if j != i {
                    lemma_entries_map_at(s0, j);
                    if j < i {
                        assert(seq_less(s1[j].0, s1[i as int].0));
                    } else {
                        assert(seq_less(s1[i as int].0, s1[j].0));
                    }
                    lemma_seq_less_irreflexive(k);
                    assert(k != key@);
                } else {
                    assert(k == key@);
                }
            }
            assert(entries_map(s1) =~= entries_map(s0).insert(key@, mtime));
            false
        } else {
            self.entries.insert(i, (name, mtime));
            let ghost s1 = self.ordered();
            assert(s1 =~= s0.insert(i as int, (key@, mtime)));
            assert forall|a: int, b: int| 0 <= a < b < s1.len() implies seq_less(
                #[trigger] s1[a].0,
                #[trigger] s1[b].0,
            ) by {
                if b < i {
                    assert(s1[a] == s0[a] && s1[b] == s0[b]);
                } else if b == i {
                    assert(s1[a] == s0[a]);
                } else if a == i {
                    assert(s1[b] == s0[b - 1]);
                    if b - 1 > i {
                        assert(seq_less(s0[i as int].0, s0[b - 1].0));
                        lemma_seq_less_transitive(key@, s0[i as int].0, s0[b - 1].0);
                    }
                } else if a < i {
                    assert(s1[a] == s0[a] && s1[b] == s0[b - 1]);
                    assert(seq_less(s0[a].0, key@));
                    if b - 1 > i {
                        assert(seq_less(s0[i as int].0, s0[b - 1].0));
                        lemma_seq_less_transitive(key@, s0[i as int].0, s0[b - 1].0);
                    }
                    lemma_seq_less_transitive(s0[a].0, key@, s0[b - 1].0);
                } else {
                    assert(s1[a] == s0[a - 1] && s1[b] == s0[b - 1]);
                }
            }
            assert(sorted_entries(s1));
            assert forall|k: Seq<char>| #[trigger] entries_map(s1).contains_key(k) == entries_map(
                s0,
            ).insert(key@, mtime).contains_key(k) by {
                if entries_map(s1).contains_key(k) {
                    let j = choose|j: int| 0 <= j < s1.len() && s1[j].0 == k;
                    if j < i {
                        assert(s0[j].0 == k);
                    } else if j > i {
                        assert(s0[j - 1].0 == k);
                    }
                }
                if entries_map(s0).contains_key(k) {
                    let j = choose|j: int| 0 <= j < s0.len() && s0[j].0 == k;
                    if j < i {
                        assert(s1[j].0 == k);
                    } else {
                        assert(s1[j + 1].0 == k);
                    }
                }
                if k == key@ {
                    assert(s1[i as int].0 == k);
                }
            }
            assert forall|k: Seq<char>| #[trigger] entries_map(s1).contains_key(k) implies entries_map(
                s1,
            )[k] == entries_map(s0).insert(key@, mtime)[k] by {
                let j = choose|j: int| 0 <= j < s1.len() && s1[j].0 == k;
                lemma_entries_map_at(s1, j);
                if j < i {
                    lemma_entries_map_at(s0, j);
                } else if j > i {
                    lemma_entries_map_at(s0, j - 1);
                }
            }
            assert(entries_map(s1) =~= entries_map(s0).insert(key@, mtime));
            true
        }
    }

    /// Forgets `name`; true if it was recorded.
    pub fn remove(&mut self, name: &str) -> (was: bool)
        requires
            old(self).wf(),
        ensures
            final(self).wf(),
            final(self)@ == old(self)@.remove(name@),
            was == old(self)@.contains_key(name@),
    {
        let key = chars_of(name);
        let (i, found) = self.find(&key);
        let ghost s0 = self.ordered();
        if found {
            proof {
                lemma_entries_map_at(s0, i as int);
            }
            self.entries.remove(i);
            let ghost s1 = self.ordered();
            assert(s1 =~= s0.remove(i as int));
            assert forall|a: int, b: int| 0 <= a < b < s1.len() implies seq_less(
                #[trigger] s1[a].0,
                #[trigger] s1[b].0,
            ) by {
                if b < i {
                    assert(s1[a] == s0[a] && s1[b] == s0[b]);
                } else if a < i {
                    assert(s1[a] == s0[a] && s1[b] == s0[b + 1]);
                } else {
                    assert(s1[a] == s0[a + 1] && s1[b] == s0[b + 1]);
                }
            }
            assert(sorted_entries(s1));
            assert forall|k: Seq<char>| #[trigger] entries_map(s1).contains_key(k) == entries_map(
                s0,
            ).remove(key@).contains_key(k) by {
                if entries_map(s1).contains_key(k) {
                    let j = choose|j: int| 0 <= j < s1.len() && s1[j].0 == k;
                    if j < i {
                        assert(s0[j].0 == k);
                        assert(seq_less(s0[j].0, s0[i as int].0));
                    } else {
                        assert(s0[j + 1].0 == k);
                        assert(seq_less(s0[i as int].0, s0[j + 1].0));
                    }
                    lemma_seq_less_irreflexive(k);
                }
                if entries_map(s0).contains_key(k) && k != key@ {
                    let j = choose|j: int| 0 <= j < s0.len() && s0[j].0 == k;
                    if j < i {
                        assert(s1[j].0 == k);
                    } else {
                        assert(j != i);
                        assert(s1[j - 1].0 == k);
                    }
                }
            }
            assert forall|k: Seq<char>| #[trigger] entries_map(s1).contains_key(k) implies entries_map(
                s1,
            )[k] == entries_map(s0).remove(key@)[k] by {
                let j = choose|j: int| 0 <= j < s1.len() && s1[j].0 == k;
                lemma_entries_map_at(s1, j);
                if j < i {
                    lemma_entries_map_at(s0, j);
                } else {
                    lemma_entries_map_at(s0, j + 1);
                }
            }
            assert(entries_map(s1) =~= entries_map(s0).remove(key@));
            true
        } else {
            proof {
                self.lemma_absent(key@, i as int);
                assert(self@ =~= self@.remove(key@));
            }
            false
        }
    }

    /// How many exercises are recorded.
    pub fn len(&self) -> (n: usize)
        requires
            self.wf(),
        ensures
            n == self@.dom().len(),
            self@.dom().finite(),
    {
        proof {
            lemma_entries_map_finite(self.ordered());
        }
        self.entries.len()
    }

    /// Is nothing recorded?
    pub fn is_empty(&self) -> (b: bool)
        requires
            self.wf(),
        ensures
            b == (self@.dom().len() == 0),
            self@.dom().finite(),
    {
        proof {
            lemma_entries_map_finite(self.ordered());
        }
        self.entries.len() == 0
    }
}

impl Default for DoneState {
    fn default() -> (r: Self)
        ensures
            r.wf(),
            r@ == Map::<Seq<char>, Option<u64>>::empty(),
    {
        DoneState::new()
    }
}

/// Are `a` and `b` the same characters?
pub fn chars_eq(a: &[char], b: &[char]) -> (r: bool)
    ensures
        r == (a@ == b@),
{
    if a.len() != b.len() {
        return false;
    }
    let mut i: usize = 0;
    while i < a.len()
        invariant
            i <= a.len() == b.len(),
            forall|j: int| 0 <= j < i ==> a@[j] == b@[j],
        decreases a.len() - i,
    {
        if a[i] != b[i] {
            return false;
        }
        i = i + 1;
    }
    assert(a@ =~= b@);
    true
}


// ---------------------------------------------------------------------------
// the progress file: one exercise name per line, optionally followed by a
// tab and the whole-second modification time its source had when it was
// last verified done
// ---------------------------------------------------------------------------

/// The progress file's name inside the practice directory.
pub const STATE_FILE: &'static str = ".latexlings-state.txt";

/// The first line written to the progress file.
pub const STATE_HEADER: &'static str = "# latexlings progress — safe to delete if you want to start over\n";

/// The progress file's path under `root`.
pub fn state_path(root: &str) -> (r: String)
    ensures
        r@ == join_path(root@, STATE_FILE@),
{
    join_path_exec(root, STATE_FILE)
}

/// A point in time as plain values: its distance from the Unix epoch in
/// whole seconds and nanoseconds, and whether it lies at or after the
/// epoch (`since_epoch`) or before it.
#[derive(Clone, Copy, Debug, PartialEq, Eq, Structural)]
pub struct SysTime {
    pub since_epoch: bool,
    pub secs: u64,
    pub nanos: u32,
}

/// A time truncated to whole-second resolution, matching what the progress
/// file keeps: its whole seconds since the epoch, or the epoch itself (0)
/// for a time before it.
pub fn truncate_to_secs(t: SysTime) -> (r: u64)
    ensures
        r == (if t.since_epoch {
            t.secs
        } else {
            0
        }),
{
    if t.since_epoch {
        t.secs
    } else {
        0
    }
}

/// The first position of `c` in `t` (meaningful when `t` holds `c`).
pub open spec fn first_index_of(t: Seq<char>, c: char) -> int {
    choose|p: int| 0 <= p < t.len() && t[p] == c && forall|j: int| 0 <= j < p ==> t[j] != c
}

/// What `str::split_once(c)` returns: the text before and after the first `c`.
pub open spec fn split_once(t: Seq<char>, c: char) -> Option<(Seq<char>, Seq<char>)> {
    if t.contains(c) {
        let p = first_index_of(t, c);
        Some((t.take(p), t.skip(p + 1)))
    } else {
        None
    }
}

/// The text before and after the first `c` in `t`, if `t` holds a `c`.
pub fn split_once_chars(t: &[char], c: char) -> (r: Option<(Vec<char>, Vec<char>)>)
    ensures
        match (r, split_once(t@, c)) {
            (Some(a), Some(b)) => a.0@ == b.0 && a.1@ == b.1,
            (None, None) => true,
            _ => false,
        },
{
    let mut p: usize = 0;
    while p < t.len() && t[p] != c
        invariant
            p <= t.len(),
            forall|j: int| 0 <= j < p ==> t@[j] != c,
        decreases t.len() - p,
    {
        p = p + 1;
    }
    if p == t.len() {
        return None;
    }
    assert(t@.contains(c));
    let ghost q = first_index_of(t@, c);
    assert(q == p as int) by {
        assert(0 <= p < t@.len() && t@[p as int] == c && forall|j: int| 0 <= j < p ==> t@[j] != c);
        if q < p {
        } else if q > p {
        }
    }
    let mut a: Vec<char> = Vec::new();
    let mut i: usize = 0;
    while i < p
        invariant
            i <= p < t.len(),
            a@ == t@.take(i as int),
        decreases p - i,
    {
        a.push(t[i]);
        assert(t@.take(i as int).push(t@[i as int]) =~= t@.take(i + 1));
        i = i + 1;
    }
    let mut b: Vec<char> = Vec::new();
    let mut k: usize = p + 1;
    while k < t.len()
        invariant
            p + 1 <= k <= t.len(),
            b@ == t@.subrange(p + 1, k as int),
        decreases t.len() - k,
    {
        b.push(t[k]);
        assert(t@.subrange(p + 1, k as int).push(t@[k as int]) =~= t@.subrange(p + 1, k + 1));
        k = k + 1;
    }
    assert(b@ =~= t@.skip(p + 1));
    Some((a, b))
}

/// A line of the progress file, once trimmed, carries nothing.
pub open spec fn skipped_line(t: Seq<char>) -> bool {
    t.len() == 0 || t[0] == '#'
}

/// The entry that a trimmed progress line records.
pub open spec fn line_entry(t: Seq<char>) -> DoneEntry {
    match split_once(t, '\t') {
        Some((name, secs)) => (name, parse_u64(secs)),
        None => (t, None),
    }
}

/// The record that a sequence of progress lines describes: each line that
/// is not blank or a comment records its entry, later lines overriding
/// earlier ones.
pub open spec fn parse_state_lines(ls: Seq<Seq<char>>) -> Map<Seq<char>, Option<u64>>
    decreases ls.len(),
{
    if ls.len() == 0 {
        Map::empty()
    } else {
        let m = parse_state_lines(ls.drop_last());
        let t = trim(ls.last());
        if skipped_line(t) {
            m
        } else {
            m.insert(line_entry(t).0, line_entry(t).1)
        }
    }
}

/// A recorded modification time: whole seconds since the Unix epoch, as
/// written in the progress file; `None` when the text is not a `u64`.
fn parse_mtime_secs(s: &[char]) -> (r: Option<u64>)
    ensures
        r == parse_u64(s@),
{
    parse_u64_chars(s)
}

/// The record that the progress file's text describes.
pub open spec fn parse_state(text: Seq<char>) -> Map<Seq<char>, Option<u64>> {
    parse_state_lines(lines(text))
}

/// The progress file line of one entry.
pub open spec fn entry_line(e: DoneEntry) -> Seq<char> {
    match e.1 {
        Some(secs) => e.0 + seq!['\t'] + decimal(secs as nat) + seq!['\n'],
        None => e.0 + seq!['\n'],
    }
}

pub open spec fn entry_lines(s: Seq<DoneEntry>) -> Seq<char>
    decreases s.len(),
{
    if s.len() == 0 {
        seq![]
    } else {
        entry_lines(s.drop_last()) + entry_line(s.last())
    }
}

/// The progress file's text for the entries `s`, in that order.
pub open spec fn format_state(s: Seq<DoneEntry>) -> Seq<char> {
    STATE_HEADER@ + entry_lines(s)
}

/// The record that the progress file's text describes (what loading the
/// progress file reads).
pub fn parse_done_state(text: &str) -> (d: DoneState)
    ensures
        d.wf(),
        d@ == parse_state(text@),
{
    let tc = chars_of(text);
    let ls = lines_of(&tc);
    let mut d = DoneState::new();
    let mut i: usize = 0;
    while i < ls.len()
        invariant
            i <= ls.len(),
            views(ls@) == lines(text@),
            d.wf(),
            d@ == parse_state_lines(views(ls@).take(i as int)),
        decreases ls.len() - i,
    {
        let ghost pre = views(ls@).take(i as int);
        assert(views(ls@).take(i + 1).drop_last() =~= pre);
        assert(views(ls@).take(i + 1).last() == ls@[i as int]@);
        let t = trim_chars(&ls[i]);
        if t.len() == 0 || t[0] == '#' {
        } else {
            match split_once_chars(&t, '\t') {
                Some((name, secs)) => {
                    let m = parse_mtime_secs(&secs);
                    d.insert(string_of(&name), m);
                },
                None => {
                    d.insert(string_of(&t), None);
                },
            }
        }
        i = i + 1;
    }
    assert(views(ls@).take(ls.len() as int) =~= views(ls@));
    d
}

/// The progress file's text for `done` (what saving the progress file
/// writes): the header, then one line per entry in increasing name order.
pub fn format_done_state(done: &DoneState) -> (r: String)
    requires
        done.wf(),
    ensures
        r@ == format_state(done.ordered()),
{
    let mut out = String::new();
    out.append(STATE_HEADER);
    let mut i: usize = 0;
    while i < done.entries.len()
        invariant
            i <= done.entries.len(),
            done.ordered().len() == done.entries.len(),
            out@ == STATE_HEADER@ + entry_lines(done.ordered().take(i as int)),
        decreases done.entries.len() - i,
    {
        let ghost pre = done.ordered().take(i as int);
        assert(done.ordered().take(i + 1).drop_last() =~= pre);
        let e = &done.entries[i];
        assert(done.ordered()[i as int] == (e.0@, e.1));
        out.append(e.0.as_str());
        match e.1 {
            Some(secs) => {
                out.append("\t");
                let dec = decimal_string(secs);
                out.append(dec.as_str());
                out.append("\n");
                proof {
                    reveal_strlit("\t");
                    reveal_strlit("\n");
                }
            },
            None => {
                out.append("\n");
                proof {
                    reveal_strlit("\n");
                }
            },
        }
        assert(out@ =~= STATE_HEADER@ + entry_lines(done.ordered().take(i + 1)));
        i = i + 1;
    }
    assert(done.ordered().take(done.entries.len() as int) =~= done.ordered());
    out
}


/// A name that fits on one progress line and reads back unchanged:
/// non-empty, not starting with `#`, without surrounding whitespace, and
/// holding no tab or line break.
pub open spec fn storable_name(n: Seq<char>) -> bool {
    &&& n.len() > 0
    &&& n[0] != '#'
    &&& !is_ws(n[0])
    &&& !is_ws(n.last())
    &&& !n.contains('\n')
    &&& !n.contains('\t')
}

/// An entry's line without its line break.
pub open spec fn entry_text(e: DoneEntry) -> Seq<char> {
    match e.1 {
        Some(secs) => e.0 + seq!['\t'] + decimal(secs as nat),
        None => e.0,
    }
}

proof fn lemma_header()
    ensures
        STATE_HEADER@ == STATE_HEADER@.drop_last() + seq!['\n'],
        !STATE_HEADER@.drop_last().contains('\n'),
        STATE_HEADER@.drop_last().len() > 0,
        STATE_HEADER@.drop_last()[0] == '#',
        !is_ws(STATE_HEADER@.drop_last().last()),
        STATE_HEADER@.drop_last().last() != '\r',
{
    reveal_strlit("# latexlings progress — safe to delete if you want to start over\n");
    let h = STATE_HEADER@.drop_last();
    assert(STATE_HEADER@ =~= h + seq!['\n']);
    assert forall|i: int| 0 <= i < h.len() implies h[i] != '\n' by {}
}

proof fn lemma_entry_text(e: DoneEntry)
    requires
        storable_name(e.0),
    ensures
        entry_line(e) == entry_text(e) + seq!['\n'],
        !entry_text(e).contains('\n'),
        entry_text(e).len() > 0,
        entry_text(e)[0] == e.0[0],
        !is_ws(entry_text(e).last()),
        entry_text(e).last() != '\r',
        trim(entry_text(e)) == entry_text(e),
        !skipped_line(entry_text(e)),
        line_entry(entry_text(e)) == e,
{
    let t = entry_text(e);
    let n = e.0;
    match e.1 {
        Some(secs) => {
            let d = decimal(secs as nat);
            lemma_decimal_digits(secs as nat);
            lemma_parse_decimal(secs);
            assert(entry_line(e) =~= t + seq!['\n']);
            assert(t.last() == d.last());
            assert(is_digit(d[d.len() - 1]));
            assert(!t.contains('\n')) by {
                if t.contains('\n') {
                    let i = choose|i: int| 0 <= i < t.len() && t[i] == '\n';
                    if i < n.len() {
                        assert(n[i] == '\n');
                    } else if i > n.len() {
                        assert(d[i - n.len() - 1] == '\n');
                        assert(is_digit(d[i - n.len() - 1]));
                    }
                }
            }
            assert(t[0] == n[0]);
            lemma_trim_noop(t);
            assert(t.contains('\t')) by {
                assert(t[n.len() as int] == '\t');
            }
            let p = first_index_of(t, '\t');
            assert(0 <= n.len() < t.len() && t[n.len() as int] == '\t' && forall|j: int|
                0 <= j < n.len() ==> t[j] != '\t') by {
                assert forall|j: int| 0 <= j < n.len() implies t[j] != '\t' by {
                    assert(t[j] == n[j]);
                }
            }
            assert(p == n.len()) by {
                if p < n.len() {
                    assert(t[p] == n[p]);
                } else if p > n.len() {
                }
            }
            assert(t.take(p) =~= n);
            assert(t.skip(p + 1) =~= d);
        },
        None => {
            assert(entry_line(e) =~= t + seq!['\n']);
            lemma_trim_noop(t);
        },
    }
}

/// Adding an entry after all others adds it to the map.
proof fn lemma_entries_map_push(s: Seq<DoneEntry>, e: DoneEntry)
    requires
        sorted_entries(s.push(e)),
    ensures
        sorted_entries(s),
        entries_map(s.push(e)) == entries_map(s).insert(e.0, e.1),
{
    let t = s.push(e);
    assert forall|i: int, j: int| 0 <= i < j < s.len() implies seq_less(
        #[trigger] s[i].0,
        #[trigger] s[j].0,
    ) by {
        assert(t[i] == s[i] && t[j] == s[j]);
    }
    assert forall|k: Seq<char>| #[trigger] entries_map(t).contains_key(k) == entries_map(s).insert(
        e.0,
        e.1,
    ).contains_key(k) by {
        if entries_map(t).contains_key(k) {
            let j = choose|j: int| 0 <= j < t.len() && t[j].0 == k;
            if j < s.len() {
                assert(s[j].0 == k);
            }
        }
        if entries_map(s).contains_key(k) {
            let j = choose|j: int| 0 <= j < s.len() && s[j].0 == k;
            assert(t[j].0 == k);
        }
        if k == e.0 {
            assert(t[s.len() as int].0 == k);
        }
    }
    assert forall|k: Seq<char>| #[trigger] entries_map(t).contains_key(k) implies entries_map(t)[k]
        == entries_map(s).insert(e.0, e.1)[k] by {
        let j = choose|j: int| 0 <= j < t.len() && t[j].0 == k;
        lemma_entries_map_at(t, j);
        if j < s.len() {
            lemma_entries_map_at(s, j);
            assert(seq_less(t[j].0, t[s.len() as int].0));
            lemma_seq_less_irreflexive(k);
        }
    }
    assert(entries_map(t) =~= entries_map(s).insert(e.0, e.1));
}

proof fn lemma_format_parse_empty(s: Seq<DoneEntry>)
    requires
        s.len() == 0,
    ensures
        format_state(s).len() > 0,
        format_state(s).last() == '\n',
        parse_state(format_state(s)) == entries_map(s),
{
    lemma_header();
    let h = STATE_HEADER@.drop_last();
    assert(format_state(s) =~= STATE_HEADER@);
    lemma_lines_single(h, seq![]);
    assert(seq![] + h =~= h);
    let ls = lines(format_state(s));
    assert(ls =~= seq![h]);
    assert(ls.drop_last() =~= seq![]);
    lemma_trim_noop(h);
    assert(parse_state_lines(ls.drop_last()) == Map::<Seq<char>, Option<u64>>::empty());
    assert(skipped_line(trim(ls.last())));
    assert(parse_state_lines(ls) == parse_state_lines(ls.drop_last()));
    assert(entries_map(s) =~= Map::empty());
}

#[verifier::spinoff_prover]
proof fn lemma_format_parse_push(s1: Seq<DoneEntry>, e: DoneEntry)
    requires
        storable_name(e.0),
        format_state(s1).len() > 0,
        format_state(s1).last() == '\n',
        parse_state(format_state(s1)) == entries_map(s1),
    ensures
        format_state(s1.push(e)).len() > 0,
        format_state(s1.push(e)).last() == '\n',
        parse_state(format_state(s1.push(e))) == entries_map(s1).insert(e.0, e.1),
{
    let s = s1.push(e);
    lemma_entry_text(e);
    let x = format_state(s1);
    let t = entry_text(e);
    assert(s.drop_last() =~= s1);
    assert(format_state(s) =~= x + entry_line(e));
    lemma_lines_concat(x, entry_line(e), seq![]);
    lemma_lines_single(t, seq![]);
    assert(seq![] + t =~= t);
    let ls = lines(format_state(s));
    assert(ls =~= lines(x).push(t));
    assert(ls.drop_last() =~= lines(x));
    assert(ls.last() == t);
    assert(parse_state_lines(ls) == parse_state_lines(lines(x)).insert(e.0, e.1));
}

proof fn lemma_format_parse(s: Seq<DoneEntry>)
    requires
        sorted_entries(s),
        forall|i: int| 0 <= i < s.len() ==> storable_name(#[trigger] s[i].0),
    ensures
        format_state(s).len() > 0,
        format_state(s).last() == '\n',
        parse_state(format_state(s)) == entries_map(s),
    decreases s.len(),
{
    if s.len() == 0 {
        lemma_format_parse_empty(s);
    } else {
        let s1 = s.drop_last();
        let e = s.last();
        assert(s1.push(e) =~= s);
        lemma_entries_map_push(s1, e);
        assert forall|i: int| 0 <= i < s1.len() implies storable_name(#[trigger] s1[i].0) by {
            assert(s1[i] == s[i]);
        }
        lemma_format_parse(s1);
        assert(storable_name(s[s.len() - 1].0));
        lemma_format_parse_push(s1, e);
    }
}

/// Saving the record and loading it back gives the same record, whenever
/// every recorded name fits on one progress line (see `storable_name`).
pub proof fn lemma_done_round_trip(d: &DoneState)
    requires
        d.wf(),
        forall|k: Seq<char>| d@.contains_key(k) ==> storable_name(k),
    ensures
        parse_state(format_state(d.ordered())) == d@,
{
    let s = d.ordered();
    assert forall|i: int| 0 <= i < s.len() implies storable_name(#[trigger] s[i].0) by {
        lemma_entries_map_at(s, i);
    }
    lemma_format_parse(s);
}


// ---------------------------------------------------------------------------
// info.toml and the practice directory
// ---------------------------------------------------------------------------

/// Exercise `j`'s name was already used by an earlier exercise.
pub open spec fn repeats_earlier(exs: Seq<Exercise>, j: int) -> bool {
    exists|i: int| 0 <= i < j && exs[i].name@ == exs[j].name@
}

/// No two exercises share a name.
pub open spec fn names_unique(exs: Seq<Exercise>) -> bool {
    forall|j: int| 0 <= j < exs.len() ==> !repeats_earlier(exs, j)
}

/// The first exercise whose name repeats an earlier one (meaningful when
/// names are not unique).
pub open spec fn first_repeat(exs: Seq<Exercise>) -> int {
    choose|j: int|
        0 <= j < exs.len() && repeats_earlier(exs, j) && forall|k: int|
            0 <= k < j ==> !repeats_earlier(exs, k)
}

fn repeats_earlier_exec(exercises: &Vec<Exercise>, j: usize) -> (b: bool)
    requires
        j < exercises.len(),
    ensures
        b == repeats_earlier(exercises@, j as int),
{
    let nj = chars_of(exercises[j].name.as_str());
    let mut i: usize = 0;
    while i < j
        invariant
            i <= j < exercises.len(),
            nj@ == exercises@[j as int].name@,
            forall|k: int| 0 <= k < i ==> exercises@[k].name@ != exercises@[j as int].name@,
        decreases j - i,
    {
        let ni = chars_of(exercises[i].name.as_str());
        if chars_eq(&ni, &nj) {
            return true;
        }
        i = i + 1;
    }
    false
}

proof fn lemma_first_repeat(exs: Seq<Exercise>, j: int)
    requires
        0 <= j < exs.len(),
        repeats_earlier(exs, j),
        forall|k: int| 0 <= k < j ==> !repeats_earlier(exs, k),
    ensures
        first_repeat(exs) == j,
{
    let f = first_repeat(exs);
    assert(0 <= j < exs.len() && repeats_earlier(exs, j) && forall|k: int|
        0 <= k < j ==> !repeats_earlier(exs, k));
    if f < j {
    } else if f > j {
    }
}

/// `info.toml` must not list two exercises under one name: the error names
/// the first name that comes a second time.
pub fn check_unique_names(exercises: &Vec<Exercise>) -> (r: Result<(), String>)
    ensures
        r is Ok <==> names_unique(exercises@),
        r matches Err(m) ==> m@ == "duplicate exercise name in info.toml: "@ + exercises@[first_repeat(
            exercises@,
        )].name@,
{
    let mut j: usize = 0;
    while j < exercises.len()
        invariant
            j <= exercises.len(),
            forall|k: int| 0 <= k < j ==> !repeats_earlier(exercises@, k),
        decreases exercises.len() - j,
    {
        if repeats_earlier_exec(exercises, j) {
            proof {
                lemma_first_repeat(exercises@, j as int);
            }
            let mut m = String::from_str("duplicate exercise name in info.toml: ");
            m.append(exercises[j].name.as_str());
            return Err(m);
        }
        j = j + 1;
    }
    Ok(())
}

/// A practice directory (made by `init`) or the development checkout: it
/// has an `exercises` directory, and a `.latexlings-root` marker file or an
/// `info.toml`.
pub fn is_practice_root(has_exercises_dir: bool, has_root_marker: bool, has_info_toml: bool) -> (b: bool)
    ensures
        b == (has_exercises_dir && (has_root_marker || has_info_toml)),
{
    has_exercises_dir && (has_root_marker || has_info_toml)
}

/// What is reported when no practice directory encloses the current one.
pub const NOT_IN_ROOT: &'static str = "not inside a latexlings directory.\nRun `latexlings init`, then `cd latexlings` and try again.";

} // verus!
