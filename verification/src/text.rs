//! Character-sequence helpers shared by the rest of the library: line and
//! word splitting, trimming, substring search, decimal numbers, joining.

use vstd::prelude::*;

verus! {

// ---------------------------------------------------------------------------
// specifications
// ---------------------------------------------------------------------------

/// Unicode `White_Space`, the class that `char::is_whitespace` tests.
pub open spec fn is_ws(c: char) -> bool {
    ||| ('\u{9}' <= c && c <= '\u{d}')
    ||| c == ' '
    ||| c == '\u{85}'
    ||| c == '\u{a0}'
    ||| c == '\u{1680}'
    ||| ('\u{2000}' <= c && c <= '\u{200a}')
    ||| c == '\u{2028}'
    ||| c == '\u{2029}'
    ||| c == '\u{202f}'
    ||| c == '\u{205f}'
    ||| c == '\u{3000}'
}

pub open spec fn starts_with(s: Seq<char>, p: Seq<char>) -> bool {
    p.len() <= s.len() && s.take(p.len() as int) == p
}

pub open spec fn ends_with(s: Seq<char>, p: Seq<char>) -> bool {
    p.len() <= s.len() && s.skip(s.len() - p.len()) == p
}

/// `n` occurs in `h` starting at position `i`.
pub open spec fn occurs_at(h: Seq<char>, n: Seq<char>, i: int) -> bool {
    0 <= i && i + n.len() <= h.len() && h.subrange(i, i + n.len()) == n
}

/// `n` occurs somewhere in `h` (the empty sequence occurs everywhere).
pub open spec fn contains_sub(h: Seq<char>, n: Seq<char>) -> bool {
    exists|i: int| occurs_at(h, n, i)
}

/// A line without the `'\r'` that ends it, when it has one.
pub open spec fn strip_cr(l: Seq<char>) -> Seq<char> {
    if l.len() > 0 && l.last() == '\r' {
        l.drop_last()
    } else {
        l
    }
}

/// The lines of `cur + s`: split after each `'\n'`, the `'\n'` and a `'\r'`
/// before it dropped; no empty line after a final `'\n'`.
pub open spec fn lines_from(s: Seq<char>, cur: Seq<char>) -> Seq<Seq<char>>
    decreases s.len(),
{
    if s.len() == 0 {
        if cur.len() == 0 {
            seq![]
        } else {
            seq![cur]
        }
    } else if s[0] == '\n' {
        seq![strip_cr(cur)] + lines_from(s.drop_first(), seq![])
    } else {
        lines_from(s.drop_first(), cur.push(s[0]))
    }
}

/// What `str::lines` yields.
pub open spec fn lines(s: Seq<char>) -> Seq<Seq<char>> {
    lines_from(s, seq![])
}

/// The maximal runs of non-whitespace characters of `cur + s`.
pub open spec fn words_from(s: Seq<char>, cur: Seq<char>) -> Seq<Seq<char>>
    decreases s.len(),
{
    if s.len() == 0 {
        if cur.len() == 0 {
            seq![]
        } else {
            seq![cur]
        }
    } else if is_ws(s[0]) {
        (if cur.len() == 0 {
            seq![]
        } else {
            seq![cur]
        }) + words_from(s.drop_first(), seq![])
    } else {
        words_from(s.drop_first(), cur.push(s[0]))
    }
}

/// What `str::split_whitespace` yields.
pub open spec fn words(s: Seq<char>) -> Seq<Seq<char>> {
    words_from(s, seq![])
}

pub open spec fn trim_start(s: Seq<char>) -> Seq<char>
    decreases s.len(),
{
    if s.len() > 0 && is_ws(s[0]) {
        trim_start(s.drop_first())
    } else {
        s
    }
}

pub open spec fn trim_end(s: Seq<char>) -> Seq<char>
    decreases s.len(),
{
    if s.len() > 0 && is_ws(s.last()) {
        trim_end(s.drop_last())
    } else {
        s
    }
}

/// What `str::trim` returns.
pub open spec fn trim(s: Seq<char>) -> Seq<char> {
    trim_end(trim_start(s))
}

/// The elements of `list` with `sep` between each two.
pub open spec fn join(list: Seq<Seq<char>>, sep: Seq<char>) -> Seq<char>
    decreases list.len(),
{
    if list.len() == 0 {
        seq![]
    } else if list.len() == 1 {
        list[0]
    } else {
        join(list.drop_last(), sep) + sep + list.last()
    }
}

pub open spec fn is_digit(c: char) -> bool {
    '0' <= c && c <= '9'
}

pub open spec fn digit_value(c: char) -> int {
    (c as int) - ('0' as int)
}

pub open spec fn digit_char(d: int) -> char {
    if d == 0 {
        '0'
    } else if d == 1 {
        '1'
    } else if d == 2 {
        '2'
    } else if d == 3 {
        '3'
    } else if d == 4 {
        '4'
    } else if d == 5 {
        '5'
    } else if d == 6 {
        '6'
    } else if d == 7 {
        '7'
    } else if d == 8 {
        '8'
    } else {
        '9'
    }
}

/// The decimal digits of `n`, without leading zeros.
pub open spec fn decimal(n: nat) -> Seq<char>
    decreases n,
{
    if n < 10 {
        seq![digit_char(n as int)]
    } else {
        decimal(n / 10).push(digit_char((n % 10) as int))
    }
}

pub open spec fn all_digits(s: Seq<char>) -> bool {
    forall|i: int| 0 <= i < s.len() ==> is_digit(#[trigger] s[i])
}

/// The number that a sequence of decimal digits denotes.
pub open spec fn digits_value(s: Seq<char>) -> nat
    decreases s.len(),
{
    if s.len() == 0 {
        0
    } else {
        (digits_value(s.drop_last()) * 10 + digit_value(s.last())) as nat
    }
}

/// What `str::parse::<u64>` gives: an optional `'+'`, then one or more
/// ASCII digits whose value fits in 64 bits.
pub open spec fn parse_u64(s: Seq<char>) -> Option<u64> {
    let d = if s.len() > 0 && s[0] == '+' {
        s.drop_first()
    } else {
        s
    };
    if d.len() > 0 && all_digits(d) && digits_value(d) <= u64::MAX {
        Some(digits_value(d) as u64)
    } else {
        None
    }
}

/// Lexicographic order by code point, the order of `str`'s `<`.
pub open spec fn seq_less(a: Seq<char>, b: Seq<char>) -> bool
    decreases a.len(),
{
    if b.len() == 0 {
        false
    } else if a.len() == 0 {
        true
    } else if a[0] != b[0] {
        a[0] < b[0]
    } else {
        seq_less(a.drop_first(), b.drop_first())
    }
}

// ---------------------------------------------------------------------------
// lemmas
// ---------------------------------------------------------------------------

pub proof fn lemma_seq_less_irreflexive(a: Seq<char>)
    ensures
        !seq_less(a, a),
    decreases a.len(),
{
    if a.len() > 0 {
        lemma_seq_less_irreflexive(a.drop_first());
    }
}

pub proof fn lemma_seq_less_transitive(a: Seq<char>, b: Seq<char>, c: Seq<char>)
    requires
        seq_less(a, b),
        seq_less(b, c),
    ensures
        seq_less(a, c),
    decreases a.len(),
{
    if a.len() > 0 && b.len() > 0 && c.len() > 0 && a[0] == b[0] && b[0] == c[0] {
        lemma_seq_less_transitive(a.drop_first(), b.drop_first(), c.drop_first());
    }
}

pub proof fn lemma_seq_less_total(a: Seq<char>, b: Seq<char>)
    ensures
        a == b || seq_less(a, b) || seq_less(b, a),
    decreases a.len(),
{
    if a.len() > 0 && b.len() > 0 && a[0] == b[0] {
        lemma_seq_less_total(a.drop_first(), b.drop_first());
        if a.drop_first() == b.drop_first() {
            assert(a =~= seq![a[0]] + a.drop_first());
            assert(b =~= seq![b[0]] + b.drop_first());
        }
    } else if a.len() == 0 && b.len() == 0 {
        assert(a =~= b);
    }
}

/// Splitting a text whose first part ends a line splits each part alone.
pub proof fn lemma_lines_concat(x: Seq<char>, y: Seq<char>, cur: Seq<char>)
    requires
        (x.len() == 0 && cur.len() == 0) || (x.len() > 0 && x.last() == '\n'),
    ensures
        lines_from(x + y, cur) == lines_from(x, cur) + lines_from(y, seq![]),
    decreases x.len(),
{
    if x.len() == 0 {
        assert(cur =~= seq![]);
        assert(x + y =~= y);
        assert(lines_from(x, cur) =~= seq![]);
        assert(lines_from(x, cur) + lines_from(y, seq![]) =~= lines_from(y, seq![]));
    } else {
        assert((x + y).drop_first() =~= x.drop_first() + y);
        assert((x + y)[0] == x[0]);
        if x[0] == '\n' {
            let x1 = x.drop_first();
            if x1.len() == 0 {
                assert(x1 + y =~= y);
                assert(lines_from(x1, seq![]) =~= seq![]);
                assert(lines_from(x, cur) =~= seq![strip_cr(cur)]);
                assert(lines_from(x + y, cur) =~= seq![strip_cr(cur)] + lines_from(y, seq![]));
            } else {
                assert(x1.last() == x.last());
                lemma_lines_concat(x1, y, seq![]);
                assert(lines_from(x + y, cur) == seq![strip_cr(cur)] + lines_from(x1 + y, seq![]));
                assert(lines_from(x, cur) == seq![strip_cr(cur)] + lines_from(x1, seq![]));
                assert(lines_from(x + y, cur) =~= lines_from(x, cur) + lines_from(y, seq![]));
            }
        } else {
            let x1 = x.drop_first();
            assert(x1.len() > 0);
            assert(x1.last() == x.last());
            lemma_lines_concat(x1, y, cur.push(x[0]));
            assert(lines_from(x + y, cur) == lines_from(x1 + y, cur.push(x[0])));
            assert(lines_from(x, cur) == lines_from(x1, cur.push(x[0])));
        }
    }
}

/// A text of one line with its line break.
pub proof fn lemma_lines_single(a: Seq<char>, cur: Seq<char>)
    requires
        !a.contains('\n'),
    ensures
        lines_from(a + seq!['\n'], cur) == seq![strip_cr(cur + a)],
    decreases a.len(),
{
    let t = a + seq!['\n'];
    if a.len() == 0 {
        assert(t =~= seq!['\n']);
        assert(t.drop_first() =~= seq![]);
        assert(cur + a =~= cur);
        assert(lines_from(seq![], seq![]) =~= seq![]);
        assert(lines_from(t, cur) =~= seq![strip_cr(cur)]);
    } else {
        assert(t[0] == a[0]);
        assert(a[0] != '\n');
        let a1 = a.drop_first();
        assert(t.drop_first() =~= a1 + seq!['\n']);
        assert(!a1.contains('\n')) by {
            if a1.contains('\n') {
                let i = choose|i: int| 0 <= i < a1.len() && a1[i] == '\n';
                assert(a[i + 1] == '\n');
            }
        }
        lemma_lines_single(a1, cur.push(a[0]));
        assert(cur.push(a[0]) + a1 =~= cur + a);
    }
}

/// Trimming leaves a text that starts and ends with non-whitespace alone.
pub proof fn lemma_trim_noop(t: Seq<char>)
    requires
        t.len() > 0,
        !is_ws(t[0]),
        !is_ws(t.last()),
    ensures
        trim(t) == t,
{
}

/// The decimal digits of a number denote it.
pub proof fn lemma_decimal_digits(n: nat)
    ensures
        decimal(n).len() > 0,
        all_digits(decimal(n)),
        digits_value(decimal(n)) == n,
    decreases n,
{
    if n < 10 {
        let d = decimal(n);
        assert(d == seq![digit_char(n as int)]);
        assert(d.drop_last() =~= seq![]);
        assert(digits_value(d.drop_last()) == 0);
        assert(digit_value(digit_char(n as int)) == n);
        assert(digits_value(d) == digits_value(d.drop_last()) * 10 + digit_value(d.last()));
    } else {
        lemma_decimal_digits(n / 10);
        let d = decimal(n);
        assert(d.drop_last() =~= decimal(n / 10));
        assert(d.last() == digit_char((n % 10) as int));
        assert(digit_value(digit_char((n % 10) as int)) == n % 10);
        assert((n / 10) * 10 + n % 10 == n) by (nonlinear_arith);
        assert(digits_value(d) == digits_value(d.drop_last()) * 10 + digit_value(d.last()));
    }
}

/// Parsing a number's decimal digits gives the number back.
pub proof fn lemma_parse_decimal(n: u64)
    ensures
        parse_u64(decimal(n as nat)) == Some(n),
{
    lemma_decimal_digits(n as nat);
    let d = decimal(n as nat);
    assert(is_digit(d[0]));
}

// ---------------------------------------------------------------------------
// executable helpers
// ---------------------------------------------------------------------------

/// Appends one character to a string.
///
/// Trusted: `String::push`, which appends `c` at the end of the string.
#[verifier::external_body]
pub(crate) fn push_char(s: &mut String, c: char)
    ensures
        final(s)@ == old(s)@.push(c),
{
    s.push(c);
}

/// The characters of `s`, in order.
pub fn chars_of(s: &str) -> (v: Vec<char>)
    ensures
        v@ == s@,
{
    let mut v: Vec<char> = Vec::new();
    for c in it: s.chars()
        invariant
            v@ == it.seq().take(it.index() as int),
            it.seq() == s@,
    {
        v.push(c);
    }
    v
}

/// A string holding exactly the characters of `v`.
pub fn string_of(v: &[char]) -> (s: String)
    ensures
        s@ == v@,
{
    let mut s = String::new();
    let mut i: usize = 0;
    while i < v.len()
        invariant
            i <= v.len(),
            s@ == v@.take(i as int),
        decreases v.len() - i,
    {
        push_char(&mut s, v[i]);
        assert(v@.take(i as int).push(v@[i as int]) =~= v@.take(i + 1));
        i = i + 1;
    }
    assert(v@.take(v.len() as int) =~= v@);
    s
}

/// `a` followed by `b`.
pub fn concat(a: &str, b: &str) -> (s: String)
    ensures
        s@ == a@ + b@,
{
    let mut s = String::new();
    s.append(a);
    s.append(b);
    s
}

/// `a`, `b` and `c` one after the other.
pub fn concat3(a: &str, b: &str, c: &str) -> (s: String)
    ensures
        s@ == a@ + b@ + c@,
{
    let mut s = String::new();
    s.append(a);
    s.append(b);
    s.append(c);
    s
}

pub fn is_ws_char(c: char) -> (b: bool)
    ensures
        b == is_ws(c),
{
    ('\u{9}' <= c && c <= '\u{d}') || c == ' ' || c == '\u{85}' || c == '\u{a0}' || c
        == '\u{1680}' || ('\u{2000}' <= c && c <= '\u{200a}') || c == '\u{2028}' || c
        == '\u{2029}' || c == '\u{202f}' || c == '\u{205f}' || c == '\u{3000}'
}

/// Does `n` occur in `h` at position `i`?
pub fn occurs_at_exec(h: &[char], n: &[char], i: usize) -> (b: bool)
    ensures
        b == occurs_at(h@, n@, i as int),
{
    if i > h.len() || n.len() > h.len() - i {
        return false;
    }
    let mut k: usize = 0;
    while k < n.len()
        invariant
            i + n.len() <= h.len(),
            k <= n.len(),
            forall|j: int| 0 <= j < k ==> h@[i + j] == n@[j],
        decreases n.len() - k,
    {
        if h[i + k] != n[k] {
            assert(h@.subrange(i as int, i + n.len())[k as int] != n@[k as int]);
            return false;
        }
        k = k + 1;
    }
    assert(h@.subrange(i as int, i + n.len()) =~= n@);
    true
}

/// Does `n` occur anywhere in `h`?
pub fn contains_chars(h: &[char], n: &[char]) -> (b: bool)
    ensures
        b == contains_sub(h@, n@),
{
    if n.len() > h.len() {
        assert forall|i: int| !occurs_at(h@, n@, i) by {}
        return false;
    }
    if n.len() == 0 {
        assert(h@.subrange(0, 0) =~= n@);
        assert(occurs_at(h@, n@, 0));
        return true;
    }
    let mut i: usize = 0;
    while i <= h.len() - n.len()
        invariant
            0 < n.len() <= h.len(),
            i <= h.len() - n.len() + 1,
            forall|j: int| 0 <= j < i ==> !occurs_at(h@, n@, j),
        decreases h.len() - n.len() + 1 - i,
    {
        if occurs_at_exec(h, n, i) {
            return true;
        }
        i = i + 1;
    }
    assert forall|j: int| !occurs_at(h@, n@, j) by {
        if 0 <= j < i {
        }
    }
    false
}

/// Does `s` start with `p`?
pub fn starts_with_chars(s: &[char], p: &[char]) -> (b: bool)
    ensures
        b == starts_with(s@, p@),
{
    let r = occurs_at_exec(s, p, 0);
    proof {
        if p@.len() <= s@.len() {
            assert(s@.take(p@.len() as int) =~= s@.subrange(0, p@.len() as int));
        }
    }
    r
}

/// Does `s` end with `p`?
pub fn ends_with_chars(s: &[char], p: &[char]) -> (b: bool)
    ensures
        b == ends_with(s@, p@),
{
    if p.len() > s.len() {
        return false;
    }
    let r = occurs_at_exec(s, p, s.len() - p.len());
    assert(s@.skip(s@.len() - p@.len()) =~= s@.subrange(s@.len() - p@.len(), s@.len() as int));
    r
}


/// The views of a sequence of character vectors.
pub open spec fn views(v: Seq<Vec<char>>) -> Seq<Seq<char>> {
    v.map_values(|x: Vec<char>| x@)
}

/// The views of a sequence of strings.
pub open spec fn string_views(v: Seq<String>) -> Seq<Seq<char>> {
    v.map_values(|x: String| x@)
}

proof fn lemma_views_push(v: Seq<Vec<char>>, x: Vec<char>)
    ensures
        views(v.push(x)) == views(v).push(x@),
{
    assert(views(v.push(x)) =~= views(v).push(x@));
}

/// What `str::lines` yields for `s`.
pub fn lines_of(s: &[char]) -> (out: Vec<Vec<char>>)
    ensures
        views(out@) == lines(s@),
{
    let mut out: Vec<Vec<char>> = Vec::new();
    let mut cur: Vec<char> = Vec::new();
    let mut i: usize = 0;
    assert(s@.skip(0) =~= s@);
    while i < s.len()
        invariant
            i <= s.len(),
            lines(s@) == views(out@) + lines_from(s@.skip(i as int), cur@),
        decreases s.len() - i,
    {
        assert(s@.skip(i as int).drop_first() =~= s@.skip(i + 1));
        let c = s[i];
        if c == '\n' {
            let mut line = cur;
            if line.len() > 0 && line[line.len() - 1] == '\r' {
                line.pop();
            }
            assert(line@ == strip_cr(cur@)) by {
                if cur@.len() > 0 && cur@.last() == '\r' {
                    assert(line@ =~= cur@.drop_last());
                }
            }
            proof {
                lemma_views_push(out@, line);
            }
            let ghost prev = views(out@);
            let ghost linev = line@;
            out.push(line);
            assert(views(out@) + lines_from(s@.skip(i + 1), seq![]) =~= prev + (seq![linev]
                + lines_from(s@.skip(i + 1), seq![])));
            cur = Vec::new();
        } else {
            cur.push(c);
        }
        i = i + 1;
    }
    if cur.len() > 0 {
        proof {
            lemma_views_push(out@, cur);
        }
        out.push(cur);
    }
    assert(views(out@) =~= lines(s@));
    out
}

/// What `str::split_whitespace` yields for `s`.
pub fn words_of(s: &[char]) -> (out: Vec<Vec<char>>)
    ensures
        views(out@) == words(s@),
{
    let mut out: Vec<Vec<char>> = Vec::new();
    let mut cur: Vec<char> = Vec::new();
    let mut i: usize = 0;
    assert(s@.skip(0) =~= s@);
    while i < s.len()
        invariant
            i <= s.len(),
            words(s@) == views(out@) + words_from(s@.skip(i as int), cur@),
        decreases s.len() - i,
    {
        assert(s@.skip(i as int).drop_first() =~= s@.skip(i + 1));
        let c = s[i];
        if is_ws_char(c) {
            if cur.len() > 0 {
                proof {
                    lemma_views_push(out@, cur);
                }
                let ghost prev = views(out@);
                let ghost curv = cur@;
                out.push(cur);
                assert(views(out@) + words_from(s@.skip(i + 1), seq![]) =~= prev + (seq![curv]
                    + words_from(s@.skip(i + 1), seq![])));
            } else {
                assert(views(out@) + words_from(s@.skip(i + 1), seq![]) =~= views(out@) + (
                seq![] + words_from(s@.skip(i + 1), seq![])));
            }
            cur = Vec::new();
        } else {
            cur.push(c);
        }
        i = i + 1;
    }
    if cur.len() > 0 {
        proof {
            lemma_views_push(out@, cur);
        }
        out.push(cur);
    }
    assert(views(out@) =~= words(s@));
    out
}

/// What `str::trim` returns for `s`.
pub fn trim_chars(s: &[char]) -> (out: Vec<char>)
    ensures
        out@ == trim(s@),
{
    let mut a: usize = 0;
    assert(s@.skip(0) =~= s@);
    while a < s.len() && is_ws_char(s[a])
        invariant
            a <= s.len(),
            trim_start(s@) == trim_start(s@.skip(a as int)),
        decreases s.len() - a,
    {
        assert(s@.skip(a as int).drop_first() =~= s@.skip(a + 1));
        a = a + 1;
    }
    let mut b: usize = s.len();
    let ghost t = s@.skip(a as int);
    assert(trim_start(s@) == t);
    while b > a && is_ws_char(s[b - 1])
        invariant
            a <= b <= s.len(),
            t == s@.skip(a as int),
            trim_end(t) == trim_end(s@.subrange(a as int, b as int)),
        decreases b,
    {
        assert(s@.subrange(a as int, b as int).drop_last() =~= s@.subrange(a as int, b - 1));
        b = b - 1;
    }
    proof {
        let r = s@.subrange(a as int, b as int);
        if r.len() > 0 {
            assert(r.last() == s@[b - 1]);
        }
        assert(trim_end(r) == r);
    }
    let mut out: Vec<char> = Vec::new();
    let mut k: usize = a;
    while k < b
        invariant
            a <= k <= b <= s.len(),
            out@ == s@.subrange(a as int, k as int),
        decreases b - k,
    {
        out.push(s[k]);
        assert(s@.subrange(a as int, k as int).push(s@[k as int]) =~= s@.subrange(
            a as int,
            k + 1,
        ));
        k = k + 1;
    }
    out
}

/// `list` joined with `sep` between each two elements.
pub fn join_chars(list: &Vec<Vec<char>>, sep: &[char]) -> (out: Vec<char>)
    ensures
        out@ == join(views(list@), sep@),
{
    let mut out: Vec<char> = Vec::new();
    let mut i: usize = 0;
    while i < list.len()
        invariant
            i <= list.len(),
            out@ == join(views(list@).take(i as int), sep@),
        decreases list.len() - i,
    {
        let ghost before = out@;
        if i > 0 {
            append_chars(&mut out, sep);
        }
        append_chars(&mut out, &list[i]);
        proof {
            let t = views(list@).take(i + 1);
            assert(t.drop_last() =~= views(list@).take(i as int));
            assert(t.last() == list@[i as int]@);
            if i == 0 {
                assert(t.len() == 1);
                assert(out@ =~= t[0]);
            } else {
                assert(out@ =~= before + sep@ + t.last());
            }
        }
        i = i + 1;
    }
    assert(views(list@).take(list.len() as int) =~= views(list@));
    out
}

/// Appends the characters of `b` to `a`.
pub fn append_chars(a: &mut Vec<char>, b: &[char])
    ensures
        final(a)@ == old(a)@ + b@,
{
    let mut i: usize = 0;
    while i < b.len()
        invariant
            i <= b.len(),
            a@ == old(a)@ + b@.take(i as int),
        decreases b.len() - i,
    {
        a.push(b[i]);
        assert(old(a)@ + b@.take(i + 1) =~= (old(a)@ + b@.take(i as int)).push(b@[i as int]));
        i = i + 1;
    }
    assert(b@.take(b.len() as int) =~= b@);
}

pub fn digit_char_exec(d: u64) -> (c: char)
    requires
        d < 10,
    ensures
        c == digit_char(d as int),
{
    if d == 0 {
        '0'
    } else if d == 1 {
        '1'
    } else if d == 2 {
        '2'
    } else if d == 3 {
        '3'
    } else if d == 4 {
        '4'
    } else if d == 5 {
        '5'
    } else if d == 6 {
        '6'
    } else if d == 7 {
        '7'
    } else if d == 8 {
        '8'
    } else {
        '9'
    }
}

/// The decimal digits of `n`.
pub fn decimal_chars(n: u64) -> (out: Vec<char>)
    ensures
        out@ == decimal(n as nat),
    decreases n,
{
    if n < 10 {
        let mut v: Vec<char> = Vec::new();
        v.push(digit_char_exec(n));
        assert(v@ =~= seq![digit_char(n as int)]);
        v
    } else {
        let mut v = decimal_chars(n / 10);
        v.push(digit_char_exec(n % 10));
        v
    }
}

/// The decimal digits of `n`, as a string.
pub fn decimal_string(n: u64) -> (out: String)
    ensures
        out@ == decimal(n as nat),
{
    let v = decimal_chars(n);
    string_of(&v)
}

proof fn lemma_digits_prefix_le(d: Seq<char>, j: int)
    requires
        all_digits(d),
        0 <= j <= d.len(),
    ensures
        digits_value(d.take(j)) <= digits_value(d),
    decreases d.len(),
{
    if j < d.len() {
        let p = d.drop_last();
        assert(all_digits(p));
        assert(p.take(j) =~= d.take(j));
        lemma_digits_prefix_le(p, j);
        assert(is_digit(d[d.len() - 1]));
    } else {
        assert(d.take(j) =~= d);
    }
}

fn digit_value_exec(c: char) -> (d: u64)
    requires
        is_digit(c),
    ensures
        d == digit_value(c),
        d < 10,
{
    if c == '0' {
        0
    } else if c == '1' {
        1
    } else if c == '2' {
        2
    } else if c == '3' {
        3
    } else if c == '4' {
        4
    } else if c == '5' {
        5
    } else if c == '6' {
        6
    } else if c == '7' {
        7
    } else if c == '8' {
        8
    } else {
        9
    }
}

/// What `str::parse::<u64>` returns for `s`.
pub fn parse_u64_chars(s: &[char]) -> (r: Option<u64>)
    ensures
        r == parse_u64(s@),
{
    let start: usize = if s.len() > 0 && s[0] == '+' {
        1
    } else {
        0
    };
    let ghost d = if s@.len() > 0 && s@[0] == '+' {
        s@.drop_first()
    } else {
        s@
    };
    assert(d =~= s@.skip(start as int));
    if start >= s.len() {
        assert(d.len() == 0);
        return None;
    }
    assert(d.take(0) =~= seq![]);
    let mut acc: u64 = 0;
    let mut i: usize = start;
    while i < s.len()
        invariant
            start <= i <= s.len(),
            d == s@.skip(start as int),
            d == (if s@.len() > 0 && s@[0] == '+' {
                s@.drop_first()
            } else {
                s@
            }),
            all_digits(d.take(i - start)),
            acc as nat == digits_value(d.take(i - start)),
        decreases s.len() - i,
    {
        let c = s[i];
        let ghost k = i - start;
        assert(d[k] == c);
        if !('0' <= c && c <= '9') {
            assert(!all_digits(d));
            return None;
        }
        let dv: u64 = digit_value_exec(c);
        assert(d.take(k + 1).drop_last() =~= d.take(k));
        assert(d.take(k + 1).last() == c);
        assert(digits_value(d.take(k + 1)) == acc * 10 + dv);
        assert(all_digits(d.take(k + 1)));
        if acc > (u64::MAX - dv) / 10 {
            proof {
                assert(acc * 10 + dv > u64::MAX) by (nonlinear_arith)
                    requires
                        acc > (u64::MAX - dv) / 10,
                        dv < 10,
                ;
                if all_digits(d) {
                    lemma_digits_prefix_le(d, k + 1);
                }
            }
            return None;
        }
        assert(acc * 10 + dv <= u64::MAX) by (nonlinear_arith)
            requires
                acc <= (u64::MAX - dv) / 10,
                dv < 10,
        ;
        acc = acc * 10 + dv;
        i = i + 1;
    }
    assert(d.take(i - start) =~= d);
    Some(acc)
}

/// `a` comes before `b` in code-point lexicographic order.
pub fn chars_less(a: &[char], b: &[char]) -> (r: bool)
    ensures
        r == seq_less(a@, b@),
{
    let mut i: usize = 0;
    assert(a@.skip(0) =~= a@);
    assert(b@.skip(0) =~= b@);
    while i < a.len() && i < b.len() && a[i] == b[i]
        invariant
            i <= a.len(),
            i <= b.len(),
            seq_less(a@, b@) == seq_less(a@.skip(i as int), b@.skip(i as int)),
        decreases a.len() - i,
    {
        assert(a@.skip(i as int).drop_first() =~= a@.skip(i + 1));
        assert(b@.skip(i as int).drop_first() =~= b@.skip(i + 1));
        i = i + 1;
    }
    if i >= b.len() {
        assert(b@.skip(i as int).len() == 0);
        false
    } else if i >= a.len() {
        assert(a@.skip(i as int).len() == 0);
        true
    } else {
        assert(a@.skip(i as int)[0] == a@[i as int]);
        assert(b@.skip(i as int)[0] == b@[i as int]);
        a[i] < b[i]
    }
}


/// `n` spaces.
pub open spec fn spaces(n: int) -> Seq<char> {
    Seq::new(if n < 0 { 0 } else { n as nat }, |i: int| ' ')
}

/// `s` right-aligned in a field of `w` characters.
pub open spec fn pad_left(s: Seq<char>, w: int) -> Seq<char> {
    spaces(w - s.len()) + s
}

/// `s` left-aligned in a field of `w` characters.
pub open spec fn pad_right(s: Seq<char>, w: int) -> Seq<char> {
    s + spaces(w - s.len())
}

fn spaces_exec(n: usize) -> (r: Vec<char>)
    ensures
        r@ == spaces(n as int),
{
    let mut v: Vec<char> = Vec::new();
    let mut i: usize = 0;
    while i < n
        invariant
            i <= n,
            v@ == spaces(i as int),
        decreases n - i,
    {
        v.push(' ');
        assert(v@ =~= spaces(i + 1));
        i = i + 1;
    }
    v
}

/// `s` right-aligned in a field of `w` characters (as `{:>w}` formats).
pub fn pad_left_string(s: &str, w: usize) -> (r: String)
    ensures
        r@ == pad_left(s@, w as int),
{
    let c = chars_of(s);
    let n = if c.len() < w {
        w - c.len()
    } else {
        0
    };
    let mut v = spaces_exec(n);
    append_chars(&mut v, &c);
    assert(spaces(n as int) =~= spaces(w - s@.len()));
    string_of(&v)
}

/// `s` left-aligned in a field of `w` characters (as `{:<w}` formats).
pub fn pad_right_string(s: &str, w: usize) -> (r: String)
    ensures
        r@ == pad_right(s@, w as int),
{
    let mut c = chars_of(s);
    let n = if c.len() < w {
        w - c.len()
    } else {
        0
    };
    let sp = spaces_exec(n);
    append_chars(&mut c, &sp);
    assert(spaces(n as int) =~= spaces(w - s@.len()));
    string_of(&c)
}

/// Is `s` exactly `lit`?
pub fn str_is(s: &str, lit: &str) -> (b: bool)
    ensures
        b == (s@ == lit@),
{
    let a = chars_of(s);
    let b = chars_of(lit);
    if a.len() != b.len() {
        return false;
    }
    let mut i: usize = 0;
    while i < a.len()
        invariant
            i <= a.len() == b.len(),
            a@ == s@,
            b@ == lit@,
            forall|j: int| 0 <= j < i ==> a@[j] == b@[j],
        decreases a.len() - i,
    {
        if a[i] != b[i] {
            return false;
        }
        i = i + 1;
    }
    assert(a@ =~= b@);
    true
}

} // verus!
