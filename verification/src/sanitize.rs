//! Shrinking the base instructions before they are sent to Minc: bulky
//! tagged sections and skill-budget notices are dropped and blank lines are
//! collapsed.

use vstd::prelude::*;
use crate::text::{
    blank, chars_of, contains, contains_chars, find, find_chars_from, find_from, is_blank, is_ws, join,
    join_chars, lemma_find_from, lemma_trim_subrange, matches_at, push_all, slice_of, starts_with,
    starts_with_chars, string_of, trim, trim_end, trim_start, trimmed, views,
};

verus! {

/// The sections of the base instructions that are removed, in order.
pub const SKILLS_SECTION: &'static str = "skills_instructions";
pub const PLUGINS_SECTION: &'static str = "plugins_instructions";
pub const APPS_SECTION: &'static str = "apps_instructions";
pub const PERMISSIONS_SECTION: &'static str = "permissions instructions";
pub const ENVIRONMENT_SECTION: &'static str = "environment_context";

/// Lines (once trimmed) that start with this sign are dropped.
pub const WARNING_SIGN: &'static str = "\u{26A0}";
/// Lines that mention either of these are dropped.
pub const BUDGET_NOTICE: &'static str = "skills context budget";
pub const SHORTENED_NOTICE: &'static str = "Skill descriptions were shortened";

// ---------------------------------------------------------------------------
// Specification
// ---------------------------------------------------------------------------

/// `<tag>`
pub open spec fn section_open(tag: Seq<char>) -> Seq<char> {
    seq!['<'] + tag + seq!['>']
}

/// `</tag>`
pub open spec fn section_close(tag: Seq<char>) -> Seq<char> {
    seq!['<', '/'] + tag + seq!['>']
}

/// The text of `s` from position `i` on, with every `open ... close` section
/// removed; an `open` without a matching `close` drops everything after it.
pub open spec fn strip_sections_from(s: Seq<char>, open: Seq<char>, close: Seq<char>, i: int) -> Seq<
    char,
>
    decreases s.len() - i,
{
    if i < 0 || i > s.len() || open.len() == 0 {
        Seq::empty()
    } else {
        match find_from(s, open, i) {
            None => s.subrange(i, s.len() as int),
            Some(start) => {
                proof {
                    lemma_find_from(s, open, i);
                }
                match find_from(s, close, start + open.len()) {
                    None => s.subrange(i, start),
                    Some(end) => {
                        proof {
                            lemma_find_from(s, close, start + open.len());
                        }
                        s.subrange(i, start) + strip_sections_from(
                            s,
                            open,
                            close,
                            end + close.len(),
                        )
                    },
                }
            },
        }
    }
}

/// `text` with every `<tag>...</tag>` section removed.
pub open spec fn stripped_section(text: Seq<char>, tag: Seq<char>) -> Seq<char> {
    strip_sections_from(text, section_open(tag), section_close(tag), 0)
}

/// A line without the `'\r'` that ends it, if any.
pub open spec fn strip_cr(line: Seq<char>) -> Seq<char> {
    if line.len() > 0 && line.last() == '\r' {
        line.drop_last()
    } else {
        line
    }
}

/// The lines of `s` from position `i` on (`str::lines`): split at `'\n'`,
/// a `'\r'` before the `'\n'` dropped, no empty line after a final `'\n'`.
pub open spec fn lines_from(s: Seq<char>, i: int) -> Seq<Seq<char>>
    decreases s.len() - i,
{
    if i < 0 || i >= s.len() {
        Seq::empty()
    } else {
        match find_from(s, seq!['\n'], i) {
            None => seq![s.subrange(i, s.len() as int)],
            Some(k) => {
                proof {
                    lemma_find_from(s, seq!['\n'], i);
                }
                seq![strip_cr(s.subrange(i, k))] + lines_from(s, k + 1)
            },
        }
    }
}

/// The lines of `s`.
pub open spec fn lines_of(s: Seq<char>) -> Seq<Seq<char>> {
    lines_from(s, 0)
}

/// A line survives unless, once trimmed, it starts with the warning sign or
/// mentions the skills budget notices.
pub open spec fn keep_line(line: Seq<char>) -> bool {
    &&& !starts_with(trim(line), WARNING_SIGN@)
    &&& !contains(trim(line), BUDGET_NOTICE@)
    &&& !contains(trim(line), SHORTENED_NOTICE@)
}

/// The surviving lines, where a blank line right after a kept blank line is
/// dropped as well.
pub open spec fn kept_lines(lines: Seq<Seq<char>>) -> Seq<Seq<char>>
    decreases lines.len(),
{
    if lines.len() == 0 {
        Seq::empty()
    } else {
        let acc = kept_lines(lines.drop_last());
        let line = lines.last();
        if !keep_line(line) || (is_blank(line) && acc.len() > 0 && is_blank(acc.last())) {
            acc
        } else {
            acc.push(line)
        }
    }
}

/// `s` with every run of `'\n'` reduced to a single `'\n'`.
pub open spec fn squeeze_newlines(s: Seq<char>) -> Seq<char>
    decreases s.len(),
{
    if s.len() == 0 {
        s
    } else {
        let prefix = squeeze_newlines(s.drop_last());
        if s.last() == '\n' && s.len() >= 2 && s[s.len() - 2] == '\n' {
            prefix
        } else {
            prefix.push(s.last())
        }
    }
}

/// The base instructions with the bulky sections removed.
pub open spec fn without_sections(text: Seq<char>) -> Seq<char> {
    stripped_section(
        stripped_section(
            stripped_section(
                stripped_section(stripped_section(text, SKILLS_SECTION@), PLUGINS_SECTION@),
                APPS_SECTION@,
            ),
            PERMISSIONS_SECTION@,
        ),
        ENVIRONMENT_SECTION@,
    )
}

/// What `sanitize_base_instructions` returns.
pub open spec fn sanitized(text: Seq<char>) -> Seq<char> {
    trim(squeeze_newlines(join(kept_lines(lines_of(without_sections(text))), seq!['\n'])))
}

/// `s` holds `'\n'` at positions `i` and `i + 1`.
pub open spec fn newline_pair_at(s: Seq<char>, i: int) -> bool {
    0 <= i && i + 1 < s.len() && s[i] == '\n' && s[i + 1] == '\n'
}

/// `s` holds two consecutive `'\n'`.
pub open spec fn has_blank_line(s: Seq<char>) -> bool {
    exists|i: int| #[trigger] newline_pair_at(s, i)
}

// ---------------------------------------------------------------------------
// Lemmas
// ---------------------------------------------------------------------------

proof fn lemma_squeeze_props(s: Seq<char>)
    ensures
        !has_blank_line(squeeze_newlines(s)),
        s.len() > 0 ==> squeeze_newlines(s).len() > 0 && squeeze_newlines(s).last() == s.last(),
    decreases s.len(),
{
    if s.len() > 0 {
        let p = squeeze_newlines(s.drop_last());
        lemma_squeeze_props(s.drop_last());
        if s.last() == '\n' && s.len() >= 2 && s[s.len() - 2] == '\n' {
            assert(s.drop_last().last() == s[s.len() - 2]);
        } else {
            let q = p.push(s.last());
            assert forall|i: int| !#[trigger] newline_pair_at(q, i) by {
                if i < 0 || i + 1 >= q.len() {
                } else if i + 1 == q.len() - 1 {
                    if s.len() >= 2 {
                        assert(p.last() == s.drop_last().last());
                        assert(s.drop_last().last() == s[s.len() - 2]);
                    }
                } else {
                    assert(q[i] == p[i] && q[i + 1] == p[i + 1]);
                    assert(!newline_pair_at(p, i));
                }
            }
        }
    }
}

proof fn lemma_subrange_no_blank_line(s: Seq<char>, lo: int, hi: int)
    requires
        0 <= lo <= hi <= s.len(),
        !has_blank_line(s),
    ensures
        !has_blank_line(s.subrange(lo, hi)),
{
    let t = s.subrange(lo, hi);
    assert forall|i: int| !#[trigger] newline_pair_at(t, i) by {
        if 0 <= i && i + 1 < t.len() {
            assert(t[i] == s[lo + i] && t[i + 1] == s[lo + i + 1]);
            assert(!newline_pair_at(s, lo + i));
        }
    }
}

/// The sanitized base instructions never hold a blank line (two consecutive
/// newlines) and carry no leading or trailing whitespace.
pub proof fn lemma_sanitized_is_compact(text: Seq<char>)
    ensures
        !has_blank_line(sanitized(text)),
        trim(sanitized(text)) == sanitized(text),
{
    let joined = join(kept_lines(lines_of(without_sections(text))), seq!['\n']);
    let sq = squeeze_newlines(joined);
    lemma_squeeze_props(joined);
    lemma_trim_subrange(sq);
    let (lo, hi) = choose|lo: int, hi: int|
        0 <= lo <= hi <= sq.len() && trim(sq) == sq.subrange(lo, hi);
    lemma_subrange_no_blank_line(sq, lo, hi);
}

/// Searching `s` from `i + m` is searching its suffix from `i` on at `m`.
proof fn lemma_find_from_shift(s: Seq<char>, p: Seq<char>, i: int, m: int)
    requires
        0 <= i,
        0 <= m,
        i + m <= s.len(),
    ensures
        find_from(s, p, i + m) == match find_from(s.subrange(i, s.len() as int), p, m) {
            Some(k) => Some(k + i),
            None => None::<int>,
        },
    decreases s.len() - (i + m),
{
    let t = s.subrange(i, s.len() as int);
    if i + m + p.len() > s.len() {
    } else {
        assert(s.subrange(i + m, i + m + p.len()) == t.subrange(m, m + p.len()));
        if !crate::text::matches_at(s, p, i + m) {
            if i + m < s.len() {
                lemma_find_from_shift(s, p, i, m + 1);
            } else {
                assert(p.len() == 0);
            }
        }
    }
}

/// Stripping `s` from `i + m` is stripping its suffix from `i` on at `m`.
proof fn lemma_strip_sections_shift(s: Seq<char>, open: Seq<char>, close: Seq<char>, i: int, m: int)
    requires
        0 <= i,
        0 <= m,
        i + m <= s.len(),
    ensures
        strip_sections_from(s, open, close, i + m) == strip_sections_from(
            s.subrange(i, s.len() as int),
            open,
            close,
            m,
        ),
    decreases s.len() - (i + m),
{
    let t = s.subrange(i, s.len() as int);
    if open.len() > 0 {
        lemma_find_from_shift(s, open, i, m);
        lemma_find_from(s, open, i + m);
        match find_from(s, open, i + m) {
            None => {
                assert(s.subrange(i + m, s.len() as int) == t.subrange(m, t.len() as int));
            },
            Some(start) => {
                lemma_find_from_shift(s, close, i, start + open.len() - i);
                lemma_find_from(s, close, start + open.len());
                assert(s.subrange(i + m, start) == t.subrange(m, start - i));
                if let Some(end) = find_from(s, close, start + open.len()) {
                    lemma_strip_sections_shift(s, open, close, i, end + close.len() - i);
                }
            },
        }
    }
}

/// Stripping the sections of a text, told as a recursion on what follows a
/// closed section: text before the first `<tag>` stays; a closed section
/// goes and the rest is stripped in turn; an unclosed one drops all text
/// after it.
pub proof fn lemma_stripped_section_unfolds(text: Seq<char>, tag: Seq<char>)
    ensures
        stripped_section(text, tag) == match find(text, section_open(tag)) {
            None => text,
            Some(i) => {
                let rest = text.subrange(i + section_open(tag).len(), text.len() as int);
                text.subrange(0, i) + match find(rest, section_close(tag)) {
                    Some(j) => stripped_section(
                        rest.subrange(j + section_close(tag).len(), rest.len() as int),
                        tag,
                    ),
                    None => Seq::empty(),
                }
            },
        },
{
    let open = section_open(tag);
    let close = section_close(tag);
    lemma_find_from(text, open, 0);
    match find(text, open) {
        None => {
            assert(text.subrange(0, text.len() as int) == text);
        },
        Some(i) => {
            let rest = text.subrange(i + open.len(), text.len() as int);
            lemma_find_from_shift(text, close, i + open.len(), 0);
            lemma_find_from(text, close, i + open.len());
            match find(rest, close) {
                Some(j) => {
                    lemma_find_from(rest, close, 0);
                    let e = i + open.len() + j + close.len();
                    lemma_strip_sections_shift(text, open, close, e, 0);
                    assert(rest.subrange(j + close.len(), rest.len() as int) == text.subrange(
                        e,
                        text.len() as int,
                    ));
                },
                None => {
                    assert(text.subrange(0, i) + Seq::<char>::empty() == text.subrange(0, i));
                },
            }
        },
    }
}

/// Text without an opening `<tag>` is left as it is.
pub proof fn lemma_untagged_text_is_kept(text: Seq<char>, tag: Seq<char>)
    requires
        !contains(text, section_open(tag)),
    ensures
        stripped_section(text, tag) == text,
{
    assert(text.subrange(0, text.len() as int) == text);
}

// ---------------------------------------------------------------------------
// Every line of the sanitized text passes the notice filter
// ---------------------------------------------------------------------------

/// The line that `s` ends in: its characters after the last `'\n'`.
pub open spec fn last_line(s: Seq<char>) -> Seq<char>
    decreases s.len(),
{
    if s.len() == 0 {
        s
    } else if s.last() == '\n' {
        Seq::empty()
    } else {
        last_line(s.drop_last()).push(s.last())
    }
}

/// The line of `s` that ends at position `k`.
pub open spec fn line_before(s: Seq<char>, k: int) -> Seq<char> {
    last_line(s.take(k))
}

/// Position `k` ends a line of `s`: it is the end of `s` or holds a `'\n'`.
pub open spec fn line_end(s: Seq<char>, k: int) -> bool {
    0 <= k <= s.len() && (k == s.len() || s[k] == '\n')
}

/// Every line of `s` has the property `pred`.
pub open spec fn lines_hold(s: Seq<char>, pred: spec_fn(Seq<char>) -> bool) -> bool {
    forall|k: int| #[trigger] line_end(s, k) ==> pred(line_before(s, k))
}

/// The notice filter as a line property.
pub open spec fn keep_pred() -> spec_fn(Seq<char>) -> bool {
    |line: Seq<char>| keep_line(line)
}

/// Every line of `s` passes the notice filter.
pub open spec fn lines_pass(s: Seq<char>) -> bool {
    lines_hold(s, keep_pred())
}

/// A line property that depends only on the trimmed line, and that the
/// empty line has.
pub open spec fn trim_invariant(pred: spec_fn(Seq<char>) -> bool) -> bool {
    &&& forall|x: Seq<char>| #[trigger] pred(x) == pred(trim(x))
    &&& pred(Seq::<char>::empty())
}

/// `s` holds no `'\n'` in positions `lo..hi`.
pub open spec fn newline_free(s: Seq<char>, lo: int, hi: int) -> bool {
    forall|j: int| lo <= j < hi ==> s[j] != '\n'
}

/// A line that starts right after a `'\n'` (or at the start) and holds no
/// `'\n'` is the line that ends where it ends.
proof fn lemma_line_before_segment(s: Seq<char>, i: int, k: int)
    requires
        0 <= i <= k <= s.len(),
        i == 0 || s[i - 1] == '\n',
        newline_free(s, i, k),
    ensures
        line_before(s, k) == s.subrange(i, k),
    decreases k - i,
{
    if k == i {
        if i > 0 {
            assert(s.take(k).last() == s[i - 1]);
        }
        assert(s.subrange(i, k) =~= Seq::<char>::empty());
    } else {
        lemma_line_before_segment(s, i, k - 1);
        assert(s.take(k).drop_last() == s.take(k - 1));
        assert(s.take(k).last() == s[k - 1]);
        assert(s.subrange(i, k) == s.subrange(i, k - 1).push(s[k - 1]));
    }
}

/// Where the line of `s` that ends at `k` starts.
proof fn lemma_line_start(s: Seq<char>, k: int) -> (i: int)
    requires
        0 <= k <= s.len(),
    ensures
        0 <= i <= k,
        i == 0 || s[i - 1] == '\n',
        newline_free(s, i, k),
    decreases k,
{
    if k == 0 || s[k - 1] == '\n' {
        k
    } else {
        lemma_line_start(s, k - 1)
    }
}

/// Where the line of `s` that holds position `k` ends.
proof fn lemma_next_line_end(s: Seq<char>, k: int) -> (e: int)
    requires
        0 <= k <= s.len(),
    ensures
        k <= e,
        line_end(s, e),
        newline_free(s, k, e),
    decreases s.len() - k,
{
    if k == s.len() || s[k] == '\n' {
        k
    } else {
        lemma_next_line_end(s, k + 1)
    }
}

/// Whitespace around a text does not change its trim.
proof fn lemma_trim_ws_margin(s: Seq<char>, a: int, a2: int, b2: int, b: int)
    requires
        0 <= a <= a2 <= b2 <= b <= s.len(),
        forall|j: int| a <= j < a2 ==> is_ws(s[j]),
        forall|j: int| b2 <= j < b ==> is_ws(s[j]),
    ensures
        trim(s.subrange(a, b)) == trim(s.subrange(a2, b2)),
    decreases (a2 - a) + (b - b2),
{
    if a < a2 {
        let x = s.subrange(a, b);
        assert(x[0] == s[a]);
        assert(x.drop_first() == s.subrange(a + 1, b));
        lemma_trim_ws_margin(s, a + 1, a2, b2, b);
    } else if b2 < b {
        let x = s.subrange(a, b);
        assert(x.last() == s[b - 1]);
        assert(x.drop_last() == s.subrange(a, b - 1));
        lemma_trim_drop_last_ws(x);
        lemma_trim_ws_margin(s, a, a2, b2, b - 1);
    }
}

/// Trailing whitespace does not change a trim.
proof fn lemma_trim_drop_last_ws(x: Seq<char>)
    requires
        x.len() > 0,
        is_ws(x.last()),
    ensures
        trim(x.drop_last()) == trim(x),
    decreases x.len(),
{
    if is_ws(x[0]) {
        if x.len() == 1 {
            assert(x.drop_last().len() == 0);
            assert(x.drop_first().len() == 0);
            assert(trim_start(x.drop_first()) == x.drop_first());
            assert(trim_start(x) == trim_start(x.drop_first()));
            assert(trim_start(x.drop_last()) == x.drop_last());
        } else {
            let y = x.drop_first();
            lemma_trim_drop_last_ws(y);
            assert(y.last() == x.last());
            assert(x.drop_last().drop_first() == y.drop_last());
            assert(x.drop_last()[0] == x[0]);
            assert(trim_start(x.drop_last()) == trim_start(y.drop_last()));
            assert(trim_start(x) == trim_start(y));
        }
    } else {
        assert(x.drop_last()[0] == x[0]);
        assert(trim_start(x) == x);
        assert(trim_start(x.drop_last()) == x.drop_last());
        assert(trim_end(x) == trim_end(x.drop_last()));
    }
}

proof fn lemma_trim_start_ws(s: Seq<char>)
    ensures
        trim_start(s).len() <= s.len(),
        trim_start(s) == s.subrange(s.len() - trim_start(s).len(), s.len() as int),
        forall|j: int| 0 <= j < s.len() - trim_start(s).len() ==> is_ws(s[j]),
    decreases s.len(),
{
    if s.len() > 0 && is_ws(s[0]) {
        let y = s.drop_first();
        lemma_trim_start_ws(y);
        assert(y.subrange(y.len() - trim_start(y).len(), y.len() as int) == s.subrange(
            s.len() - trim_start(s).len(),
            s.len() as int,
        ));
        assert forall|j: int| 0 <= j < s.len() - trim_start(s).len() implies is_ws(s[j]) by {
            if j > 0 {
                assert(s[j] == y[j - 1]);
            }
        }
    } else {
        assert(s.subrange(0, s.len() as int) == s);
    }
}

proof fn lemma_trim_end_ws(s: Seq<char>)
    ensures
        trim_end(s).len() <= s.len(),
        trim_end(s) == s.subrange(0, trim_end(s).len() as int),
        forall|j: int| trim_end(s).len() <= j < s.len() ==> is_ws(s[j]),
    decreases s.len(),
{
    if s.len() > 0 && is_ws(s.last()) {
        let y = s.drop_last();
        lemma_trim_end_ws(y);
        assert(y.subrange(0, trim_end(y).len() as int) == s.subrange(0, trim_end(s).len() as int));
        assert forall|j: int| trim_end(s).len() <= j < s.len() implies is_ws(s[j]) by {
            if j < s.len() - 1 {
                assert(s[j] == y[j]);
            }
        }
    } else {
        assert(s.subrange(0, s.len() as int) == s);
    }
}

/// `trim` keeps the part of `s` between two runs of whitespace.
proof fn lemma_trim_bounds(s: Seq<char>) -> (b: (int, int))
    ensures
        0 <= b.0 <= b.1 <= s.len(),
        trim(s) == s.subrange(b.0, b.1),
        forall|j: int| 0 <= j < b.0 ==> is_ws(s[j]),
        forall|j: int| b.1 <= j < s.len() ==> is_ws(s[j]),
{
    lemma_trim_start_ws(s);
    let n = s.len() - trim_start(s).len();
    let t = trim_start(s);
    lemma_trim_end_ws(t);
    let m = trim_end(t).len() as int;
    assert(t.subrange(0, m) == s.subrange(n, n + m));
    assert forall|j: int| n + m <= j < s.len() implies is_ws(s[j]) by {
        assert(s[j] == t[j - n]);
    }
    (n, n + m)
}

/// The lines of `s` from `i` on hold no `'\n'`.
proof fn lemma_lines_from_newline_free(s: Seq<char>, i: int)
    ensures
        forall|j: int|
            0 <= j < lines_from(s, i).len() ==> newline_free(
                #[trigger] lines_from(s, i)[j],
                0,
                lines_from(s, i)[j].len() as int,
            ),
    decreases s.len() - i,
{
    if i < 0 || i >= s.len() {
    } else {
        lemma_find_from(s, seq!['\n'], i);
        match find_from(s, seq!['\n'], i) {
            None => {
                let line = s.subrange(i, s.len() as int);
                assert forall|j: int| 0 <= j < line.len() implies line[j] != '\n' by {
                    crate::text::lemma_matches_char(s, '\n', i + j);
                }
                assert(lines_from(s, i) == seq![line]);
            },
            Some(k) => {
                let seg = s.subrange(i, k);
                assert forall|j: int| 0 <= j < seg.len() implies seg[j] != '\n' by {
                    crate::text::lemma_matches_char(s, '\n', i + j);
                }
                lemma_lines_from_newline_free(s, k + 1);
                let head = strip_cr(seg);
                assert(newline_free(head, 0, head.len() as int)) by {
                    if seg.len() > 0 && seg.last() == '\r' {
                        assert forall|j: int| 0 <= j < head.len() implies head[j] != '\n' by {
                            assert(head[j] == seg[j]);
                        }
                    }
                }
                assert forall|j: int| 0 <= j < lines_from(s, i).len() implies newline_free(
                    #[trigger] lines_from(s, i)[j],
                    0,
                    lines_from(s, i)[j].len() as int,
                ) by {
                    if j > 0 {
                        assert(lines_from(s, i)[j] == lines_from(s, k + 1)[j - 1]);
                    }
                }
            },
        }
    }
}

/// The kept lines pass the filter and, taken from lines without `'\n'`,
/// hold none.
proof fn lemma_kept_lines_pass(lines: Seq<Seq<char>>)
    requires
        forall|j: int| 0 <= j < lines.len() ==> newline_free(#[trigger] lines[j], 0, lines[j].len() as int),
    ensures
        forall|j: int|
            0 <= j < kept_lines(lines).len() ==> keep_line(#[trigger] kept_lines(lines)[j])
                && newline_free(kept_lines(lines)[j], 0, kept_lines(lines)[j].len() as int),
    decreases lines.len(),
{
    if lines.len() > 0 {
        let rest = lines.drop_last();
        assert forall|j: int| 0 <= j < rest.len() implies newline_free(
            #[trigger] rest[j],
            0,
            rest[j].len() as int,
        ) by {
            assert(rest[j] == lines[j]);
        }
        lemma_kept_lines_pass(rest);
        assert(newline_free(lines[lines.len() - 1], 0, lines.last().len() as int));
        let acc = kept_lines(rest);
        let line = lines.last();
        if !keep_line(line) || (is_blank(line) && acc.len() > 0 && is_blank(acc.last())) {
            assert(kept_lines(lines) == acc);
        } else {
            assert(kept_lines(lines) == acc.push(line));
            assert forall|j: int| 0 <= j < kept_lines(lines).len() implies keep_line(
                #[trigger] kept_lines(lines)[j],
            ) && newline_free(kept_lines(lines)[j], 0, kept_lines(lines)[j].len() as int) by {
                if j < acc.len() {
                    assert(kept_lines(lines)[j] == acc[j]);
                }
            }
        }
    }
}

/// The empty line passes the filter.
proof fn lemma_empty_line_kept()
    ensures
        keep_line(Seq::<char>::empty()),
{
    reveal_strlit("\u{26A0}");
    reveal_strlit("skills context budget");
    reveal_strlit("Skill descriptions were shortened");
    let e = Seq::<char>::empty();
    assert(trim_start(e) == e);
    assert(trim_end(e) == e);
    assert(find_from(e, BUDGET_NOTICE@, 0) is None);
    assert(find_from(e, SHORTENED_NOTICE@, 0) is None);
}

/// The notice filter depends only on the trimmed line.
proof fn lemma_keep_line_trim_invariant()
    ensures
        trim_invariant(keep_pred()),
{
    lemma_empty_line_kept();
    assert forall|x: Seq<char>| #[trigger] keep_pred()(x) == keep_pred()(trim(x)) by {
        lemma_trim_subrange(x);
    }
}

/// Lines with a property, joined by `'\n'`, give a text whose every line
/// has it.
proof fn lemma_join_lines_pass(parts: Seq<Seq<char>>, pred: spec_fn(Seq<char>) -> bool)
    requires
        trim_invariant(pred),
        forall|j: int|
            0 <= j < parts.len() ==> pred(#[trigger] parts[j]) && newline_free(
                parts[j],
                0,
                parts[j].len() as int,
            ),
    ensures
        lines_hold(join(parts, seq!['\n']), pred),
    decreases parts.len(),
{
    let b = join(parts, seq!['\n']);
    if parts.len() == 0 {
        assert forall|k: int| #[trigger] line_end(b, k) implies pred(line_before(b, k)) by {
            lemma_line_before_segment(b, 0, k);
            assert(b.subrange(0, k) =~= Seq::<char>::empty());
        }
    } else if parts.len() == 1 {
        let l = parts[0];
        assert forall|k: int| #[trigger] line_end(b, k) implies pred(line_before(b, k)) by {
            assert(k == b.len());
            lemma_line_before_segment(b, 0, k);
            assert(b.subrange(0, k) == l);
        }
    } else {
        let rest = parts.drop_last();
        let l = parts.last();
        assert forall|j: int| 0 <= j < rest.len() implies pred(#[trigger] rest[j])
            && newline_free(rest[j], 0, rest[j].len() as int) by {
            assert(rest[j] == parts[j]);
        }
        lemma_join_lines_pass(rest, pred);
        let a = join(rest, seq!['\n']);
        assert(b == a + seq!['\n'] + l);
        assert(newline_free(l, 0, l.len() as int));
        assert forall|k: int| #[trigger] line_end(b, k) implies pred(line_before(b, k)) by {
            if k <= a.len() {
                assert(b.take(k) == a.take(k));
                assert(line_end(a, k));
            } else {
                if k < b.len() {
                    assert(b[k] == l[k - a.len() - 1]);
                }
                assert(k == b.len());
                assert forall|j: int| a.len() + 1 <= j < b.len() implies b[j] != '\n' by {
                    assert(b[j] == l[j - a.len() - 1]);
                }
                lemma_line_before_segment(b, a.len() + 1int, k);
                assert(b.subrange(a.len() + 1int, k) == l);
            }
        }
    }
}

/// Collapsing newlines leaves the last line as it is, and every line that a
/// `'\n'` ends in the collapsed text is a line that a `'\n'` ends in `s`.
proof fn lemma_squeeze_lines(s: Seq<char>)
    ensures
        last_line(squeeze_newlines(s)) == last_line(s),
        forall|k: int|
            0 <= k < squeeze_newlines(s).len() && #[trigger] squeeze_newlines(s)[k] == '\n'
                ==> exists|k2: int|
                0 <= k2 < s.len() && s[k2] == '\n' && #[trigger] line_before(s, k2) == line_before(
                    squeeze_newlines(s),
                    k,
                ),
    decreases s.len(),
{
    if s.len() > 0 {
        let t = s.drop_last();
        let c = s.last();
        let x = squeeze_newlines(t);
        lemma_squeeze_lines(t);
        lemma_squeeze_props(t);
        let q = squeeze_newlines(s);
        if c == '\n' && s.len() >= 2 && s[s.len() - 2] == '\n' {
            assert(q == x);
            assert(t.last() == s[s.len() - 2]);
            assert forall|k: int| 0 <= k < q.len() && #[trigger] q[k] == '\n' implies exists|k2: int|
                0 <= k2 < s.len() && s[k2] == '\n' && #[trigger] line_before(s, k2) == line_before(
                    q,
                    k,
                ) by {
                let k2 = choose|k2: int|
                    0 <= k2 < t.len() && t[k2] == '\n' && #[trigger] line_before(t, k2)
                        == line_before(x, k);
                assert(s.take(k2) == t.take(k2));
                assert(s[k2] == t[k2]);
                assert(line_before(s, k2) == line_before(q, k));
            }
        } else {
            assert(q == x.push(c));
            assert(q.drop_last() == x);
            assert forall|k: int| 0 <= k < q.len() && #[trigger] q[k] == '\n' implies exists|k2: int|
                0 <= k2 < s.len() && s[k2] == '\n' && #[trigger] line_before(s, k2) == line_before(
                    q,
                    k,
                ) by {
                if k < x.len() {
                    assert(q[k] == x[k]);
                    assert(q.take(k) == x.take(k));
                    let k2 = choose|k2: int|
                        0 <= k2 < t.len() && t[k2] == '\n' && #[trigger] line_before(t, k2)
                            == line_before(x, k);
                    assert(s.take(k2) == t.take(k2));
                    assert(s[k2] == t[k2]);
                    assert(line_before(s, k2) == line_before(q, k));
                } else {
                    assert(q.take(k) == x);
                    assert(s.take(t.len() as int) == t);
                    assert(s[t.len() as int] == '\n');
                    assert(line_before(s, t.len() as int) == line_before(q, k));
                }
            }
        }
    }
}

/// Collapsing newlines keeps every line's property.
proof fn lemma_squeeze_lines_pass(s: Seq<char>, pred: spec_fn(Seq<char>) -> bool)
    requires
        lines_hold(s, pred),
    ensures
        lines_hold(squeeze_newlines(s), pred),
{
    let q = squeeze_newlines(s);
    lemma_squeeze_lines(s);
    assert forall|k: int| #[trigger] line_end(q, k) implies pred(line_before(q, k)) by {
        if k == q.len() {
            assert(q.take(k) == q);
            assert(s.take(s.len() as int) == s);
            assert(line_end(s, s.len() as int));
        } else {
            assert(q[k] == '\n');
            let k2 = choose|k2: int|
                0 <= k2 < s.len() && s[k2] == '\n' && #[trigger] line_before(s, k2) == line_before(
                    q,
                    k,
                );
            assert(line_end(s, k2));
        }
    }
}

/// Trimming a text keeps every line's property: the first and last lines
/// only lose whitespace.
proof fn lemma_trim_lines_pass(q: Seq<char>, pred: spec_fn(Seq<char>) -> bool)
    requires
        lines_hold(q, pred),
        trim_invariant(pred),
    ensures
        lines_hold(trim(q), pred),
{
    let (lo, hi) = lemma_trim_bounds(q);
    let r = trim(q);
    assert forall|k: int| #[trigger] line_end(r, k) implies pred(line_before(r, k)) by {
        let ir = lemma_line_start(r, k);
        lemma_line_before_segment(r, ir, k);
        let start = if ir > 0 {
            lo + ir
        } else {
            lemma_line_start(q, lo)
        };
        let end = if k < r.len() {
            lo + k
        } else {
            lemma_next_line_end(q, hi)
        };
        if ir > 0 {
            assert(q[start - 1] == r[ir - 1]);
        }
        if k < r.len() {
            assert(q[end] == r[k]);
        }
        assert(line_end(q, end));
        assert forall|j: int| start <= j < end implies q[j] != '\n' by {
            if lo + ir <= j < lo + k {
                assert(q[j] == r[j - lo]);
            }
        }
        lemma_line_before_segment(q, start, end);
        lemma_trim_ws_margin(q, start, lo + ir, lo + k, end);
        assert(q.subrange(lo + ir, lo + k) == r.subrange(ir, k));
        assert(pred(q.subrange(start, end)));
        assert(pred(r.subrange(ir, k)));
    }
}

/// In a text whose every line has a property, the lines that `str::lines`
/// yields from a line start `i` on have it too (a `'\r'` they lose is
/// whitespace).
proof fn lemma_lines_from_pass(s: Seq<char>, i: int, pred: spec_fn(Seq<char>) -> bool)
    requires
        lines_hold(s, pred),
        trim_invariant(pred),
        0 <= i,
        i == 0 || (i <= s.len() && s[i - 1] == '\n'),
    ensures
        forall|j: int| 0 <= j < lines_from(s, i).len() ==> pred(#[trigger] lines_from(s, i)[j]),
    decreases s.len() - i,
{
    if i < s.len() {
        lemma_find_from(s, seq!['\n'], i);
        match find_from(s, seq!['\n'], i) {
            None => {
                let n = s.len() as int;
                assert forall|j: int| i <= j < n implies s[j] != '\n' by {
                    crate::text::lemma_matches_char(s, '\n', j);
                }
                lemma_line_before_segment(s, i, n);
                assert(line_end(s, n));
                assert(lines_from(s, i) == seq![s.subrange(i, n)]);
            },
            Some(k) => {
                assert forall|j: int| i <= j < k implies s[j] != '\n' by {
                    crate::text::lemma_matches_char(s, '\n', j);
                }
                crate::text::lemma_matches_char(s, '\n', k);
                lemma_line_before_segment(s, i, k);
                assert(line_end(s, k));
                let seg = s.subrange(i, k);
                if seg.len() > 0 && seg.last() == '\r' {
                    lemma_trim_drop_last_ws(seg);
                }
                assert(pred(seg));
                assert(pred(strip_cr(seg)));
                lemma_lines_from_pass(s, k + 1, pred);
                assert forall|j: int| 0 <= j < lines_from(s, i).len() implies pred(
                    #[trigger] lines_from(s, i)[j],
                ) by {
                    if j > 0 {
                        assert(lines_from(s, i)[j] == lines_from(s, k + 1)[j - 1]);
                    }
                }
            },
        }
    }
}

/// A text holds a notice that starts and ends with a non-whitespace
/// character only where its trim holds it.
proof fn lemma_notice_in_trim(l: Seq<char>, n: Seq<char>)
    requires
        n.len() > 0,
        !is_ws(n[0]),
        !is_ws(n.last()),
        contains(l, n),
    ensures
        contains(trim(l), n),
{
    crate::text::lemma_find(l, n);
    let k = find(l, n).unwrap();
    let (lo, hi) = lemma_trim_bounds(l);
    assert(l[k] == n[0]);
    assert(l[k + n.len() - 1] == n.last());
    let t = trim(l);
    assert(t.subrange(k - lo, k - lo + n.len()) == l.subrange(k, k + n.len()));
    crate::text::lemma_find_some_iff(t, n, k - lo);
}

/// No line of the sanitized base instructions is a warning line or mentions
/// a skills-budget notice: every line of the result passes the filter that
/// dropped those lines, and no line holds either notice, trimmed or not.
pub proof fn lemma_sanitized_lines_pass(text: Seq<char>)
    ensures
        forall|j: int|
            0 <= j < lines_of(sanitized(text)).len() ==> keep_line(
                #[trigger] lines_of(sanitized(text))[j],
            ),
        forall|j: int|
            0 <= j < lines_of(sanitized(text)).len() ==> !contains(
                #[trigger] lines_of(sanitized(text))[j],
                BUDGET_NOTICE@,
            ) && !contains(lines_of(sanitized(text))[j], SHORTENED_NOTICE@),
{
    let stripped = without_sections(text);
    let lines = lines_of(stripped);
    lemma_lines_from_newline_free(stripped, 0);
    lemma_kept_lines_pass(lines);
    lemma_keep_line_trim_invariant();
    let pred = keep_pred();
    assert forall|j: int| 0 <= j < kept_lines(lines).len() implies #[trigger] pred(
        kept_lines(lines)[j],
    ) && newline_free(kept_lines(lines)[j], 0, kept_lines(lines)[j].len() as int) by {
        assert(keep_line(kept_lines(lines)[j]));
    }
    lemma_join_lines_pass(kept_lines(lines), pred);
    let joined = join(kept_lines(lines), seq!['\n']);
    lemma_squeeze_lines_pass(joined, pred);
    lemma_trim_lines_pass(squeeze_newlines(joined), pred);
    lemma_lines_from_pass(sanitized(text), 0, pred);
    assert forall|j: int| 0 <= j < lines_of(sanitized(text)).len() implies keep_line(
        #[trigger] lines_of(sanitized(text))[j],
    ) by {
        assert(pred(lines_of(sanitized(text))[j]));
    }
    reveal_strlit("skills context budget");
    reveal_strlit("Skill descriptions were shortened");
    let ls = lines_of(sanitized(text));
    assert forall|j: int| 0 <= j < ls.len() implies !contains(#[trigger] ls[j], BUDGET_NOTICE@)
        && !contains(ls[j], SHORTENED_NOTICE@) by {
        assert(keep_line(ls[j]));
        if contains(ls[j], BUDGET_NOTICE@) {
            lemma_notice_in_trim(ls[j], BUDGET_NOTICE@);
        }
        if contains(ls[j], SHORTENED_NOTICE@) {
            lemma_notice_in_trim(ls[j], SHORTENED_NOTICE@);
        }
    }
}

// ---------------------------------------------------------------------------
// The removed sections are gone from the result
// ---------------------------------------------------------------------------

/// The `<` at `p` of `s` is closed by the `>` at `e`, with neither `<` nor
/// `>` between them.
pub open spec fn bracket_closes(s: Seq<char>, p: int, e: int) -> bool {
    &&& p < e < s.len()
    &&& s[e] == '>'
    &&& forall|m: int| p < m < e ==> s[m] != '<' && s[m] != '>'
}

/// Every `<` of `s` is closed by a `>` before any other `<` or `>`, as in
/// well-formed markup.
pub open spec fn brackets_closed(s: Seq<char>) -> bool {
    forall|p: int|
        #![trigger s[p]]
        0 <= p < s.len() && s[p] == '<' ==> exists|e: int| #[trigger] bracket_closes(s, p, e)
}

/// A tag: `<`, then no `>`, then a final `>`.
pub open spec fn tag_shaped(t: Seq<char>) -> bool {
    &&& t.len() >= 2
    &&& t[0] == '<'
    &&& t[t.len() - 1] == '>'
    &&& forall|m: int| 0 <= m < t.len() - 1 ==> t[m] != '>'
}

proof fn lemma_matches_concat(x: Seq<char>, y: Seq<char>, t: Seq<char>, q: int)
    ensures
        matches_at(x, t, q) ==> matches_at(x + y, t, q),
        matches_at(y, t, q) ==> matches_at(x + y, t, q + x.len()),
        q >= x.len() && matches_at(x + y, t, q) ==> matches_at(y, t, q - x.len()),
{
    if matches_at(x, t, q) {
        assert((x + y).subrange(q, q + t.len()) == x.subrange(q, q + t.len()));
    }
    if matches_at(y, t, q) {
        assert((x + y).subrange(q + x.len(), q + x.len() + t.len()) == y.subrange(q, q + t.len()));
    }
    if q >= x.len() && matches_at(x + y, t, q) {
        assert((x + y).subrange(q, q + t.len()) == y.subrange(q - x.len(), q - x.len() + t.len()));
    }
}

/// A piece `s[i..b]` cut right before a `<` (or at the end) keeps the tags
/// that start in it whole: a tag found there in `s[i..b] + y` is a tag of
/// `s` that ends by `b`.
proof fn lemma_tag_in_piece(s: Seq<char>, i: int, b: int, y: Seq<char>, t: Seq<char>, q: int)
    requires
        brackets_closed(s),
        0 <= i <= b <= s.len(),
        b == s.len() || s[b] == '<',
        tag_shaped(t),
        0 <= q < b - i,
        matches_at(s.subrange(i, b) + y, t, q),
    ensures
        matches_at(s, t, i + q),
        i + q + t.len() <= b,
{
    let x = s.subrange(i, b);
    let r = x + y;
    let p = i + q;
    assert(r.subrange(q, q + t.len())[0] == t[0]);
    assert(s[p] == '<');
    let e = choose|e: int| #[trigger] bracket_closes(s, p, e);
    assert(e < b) by {
        if e >= b {
            assert(b < s.len());
            assert(s[b] != '<');
        }
    }
    let l = t.len() as int;
    if l - 1 < e - p {
        assert(r.subrange(q, q + l)[l - 1] == r[q + l - 1]);
        assert(r[q + l - 1] == s[p + l - 1]);
    } else if l - 1 > e - p {
        assert(r[q + e - p] == s[e]);
        assert(r.subrange(q, q + l)[e - p] == t[e - p]);
    }
    assert(s.subrange(p, p + l) == r.subrange(q, q + l));
}

/// A piece cut right before a `<`, followed by a text whose brackets are
/// closed, has its brackets closed.
proof fn lemma_piece_brackets(s: Seq<char>, i: int, b: int, y: Seq<char>)
    requires
        brackets_closed(s),
        brackets_closed(y),
        0 <= i <= b <= s.len(),
        b == s.len() || s[b] == '<',
    ensures
        brackets_closed(s.subrange(i, b) + y),
{
    let x = s.subrange(i, b);
    let r = x + y;
    assert forall|p: int| #![trigger r[p]] 0 <= p < r.len() && r[p] == '<' implies exists|e: int|
        #[trigger] bracket_closes(r, p, e) by {
        if p < x.len() {
            assert(s[i + p] == '<');
            let e = choose|e: int| #[trigger] bracket_closes(s, i + p, e);
            if e >= b {
                assert(s[b] != '<');
            }
            assert(bracket_closes(r, p, e - i));
        } else {
            assert(y[p - x.len()] == '<');
            let e = choose|e: int| #[trigger] bracket_closes(y, p - x.len(), e);
            assert forall|m: int| p < m < e + x.len() implies r[m] != '<' && r[m] != '>' by {
                assert(r[m] == y[m - x.len()]);
            }
            assert(bracket_closes(r, p, e + x.len()));
        }
    }
}

/// Stripping sections keeps the brackets closed and makes no new tag: a tag
/// found in the result was in the text, and is not the opening tag of the
/// stripped sections.
proof fn lemma_strip_makes_no_tag(s: Seq<char>, open: Seq<char>, close: Seq<char>, i: int, t: Seq<char>)
    requires
        brackets_closed(s),
        0 <= i <= s.len(),
        open.len() > 0,
        open[0] == '<',
        tag_shaped(t),
    ensures
        brackets_closed(strip_sections_from(s, open, close, i)),
        contains(strip_sections_from(s, open, close, i), t) ==> contains(s, t) && t != open,
    decreases s.len() - i,
{
    let r = strip_sections_from(s, open, close, i);
    let empty = Seq::<char>::empty();
    lemma_find_from(s, open, i);
    crate::text::lemma_find(r, t);
    match find_from(s, open, i) {
        None => {
            let n = s.len() as int;
            assert(r == s.subrange(i, n) + empty);
            lemma_piece_brackets(s, i, n, empty);
            if contains(r, t) {
                let q = find(r, t).unwrap();
                lemma_tag_in_piece(s, i, n, empty, t, q);
                crate::text::lemma_find_some_iff(s, t, i + q);
            }
        },
        Some(start) => {
            assert(s.subrange(start, start + open.len())[0] == open[0]);
            assert(s[start] == '<');
            lemma_find_from(s, close, start + open.len());
            match find_from(s, close, start + open.len()) {
                None => {
                    assert(r == s.subrange(i, start) + empty);
                    lemma_piece_brackets(s, i, start, empty);
                    if contains(r, t) {
                        let q = find(r, t).unwrap();
                        lemma_tag_in_piece(s, i, start, empty, t, q);
                        crate::text::lemma_find_some_iff(s, t, i + q);
                    }
                },
                Some(end) => {
                    let j = end + close.len();
                    let rest = strip_sections_from(s, open, close, j);
                    lemma_strip_makes_no_tag(s, open, close, j, t);
                    assert(r == s.subrange(i, start) + rest);
                    lemma_piece_brackets(s, i, start, rest);
                    if contains(r, t) {
                        let q = find(r, t).unwrap();
                        if q < start - i {
                            lemma_tag_in_piece(s, i, start, rest, t, q);
                            crate::text::lemma_find_some_iff(s, t, i + q);
                        } else {
                            lemma_matches_concat(s.subrange(i, start), rest, t, q);
                            crate::text::lemma_find_some_iff(rest, t, q - (start - i));
                        }
                    }
                },
            }
        },
    }
}

/// `stripped_section` at `name` keeps the brackets closed, makes no new tag
/// and leaves no opening tag of `name`.
proof fn lemma_stripped_section_makes_no_tag(s: Seq<char>, name: Seq<char>, t: Seq<char>)
    requires
        brackets_closed(s),
        tag_shaped(t),
    ensures
        brackets_closed(stripped_section(s, name)),
        contains(stripped_section(s, name), t) ==> contains(s, t) && t != section_open(name),
{
    lemma_strip_makes_no_tag(s, section_open(name), section_close(name), 0, t);
}

/// A section name that makes a tag: no `>` in it, and no `'\n'`.
pub open spec fn tag_name(name: Seq<char>) -> bool {
    forall|m: int| 0 <= m < name.len() ==> name[m] != '>' && name[m] != '\n'
}

proof fn lemma_section_open_shaped(name: Seq<char>)
    requires
        tag_name(name),
    ensures
        tag_shaped(section_open(name)),
        forall|m: int| 0 <= m < section_open(name).len() ==> section_open(name)[m] != '\n',
{
    let o = section_open(name);
    assert forall|m: int| 0 <= m < o.len() - 1 implies o[m] != '>' by {
        if m > 0 {
            assert(o[m] == name[m - 1]);
        }
    }
    assert forall|m: int| 0 <= m < o.len() implies o[m] != '\n' by {
        if 0 < m < o.len() - 1 {
            assert(o[m] == name[m - 1]);
        }
    }
}

/// The five removed sections, in the order they are removed.
pub open spec fn section_names() -> Seq<Seq<char>> {
    seq![
        SKILLS_SECTION@,
        PLUGINS_SECTION@,
        APPS_SECTION@,
        PERMISSIONS_SECTION@,
        ENVIRONMENT_SECTION@,
    ]
}

proof fn lemma_section_names_are_tag_names()
    ensures
        forall|k: int| 0 <= k < 5 ==> #[trigger] tag_name(section_names()[k]),
        section_names().len() == 5,
{
    reveal_strlit("skills_instructions");
    reveal_strlit("plugins_instructions");
    reveal_strlit("apps_instructions");
    reveal_strlit("permissions instructions");
    reveal_strlit("environment_context");
    assert(tag_name(SKILLS_SECTION@));
    assert(tag_name(PLUGINS_SECTION@));
    assert(tag_name(APPS_SECTION@));
    assert(tag_name(PERMISSIONS_SECTION@));
    assert(tag_name(ENVIRONMENT_SECTION@));
}

/// Removing the five sections leaves no opening tag of the `k`-th one.
proof fn lemma_without_sections_drops(text: Seq<char>, k: int)
    requires
        brackets_closed(text),
        0 <= k < 5,
    ensures
        !contains(without_sections(text), section_open(section_names()[k])),
{
    lemma_section_names_are_tag_names();
    let t = section_open(section_names()[k]);
    lemma_section_open_shaped(section_names()[k]);
    let w1 = stripped_section(text, SKILLS_SECTION@);
    lemma_stripped_section_makes_no_tag(text, SKILLS_SECTION@, t);
    let w2 = stripped_section(w1, PLUGINS_SECTION@);
    lemma_stripped_section_makes_no_tag(w1, PLUGINS_SECTION@, t);
    let w3 = stripped_section(w2, APPS_SECTION@);
    lemma_stripped_section_makes_no_tag(w2, APPS_SECTION@, t);
    let w4 = stripped_section(w3, PERMISSIONS_SECTION@);
    lemma_stripped_section_makes_no_tag(w3, PERMISSIONS_SECTION@, t);
    let w5 = stripped_section(w4, ENVIRONMENT_SECTION@);
    lemma_stripped_section_makes_no_tag(w4, ENVIRONMENT_SECTION@, t);
    assert(w5 == without_sections(text));
}

/// The line property of not holding `t`.
pub open spec fn lacks_pred(t: Seq<char>) -> spec_fn(Seq<char>) -> bool {
    |line: Seq<char>| !contains(line, t)
}

/// Whether a line holds a tag does not depend on the whitespace around it.
proof fn lemma_lacks_trim_invariant(t: Seq<char>)
    requires
        tag_shaped(t),
    ensures
        trim_invariant(lacks_pred(t)),
{
    assert forall|x: Seq<char>| #[trigger] lacks_pred(t)(x) == lacks_pred(t)(trim(x)) by {
        lemma_trim_subrange(x);
        let (lo, hi) = choose|lo: int, hi: int|
            0 <= lo <= hi <= x.len() && trim(x) == x.subrange(lo, hi);
        if contains(trim(x), t) {
            crate::text::lemma_contains_in_subrange(x, lo, hi, t);
        }
        if contains(x, t) {
            assert(t.last() == t[t.len() - 1]);
            lemma_notice_in_trim(x, t);
        }
    }
    assert(find_from(Seq::<char>::empty(), t, 0) is None);
}

/// The lines of a text that lacks `t` lack it too.
proof fn lemma_lines_from_lack(s: Seq<char>, i: int, t: Seq<char>)
    requires
        !contains(s, t),
    ensures
        forall|j: int| 0 <= j < lines_from(s, i).len() ==> !contains(#[trigger] lines_from(s, i)[j], t),
    decreases s.len() - i,
{
    if 0 <= i < s.len() {
        lemma_find_from(s, seq!['\n'], i);
        match find_from(s, seq!['\n'], i) {
            None => {
                let n = s.len() as int;
                if contains(s.subrange(i, n), t) {
                    crate::text::lemma_contains_in_subrange(s, i, n, t);
                }
                assert(lines_from(s, i) == seq![s.subrange(i, n)]);
            },
            Some(k) => {
                let seg = s.subrange(i, k);
                if contains(seg, t) {
                    crate::text::lemma_contains_in_subrange(s, i, k, t);
                }
                if seg.len() > 0 && seg.last() == '\r' {
                    assert(strip_cr(seg) == s.subrange(i, k - 1));
                    if contains(s.subrange(i, k - 1), t) {
                        crate::text::lemma_contains_in_subrange(s, i, k - 1, t);
                    }
                }
                lemma_lines_from_lack(s, k + 1, t);
                assert forall|j: int| 0 <= j < lines_from(s, i).len() implies !contains(
                    #[trigger] lines_from(s, i)[j],
                    t,
                ) by {
                    if j > 0 {
                        assert(lines_from(s, i)[j] == lines_from(s, k + 1)[j - 1]);
                    }
                }
            },
        }
    }
}

/// The kept lines are lines of the input, so they keep any property that
/// every input line has.
proof fn lemma_kept_lines_hold(lines: Seq<Seq<char>>, pred: spec_fn(Seq<char>) -> bool)
    requires
        forall|j: int| 0 <= j < lines.len() ==> #[trigger] pred(lines[j]),
    ensures
        forall|j: int| 0 <= j < kept_lines(lines).len() ==> #[trigger] pred(kept_lines(lines)[j]),
    decreases lines.len(),
{
    if lines.len() > 0 {
        let rest = lines.drop_last();
        assert forall|j: int| 0 <= j < rest.len() implies #[trigger] pred(rest[j]) by {
            assert(rest[j] == lines[j]);
        }
        lemma_kept_lines_hold(rest, pred);
        let acc = kept_lines(rest);
        let line = lines.last();
        assert(pred(lines[lines.len() - 1]));
        if !keep_line(line) || (is_blank(line) && acc.len() > 0 && is_blank(acc.last())) {
            assert(kept_lines(lines) == acc);
        } else {
            assert(kept_lines(lines) == acc.push(line));
            assert forall|j: int| 0 <= j < kept_lines(lines).len() implies #[trigger] pred(
                kept_lines(lines)[j],
            ) by {
                if j < acc.len() {
                    assert(kept_lines(lines)[j] == acc[j]);
                }
            }
        }
    }
}

/// A text none of whose lines holds `t` (a text without `'\n'`) does not
/// hold `t`.
proof fn lemma_lines_lack_text_lacks(r: Seq<char>, t: Seq<char>)
    requires
        lines_hold(r, lacks_pred(t)),
        t.len() > 0,
        forall|m: int| 0 <= m < t.len() ==> t[m] != '\n',
    ensures
        !contains(r, t),
{
    if contains(r, t) {
        crate::text::lemma_find(r, t);
        let q = find(r, t).unwrap();
        let l = t.len() as int;
        assert forall|m: int| q <= m < q + l implies r[m] != '\n' by {
            assert(r.subrange(q, q + l)[m - q] == t[m - q]);
        }
        let i0 = lemma_line_start(r, q);
        let e = lemma_next_line_end(r, q + l);
        assert(newline_free(r, i0, e));
        lemma_line_before_segment(r, i0, e);
        assert(line_end(r, e));
        let line = r.subrange(i0, e);
        assert(line.subrange(q - i0, q - i0 + l) == r.subrange(q, q + l));
        crate::text::lemma_find_some_iff(line, t, q - i0);
        assert(lacks_pred(t)(line_before(r, e)));
    }
}

/// Sanitizing removes the five bulky sections: when every `<` of the base
/// instructions is closed by a `>` before any other bracket (as in
/// well-formed markup), the result holds no opening tag of any of them.
/// (Without that, a stray `<` could meet the text after a removed section
/// and spell a new opening tag, which the single removal pass leaves.)
pub proof fn lemma_sanitized_drops_sections(text: Seq<char>)
    requires
        brackets_closed(text),
    ensures
        !contains(sanitized(text), section_open(SKILLS_SECTION@)),
        !contains(sanitized(text), section_open(PLUGINS_SECTION@)),
        !contains(sanitized(text), section_open(APPS_SECTION@)),
        !contains(sanitized(text), section_open(PERMISSIONS_SECTION@)),
        !contains(sanitized(text), section_open(ENVIRONMENT_SECTION@)),
{
    assert forall|k: int| 0 <= k < 5 implies !contains(
        sanitized(text),
        #[trigger] section_open(section_names()[k]),
    ) by {
        lemma_sanitized_drops_section(text, k);
    }
    assert(section_names()[0] == SKILLS_SECTION@);
    assert(section_names()[1] == PLUGINS_SECTION@);
    assert(section_names()[2] == APPS_SECTION@);
    assert(section_names()[3] == PERMISSIONS_SECTION@);
    assert(section_names()[4] == ENVIRONMENT_SECTION@);
}

proof fn lemma_sanitized_drops_section(text: Seq<char>, k: int)
    requires
        brackets_closed(text),
        0 <= k < 5,
    ensures
        !contains(sanitized(text), section_open(section_names()[k])),
{
    lemma_section_names_are_tag_names();
    let t = section_open(section_names()[k]);
    lemma_section_open_shaped(section_names()[k]);
    lemma_without_sections_drops(text, k);
    let stripped = without_sections(text);
    let lines = lines_of(stripped);
    let pred = lacks_pred(t);
    lemma_lacks_trim_invariant(t);
    lemma_lines_from_lack(stripped, 0, t);
    lemma_lines_from_newline_free(stripped, 0);
    assert forall|j: int| 0 <= j < lines.len() implies #[trigger] pred(lines[j]) by {
        assert(!contains(lines[j], t));
    }
    lemma_kept_lines_hold(lines, pred);
    lemma_kept_lines_pass(lines);
    assert forall|j: int| 0 <= j < kept_lines(lines).len() implies #[trigger] pred(
        kept_lines(lines)[j],
    ) && newline_free(kept_lines(lines)[j], 0, kept_lines(lines)[j].len() as int) by {
        assert(keep_line(kept_lines(lines)[j]));
    }
    lemma_join_lines_pass(kept_lines(lines), pred);
    let joined = join(kept_lines(lines), seq!['\n']);
    lemma_squeeze_lines_pass(joined, pred);
    lemma_trim_lines_pass(squeeze_newlines(joined), pred);
    lemma_lines_lack_text_lacks(sanitized(text), t);
}

// ---------------------------------------------------------------------------
// Executable operations
// ---------------------------------------------------------------------------

/// Removes every `<tag>...</tag>` section (character vector form).
pub fn strip_section_chars(text: &Vec<char>, tag: &Vec<char>) -> (out: Vec<char>)
    ensures
        out@ == stripped_section(text@, tag@),
{
    let mut open: Vec<char> = Vec::new();
    open.push('<');
    push_all(&mut open, tag);
    open.push('>');
    let mut close: Vec<char> = Vec::new();
    close.push('<');
    close.push('/');
    push_all(&mut close, tag);
    close.push('>');
    assert(open@ == section_open(tag@));
    assert(close@ == section_close(tag@));
    let ghost whole = strip_sections_from(text@, open@, close@, 0);
    let mut out: Vec<char> = Vec::new();
    let mut i: usize = 0;
    loop
        invariant
            i <= text.len(),
            open@ == section_open(tag@),
            close@ == section_close(tag@),
            whole == strip_sections_from(text@, open@, close@, 0),
            out@ + strip_sections_from(text@, open@, close@, i as int) == whole,
        decreases text.len() - i,
    {
        proof {
            lemma_find_from(text@, open@, i as int);
        }
        match find_chars_from(text, &open, i) {
            None => {
                let rest = slice_of(text, i, text.len());
                push_all(&mut out, &rest);
                return out;
            },
            Some(start) => {
                let before = slice_of(text, i, start);
                push_all(&mut out, &before);
                proof {
                    lemma_find_from(text@, close@, start + open.len());
                }
                match find_chars_from(text, &close, start + open.len()) {
                    None => {
                        return out;
                    },
                    Some(end) => {
                        assert(out@ + strip_sections_from(
                            text@,
                            open@,
                            close@,
                            end + close.len(),
                        ) == whole);
                        i = end + close.len();
                    },
                }
            },
        }
    }
}

/// Removes every `<tag>...</tag>` section from `text`; an opening tag without
/// a closing tag drops the rest of the text.
pub fn strip_tagged_section(text: &str, tag: &str) -> (out: String)
    ensures
        out@ == stripped_section(text@, tag@),
{
    let text_chars = chars_of(text);
    let tag_chars = chars_of(tag);
    let out = strip_section_chars(&text_chars, &tag_chars);
    string_of(&out)
}

/// The lines of `s` (character vector form).
pub fn lines_chars(s: &Vec<char>) -> (out: Vec<Vec<char>>)
    ensures
        views(out@) == lines_of(s@),
{
    let mut newline: Vec<char> = Vec::new();
    newline.push('\n');
    let mut out: Vec<Vec<char>> = Vec::new();
    let mut i: usize = 0;
    while i < s.len()
        invariant
            i <= s.len(),
            newline@ == seq!['\n'],
            views(out@) + lines_from(s@, i as int) == lines_of(s@),
        decreases s.len() - i,
    {
        proof {
            lemma_find_from(s@, newline@, i as int);
        }
        let ghost prev = out@;
        match find_chars_from(s, &newline, i) {
            None => {
                let line = slice_of(s, i, s.len());
                out.push(line);
                proof {
                    assert(views(out@) == views(prev) + seq![s@.subrange(i as int, s.len() as int)]);
                    assert(lines_from(s@, s.len() as int) == Seq::<Seq<char>>::empty());
                }
                i = s.len();
            },
            Some(k) => {
                let mut line = slice_of(s, i, k);
                if line.len() > 0 && line[line.len() - 1] == '\r' {
                    line.pop();
                }
                assert(line@ == strip_cr(s@.subrange(i as int, k as int)));
                out.push(line);
                proof {
                    assert(views(out@) == views(prev) + seq![strip_cr(s@.subrange(i as int, k as int))]);
                }
                i = k + 1;
            },
        }
    }
    out
}

/// Whether a line survives the notice filter.
pub fn keeps_line(line: &Vec<char>) -> (b: bool)
    ensures
        b == keep_line(line@),
{
    let t = trimmed(line);
    let warning = chars_of(WARNING_SIGN);
    let budget = chars_of(BUDGET_NOTICE);
    let shortened = chars_of(SHORTENED_NOTICE);
    !starts_with_chars(&t, &warning) && !contains_chars(&t, &budget) && !contains_chars(
        &t,
        &shortened,
    )
}

/// The surviving lines, with repeated blank lines dropped.
pub fn kept_lines_chars(lines: &Vec<Vec<char>>) -> (out: Vec<Vec<char>>)
    ensures
        views(out@) == kept_lines(views(lines@)),
{
    let mut out: Vec<Vec<char>> = Vec::new();
    let mut i: usize = 0;
    while i < lines.len()
        invariant
            i <= lines.len(),
            views(out@) == kept_lines(views(lines@).take(i as int)),
        decreases lines.len() - i,
    {
        let ghost prev = out@;
        let line = &lines[i];
        let drop = !keeps_line(line) || (blank(line) && out.len() > 0 && blank(&out[out.len() - 1]));
        proof {
            let taken = views(lines@).take(i + 1);
            assert(taken.drop_last() == views(lines@).take(i as int));
            assert(taken.last() == line@);
            if out.len() > 0 {
                assert(views(out@).last() == out@[out.len() - 1]@);
            }
        }
        if !drop {
            out.push(line.clone());
            proof {
                assert(views(out@) == views(prev).push(line@));
            }
        }
        i += 1;
    }
    assert(views(lines@).take(lines.len() as int) == views(lines@));
    out
}

/// Reduces every run of newlines to a single newline.
pub fn squeeze_newline_chars(s: &Vec<char>) -> (out: Vec<char>)
    ensures
        out@ == squeeze_newlines(s@),
{
    let mut out: Vec<char> = Vec::new();
    let mut i: usize = 0;
    while i < s.len()
        invariant
            i <= s.len(),
            out@ == squeeze_newlines(s@.take(i as int)),
        decreases s.len() - i,
    {
        proof {
            let taken = s@.take(i + 1);
            assert(taken.drop_last() == s@.take(i as int));
            assert(taken.last() == s@[i as int]);
            if i >= 1 {
                assert(taken[taken.len() - 2] == s@[i - 1]);
            }
        }
        if !(s[i] == '\n' && i >= 1 && s[i - 1] == '\n') {
            out.push(s[i]);
        }
        i += 1;
    }
    assert(s@.take(s.len() as int) == s@);
    out
}

/// Removes the skills, plugins, apps, permissions and environment sections,
/// drops skill-budget notices, collapses blank lines and trims the result.
pub fn sanitize_base_instructions(text: &str) -> (out: String)
    ensures
        out@ == sanitized(text@),
{
    let mut s = chars_of(text);
    s = strip_section_chars(&s, &chars_of(SKILLS_SECTION));
    s = strip_section_chars(&s, &chars_of(PLUGINS_SECTION));
    s = strip_section_chars(&s, &chars_of(APPS_SECTION));
    s = strip_section_chars(&s, &chars_of(PERMISSIONS_SECTION));
    s = strip_section_chars(&s, &chars_of(ENVIRONMENT_SECTION));
    let lines = lines_chars(&s);
    let kept = kept_lines_chars(&lines);
    let mut newline: Vec<char> = Vec::new();
    newline.push('\n');
    let joined = join_chars(&kept, &newline);
    let squeezed = squeeze_newline_chars(&joined);
    let out = trimmed(&squeezed);
    string_of(&out)
}

} // verus!
