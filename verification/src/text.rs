//! Character-level text model: every string is viewed as a `Seq<char>`,
//! and the searching and trimming that the prompt code relies on is stated
//! over that view.

use vstd::prelude::*;

verus! {

// ---------------------------------------------------------------------------
// Specification
// ---------------------------------------------------------------------------

/// The characters that `char::is_whitespace` accepts (Unicode `White_Space`).
pub open spec fn is_ws(c: char) -> bool {
    ||| c == '\t'
    ||| c == '\n'
    ||| c == '\u{0B}'
    ||| c == '\u{0C}'
    ||| c == '\r'
    ||| c == ' '
    ||| c == '\u{85}'
    ||| c == '\u{A0}'
    ||| c == '\u{1680}'
    ||| ('\u{2000}' <= c && c <= '\u{200A}')
    ||| c == '\u{2028}'
    ||| c == '\u{2029}'
    ||| c == '\u{202F}'
    ||| c == '\u{205F}'
    ||| c == '\u{3000}'
}

/// `s` without its leading whitespace.
pub open spec fn trim_start(s: Seq<char>) -> Seq<char>
    decreases s.len(),
{
    if s.len() > 0 && is_ws(s[0]) {
        trim_start(s.drop_first())
    } else {
        s
    }
}

/// `s` without its trailing whitespace.
pub open spec fn trim_end(s: Seq<char>) -> Seq<char>
    decreases s.len(),
{
    if s.len() > 0 && is_ws(s.last()) {
        trim_end(s.drop_last())
    } else {
        s
    }
}

/// `s` without leading and trailing whitespace (`str::trim`).
pub open spec fn trim(s: Seq<char>) -> Seq<char> {
    trim_end(trim_start(s))
}

/// `true` when every character of `s` is whitespace.
pub open spec fn is_blank(s: Seq<char>) -> bool {
    trim(s).len() == 0
}

/// `p` occurs in `s` at position `i`.
pub open spec fn matches_at(s: Seq<char>, p: Seq<char>, i: int) -> bool {
    &&& 0 <= i
    &&& i + p.len() <= s.len()
    &&& s.subrange(i, i + p.len()) == p
}

/// The first position at or after `i` where `p` occurs in `s`.
pub open spec fn find_from(s: Seq<char>, p: Seq<char>, i: int) -> Option<int>
    decreases s.len() + 1 - i,
{
    if i < 0 || i + p.len() > s.len() {
        None
    } else if matches_at(s, p, i) {
        Some(i)
    } else {
        find_from(s, p, i + 1)
    }
}

/// The first position where `p` occurs in `s` (`str::find`).
pub open spec fn find(s: Seq<char>, p: Seq<char>) -> Option<int> {
    find_from(s, p, 0)
}

/// `p` occurs somewhere in `s` (`str::contains`).
pub open spec fn contains(s: Seq<char>, p: Seq<char>) -> bool {
    find(s, p) is Some
}

/// `s` begins with `p` (`str::starts_with`).
pub open spec fn starts_with(s: Seq<char>, p: Seq<char>) -> bool {
    matches_at(s, p, 0)
}

/// `s` ends with `p` (`str::ends_with`).
pub open spec fn ends_with(s: Seq<char>, p: Seq<char>) -> bool {
    p.len() <= s.len() && matches_at(s, p, s.len() - p.len())
}

/// `parts` with `sep` between consecutive parts (`[&str]::join`).
pub open spec fn join(parts: Seq<Seq<char>>, sep: Seq<char>) -> Seq<char>
    decreases parts.len(),
{
    if parts.len() == 0 {
        Seq::empty()
    } else if parts.len() == 1 {
        parts[0]
    } else {
        join(parts.drop_last(), sep) + sep + parts.last()
    }
}

/// The character views of a vector of character vectors.
pub open spec fn views(parts: Seq<Vec<char>>) -> Seq<Seq<char>> {
    parts.map_values(|v: Vec<char>| v@)
}

// ---------------------------------------------------------------------------
// Lemmas
// ---------------------------------------------------------------------------

/// What `find_from` returns: the first match at or after `i`, or `None` when
/// there is none.
pub proof fn lemma_find_from(s: Seq<char>, p: Seq<char>, i: int)
    requires
        0 <= i,
    ensures
        find_from(s, p, i) matches Some(k) ==> {
            &&& i <= k
            &&& matches_at(s, p, k)
            &&& forall|j: int| i <= j < k ==> !matches_at(s, p, j)
        },
        find_from(s, p, i) is None ==> forall|j: int| i <= j ==> !matches_at(s, p, j),
    decreases s.len() + 1 - i,
{
    if i + p.len() > s.len() {
    } else if matches_at(s, p, i) {
    } else {
        lemma_find_from(s, p, i + 1);
        if let Some(k) = find_from(s, p, i + 1) {
            assert forall|j: int| i <= j < k implies !matches_at(s, p, j) by {
                if j > i {
                }
            }
        } else {
            assert forall|j: int| i <= j implies !matches_at(s, p, j) by {
                if j > i {
                }
            }
        }
    }
}

/// `find` returns the first match, or `None` when `p` does not occur.
pub proof fn lemma_find(s: Seq<char>, p: Seq<char>)
    ensures
        find(s, p) matches Some(k) ==> {
            &&& 0 <= k
            &&& k + p.len() <= s.len()
            &&& s.subrange(k, k + p.len()) == p
            &&& forall|j: int| 0 <= j < k ==> !matches_at(s, p, j)
        },
        find(s, p) is None ==> forall|j: int| 0 <= j ==> !matches_at(s, p, j),
{
    lemma_find_from(s, p, 0);
}

/// A match exists exactly when `find` finds one.
pub proof fn lemma_find_some_iff(s: Seq<char>, p: Seq<char>, j: int)
    requires
        matches_at(s, p, j),
    ensures
        find(s, p) matches Some(k) && k <= j,
{
    lemma_find(s, p);
}

/// Stepping over a non-whitespace-leading suffix keeps `trim_start`.
proof fn lemma_trim_start_step(s: Seq<char>, i: int)
    requires
        0 <= i < s.len(),
        is_ws(s[i]),
    ensures
        trim_start(s.subrange(i, s.len() as int)) == trim_start(s.subrange(i + 1, s.len() as int)),
{
    assert(s.subrange(i, s.len() as int).drop_first() == s.subrange(i + 1, s.len() as int));
}

proof fn lemma_trim_end_step(s: Seq<char>, lo: int, j: int)
    requires
        0 <= lo < j <= s.len(),
        is_ws(s[j - 1]),
    ensures
        trim_end(s.subrange(lo, j)) == trim_end(s.subrange(lo, j - 1)),
{
    assert(s.subrange(lo, j).drop_last() == s.subrange(lo, j - 1));
}

/// `trim` never yields a sequence that starts or ends with whitespace.
pub proof fn lemma_trim_edges(s: Seq<char>)
    ensures
        trim(s).len() > 0 ==> !is_ws(trim(s)[0]) && !is_ws(trim(s).last()),
        trim(s).len() <= s.len(),
{
    lemma_trim_start_props(s);
    lemma_trim_end_props(trim_start(s));
}

/// `trim_start` yields a suffix that does not start with whitespace.
pub proof fn lemma_trim_start_props(s: Seq<char>)
    ensures
        trim_start(s).len() <= s.len(),
        trim_start(s) == s.subrange(s.len() - trim_start(s).len(), s.len() as int),
        trim_start(s).len() > 0 ==> !is_ws(trim_start(s)[0]),
    decreases s.len(),
{
    if s.len() > 0 && is_ws(s[0]) {
        lemma_trim_start_props(s.drop_first());
        assert(s.drop_first().subrange(
            s.drop_first().len() - trim_start(s.drop_first()).len(),
            s.drop_first().len() as int,
        ) == s.subrange(s.len() - trim_start(s).len(), s.len() as int));
    } else {
        assert(s.subrange(0, s.len() as int) == s);
    }
}

/// `trim_end` yields a prefix that does not end with whitespace; the first
/// character survives when it is not whitespace.
pub proof fn lemma_trim_end_props(s: Seq<char>)
    ensures
        trim_end(s).len() <= s.len(),
        trim_end(s) == s.subrange(0, trim_end(s).len() as int),
        trim_end(s).len() > 0 ==> !is_ws(trim_end(s).last()),
        s.len() > 0 && !is_ws(s[0]) ==> trim_end(s).len() > 0 && trim_end(s)[0] == s[0],
    decreases s.len(),
{
    if s.len() > 0 && is_ws(s.last()) {
        lemma_trim_end_props(s.drop_last());
        assert(s.drop_last().subrange(0, trim_end(s.drop_last()).len() as int) == s.subrange(
            0,
            trim_end(s).len() as int,
        ));
    } else {
        assert(s.subrange(0, s.len() as int) == s);
    }
}

/// A text that neither starts nor ends with whitespace is its own trim.
pub proof fn lemma_trim_of_edges(s: Seq<char>)
    requires
        s.len() > 0,
        !is_ws(s[0]),
        !is_ws(s.last()),
    ensures
        trim(s) == s,
{
    assert(trim_start(s) == s);
    assert(trim_end(s) == s);
}

/// `trim` yields a subrange of its input and is idempotent.
pub proof fn lemma_trim_subrange(s: Seq<char>)
    ensures
        exists|lo: int, hi: int| 0 <= lo <= hi <= s.len() && trim(s) == s.subrange(lo, hi),
        trim(trim(s)) == trim(s),
{
    lemma_trim_start_props(s);
    let a = trim_start(s);
    lemma_trim_end_props(a);
    let lo = s.len() - a.len();
    let hi = lo + trim_end(a).len();
    assert(trim(s) == s.subrange(lo, hi));
    lemma_trim_edges(s);
    let t = trim(s);
    assert(trim_start(t) == t);
    assert(trim_end(t) == t);
}

/// A match inside a subrange is a match in the whole text.
pub proof fn lemma_matches_in_subrange(s: Seq<char>, lo: int, hi: int, p: Seq<char>, i: int)
    requires
        0 <= lo <= hi <= s.len(),
        matches_at(s.subrange(lo, hi), p, i),
    ensures
        matches_at(s, p, lo + i),
{
    assert(s.subrange(lo + i, lo + i + p.len()) == s.subrange(lo, hi).subrange(i, i + p.len()));
}

/// A subrange that contains `p` lies in a text that contains `p`.
pub proof fn lemma_contains_in_subrange(s: Seq<char>, lo: int, hi: int, p: Seq<char>)
    requires
        0 <= lo <= hi <= s.len(),
        contains(s.subrange(lo, hi), p),
    ensures
        contains(s, p),
{
    lemma_find(s.subrange(lo, hi), p);
    let k = find(s.subrange(lo, hi), p).unwrap();
    lemma_matches_in_subrange(s, lo, hi, p, k);
    lemma_find_some_iff(s, p, lo + k);
}

/// Where `p + q` occurs, `p` occurs.
pub proof fn lemma_matches_prefix_pattern(s: Seq<char>, p: Seq<char>, q: Seq<char>, i: int)
    requires
        matches_at(s, p + q, i),
    ensures
        matches_at(s, p, i),
{
    assert(s.subrange(i, i + p.len()) == s.subrange(i, i + (p + q).len()).subrange(0, p.len() as int));
    assert((p + q).subrange(0, p.len() as int) == p);
}

/// A text that starts with `p` contains `p`.
pub proof fn lemma_starts_with_contains(s: Seq<char>, p: Seq<char>)
    requires
        starts_with(s, p),
    ensures
        contains(s, p),
{
    lemma_find_some_iff(s, p, 0);
}

/// The first match at or after `i` is the one that `find_from` reports.
pub proof fn lemma_find_from_first(s: Seq<char>, p: Seq<char>, i: int, k: int)
    requires
        0 <= i <= k,
        matches_at(s, p, k),
        forall|j: int| i <= j < k ==> !matches_at(s, p, j),
    ensures
        find_from(s, p, i) == Some(k),
{
    lemma_find_from(s, p, i);
}

/// With no match at or after `i`, `find_from` reports none.
pub proof fn lemma_find_from_none(s: Seq<char>, p: Seq<char>, i: int)
    requires
        0 <= i,
        forall|j: int| i <= j ==> !matches_at(s, p, j),
    ensures
        find_from(s, p, i) is None,
{
    lemma_find_from(s, p, i);
    if let Some(k) = find_from(s, p, i) {
        assert(matches_at(s, p, k));
    }
}

/// A one-character pattern matches exactly where that character stands.
pub proof fn lemma_matches_char(s: Seq<char>, c: char, i: int)
    ensures
        matches_at(s, seq![c], i) <==> (0 <= i < s.len() && s[i] == c),
{
    if 0 <= i < s.len() {
        if s[i] == c {
            assert(s.subrange(i, i + 1) == seq![c]);
        } else {
            assert(s.subrange(i, i + 1)[0] != seq![c][0]);
        }
    }
}

// ---------------------------------------------------------------------------
// Executable operations
// ---------------------------------------------------------------------------

/// Collects the characters of `s`, in order.
pub fn chars_of(s: &str) -> (out: Vec<char>)
    ensures
        out@ == s@,
{
    let mut out: Vec<char> = Vec::new();
    for c in it: s.chars()
        invariant
            out@ == it.seq().take(it.index()),
            it.seq() == s@,
    {
        out.push(c);
    }
    out
}

/// Builds a `String` from characters (`FromIterator<char>` for `String`).
#[verifier::external_body]
pub(crate) fn string_of(chars: &Vec<char>) -> (out: String)
    ensures
        out@ == chars@,
{
    chars.iter().collect()
}

/// An owned copy of a string slice.
pub(crate) fn text_of(s: &str) -> (out: String)
    ensures
        out@ == s@,
{
    string_of(&chars_of(s))
}

/// `char::is_whitespace`.
pub fn is_whitespace(c: char) -> (b: bool)
    ensures
        b == is_ws(c),
{
    c == '\t' || c == '\n' || c == '\u{0B}' || c == '\u{0C}' || c == '\r' || c == ' '
        || c == '\u{85}' || c == '\u{A0}' || c == '\u{1680}' || ('\u{2000}' <= c && c
        <= '\u{200A}') || c == '\u{2028}' || c == '\u{2029}' || c == '\u{202F}' || c
        == '\u{205F}' || c == '\u{3000}'
}

/// A copy of `s[lo..hi]`.
pub fn slice_of(s: &Vec<char>, lo: usize, hi: usize) -> (out: Vec<char>)
    requires
        lo <= hi <= s.len(),
    ensures
        out@ == s@.subrange(lo as int, hi as int),
{
    let mut out: Vec<char> = Vec::new();
    let mut i = lo;
    while i < hi
        invariant
            lo <= i <= hi <= s.len(),
            out@ == s@.subrange(lo as int, i as int),
        decreases hi - i,
    {
        out.push(s[i]);
        i += 1;
        assert(out@ == s@.subrange(lo as int, i as int));
    }
    out
}

/// Appends `src` to `dst`.
pub fn push_all(dst: &mut Vec<char>, src: &Vec<char>)
    ensures
        final(dst)@ == old(dst)@ + src@,
{
    let mut i: usize = 0;
    while i < src.len()
        invariant
            i <= src.len(),
            dst@ == old(dst)@ + src@.subrange(0, i as int),
        decreases src.len() - i,
    {
        dst.push(src[i]);
        i += 1;
        assert(dst@ == old(dst)@ + src@.subrange(0, i as int));
    }
    assert(src@.subrange(0, src.len() as int) == src@);
}

/// Appends the characters of `src` to `dst`.
pub fn push_str(dst: &mut Vec<char>, src: &str)
    ensures
        final(dst)@ == old(dst)@ + src@,
{
    let chars = chars_of(src);
    push_all(dst, &chars);
}

/// The bounds `lo..hi` of `s` once leading and trailing whitespace is removed.
pub fn trim_bounds(s: &Vec<char>) -> (r: (usize, usize))
    ensures
        r.0 <= r.1 <= s.len(),
        s@.subrange(r.0 as int, r.1 as int) == trim(s@),
{
    let n = s.len();
    let mut lo: usize = 0;
    assert(s@.subrange(0, n as int) == s@);
    while lo < n && is_whitespace(s[lo])
        invariant
            lo <= n == s.len(),
            trim_start(s@) == trim_start(s@.subrange(lo as int, n as int)),
        decreases n - lo,
    {
        proof {
            lemma_trim_start_step(s@, lo as int);
        }
        lo += 1;
    }
    assert(trim_start(s@) == s@.subrange(lo as int, n as int)) by {
        if lo < n {
            assert(s@.subrange(lo as int, n as int)[0] == s@[lo as int]);
        }
    }
    let mut hi: usize = n;
    while hi > lo && is_whitespace(s[hi - 1])
        invariant
            lo <= hi <= n == s.len(),
            trim_start(s@) == s@.subrange(lo as int, n as int),
            trim(s@) == trim_end(s@.subrange(lo as int, hi as int)),
        decreases hi,
    {
        proof {
            lemma_trim_end_step(s@, lo as int, hi as int);
        }
        hi -= 1;
    }
    assert(trim_end(s@.subrange(lo as int, hi as int)) == s@.subrange(lo as int, hi as int)) by {
        if hi > lo {
            assert(s@.subrange(lo as int, hi as int).last() == s@[hi - 1]);
        }
    }
    (lo, hi)
}

/// `s` without leading and trailing whitespace.
pub fn trimmed(s: &Vec<char>) -> (out: Vec<char>)
    ensures
        out@ == trim(s@),
{
    let (lo, hi) = trim_bounds(s);
    slice_of(s, lo, hi)
}

/// `true` when every character of `s` is whitespace.
pub fn blank(s: &Vec<char>) -> (b: bool)
    ensures
        b == is_blank(s@),
{
    let (lo, hi) = trim_bounds(s);
    lo == hi
}

/// Whether `p` occurs in `s` at position `i`.
pub fn occurs_at(s: &Vec<char>, p: &Vec<char>, i: usize) -> (b: bool)
    ensures
        b == matches_at(s@, p@, i as int),
{
    if i > s.len() || p.len() > s.len() - i {
        return false;
    }
    let mut k: usize = 0;
    while k < p.len()
        invariant
            i + p.len() <= s.len(),
            k <= p.len(),
            forall|j: int| 0 <= j < k ==> s@[i + j] == p@[j],
        decreases p.len() - k,
    {
        if s[i + k] != p[k] {
            assert(s@.subrange(i as int, i + p.len())[k as int] != p@[k as int]);
            return false;
        }
        k += 1;
    }
    assert(s@.subrange(i as int, i + p.len()) == p@);
    true
}

/// The first position at or after `from` where `p` occurs in `s`.
pub fn find_chars_from(s: &Vec<char>, p: &Vec<char>, from: usize) -> (r: Option<usize>)
    ensures
        r matches Some(k) ==> find_from(s@, p@, from as int) == Some(k as int),
        r is None ==> find_from(s@, p@, from as int) is None,
{
    if p.len() > s.len() {
        proof {
            lemma_find_from(s@, p@, from as int);
            if let Some(k) = find_from(s@, p@, from as int) {
                assert(matches_at(s@, p@, k));
            }
        }
        return None;
    }
    let last = s.len() - p.len();
    if from > last {
        return None;
    }
    let mut i = from;
    loop
        invariant
            last == s.len() - p.len(),
            from <= i <= last,
            find_from(s@, p@, from as int) == find_from(s@, p@, i as int),
        decreases last - i,
    {
        if occurs_at(s, p, i) {
            return Some(i);
        }
        if i == last {
            assert(find_from(s@, p@, i + 1) is None);
            return None;
        }
        i += 1;
    }
}

/// The first position where `p` occurs in `s`.
pub fn find_chars(s: &Vec<char>, p: &Vec<char>) -> (r: Option<usize>)
    ensures
        r matches Some(k) ==> find(s@, p@) == Some(k as int),
        r is None ==> find(s@, p@) is None,
{
    find_chars_from(s, p, 0)
}

/// Whether `p` occurs anywhere in `s`.
pub fn contains_chars(s: &Vec<char>, p: &Vec<char>) -> (b: bool)
    ensures
        b == contains(s@, p@),
{
    find_chars(s, p).is_some()
}

/// Whether `s` begins with `p`.
pub fn starts_with_chars(s: &Vec<char>, p: &Vec<char>) -> (b: bool)
    ensures
        b == starts_with(s@, p@),
{
    occurs_at(s, p, 0)
}

/// Whether `s` ends with `p`.
pub fn ends_with_chars(s: &Vec<char>, p: &Vec<char>) -> (b: bool)
    ensures
        b == ends_with(s@, p@),
{
    if p.len() > s.len() {
        false
    } else {
        occurs_at(s, p, s.len() - p.len())
    }
}

/// `parts` with `sep` between consecutive parts.
pub fn join_chars(parts: &Vec<Vec<char>>, sep: &Vec<char>) -> (out: Vec<char>)
    ensures
        out@ == join(views(parts@), sep@),
{
    let mut out: Vec<char> = Vec::new();
    let mut i: usize = 0;
    while i < parts.len()
        invariant
            i <= parts.len(),
            out@ == join(views(parts@).take(i as int), sep@),
        decreases parts.len() - i,
    {
        let ghost before = views(parts@).take(i as int);
        if i > 0 {
            push_all(&mut out, sep);
        }
        push_all(&mut out, &parts[i]);
        proof {
            let after = views(parts@).take(i + 1);
            assert(after.drop_last() == before);
            assert(after.last() == parts@[i as int]@);
            if i == 0 {
                assert(before.len() == 0);
            }
        }
        i += 1;
    }
    assert(views(parts@).take(parts.len() as int) == views(parts@));
    out
}

} // verus!
