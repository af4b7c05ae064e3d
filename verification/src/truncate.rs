//! Character-budget truncation of prompt text.

use vstd::prelude::*;
use crate::text::{chars_of, push_all, push_str, slice_of, string_of};

verus! {

/// The marker that replaces text dropped from the front.
pub const EARLIER_CONTEXT_MARKER: &'static str = "[Earlier context truncated for Minc]\n";

/// The marker that replaces text dropped from the back.
pub const REMAINING_PROMPT_MARKER: &'static str = "\n[Remaining system prompt truncated]";

/// `n - k`, or zero when `k > n` (`usize::saturating_sub`).
pub open spec fn saturating_sub(n: nat, k: nat) -> nat {
    if n >= k {
        (n - k) as nat
    } else {
        0
    }
}

/// Text that fits in `max_chars` characters is kept whole; longer text keeps
/// its last `max_chars - 31` characters behind a marker.
pub open spec fn truncated_from_start(text: Seq<char>, max_chars: nat) -> Seq<char> {
    if text.len() <= max_chars {
        text
    } else {
        let keep = saturating_sub(max_chars, 31);
        EARLIER_CONTEXT_MARKER@ + text.subrange(text.len() - keep, text.len() as int)
    }
}

/// Text that fits in `max_chars` characters is kept whole; longer text keeps
/// its first `max_chars - 35` characters followed by a marker.
pub open spec fn truncated_from_end(text: Seq<char>, max_chars: nat) -> Seq<char> {
    if text.len() <= max_chars {
        text
    } else {
        let keep = saturating_sub(max_chars, 35);
        text.subrange(0, keep as int) + REMAINING_PROMPT_MARKER@
    }
}

/// Keeps the end of `text` (character vector form).
pub fn truncate_chars_from_start(text: &Vec<char>, max_chars: usize) -> (out: Vec<char>)
    ensures
        out@ == truncated_from_start(text@, max_chars as nat),
{
    if text.len() <= max_chars {
        return text.clone();
    }
    let keep = max_chars.saturating_sub(31);
    let mut out = chars_of(EARLIER_CONTEXT_MARKER);
    let kept = slice_of(text, text.len() - keep, text.len());
    push_all(&mut out, &kept);
    out
}

/// Keeps the beginning of `text` (character vector form).
pub fn truncate_chars_from_end(text: &Vec<char>, max_chars: usize) -> (out: Vec<char>)
    ensures
        out@ == truncated_from_end(text@, max_chars as nat),
{
    if text.len() <= max_chars {
        return text.clone();
    }
    let keep = max_chars.saturating_sub(35);
    let mut out = slice_of(text, 0, keep);
    push_str(&mut out, REMAINING_PROMPT_MARKER);
    out
}

/// Keeps the last characters of `text` when it is longer than `max_chars`,
/// behind a marker saying that earlier context was dropped.
pub fn truncate_from_start(text: &str, max_chars: usize) -> (out: String)
    ensures
        out@ == truncated_from_start(text@, max_chars as nat),
{
    let chars = chars_of(text);
    let out = truncate_chars_from_start(&chars, max_chars);
    string_of(&out)
}

/// Keeps the first characters of `text` when it is longer than `max_chars`,
/// followed by a marker saying that the rest was dropped.
pub fn truncate_from_end(text: &str, max_chars: usize) -> (out: String)
    ensures
        out@ == truncated_from_end(text@, max_chars as nat),
{
    let chars = chars_of(text);
    let out = truncate_chars_from_end(&chars, max_chars);
    string_of(&out)
}

/// Truncation never touches text within budget, and otherwise yields exactly
/// the marker plus the kept characters: `max_chars + 6` characters from the
/// front, `max_chars + 1` from the back, once `max_chars` covers the marker.
pub proof fn lemma_truncation_lengths(text: Seq<char>, max_chars: nat)
    ensures
        text.len() <= max_chars ==> truncated_from_start(text, max_chars) == text,
        text.len() <= max_chars ==> truncated_from_end(text, max_chars) == text,
        text.len() > max_chars ==> truncated_from_start(text, max_chars).len()
            == 37 + saturating_sub(max_chars, 31),
        text.len() > max_chars ==> truncated_from_end(text, max_chars).len()
            == saturating_sub(max_chars, 35) + 36,
        text.len() > max_chars && max_chars >= 35 ==> truncated_from_end(text, max_chars).len()
            == max_chars + 1,
{
    reveal_strlit("[Earlier context truncated for Minc]\n");
    reveal_strlit("\n[Remaining system prompt truncated]");
}

} // verus!
