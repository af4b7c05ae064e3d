//! The request URL of Minc's ask endpoint and fitting the query and the
//! system prompt into its length budget.

use vstd::prelude::*;
use vstd::utf8::encode_utf8;
use crate::text::{chars_of, string_of};
use crate::transcript::{build_system_prompt, render_prompt_transcript, system_prompt, transcript};
use crate::truncate::{
    truncate_chars_from_end, truncate_chars_from_start, truncated_from_end, truncated_from_start,
};
use crate::models::url_parse_of;
use crate::types::{MincError, MincErrorView, Prompt};

verus! {

/// The path of the ask endpoint.
pub const ASK_PATH: &'static str = "/api/v1/ask";
pub const QUERY_KEY: &'static str = "q";
pub const MODEL_KEY: &'static str = "model";
pub const FORMAT_KEY: &'static str = "format";
pub const FORMAT_JSON: &'static str = "json";
pub const SYSTEM_KEY: &'static str = "system";
pub const INVALID_BASE_URL: &'static str = "invalid Minc base_url: ";

/// The query starts with at most this many characters.
pub const MAX_MINC_QUERY_CHARS: usize = 1_800;
/// The system prompt starts with at most this many characters.
pub const MAX_MINC_SYSTEM_CHARS: usize = 1_800;
/// The length budget of the request URL, in bytes.
pub const MAX_MINC_URL_CHARS: usize = 5_500;
/// The query is never cut below this many characters.
pub const MIN_MINC_QUERY_CHARS: usize = 300;
/// The system prompt is never cut below this many characters.
pub const MIN_MINC_SYSTEM_CHARS: usize = 500;

/// How many bytes of the URL serialization one character of the base URL
/// can become at most: percent-encoding turns a character into at most 12
/// bytes (4 UTF-8 bytes, 3 each), and IDNA mapping (at most 18 code points
/// per character) with Punycode stays below 256 bytes for a host character.
pub const URL_BYTES_PER_CHAR: u64 = 256;

/// How many bytes one character of a path or of a form-encoded query pair
/// can become at most: its UTF-8 bytes, percent-encoded 3 bytes each.
pub const ENCODED_BYTES_PER_CHAR: u64 = 12;

/// The room taken by the fixed parts of an ask URL and by the fitted query
/// and system prompt (at most 1806 and 1801 characters).
pub const ASK_URL_FIXED_CHARS: usize = 4_096;

/// The characters of query pairs, with one `=` and one separator each.
pub open spec fn pairs_chars(pairs: Seq<(Seq<char>, Seq<char>)>) -> nat
    decreases pairs.len(),
{
    if pairs.len() == 0 {
        0
    } else {
        pairs[0].0.len() + pairs[0].1.len() + 2 + pairs_chars(pairs.drop_first())
    }
}

/// The inputs whose URL the url crate can build without outgrowing its
/// `u32` offsets: the url crate keeps offsets into the serialization as
/// `u32` and panics (`to_u32(..).unwrap()`) beyond them, so the most bytes
/// that the base URL, the path and the pairs can become must stay within
/// `u32::MAX`.
pub open spec fn url_input_fits(base_url: Seq<char>, path: Seq<char>, pairs: Seq<(Seq<char>, Seq<char>)>) -> bool {
    URL_BYTES_PER_CHAR * base_url.len() + ENCODED_BYTES_PER_CHAR * (path.len() + pairs_chars(pairs)
        + 2) <= u32::MAX
}

/// The URL that the url crate makes of `base_url` with its path replaced by
/// `path`, its query removed and the form-encoded `pairs` appended as the
/// new query; or the text of the parse error of `base_url`.
pub uninterp spec fn url_with_query_of(
    base_url: Seq<char>,
    path: Seq<char>,
    pairs: Seq<(Seq<char>, Seq<char>)>,
) -> Result<Seq<char>, Seq<char>>;

/// The characters of a URL or of a URL error.
pub open spec fn url_result_view(r: Result<String, String>) -> Result<Seq<char>, Seq<char>> {
    match r {
        Ok(u) => Ok(u@),
        Err(e) => Err(e@),
    }
}

/// The characters of query pairs.
pub open spec fn pairs_view(pairs: Seq<(String, String)>) -> Seq<(Seq<char>, Seq<char>)> {
    pairs.map_values(|p: (String, String)| (p.0@, p.1@))
}

/// Parses `base_url` with `url::Url::parse` (re-exported by reqwest), then
/// calls `set_path(path)`, `set_query(None)` and
/// `query_pairs_mut().extend_pairs(pairs)`, and returns the serialization;
/// a parse error is returned as its display text.  The contract claims that
/// the result is a function of the arguments, named `url_with_query_of`,
/// and that it fails exactly when `Url::parse` fails, with that error (the
/// only `?` of the body).  The url crate panics when the serialization
/// outgrows its `u32` offsets; `requires` keeps it within them.
#[verifier::external_body]
fn url_with_query(base_url: &str, path: &str, pairs: &Vec<(String, String)>) -> (out: Result<
    String,
    String,
>)
    requires
        url_input_fits(base_url@, path@, pairs_view(pairs@)),
    ensures
        url_result_view(out) == url_with_query_of(base_url@, path@, pairs_view(pairs@)),
        out is Ok <==> url_parse_of(base_url@) is Ok,
        out matches Err(e) ==> (url_parse_of(base_url@) matches Err(pe) && pe == e@),
{
    let mut url = reqwest::Url::parse(base_url).map_err(|err| err.to_string())?;
    url.set_path(path);
    url.set_query(None);
    url.query_pairs_mut().extend_pairs(pairs.iter());
    Ok(url.into())
}

/// The query pairs of an ask request, in order.
pub open spec fn ask_pairs(query: Seq<char>, model: Seq<char>, system: Seq<char>) -> Seq<
    (Seq<char>, Seq<char>),
> {
    seq![
        (QUERY_KEY@, query),
        (MODEL_KEY@, model),
        (FORMAT_KEY@, FORMAT_JSON@),
        (SYSTEM_KEY@, system),
    ]
}

/// The ask URL for a query, a model and a system prompt.
pub open spec fn ask_url(base_url: Seq<char>, query: Seq<char>, model: Seq<char>, system: Seq<char>) -> Result<
    Seq<char>,
    Seq<char>,
> {
    url_with_query_of(base_url, ASK_PATH@, ask_pairs(query, model, system))
}

/// The length in bytes of the ask URL, when the base URL parses.
pub open spec fn ask_url_length(
    base_url: Seq<char>,
    query: Seq<char>,
    model: Seq<char>,
    system: Seq<char>,
) -> Option<nat> {
    match ask_url(base_url, query, model, system) {
        Ok(u) => Some(encode_utf8(u).len()),
        Err(_) => None,
    }
}

/// The ask requests whose URL the url crate can build.
pub open spec fn url_parts_fit(base_url: Seq<char>, query: Seq<char>, model: Seq<char>, system: Seq<
    char,
>) -> bool {
    URL_BYTES_PER_CHAR * base_url.len() + ENCODED_BYTES_PER_CHAR * (query.len() + model.len()
        + system.len() + 64) <= u32::MAX
}

/// The base URLs and models for which every fitted ask URL can be built.
pub open spec fn request_head_fits(base_url: Seq<char>, model: Seq<char>) -> bool {
    URL_BYTES_PER_CHAR * base_url.len() + ENCODED_BYTES_PER_CHAR * (model.len()
        + ASK_URL_FIXED_CHARS) <= u32::MAX
}

/// Whether the ask URL of these parts can be built (see `url_parts_fit`).
pub fn ask_url_fits(base_url: &str, query: &str, model: &str, system: &str) -> (b: bool)
    ensures
        b == url_parts_fit(base_url@, query@, model@, system@),
{
    let b = chars_of(base_url).len() as u128;
    let q = chars_of(query).len() as u128;
    let m = chars_of(model).len() as u128;
    let s = chars_of(system).len() as u128;
    b * 256 + (q + m + s + 64) * 12 <= 0xFFFF_FFFF
}

/// Whether every fitted ask URL for this base URL and model can be built.
pub fn request_fits(base_url: &str, model: &str) -> (b: bool)
    ensures
        b == request_head_fits(base_url@, model@),
{
    let b = chars_of(base_url).len() as u128;
    let m = chars_of(model).len() as u128;
    b * 256 + (m + 4_096) * 12 <= 0xFFFF_FFFF
}

fn ask_url_text(base_url: &str, query: &str, model: &str, system: &str) -> (out: Result<String, String>)
    requires
        url_parts_fit(base_url@, query@, model@, system@),
    ensures
        url_result_view(out) == ask_url(base_url@, query@, model@, system@),
        out is Ok <==> url_parse_of(base_url@) is Ok,
{
    let mut pairs: Vec<(String, String)> = Vec::new();
    pairs.push((string_of(&chars_of(QUERY_KEY)), query.to_owned()));
    pairs.push((string_of(&chars_of(MODEL_KEY)), model.to_owned()));
    pairs.push((string_of(&chars_of(FORMAT_KEY)), string_of(&chars_of(FORMAT_JSON))));
    pairs.push((string_of(&chars_of(SYSTEM_KEY)), system.to_owned()));
    proof {
        reveal_strlit("q");
        reveal_strlit("model");
        reveal_strlit("format");
        reveal_strlit("json");
        reveal_strlit("system");
        reveal_strlit("/api/v1/ask");
        assert(pairs_view(pairs@) == ask_pairs(query@, model@, system@));
        let pv = ask_pairs(query@, model@, system@);
        assert(pv.drop_first().drop_first().drop_first().drop_first().len() == 0);
        assert(pairs_chars(pv) == query@.len() + model@.len() + system@.len() + 30) by {
            reveal_with_fuel(pairs_chars, 5);
        }
    }
    url_with_query(base_url, ASK_PATH, &pairs)
}

/// The ask URL of a request; an unparsable base URL is a fatal error.
pub fn minc_ask_url(base_url: &str, query: &str, model: &str, system: &str) -> (out: Result<
    String,
    MincError,
>)
    requires
        url_parts_fit(base_url@, query@, model@, system@),
    ensures
        out matches Ok(u) ==> ask_url(base_url@, query@, model@, system@) matches Ok(v) && v == u@,
        out matches Err(e) ==> ask_url(base_url@, query@, model@, system@) matches Err(text) && e@
            == MincErrorView::Fatal(INVALID_BASE_URL@ + text),
{
    match ask_url_text(base_url, query, model, system) {
        Ok(u) => Ok(u),
        Err(text) => {
            let mut message = chars_of(INVALID_BASE_URL);
            crate::text::push_str(&mut message, text.as_str());
            Err(MincError::Fatal(string_of(&message)))
        },
    }
}

/// The length in bytes of the ask URL, or `None` when the base URL does not
/// parse.
pub fn minc_request_url_length(base_url: &str, query: &str, model: &str, system: &str) -> (out:
    Option<usize>)
    requires
        url_parts_fit(base_url@, query@, model@, system@),
    ensures
        out matches Some(n) ==> ask_url_length(base_url@, query@, model@, system@) == Some(n as nat),
        out is None ==> ask_url_length(base_url@, query@, model@, system@) is None,
        out is None <==> url_parse_of(base_url@) is Err,
{
    match ask_url_text(base_url, query, model, system) {
        Ok(u) => Some(u.as_str().as_bytes().len()),
        Err(_) => None,
    }
}

// ---------------------------------------------------------------------------
// Fitting the request into the URL budget
// ---------------------------------------------------------------------------

/// The larger of two numbers.
pub open spec fn max_nat(a: nat, b: nat) -> nat {
    if a >= b {
        a
    } else {
        b
    }
}

/// The character limits that fitting settles on, starting from the limits
/// `query_limit` and `system_limit`: while the URL is over budget, the
/// larger limit (the system prompt's on a tie) is cut to four fifths, but
/// never below its minimum; fitting stops when the URL fits, when the base
/// URL does not parse, or when both limits are at their minimum.
pub open spec fn fit_limits(
    base_url: Seq<char>,
    model: Seq<char>,
    query: Seq<char>,
    system: Seq<char>,
    query_limit: nat,
    system_limit: nat,
) -> (nat, nat)
    decreases query_limit + system_limit,
{
    let query_text = truncated_from_start(query, query_limit);
    let system_text = truncated_from_end(system, system_limit);
    match ask_url_length(base_url, query_text, model, system_text) {
        None => (query_limit, system_limit),
        Some(url_len) => if url_len <= MAX_MINC_URL_CHARS || (query_limit <= MIN_MINC_QUERY_CHARS
            && system_limit <= MIN_MINC_SYSTEM_CHARS) {
            (query_limit, system_limit)
        } else if system_limit >= query_limit && system_limit > MIN_MINC_SYSTEM_CHARS {
            fit_limits(
                base_url,
                model,
                query,
                system,
                query_limit,
                max_nat(system_limit * 4 / 5, MIN_MINC_SYSTEM_CHARS as nat),
            )
        } else if query_limit > MIN_MINC_QUERY_CHARS {
            fit_limits(
                base_url,
                model,
                query,
                system,
                max_nat(query_limit * 4 / 5, MIN_MINC_QUERY_CHARS as nat),
                system_limit,
            )
        } else {
            (query_limit, system_limit)
        },
    }
}

/// The smaller of two numbers.
pub open spec fn min_nat(a: nat, b: nat) -> nat {
    if a <= b {
        a
    } else {
        b
    }
}

/// The limits that fitting starts from.
pub open spec fn initial_limits(query: Seq<char>, system: Seq<char>) -> (nat, nat) {
    (
        min_nat(query.len(), MAX_MINC_QUERY_CHARS as nat),
        min_nat(system.len(), MAX_MINC_SYSTEM_CHARS as nat),
    )
}

/// The query and the system prompt as they are sent: the query keeps its
/// end and the system prompt its beginning, within the settled limits.
pub open spec fn fitted_parts(
    base_url: Seq<char>,
    model: Seq<char>,
    query: Seq<char>,
    system: Seq<char>,
) -> (Seq<char>, Seq<char>) {
    let start = initial_limits(query, system);
    let limits = fit_limits(base_url, model, query, system, start.0, start.1);
    (truncated_from_start(query, limits.0), truncated_from_end(system, limits.1))
}

/// Cuts the query (from the front) and the system prompt (from the back)
/// until the ask URL fits its budget, or both are at their minimum.
pub fn fit_request_parts(base_url: &str, model: &str, query: &str, system: &str) -> (out: (
    String,
    String,
))
    requires
        request_head_fits(base_url@, model@),
    ensures
        (out.0@, out.1@) == fitted_parts(base_url@, model@, query@, system@),
        url_parse_of(base_url@) is Ok ==> ask_url_length(base_url@, out.0@, model@, out.1@) is Some,
{
    let q = chars_of(query);
    let s = chars_of(system);
    let mut query_limit = if q.len() < MAX_MINC_QUERY_CHARS {
        q.len()
    } else {
        MAX_MINC_QUERY_CHARS
    };
    let mut system_limit = if s.len() < MAX_MINC_SYSTEM_CHARS {
        s.len()
    } else {
        MAX_MINC_SYSTEM_CHARS
    };
    let ghost start = initial_limits(query@, system@);
    loop
        invariant
            q@ == query@,
            s@ == system@,
            start == initial_limits(query@, system@),
            request_head_fits(base_url@, model@),
            query_limit <= MAX_MINC_QUERY_CHARS,
            system_limit <= MAX_MINC_SYSTEM_CHARS,
            fit_limits(base_url@, model@, query@, system@, start.0, start.1) == fit_limits(
                base_url@,
                model@,
                query@,
                system@,
                query_limit as nat,
                system_limit as nat,
            ),
        decreases query_limit + system_limit,
    {
        let query_text = string_of(&truncate_chars_from_start(&q, query_limit));
        let system_text = string_of(&truncate_chars_from_end(&s, system_limit));
        proof {
            crate::truncate::lemma_truncation_lengths(query@, query_limit as nat);
            crate::truncate::lemma_truncation_lengths(system@, system_limit as nat);
        }
        let url_len = match minc_request_url_length(
            base_url,
            query_text.as_str(),
            model,
            system_text.as_str(),
        ) {
            None => {
                return (query_text, system_text);
            },
            Some(n) => n,
        };
        if url_len <= MAX_MINC_URL_CHARS || (query_limit <= MIN_MINC_QUERY_CHARS && system_limit
            <= MIN_MINC_SYSTEM_CHARS) {
            return (query_text, system_text);
        }
        if system_limit >= query_limit && system_limit > MIN_MINC_SYSTEM_CHARS {
            let cut = system_limit * 4 / 5;
            system_limit = if cut > MIN_MINC_SYSTEM_CHARS {
                cut
            } else {
                MIN_MINC_SYSTEM_CHARS
            };
        } else if query_limit > MIN_MINC_QUERY_CHARS {
            let cut = query_limit * 4 / 5;
            query_limit = if cut > MIN_MINC_QUERY_CHARS {
                cut
            } else {
                MIN_MINC_QUERY_CHARS
            };
        } else {
            return (query_text, system_text);
        }
    }
}

/// The fitted ask URL stays within its budget, unless the base URL does not
/// parse or both parts are already cut to their minimum.
pub proof fn lemma_fit_respects_url_budget(
    base_url: Seq<char>,
    model: Seq<char>,
    query: Seq<char>,
    system: Seq<char>,
)
    ensures
        ({
            let start = initial_limits(query, system);
            let limits = fit_limits(base_url, model, query, system, start.0, start.1);
            let parts = fitted_parts(base_url, model, query, system);
            ||| ask_url_length(base_url, parts.0, model, parts.1) is None
            ||| ask_url_length(base_url, parts.0, model, parts.1).unwrap() <= MAX_MINC_URL_CHARS
            ||| (limits.0 <= MIN_MINC_QUERY_CHARS && limits.1 <= MIN_MINC_SYSTEM_CHARS)
        }),
{
    let start = initial_limits(query, system);
    lemma_fit_limits_settle(base_url, model, query, system, start.0, start.1);
}

/// Fitting never raises a limit, and never cuts below the minimum (or
/// below the text's own length, when that is shorter): the query keeps
/// between min(length, 300) and min(length, 1800) characters, the system
/// prompt between min(length, 500) and min(length, 1800).
pub proof fn lemma_fit_limits_range(
    base_url: Seq<char>,
    model: Seq<char>,
    query: Seq<char>,
    system: Seq<char>,
)
    ensures
        ({
            let start = initial_limits(query, system);
            let limits = fit_limits(base_url, model, query, system, start.0, start.1);
            &&& min_nat(query.len(), MIN_MINC_QUERY_CHARS as nat) <= limits.0 <= start.0
            &&& start.0 <= MAX_MINC_QUERY_CHARS
            &&& min_nat(system.len(), MIN_MINC_SYSTEM_CHARS as nat) <= limits.1 <= start.1
            &&& start.1 <= MAX_MINC_SYSTEM_CHARS
        }),
{
    let start = initial_limits(query, system);
    lemma_fit_limits_between(base_url, model, query, system, start.0, start.1);
}

proof fn lemma_fit_limits_between(
    base_url: Seq<char>,
    model: Seq<char>,
    query: Seq<char>,
    system: Seq<char>,
    query_limit: nat,
    system_limit: nat,
)
    ensures
        ({
            let limits = fit_limits(base_url, model, query, system, query_limit, system_limit);
            &&& min_nat(query_limit, MIN_MINC_QUERY_CHARS as nat) <= limits.0 <= query_limit
            &&& min_nat(system_limit, MIN_MINC_SYSTEM_CHARS as nat) <= limits.1 <= system_limit
        }),
    decreases query_limit + system_limit,
{
    let query_text = truncated_from_start(query, query_limit);
    let system_text = truncated_from_end(system, system_limit);
    match ask_url_length(base_url, query_text, model, system_text) {
        None => {},
        Some(url_len) => {
            if url_len <= MAX_MINC_URL_CHARS || (query_limit <= MIN_MINC_QUERY_CHARS
                && system_limit <= MIN_MINC_SYSTEM_CHARS) {
            } else if system_limit >= query_limit && system_limit > MIN_MINC_SYSTEM_CHARS {
                lemma_fit_limits_between(
                    base_url,
                    model,
                    query,
                    system,
                    query_limit,
                    max_nat(system_limit * 4 / 5, MIN_MINC_SYSTEM_CHARS as nat),
                );
            } else if query_limit > MIN_MINC_QUERY_CHARS {
                lemma_fit_limits_between(
                    base_url,
                    model,
                    query,
                    system,
                    max_nat(query_limit * 4 / 5, MIN_MINC_QUERY_CHARS as nat),
                    system_limit,
                );
            } else {
            }
        },
    }
}

/// A request that fits its budget at the 1800-character caps is sent at
/// those caps: nothing more is cut.
pub proof fn lemma_fitting_request_is_not_cut(
    base_url: Seq<char>,
    model: Seq<char>,
    query: Seq<char>,
    system: Seq<char>,
)
    requires
        ({
            let start = initial_limits(query, system);
            let len = ask_url_length(
                base_url,
                truncated_from_start(query, start.0),
                model,
                truncated_from_end(system, start.1),
            );
            len is None || len.unwrap() <= MAX_MINC_URL_CHARS
        }),
    ensures
        fitted_parts(base_url, model, query, system) == (
            truncated_from_start(query, initial_limits(query, system).0),
            truncated_from_end(system, initial_limits(query, system).1),
        ),
{
}

proof fn lemma_fit_limits_settle(
    base_url: Seq<char>,
    model: Seq<char>,
    query: Seq<char>,
    system: Seq<char>,
    query_limit: nat,
    system_limit: nat,
)
    ensures
        ({
            let limits = fit_limits(base_url, model, query, system, query_limit, system_limit);
            let len = ask_url_length(
                base_url,
                truncated_from_start(query, limits.0),
                model,
                truncated_from_end(system, limits.1),
            );
            ||| len is None
            ||| len.unwrap() <= MAX_MINC_URL_CHARS
            ||| (limits.0 <= MIN_MINC_QUERY_CHARS && limits.1 <= MIN_MINC_SYSTEM_CHARS)
        }),
    decreases query_limit + system_limit,
{
    let query_text = truncated_from_start(query, query_limit);
    let system_text = truncated_from_end(system, system_limit);
    match ask_url_length(base_url, query_text, model, system_text) {
        None => {},
        Some(url_len) => {
            if url_len <= MAX_MINC_URL_CHARS || (query_limit <= MIN_MINC_QUERY_CHARS
                && system_limit <= MIN_MINC_SYSTEM_CHARS) {
            } else if system_limit >= query_limit && system_limit > MIN_MINC_SYSTEM_CHARS {
                lemma_fit_limits_settle(
                    base_url,
                    model,
                    query,
                    system,
                    query_limit,
                    max_nat(system_limit * 4 / 5, MIN_MINC_SYSTEM_CHARS as nat),
                );
            } else if query_limit > MIN_MINC_QUERY_CHARS {
                lemma_fit_limits_settle(
                    base_url,
                    model,
                    query,
                    system,
                    max_nat(query_limit * 4 / 5, MIN_MINC_QUERY_CHARS as nat),
                    system_limit,
                );
            } else {
            }
        },
    }
}

// ---------------------------------------------------------------------------
// The whole request
// ---------------------------------------------------------------------------

/// The query and system prompt that a turn sends to Minc.
pub open spec fn request_parts(
    base_url: Seq<char>,
    model: Seq<char>,
    instructions: Seq<char>,
    prompt: Prompt,
) -> (Seq<char>, Seq<char>) {
    fitted_parts(base_url, model, transcript(prompt.input@), system_prompt(instructions, prompt))
}

/// Renders the transcript and the system prompt of a turn and fits them to
/// the URL budget.
pub fn minc_request_parts(
    base_url: &str,
    model: &str,
    model_instructions: &str,
    prompt: &Prompt,
) -> (out: (String, String))
    requires
        request_head_fits(base_url@, model@),
    ensures
        (out.0@, out.1@) == request_parts(base_url@, model@, model_instructions@, *prompt),
{
    let raw_query = render_prompt_transcript(prompt);
    let raw_system = build_system_prompt(prompt, model_instructions);
    fit_request_parts(base_url, model, raw_query.as_str(), raw_system.as_str())
}

} // verus!
