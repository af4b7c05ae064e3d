//! Laws of the directive grammar: what reading an answer gives back of a
//! directive written in the grammar, and when an answer is plain text.

use vstd::prelude::*;
use crate::directive::{
    advertised_kind, attr_value, close_tag, coerced, directive_candidate, directive_text,
    directive_undefined, normalized_arguments, open_prefix, parse_outcome, parsed_directive,
    required_attr_value, tag_block, tag_parts, tag_parts_undefined, AdvertisedToolKind,
    DirectiveView, CODE_FENCE, CUSTOM_TAG, DIRECTIVE_PREFIX, FUNCTION_TAG, MAX_DIRECTIVE_REMARK_CHARS,
    NAMESPACE_ATTR, NAME_ATTR,
};
use crate::json::json_shape_of;
use crate::text::{
    contains, find, find_from, is_ws, lemma_contains_in_subrange, lemma_find,
    lemma_find_from, lemma_find_from_first, lemma_find_from_none, lemma_find_some_iff,
    lemma_matches_char, lemma_matches_prefix_pattern, lemma_starts_with_contains, lemma_trim_of_edges,
    lemma_trim_subrange, matches_at, starts_with, trim,
};
use crate::types::ToolSpec;

verus! {

// ---------------------------------------------------------------------------
// Plain text
// ---------------------------------------------------------------------------

proof fn lemma_no_block_without_prefix(a: Seq<char>, tag: Seq<char>, rest: Seq<char>)
    requires
        !contains(a, DIRECTIVE_PREFIX@),
        open_prefix(tag) == DIRECTIVE_PREFIX@ + rest,
    ensures
        tag_block(a, tag) is None,
{
    lemma_find(a, open_prefix(tag));
    if let Some(st) = find(a, open_prefix(tag)) {
        lemma_matches_prefix_pattern(a, DIRECTIVE_PREFIX@, rest, st);
        lemma_find_some_iff(a, DIRECTIVE_PREFIX@, st);
    }
}

/// An answer that nowhere holds `<minc:` is plain text: reading it gives no
/// directive and no error, whatever tools are advertised.
pub proof fn lemma_plain_text_is_not_a_directive(answer: Seq<char>, tools: Seq<ToolSpec>)
    requires
        !contains(answer, DIRECTIVE_PREFIX@),
    ensures
        !directive_undefined(answer),
        parse_outcome(answer, tools) matches Ok(None),
{
    reveal_strlit("<minc:");
    reveal_strlit("minc:function");
    reveal_strlit("minc:custom");
    lemma_trim_subrange(answer);
    let a = trim(answer);
    let (lo, hi) = choose|lo: int, hi: int|
        0 <= lo <= hi <= answer.len() && trim(answer) == answer.subrange(lo, hi);
    if contains(a, DIRECTIVE_PREFIX@) {
        lemma_contains_in_subrange(answer, lo, hi, DIRECTIVE_PREFIX@);
    }
    if starts_with(a, DIRECTIVE_PREFIX@) {
        lemma_starts_with_contains(a, DIRECTIVE_PREFIX@);
    }
    assert(open_prefix(FUNCTION_TAG@) == DIRECTIVE_PREFIX@ + seq![
        'f',
        'u',
        'n',
        'c',
        't',
        'i',
        'o',
        'n',
    ]);
    assert(open_prefix(CUSTOM_TAG@) == DIRECTIVE_PREFIX@ + seq!['c', 'u', 's', 't', 'o', 'm']);
    lemma_no_block_without_prefix(a, FUNCTION_TAG@, seq!['f', 'u', 'n', 'c', 't', 'i', 'o', 'n']);
    lemma_no_block_without_prefix(a, CUSTOM_TAG@, seq!['c', 'u', 's', 't', 'o', 'm']);
    assert(directive_candidate(answer) is None);
    assert(directive_text(answer) == a);
}

/// An answer whose directive text opens a second directive once its first
/// block has closed (two directive blocks, of either kind) is no directive.
pub proof fn lemma_second_directive_is_rejected(answer: Seq<char>, tools: Seq<ToolSpec>)
    requires
        crate::directive::holds_second_directive(directive_text(answer)),
    ensures
        !directive_undefined(answer),
        parse_outcome(answer, tools) matches Ok(None),
{
}

// ---------------------------------------------------------------------------
// Writing a directive and reading it back
// ---------------------------------------------------------------------------

/// A tool name that can be written in the grammar: not empty, with no `"`,
/// `<` or `>`.
pub open spec fn writable_name(name: Seq<char>) -> bool {
    &&& name.len() > 0
    &&& forall|i: int| 0 <= i < name.len() ==> name[i] != '"' && name[i] != '>' && name[i] != '<'
}

/// A namespace that can be written in the grammar: no `"`, `<`, `>` or `=`.
pub open spec fn writable_namespace(namespace: Option<Seq<char>>) -> bool {
    match namespace {
        None => true,
        Some(ns) => forall|i: int|
            0 <= i < ns.len() ==> ns[i] != '"' && ns[i] != '>' && ns[i] != '=' && ns[i] != '<',
    }
}

/// A body that can be written in a `tag` block: it holds no closing tag of
/// that block, so the block ends where it is written to end.
pub open spec fn writable_body(tag: Seq<char>, body: Seq<char>) -> bool {
    !contains(body, close_tag(tag))
}

/// The attribute text `name="<name>"`.
pub open spec fn name_attrs(name: Seq<char>) -> Seq<char> {
    NAME_ATTR@ + seq!['=', '"'] + name + seq!['"']
}

/// The attribute text of a directive: `name="<name>"`, preceded by
/// `namespace="<ns>" ` for a namespaced tool.
pub open spec fn directive_attrs(namespace: Option<Seq<char>>, name: Seq<char>) -> Seq<char> {
    match namespace {
        None => name_attrs(name),
        Some(ns) => NAMESPACE_ATTR@ + seq!['=', '"'] + ns + seq!['"', ' '] + name_attrs(name),
    }
}

/// `<tag attrs>body</tag>`
pub open spec fn written_block(tag: Seq<char>, attrs: Seq<char>, body: Seq<char>) -> Seq<char> {
    open_prefix(tag) + seq![' '] + attrs + seq!['>'] + body + close_tag(tag)
}

/// A directive written in the grammar that the system prompt teaches.
pub open spec fn written_directive(d: DirectiveView) -> Seq<char> {
    match d {
        DirectiveView::Function { namespace, name, arguments } => written_block(
            FUNCTION_TAG@,
            directive_attrs(namespace, name),
            arguments,
        ),
        DirectiveView::Custom { namespace, name, input } => written_block(
            CUSTOM_TAG@,
            directive_attrs(namespace, name),
            input,
        ),
    }
}

/// The attributes of a written directive read back as its name and
/// namespace; they hold no `>` and are not padded with whitespace.
proof fn lemma_directive_attrs(namespace: Option<Seq<char>>, name: Seq<char>)
    requires
        writable_name(name),
        writable_namespace(namespace),
    ensures
        required_attr_value(directive_attrs(namespace, name), NAME_ATTR@) == Some(name),
        attr_value(directive_attrs(namespace, name), NAMESPACE_ATTR@) == namespace,
        forall|i: int|
            0 <= i < directive_attrs(namespace, name).len() ==> directive_attrs(namespace, name)[i]
                != '>' && directive_attrs(namespace, name)[i] != '<',
        !is_ws(directive_attrs(namespace, name)[0]),
        !is_ws(directive_attrs(namespace, name).last()),
{
    reveal_strlit("name");
    reveal_strlit("namespace");
    match namespace {
        None => lemma_plain_attrs(name),
        Some(ns) => {
            lemma_namespaced_attrs(ns, name);
            lemma_namespaced_name_match(ns, name);
        },
    }
}

proof fn lemma_plain_attrs(name: Seq<char>)
    requires
        writable_name(name),
    ensures
        required_attr_value(name_attrs(name), NAME_ATTR@) == Some(name),
        attr_value(name_attrs(name), NAMESPACE_ATTR@) is None,
        forall|i: int|
            0 <= i < name_attrs(name).len() ==> name_attrs(name)[i] != '>' && name_attrs(name)[i]
                != '<',
        !is_ws(name_attrs(name)[0]),
        !is_ws(name_attrs(name).last()),
{
    reveal_strlit("name");
    reveal_strlit("namespace");
    let attrs = name_attrs(name);
    let pattern = NAME_ATTR@ + seq!['=', '"'];
    let ns_pattern = NAMESPACE_ATTR@ + seq!['=', '"'];
    let quote = seq!['"'];
    let last = attrs.len() - 1;
    assert(attrs.subrange(0, 6) == pattern);
    lemma_find_from_first(attrs, pattern, 0, 0);
    assert forall|j: int| 6 <= j < last implies !matches_at(attrs, quote, j) by {
        lemma_matches_char(attrs, '"', j);
        assert(attrs[j] == name[j - 6]);
    }
    lemma_matches_char(attrs, '"', last);
    lemma_find_from_first(attrs, quote, 6, last);
    assert(attrs.subrange(6, last) == name);
    // The namespace pattern can only end at the closing quote.
    lemma_find(attrs, ns_pattern);
    if let Some(st) = find(attrs, ns_pattern) {
        assert(attrs.subrange(st, st + 11) == ns_pattern);
        assert(attrs[st + 10] == ns_pattern[10]);
        if st + 10 < last {
            assert(attrs[st + 10] == name[st + 10 - 6]);
        }
        assert(st + 11 == attrs.len());
        lemma_find_from_none(attrs, quote, st + 11);
    }
    assert forall|i: int| 0 <= i < attrs.len() implies attrs[i] != '>' && attrs[i] != '<' by {
        if 6 <= i < last {
            assert(attrs[i] == name[i - 6]);
        }
    }
}

proof fn lemma_namespaced_attrs(ns: Seq<char>, name: Seq<char>)
    requires
        writable_name(name),
        writable_namespace(Some(ns)),
    ensures
        attr_value(directive_attrs(Some(ns), name), NAMESPACE_ATTR@) == Some(ns),
        forall|i: int|
            0 <= i < directive_attrs(Some(ns), name).len() ==> directive_attrs(Some(ns), name)[i]
                != '>' && directive_attrs(Some(ns), name)[i] != '<',
        !is_ws(directive_attrs(Some(ns), name)[0]),
        !is_ws(directive_attrs(Some(ns), name).last()),
{
    reveal_strlit("name");
    reveal_strlit("namespace");
    let attrs = directive_attrs(Some(ns), name);
    let ns_pattern = NAMESPACE_ATTR@ + seq!['=', '"'];
    let quote = seq!['"'];
    let m: int = (11 + ns.len()) as int;
    let last = attrs.len() - 1;
    assert(attrs.subrange(0, 11) == ns_pattern);
    lemma_find_from_first(attrs, ns_pattern, 0, 0);
    assert forall|j: int| 11 <= j < m implies !matches_at(attrs, quote, j) by {
        lemma_matches_char(attrs, '"', j);
        assert(attrs[j] == ns[j - 11]);
    }
    lemma_matches_char(attrs, '"', m);
    lemma_find_from_first(attrs, quote, 11, m);
    assert(attrs.subrange(11, m) == ns);
    assert forall|i: int| 0 <= i < attrs.len() implies attrs[i] != '>' && attrs[i] != '<' by {
        if 11 <= i < m {
            assert(attrs[i] == ns[i - 11]);
        } else if m + 8 <= i < last {
            assert(attrs[i] == name[i - (m + 8)]);
        }
    }
}

#[verifier::spinoff_prover]
proof fn lemma_namespaced_name_match(ns: Seq<char>, name: Seq<char>)
    requires
        writable_name(name),
        writable_namespace(Some(ns)),
    ensures
        required_attr_value(directive_attrs(Some(ns), name), NAME_ATTR@) == Some(name),
{
    reveal_strlit("name");
    reveal_strlit("namespace");
    let attrs = directive_attrs(Some(ns), name);
    let pattern = NAME_ATTR@ + seq!['=', '"'];
    let ns_pattern = NAMESPACE_ATTR@ + seq!['=', '"'];
    let quote = seq!['"'];
    let m: int = (11 + ns.len()) as int;
    let last = attrs.len() - 1;
    assert(attrs.subrange(m + 2, m + 8) == pattern);
    assert forall|i: int| 0 <= i < m + 7 && attrs[i] == '"' implies i == 10 || i == m by {
        if i < 11 {
            assert(attrs[i] == ns_pattern[i]);
        } else if i < m {
            assert(attrs[i] == ns[i - 11]);
        } else if i > m + 1 {
            assert(attrs[i] == pattern[i - (m + 2)]);
        } else if i == m + 1 {
            assert(attrs[i] == ' ');
        }
    }
    assert(attrs[5] == 'p');
    assert(attrs[m - 1] != '=') by {
        if ns.len() > 0 {
            assert(attrs[m - 1] == ns[ns.len() - 1]);
        } else {
            assert(attrs[m - 1] == ns_pattern[10]);
        }
    }
    assert forall|j: int| 0 <= j < m + 2 implies !matches_at(attrs, pattern, j) by {
        if matches_at(attrs, pattern, j) {
            assert(attrs.subrange(j, j + 6) == pattern);
            assert(attrs[j + 5] == pattern[5]);
            assert(attrs[j + 4] == pattern[4]);
            assert(attrs[j] == pattern[0]);
        }
    }
    lemma_find_from_first(attrs, pattern, 0, m + 2);
    assert forall|j: int| m + 8 <= j < last implies !matches_at(attrs, quote, j) by {
        lemma_matches_char(attrs, '"', j);
        assert(attrs[j] == name[j - (m + 8)]);
    }
    lemma_matches_char(attrs, '"', last);
    lemma_find_from_first(attrs, quote, m + 8, last);
    assert(attrs.subrange(m + 8, last) == name);
}

/// A written block comes apart into its attributes and its body.
proof fn lemma_written_block_parts(tag: Seq<char>, attrs: Seq<char>, body: Seq<char>)
    requires
        attrs.len() > 0,
        !is_ws(attrs[0]),
        !is_ws(attrs.last()),
        forall|i: int| 0 <= i < attrs.len() ==> attrs[i] != '>',
        forall|i: int| 0 <= i < tag.len() ==> tag[i] != '>',
    ensures
        tag_parts(written_block(tag, attrs, body), tag) == Some((attrs, body)),
        !tag_parts_undefined(written_block(tag, attrs, body), tag),
{
    let s = written_block(tag, attrs, body);
    let open = open_prefix(tag);
    let close = close_tag(tag);
    assert(s.subrange(0, open.len() as int) == open);
    assert(s.subrange(s.len() - close.len(), s.len() as int) == close);
    let gt: int = (open.len() + 1 + attrs.len()) as int;
    assert(s[gt] == '>');
    assert forall|j: int| open.len() <= j < gt implies !matches_at(s, seq!['>'], j) by {
        lemma_matches_char(s, '>', j);
        if j == open.len() {
            assert(s[j] == ' ');
        } else {
            assert(s[j] == attrs[j - open.len() - 1]);
        }
    }
    lemma_matches_char(s, '>', gt);
    lemma_find_from_first(s, seq!['>'], open.len() as int, gt);
    let head = s.subrange(open.len() as int, gt);
    assert(head == seq![' '] + attrs);
    assert(head.drop_first() == attrs);
    lemma_trim_of_edges(attrs);
    assert(crate::text::trim_start(head) == crate::text::trim_start(attrs));
    assert(trim(head) == attrs);
    assert(s.subrange(gt + 1, s.len() - close.len()) == body);
}

/// A written block is its own trimmed directive text.
proof fn lemma_written_block_text(tag: Seq<char>, attrs: Seq<char>, body: Seq<char>, rest: Seq<char>)
    requires
        open_prefix(tag) == DIRECTIVE_PREFIX@ + rest,
    ensures
        directive_text(written_block(tag, attrs, body)) == written_block(tag, attrs, body),
        starts_with(written_block(tag, attrs, body), DIRECTIVE_PREFIX@),
{
    reveal_strlit("<minc:");
    let s = written_block(tag, attrs, body);
    assert(s[0] == '<');
    assert(s.last() == '>');
    lemma_trim_of_edges(s);
    assert(s.subrange(0, 6) == open_prefix(tag).subrange(0, 6));
    assert(open_prefix(tag).subrange(0, 6) == DIRECTIVE_PREFIX@);
}

/// A match of `p` whose window lies in `lo..hi` is a match in that subrange.
proof fn lemma_match_in_window(s: Seq<char>, p: Seq<char>, lo: int, hi: int, j: int)
    requires
        0 <= lo <= j,
        j + p.len() <= hi <= s.len(),
        matches_at(s, p, j),
    ensures
        matches_at(s.subrange(lo, hi), p, j - lo),
{
    assert(s.subrange(lo, hi).subrange(j - lo, j - lo + p.len()) == s.subrange(j, j + p.len()));
}

/// A written block whose body holds no closing tag of its kind closes only
/// at its end, so no second directive follows it.
proof fn lemma_written_block_single(tag: Seq<char>, attrs: Seq<char>, body: Seq<char>)
    requires
        tag == FUNCTION_TAG@ || tag == CUSTOM_TAG@,
        forall|i: int| 0 <= i < tag.len() ==> tag[i] != '<',
        forall|i: int| 0 <= i < attrs.len() ==> attrs[i] != '<',
        !contains(body, close_tag(tag)),
    ensures
        !crate::directive::holds_second_directive(written_block(tag, attrs, body)),
{
    reveal_strlit("<minc:");
    reveal_strlit("minc:function");
    reveal_strlit("minc:custom");
    let s = written_block(tag, attrs, body);
    let close = close_tag(tag);
    let n = open_prefix(tag).len() as int;
    if tag == CUSTOM_TAG@ {
        assert(s[6] == 'c');
        assert(open_prefix(FUNCTION_TAG@)[6] == 'f');
        assert(!starts_with(s, open_prefix(FUNCTION_TAG@)));
    } else {
        assert(s.subrange(0, n) == open_prefix(tag));
    }
    assert(crate::directive::block_close(s) == close);
    let b0: int = n + 1 + attrs.len() + 1;
    let b1: int = b0 + body.len();
    assert(s.subrange(b1, b1 + close.len()) == close);
    assert forall|j: int| 0 <= j < b1 implies !matches_at(s, close, j) by {
        if matches_at(s, close, j) {
            assert(s.subrange(j, j + close.len()) == close);
            assert(s[j] == close[0]);
            assert(s[j + 1] == close[1]);
            if j < b0 {
                if j == 0 {
                    assert(s[1] == tag[0]);
                } else if j < n {
                    assert(s[j] == tag[j - 1]);
                } else if j == n {
                    assert(s[j] == ' ');
                } else if j < b0 - 1 {
                    assert(s[j] == attrs[j - n - 1]);
                } else {
                    assert(s[j] == '>');
                }
            } else if j + close.len() <= b1 {
                lemma_match_in_window(s, close, b0, b1, j);
                assert(s.subrange(b0, b1) == body);
                lemma_find_some_iff(body, close, j - b0);
            } else {
                assert(s[b1] == '<');
                assert(s[b1] == close[b1 - j]);
                if b1 - j >= 2 && b1 - j < 2 + tag.len() {
                    assert(close[b1 - j] == tag[b1 - j - 2]);
                }
            }
        }
    }
    lemma_find_from_first(s, close, 0, b1);
    lemma_find_from_none(s, DIRECTIVE_PREFIX@, b1 + close.len());
}

/// Writing a custom directive in the grammar and reading it back gives that
/// directive, unless a function tool of that name is advertised (it is then
/// re-shaped, see `coerced`).
pub proof fn lemma_custom_directive_round_trip(
    namespace: Option<Seq<char>>,
    name: Seq<char>,
    input: Seq<char>,
    tools: Seq<ToolSpec>,
)
    requires
        writable_name(name),
        writable_namespace(namespace),
        writable_body(CUSTOM_TAG@, input),
        advertised_kind(tools, namespace, name) != Some(AdvertisedToolKind::Function),
    ensures
        ({
            let d = DirectiveView::Custom { namespace, name, input };
            &&& !directive_undefined(written_directive(d))
            &&& parse_outcome(written_directive(d), tools) matches Ok(Some(r)) && r == d
        }),
{
    reveal_strlit("minc:function");
    reveal_strlit("minc:custom");
    reveal_strlit("<minc:");
    let attrs = directive_attrs(namespace, name);
    let s = written_block(CUSTOM_TAG@, attrs, input);
    let rest = seq!['c', 'u', 's', 't', 'o', 'm'];
    assert(open_prefix(CUSTOM_TAG@) == DIRECTIVE_PREFIX@ + rest);
    lemma_directive_attrs(namespace, name);
    lemma_written_block_text(CUSTOM_TAG@, attrs, input, rest);
    lemma_written_block_parts(CUSTOM_TAG@, attrs, input);
    lemma_written_block_single(CUSTOM_TAG@, attrs, input);
    // The answer is no function block: it has `c` where `<minc:function` has `f`.
    assert(s[6] == 'c');
    assert(open_prefix(FUNCTION_TAG@)[6] == 'f');
    assert(!starts_with(s, open_prefix(FUNCTION_TAG@)));
    assert(tag_parts(s, FUNCTION_TAG@) is None);
    assert(!tag_parts_undefined(s, FUNCTION_TAG@));
    assert(parsed_directive(s) == Some(DirectiveView::Custom { namespace, name, input }));
}

/// Writing a function directive in the grammar, with a JSON object as its
/// arguments, and reading it back gives that call with the arguments
/// printed compactly (`command` renamed to `cmd` for `exec_command`),
/// unless a free-form tool of that name is advertised.
pub proof fn lemma_function_directive_round_trip(
    namespace: Option<Seq<char>>,
    name: Seq<char>,
    arguments: Seq<char>,
    tools: Seq<ToolSpec>,
)
    requires
        writable_name(name),
        writable_namespace(namespace),
        writable_body(FUNCTION_TAG@, arguments),
        json_shape_of(arguments) is Object,
        normalized_arguments(name, arguments) is Some,
        advertised_kind(tools, namespace, name) != Some(AdvertisedToolKind::Freeform),
    ensures
        ({
            let d = DirectiveView::Function { namespace, name, arguments };
            &&& !directive_undefined(written_directive(d))
            &&& parse_outcome(written_directive(d), tools) matches Ok(Some(r)) && r
                == (DirectiveView::Function {
                namespace,
                name,
                arguments: normalized_arguments(name, arguments).unwrap(),
            })
        }),
{
    reveal_strlit("minc:function");
    reveal_strlit("<minc:");
    let attrs = directive_attrs(namespace, name);
    let rest = seq!['f', 'u', 'n', 'c', 't', 'i', 'o', 'n'];
    assert(open_prefix(FUNCTION_TAG@) == DIRECTIVE_PREFIX@ + rest);
    lemma_directive_attrs(namespace, name);
    lemma_written_block_text(FUNCTION_TAG@, attrs, arguments, rest);
    lemma_written_block_parts(FUNCTION_TAG@, attrs, arguments);
    lemma_written_block_single(FUNCTION_TAG@, attrs, arguments);
}

// ---------------------------------------------------------------------------
// Matching directives to the advertised tools
// ---------------------------------------------------------------------------

/// `tool` is a free-form tool named `name`.
pub open spec fn is_freeform_tool(tool: ToolSpec, name: Seq<char>) -> bool {
    match tool {
        ToolSpec::Freeform(t) => t.name@ == name,
        _ => false,
    }
}

/// `tool` is one of the built-in tools (tool search, image generation, web
/// search) and `name` is the name it is called by.
pub open spec fn is_builtin_tool(tool: ToolSpec, name: Seq<char>) -> bool {
    match tool {
        ToolSpec::ToolSearch => name == "tool_search"@,
        ToolSpec::ImageGeneration { .. } => name == "image_generation"@,
        ToolSpec::WebSearch => name == "web_search"@,
        _ => false,
    }
}

proof fn lemma_namespace_kind_is_function(tools: Seq<crate::types::NamespaceTool>, name: Seq<char>)
    ensures
        crate::directive::namespace_tool_kind(tools, name) != Some(AdvertisedToolKind::Freeform),
    decreases tools.len(),
{
    if tools.len() > 0 {
        lemma_namespace_kind_is_function(tools.drop_first(), name);
    }
}

/// Only a free-form tool makes a name free-form: when the advertised kind
/// of `namespace`/`name` is free-form, the name has no namespace and a
/// free-form tool of that name is advertised.
pub proof fn lemma_freeform_kind_needs_freeform_tool(
    tools: Seq<ToolSpec>,
    namespace: Option<Seq<char>>,
    name: Seq<char>,
)
    ensures
        advertised_kind(tools, namespace, name) == Some(AdvertisedToolKind::Freeform) ==> {
            &&& namespace is None
            &&& exists|i: int| 0 <= i < tools.len() && #[trigger] is_freeform_tool(tools[i], name)
        },
    decreases tools.len(),
{
    if tools.len() > 0 {
        let rest = tools.drop_first();
        lemma_freeform_kind_needs_freeform_tool(rest, namespace, name);
        if let ToolSpec::Namespace(ns) = tools[0] {
            lemma_namespace_kind_is_function(ns.tools@, name);
        }
        if advertised_kind(tools, namespace, name) == Some(AdvertisedToolKind::Freeform) {
            if crate::directive::tool_kind(tools[0], namespace, name) is Some {
                assert(is_freeform_tool(tools[0], name));
            } else {
                let i = choose|i: int| 0 <= i < rest.len() && #[trigger] is_freeform_tool(rest[i], name);
                assert(rest[i] == tools[i + 1]);
                assert(is_freeform_tool(tools[i + 1], name));
            }
        }
    }
}

proof fn lemma_kind_found(tools: Seq<ToolSpec>, namespace: Option<Seq<char>>, name: Seq<char>, i: int)
    requires
        0 <= i < tools.len(),
        crate::directive::tool_kind(tools[i], namespace, name) is Some,
    ensures
        advertised_kind(tools, namespace, name) is Some,
    decreases i,
{
    if i > 0 && crate::directive::tool_kind(tools[0], namespace, name) is None {
        assert(tools.drop_first()[i - 1] == tools[i]);
        lemma_kind_found(tools.drop_first(), namespace, name, i - 1);
    }
}

/// An advertised built-in tool (tool search, image generation, web search)
/// is called as a function tool: its name, without a namespace, has the
/// function kind unless a free-form tool of that name is advertised too.
pub proof fn lemma_builtin_tool_is_a_function(tools: Seq<ToolSpec>, name: Seq<char>, i: int)
    requires
        0 <= i < tools.len(),
        is_builtin_tool(tools[i], name),
        forall|j: int| 0 <= j < tools.len() ==> !#[trigger] is_freeform_tool(tools[j], name),
    ensures
        advertised_kind(tools, None, name) == Some(AdvertisedToolKind::Function),
{
    lemma_kind_found(tools, None, name, i);
    lemma_freeform_kind_needs_freeform_tool(tools, None, name);
}

/// A directive for a tool that is not advertised is kept as it is.
pub proof fn lemma_unadvertised_directive_is_kept(d: DirectiveView, tools: Seq<ToolSpec>)
    requires
        advertised_kind(tools, crate::directive::directive_namespace(d), crate::directive::directive_name(d))
            is None,
    ensures
        coerced(d, tools) matches Ok(k) && k == d,
{
}

/// Re-shaping a directive to the advertised tools a second time changes
/// nothing.
pub proof fn lemma_coercion_is_idempotent(d: DirectiveView, tools: Seq<ToolSpec>)
    ensures
        coerced(d, tools) matches Ok(c) ==> (coerced(c, tools) matches Ok(k) && k == c),
{
}

/// The text around a directive block at `start..end` of `a` is a short
/// remark: trimmed, it holds no `<minc:` and no code fence, and it is at
/// most 240 characters long.
pub open spec fn short_remark(a: Seq<char>, start: int, end: int) -> bool {
    let before = trim(a.subrange(0, start));
    let after = trim(a.subrange(end, a.len() as int));
    &&& !contains(before, DIRECTIVE_PREFIX@)
    &&& !contains(after, DIRECTIVE_PREFIX@)
    &&& !contains(before, CODE_FENCE@)
    &&& !contains(after, CODE_FENCE@)
    &&& before.len() + after.len() <= MAX_DIRECTIVE_REMARK_CHARS
}

/// Which block an answer is read by: the whole trimmed answer when it
/// starts with `<minc:`; otherwise the single block of one kind (the answer
/// holds none of the other kind), provided the text around it is a short
/// remark; no block when both kinds or neither occur.
pub proof fn lemma_candidate_cases(answer: Seq<char>)
    ensures
        ({
            let a = trim(answer);
            let f = tag_block(a, FUNCTION_TAG@);
            let c = tag_block(a, CUSTOM_TAG@);
            &&& starts_with(a, DIRECTIVE_PREFIX@) ==> directive_candidate(answer) == Some(a)
            &&& !starts_with(a, DIRECTIVE_PREFIX@) && c is None ==> (f matches Some((st, en))
                ==> directive_candidate(answer) == (if short_remark(a, st, en) {
                Some(a.subrange(st, en))
            } else {
                None
            }))
            &&& !starts_with(a, DIRECTIVE_PREFIX@) && f is None ==> (c matches Some((st, en))
                ==> directive_candidate(answer) == (if short_remark(a, st, en) {
                Some(a.subrange(st, en))
            } else {
                None
            }))
            &&& !starts_with(a, DIRECTIVE_PREFIX@) && (f is Some <==> c is Some)
                ==> directive_candidate(answer) is None
        }),
{
}

/// The directive block that an answer yields always starts with `<minc:`.
pub proof fn lemma_candidate_starts_with_prefix(answer: Seq<char>)
    requires
        directive_candidate(answer) is Some,
    ensures
        starts_with(directive_candidate(answer).unwrap(), DIRECTIVE_PREFIX@),
{
    reveal_strlit("<minc:");
    reveal_strlit("minc:function");
    reveal_strlit("minc:custom");
    let a = trim(answer);
    if !starts_with(a, DIRECTIVE_PREFIX@) {
        let f = tag_block(a, FUNCTION_TAG@);
        let c = tag_block(a, CUSTOM_TAG@);
        let tag = if f is Some {
            FUNCTION_TAG@
        } else {
            CUSTOM_TAG@
        };
        let (start, end) = tag_block(a, tag).unwrap();
        lemma_find(a, open_prefix(tag));
        lemma_find_from(a, close_tag(tag), start);
        let close_at = find_from(a, close_tag(tag), start).unwrap();
        assert(matches_at(a, close_tag(tag), close_at));
        assert(a.subrange(start, start + open_prefix(tag).len()) == open_prefix(tag));
        let block = a.subrange(start, end);
        assert(block.subrange(0, 6) == open_prefix(tag).subrange(0, 6));
        assert(open_prefix(tag).subrange(0, 6) == DIRECTIVE_PREFIX@);
        assert(directive_candidate(answer) == Some(block));
        assert(block.subrange(0, 6) == DIRECTIVE_PREFIX@);
    }
}

} // verus!
