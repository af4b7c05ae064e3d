//! The directive grammar that Minc answers in when it wants a local tool:
//!
//! ```text
//! <minc:function [namespace="ns"] name="tool">{"json":"arguments"}</minc:function>
//! <minc:custom [namespace="ns"] name="tool">raw tool input</minc:custom>
//! ```
//!
//! An answer is a directive when, once trimmed, it is one directive block,
//! or when it holds exactly one block with at most a short remark around it.

use vstd::prelude::*;
use vstd::utf8::encode_utf8;
use crate::json::{
    field_value, find_field, json_compact, json_compact_of, json_compact_renamed, json_renamed_of,
    json_shape, json_shape_of, json_single_field, json_single_field_of, JsonShape, JsonShapeView,
};
use crate::text::{
    chars_of, contains, contains_chars, find, find_chars, find_chars_from, find_from, lemma_find,
    lemma_find_from, push_all, push_str, slice_of, starts_with, starts_with_chars, ends_with,
    ends_with_chars, string_of, trim, trimmed,
};
use crate::types::{opt_view, clone_opt, MincError, MincErrorView, NamespaceTool, ToolSpec};

verus! {

/// Every directive starts with this.
pub const DIRECTIVE_PREFIX: &'static str = "<minc:";
/// The tag of a function-call directive.
pub const FUNCTION_TAG: &'static str = "minc:function";
/// The tag of a free-form custom-tool directive.
pub const CUSTOM_TAG: &'static str = "minc:custom";
/// A markdown code fence; a directive may not be wrapped in one.
pub const CODE_FENCE: &'static str = "```";
/// How many characters of remark may surround a wrapped directive.
pub const MAX_DIRECTIVE_REMARK_CHARS: usize = 240;
/// The command tool, whose arguments get special treatment.
pub const EXEC_COMMAND: &'static str = "exec_command";
/// The argument key that `exec_command` expects.
pub const CMD_KEY: &'static str = "cmd";
/// The argument key that Minc sometimes uses instead of `cmd`.
pub const COMMAND_KEY: &'static str = "command";
/// The argument key that carries a free-form tool's input.
pub const INPUT_KEY: &'static str = "input";
/// The attribute that names the tool.
pub const NAME_ATTR: &'static str = "name";
/// The attribute that names the tool's namespace.
pub const NAMESPACE_ATTR: &'static str = "namespace";

pub const NOT_JSON_PREFIX: &'static str = "Minc emitted a custom payload for function tool ";
pub const NOT_JSON_SUFFIX: &'static str = " that was not valid JSON";
pub const INVALID_ARGUMENTS_PREFIX: &'static str = "Minc emitted invalid arguments for function tool ";
pub const UNPARSABLE_FREEFORM: &'static str =
    "Minc emitted JSON arguments for a freeform tool that could not be parsed";
pub const MISSING_INPUT: &'static str =
    "Minc emitted JSON arguments for a freeform tool without an `input` string";
pub const NON_OBJECT_FREEFORM: &'static str =
    "Minc emitted non-object JSON arguments for a freeform tool";

// ---------------------------------------------------------------------------
// Tags and attributes
// ---------------------------------------------------------------------------

/// `<tag`
pub open spec fn open_prefix(tag: Seq<char>) -> Seq<char> {
    seq!['<'] + tag
}

/// `</tag>`
pub open spec fn close_tag(tag: Seq<char>) -> Seq<char> {
    seq!['<', '/'] + tag + seq!['>']
}

/// Where a `<tag ...>...</tag>` block lies in a text: from the first `<tag`
/// to the end of the first `</tag>` after it, as byte offsets into the
/// UTF-8 text (what `str::find` reports).
#[derive(Debug, Clone, Copy, PartialEq, Eq)]
pub struct TagBlock {
    pub start: usize,
    pub end: usize,
}

/// The first `<tag ... </tag>` block of `source`, as a character range.
pub open spec fn tag_block(source: Seq<char>, tag: Seq<char>) -> Option<(int, int)> {
    match find(source, open_prefix(tag)) {
        None => None,
        Some(start) => match find_from(source, close_tag(tag), start) {
            None => None,
            Some(close) => Some((start, close + close_tag(tag).len())),
        },
    }
}

/// For a text that starts with `<tag` and ends with `</tag>`: the trimmed
/// attribute text up to the first `>`, and the body between that `>` and
/// the closing tag.
pub open spec fn tag_parts(source: Seq<char>, tag: Seq<char>) -> Option<(Seq<char>, Seq<char>)> {
    let open = open_prefix(tag);
    let close = close_tag(tag);
    if !starts_with(source, open) || !ends_with(source, close) {
        None
    } else {
        match find_from(source, seq!['>'], open.len() as int) {
            None => None,
            Some(gt) => Some(
                (
                    trim(source.subrange(open.len() as int, gt)),
                    source.subrange(gt + 1, source.len() - close.len()),
                ),
            ),
        }
    }
}

/// The inputs on which taking a tag apart is undefined: the first `>` after
/// `<tag` lies inside the closing `</tag>`, so the body would end before it
/// starts.
pub open spec fn tag_parts_undefined(source: Seq<char>, tag: Seq<char>) -> bool {
    let open = open_prefix(tag);
    let close = close_tag(tag);
    &&& starts_with(source, open)
    &&& ends_with(source, close)
    &&& find_from(source, seq!['>'], open.len() as int) matches Some(gt)
    &&& gt + 1 > source.len() - close.len()
}

/// The value of the attribute `key="value"`: the text after the first
/// `key="` up to the next `"`.
pub open spec fn attr_value(attrs: Seq<char>, key: Seq<char>) -> Option<Seq<char>> {
    let pattern = key + seq!['=', '"'];
    match find(attrs, pattern) {
        None => None,
        Some(start) => match find_from(attrs, seq!['"'], start + pattern.len()) {
            None => None,
            Some(end) => Some(attrs.subrange(start + pattern.len(), end)),
        },
    }
}

/// An attribute value that is present and not empty.
pub open spec fn required_attr_value(attrs: Seq<char>, key: Seq<char>) -> Option<Seq<char>> {
    match attr_value(attrs, key) {
        Some(v) => if v.len() > 0 {
            Some(v)
        } else {
            None
        },
        None => None,
    }
}

/// `true` when `a` and `b` hold the same characters.
pub fn chars_eq(a: &Vec<char>, b: &Vec<char>) -> (r: bool)
    ensures
        r == (a@ == b@),
{
    if a.len() != b.len() {
        return false;
    }
    let mut i: usize = 0;
    while i < a.len()
        invariant
            a.len() == b.len(),
            i <= a.len(),
            forall|j: int| 0 <= j < i ==> a@[j] == b@[j],
        decreases a.len() - i,
    {
        if a[i] != b[i] {
            return false;
        }
        i += 1;
    }
    assert(a@ == b@);
    true
}

fn open_prefix_chars(tag: &Vec<char>) -> (out: Vec<char>)
    ensures
        out@ == open_prefix(tag@),
{
    let mut out: Vec<char> = Vec::new();
    out.push('<');
    push_all(&mut out, tag);
    out
}

fn close_tag_chars(tag: &Vec<char>) -> (out: Vec<char>)
    ensures
        out@ == close_tag(tag@),
{
    let mut out: Vec<char> = Vec::new();
    out.push('<');
    out.push('/');
    push_all(&mut out, tag);
    out.push('>');
    out
}

/// The first tag block of `source` (character vector form).
pub fn tag_block_chars(source: &Vec<char>, tag: &Vec<char>) -> (out: Option<(usize, usize)>)
    ensures
        out matches Some((s, e)) ==> tag_block(source@, tag@) == Some((s as int, e as int)) && s
            <= e <= source.len(),
        out is None ==> tag_block(source@, tag@) is None,
{
    let open = open_prefix_chars(tag);
    let close = close_tag_chars(tag);
    match find_chars(source, &open) {
        None => None,
        Some(start) => {
            proof {
                lemma_find_from(source@, close@, start as int);
            }
            match find_chars_from(source, &close, start) {
                None => None,
                Some(c) => {
                    assert(crate::text::matches_at(source@, close@, c as int));
                    assert(c + close.len() <= source.len());
                    Some((start, c + close.len()))
                },
            }
        },
    }
}

/// The byte offset, in the UTF-8 text of `s`, of character position `i`.
pub open spec fn byte_offset(s: Seq<char>, i: int) -> int {
    encode_utf8(s.take(i)).len() as int
}

/// The UTF-8 length of the first `i` characters of `s`.
fn byte_offset_of(s: &Vec<char>, i: usize) -> (out: usize)
    requires
        i <= s.len(),
    ensures
        out == byte_offset(s@, i as int),
{
    let head = string_of(&slice_of(s, 0, i));
    assert(head@ == s@.take(i as int));
    head.as_str().as_bytes().len()
}

/// Finds the first `<tag ...` in `source` and the end of the first `</tag>`
/// after it, as byte offsets.
pub fn extract_tag_block(source: &str, tag: &str) -> (out: Option<TagBlock>)
    ensures
        out matches Some(b) ==> tag_block(source@, tag@) matches Some((s, e)) && b.start
            == byte_offset(source@, s) && b.end == byte_offset(source@, e),
        out is None ==> tag_block(source@, tag@) is None,
{
    let s = chars_of(source);
    let t = chars_of(tag);
    match tag_block_chars(&s, &t) {
        Some((start, end)) => Some(
            TagBlock { start: byte_offset_of(&s, start), end: byte_offset_of(&s, end) },
        ),
        None => None,
    }
}

/// Takes a tag apart (character vector form).
pub fn tag_parts_chars(source: &Vec<char>, tag: &Vec<char>) -> (out: Option<(Vec<char>, Vec<char>)>)
    requires
        !tag_parts_undefined(source@, tag@),
    ensures
        out matches Some((a, b)) ==> tag_parts(source@, tag@) == Some((a@, b@)),
        out is None ==> tag_parts(source@, tag@) is None,
{
    let open = open_prefix_chars(tag);
    let close = close_tag_chars(tag);
    if !starts_with_chars(source, &open) || !ends_with_chars(source, &close) {
        return None;
    }
    let mut gt_pattern: Vec<char> = Vec::new();
    gt_pattern.push('>');
    proof {
        lemma_find_from(source@, gt_pattern@, open.len() as int);
    }
    match find_chars_from(source, &gt_pattern, open.len()) {
        None => None,
        Some(gt) => {
            assert(crate::text::matches_at(source@, gt_pattern@, gt as int));
            assert(gt + 1 <= source.len());
            let head = slice_of(source, open.len(), gt);
            let attrs = trimmed(&head);
            let body = slice_of(source, gt + 1, source.len() - close.len());
            Some((attrs, body))
        },
    }
}

/// For a `source` that starts with `<tag` and ends with `</tag>`, returns
/// the trimmed attribute text and the body.
pub fn strip_tag(source: &str, tag: &str) -> (out: Option<(String, String)>)
    requires
        !tag_parts_undefined(source@, tag@),
    ensures
        out matches Some((a, b)) ==> tag_parts(source@, tag@) == Some((a@, b@)),
        out is None ==> tag_parts(source@, tag@) is None,
{
    let s = chars_of(source);
    let t = chars_of(tag);
    match tag_parts_chars(&s, &t) {
        Some((a, b)) => Some((string_of(&a), string_of(&b))),
        None => None,
    }
}

/// Reads an attribute (character vector form).
pub fn attr_value_chars(attrs: &Vec<char>, key: &Vec<char>) -> (out: Option<Vec<char>>)
    ensures
        out matches Some(v) ==> attr_value(attrs@, key@) == Some(v@),
        out is None ==> attr_value(attrs@, key@) is None,
{
    let mut pattern = key.clone();
    pattern.push('=');
    pattern.push('"');
    assert(pattern@ == key@ + seq!['=', '"']);
    match find_chars(attrs, &pattern) {
        None => None,
        Some(start) => {
            proof {
                lemma_find(attrs@, pattern@);
            }
            let mut quote: Vec<char> = Vec::new();
            quote.push('"');
            assert(crate::text::matches_at(attrs@, pattern@, start as int));
            assert(start + pattern.len() <= attrs.len());
            let value_start = start + pattern.len();
            proof {
                lemma_find_from(attrs@, quote@, value_start as int);
            }
            match find_chars_from(attrs, &quote, value_start) {
                None => None,
                Some(end) => {
                    assert(crate::text::matches_at(attrs@, quote@, end as int));
                    Some(slice_of(attrs, value_start, end))
                },
            }
        },
    }
}

/// The value of the attribute `key="..."` in `attrs`, possibly empty.
pub fn parse_optional_attr(attrs: &str, key: &str) -> (out: Option<String>)
    ensures
        opt_view(out) == attr_value(attrs@, key@),
{
    let a = chars_of(attrs);
    let k = chars_of(key);
    match attr_value_chars(&a, &k) {
        Some(v) => Some(string_of(&v)),
        None => None,
    }
}

/// The value of the attribute `key="..."` in `attrs`, when it is not empty.
pub fn parse_required_attr(attrs: &str, key: &str) -> (out: Option<String>)
    ensures
        opt_view(out) == required_attr_value(attrs@, key@),
{
    match parse_optional_attr(attrs, key) {
        Some(v) => if !v.as_str().is_empty() {
            Some(v)
        } else {
            None
        },
        None => None,
    }
}

// ---------------------------------------------------------------------------
// Finding the directive in an answer
// ---------------------------------------------------------------------------

/// The directive block that an answer holds: the whole trimmed answer when
/// it starts with `<minc:`; otherwise the one function or custom block it
/// holds (not both kinds), provided the remark around it holds no other
/// directive start and no code fence, and is at most 240 characters long.
pub open spec fn directive_candidate(answer: Seq<char>) -> Option<Seq<char>> {
    let a = trim(answer);
    if starts_with(a, DIRECTIVE_PREFIX@) {
        Some(a)
    } else {
        let function_block = tag_block(a, FUNCTION_TAG@);
        let custom_block = tag_block(a, CUSTOM_TAG@);
        let block = if function_block is Some && custom_block is None {
            function_block
        } else if function_block is None && custom_block is Some {
            custom_block
        } else {
            None
        };
        match block {
            None => None,
            Some((start, end)) => {
                let prefix = trim(a.subrange(0, start));
                let suffix = trim(a.subrange(end, a.len() as int));
                if contains(prefix, DIRECTIVE_PREFIX@) || contains(suffix, DIRECTIVE_PREFIX@)
                    || contains(prefix, CODE_FENCE@) || contains(suffix, CODE_FENCE@)
                    || prefix.len() + suffix.len() > MAX_DIRECTIVE_REMARK_CHARS {
                    None
                } else {
                    Some(a.subrange(start, end))
                }
            },
        }
    }
}

/// Finds the directive block of an answer (character vector form).
pub fn directive_candidate_chars(answer: &Vec<char>) -> (out: Option<Vec<char>>)
    ensures
        out matches Some(c) ==> directive_candidate(answer@) == Some(c@),
        out is None ==> directive_candidate(answer@) is None,
{
    let a = trimmed(answer);
    let prefix_marker = chars_of(DIRECTIVE_PREFIX);
    if starts_with_chars(&a, &prefix_marker) {
        return Some(a);
    }
    let function_tag = chars_of(FUNCTION_TAG);
    let custom_tag = chars_of(CUSTOM_TAG);
    let function_block = tag_block_chars(&a, &function_tag);
    let custom_block = tag_block_chars(&a, &custom_tag);
    let (start, end) = match (function_block, custom_block) {
        (Some(b), None) => b,
        (None, Some(b)) => b,
        _ => {
            return None;
        },
    };
    let prefix = trimmed(&slice_of(&a, 0, start));
    let suffix = trimmed(&slice_of(&a, end, a.len()));
    if contains_chars(&prefix, &prefix_marker) || contains_chars(&suffix, &prefix_marker) {
        return None;
    }
    let fence = chars_of(CODE_FENCE);
    if contains_chars(&prefix, &fence) || contains_chars(&suffix, &fence) {
        return None;
    }
    if prefix.len() > MAX_DIRECTIVE_REMARK_CHARS || suffix.len() > MAX_DIRECTIVE_REMARK_CHARS
        - prefix.len() {
        return None;
    }
    Some(slice_of(&a, start, end))
}

/// Finds the directive block of an answer: the trimmed answer itself when it
/// starts with `<minc:`, or its single directive block when the text around
/// that block is a short remark.
pub fn extract_directive_candidate(answer: &str) -> (out: Option<String>)
    ensures
        opt_view(out) == directive_candidate(answer@),
{
    let a = chars_of(answer);
    match directive_candidate_chars(&a) {
        Some(c) => Some(string_of(&c)),
        None => None,
    }
}

// ---------------------------------------------------------------------------
// Directives
// ---------------------------------------------------------------------------

/// A tool call that Minc asked for.
#[derive(Debug, PartialEq, Eq)]
pub enum MincDirective {
    Function { namespace: Option<String>, name: String, arguments: String },
    Custom { namespace: Option<String>, name: String, input: String },
}

/// A directive with its strings as characters.
pub enum DirectiveView {
    Function { namespace: Option<Seq<char>>, name: Seq<char>, arguments: Seq<char> },
    Custom { namespace: Option<Seq<char>>, name: Seq<char>, input: Seq<char> },
}

impl View for MincDirective {
    type V = DirectiveView;

    open spec fn view(&self) -> DirectiveView {
        match self {
            MincDirective::Function { namespace, name, arguments } => DirectiveView::Function {
                namespace: opt_view(*namespace),
                name: name@,
                arguments: arguments@,
            },
            MincDirective::Custom { namespace, name, input } => DirectiveView::Custom {
                namespace: opt_view(*namespace),
                name: name@,
                input: input@,
            },
        }
    }
}

/// The namespace of a directive.
pub open spec fn directive_namespace(d: DirectiveView) -> Option<Seq<char>> {
    match d {
        DirectiveView::Function { namespace, .. } => namespace,
        DirectiveView::Custom { namespace, .. } => namespace,
    }
}

/// The tool name of a directive.
pub open spec fn directive_name(d: DirectiveView) -> Seq<char> {
    match d {
        DirectiveView::Function { name, .. } => name,
        DirectiveView::Custom { name, .. } => name,
    }
}

impl MincDirective {
    /// The namespace of the requested tool.
    pub fn namespace(&self) -> (out: Option<String>)
        ensures
            opt_view(out) == directive_namespace(self@),
    {
        match self {
            MincDirective::Function { namespace, .. } => clone_opt(namespace),
            MincDirective::Custom { namespace, .. } => clone_opt(namespace),
        }
    }

    /// The name of the requested tool.
    pub fn name(&self) -> (out: String)
        ensures
            out@ == directive_name(self@),
    {
        match self {
            MincDirective::Function { name, .. } => name.clone(),
            MincDirective::Custom { name, .. } => name.clone(),
        }
    }
}

// ---------------------------------------------------------------------------
// Advertised tools
// ---------------------------------------------------------------------------

/// How an advertised tool takes its input.
#[derive(Debug, Clone, Copy, PartialEq, Eq)]
pub enum AdvertisedToolKind {
    Function,
    Freeform,
}

/// A function tool named `name` inside a namespace's tool list.
pub open spec fn namespace_tool_kind(tools: Seq<NamespaceTool>, name: Seq<char>) -> Option<
    AdvertisedToolKind,
>
    decreases tools.len(),
{
    if tools.len() == 0 {
        None
    } else {
        match tools[0] {
            NamespaceTool::Function(t) => if t.name@ == name {
                Some(AdvertisedToolKind::Function)
            } else {
                namespace_tool_kind(tools.drop_first(), name)
            },
        }
    }
}

/// Whether one advertised tool is the tool `namespace`/`name`, and how it
/// takes its input.
pub open spec fn tool_kind(tool: ToolSpec, namespace: Option<Seq<char>>, name: Seq<char>) -> Option<
    AdvertisedToolKind,
> {
    match tool {
        ToolSpec::Function(t) => if namespace is None && t.name@ == name {
            Some(AdvertisedToolKind::Function)
        } else {
            None
        },
        ToolSpec::Freeform(t) => if namespace is None && t.name@ == name {
            Some(AdvertisedToolKind::Freeform)
        } else {
            None
        },
        ToolSpec::Namespace(ns) => if namespace == Some(ns.name@) {
            namespace_tool_kind(ns.tools@, name)
        } else {
            None
        },
        ToolSpec::ToolSearch => if namespace is None && name == "tool_search"@ {
            Some(AdvertisedToolKind::Function)
        } else {
            None
        },
        ToolSpec::ImageGeneration { .. } => if namespace is None && name == "image_generation"@ {
            Some(AdvertisedToolKind::Function)
        } else {
            None
        },
        ToolSpec::WebSearch => if namespace is None && name == "web_search"@ {
            Some(AdvertisedToolKind::Function)
        } else {
            None
        },
    }
}

/// The kind of the first advertised tool that is `namespace`/`name`.
pub open spec fn advertised_kind(tools: Seq<ToolSpec>, namespace: Option<Seq<char>>, name: Seq<char>) -> Option<
    AdvertisedToolKind,
>
    decreases tools.len(),
{
    if tools.len() == 0 {
        None
    } else {
        match tool_kind(tools[0], namespace, name) {
            Some(k) => Some(k),
            None => advertised_kind(tools.drop_first(), namespace, name),
        }
    }
}

fn namespace_tool_kind_exec(tools: &Vec<NamespaceTool>, name: &String) -> (out: Option<AdvertisedToolKind>)
    ensures
        out == namespace_tool_kind(tools@, name@),
{
    let mut i: usize = 0;
    assert(tools@.subrange(0, tools@.len() as int) == tools@);
    while i < tools.len()
        invariant
            i <= tools.len(),
            namespace_tool_kind(tools@, name@) == namespace_tool_kind(
                tools@.subrange(i as int, tools@.len() as int),
                name@,
            ),
        decreases tools.len() - i,
    {
        let ghost rest = tools@.subrange(i as int, tools@.len() as int);
        assert(rest[0] == tools@[i as int]);
        assert(rest.drop_first() == tools@.subrange(i + 1, tools@.len() as int));
        match &tools[i] {
            NamespaceTool::Function(t) => {
                if t.name == *name {
                    return Some(AdvertisedToolKind::Function);
                }
            },
        }
        i += 1;
    }
    None
}

fn tool_kind_exec(tool: &ToolSpec, namespace: &Option<String>, name: &String) -> (out: Option<AdvertisedToolKind>)
    ensures
        out == tool_kind(*tool, opt_view(*namespace), name@),
{
    match tool {
        ToolSpec::Function(t) => if namespace.is_none() && t.name == *name {
            Some(AdvertisedToolKind::Function)
        } else {
            None
        },
        ToolSpec::Freeform(t) => if namespace.is_none() && t.name == *name {
            Some(AdvertisedToolKind::Freeform)
        } else {
            None
        },
        ToolSpec::Namespace(ns) => match namespace {
            Some(n) => if *n == ns.name {
                namespace_tool_kind_exec(&ns.tools, name)
            } else {
                None
            },
            None => None,
        },
        ToolSpec::ToolSearch => if namespace.is_none() && name.as_str().to_owned()
            == string_of(&chars_of("tool_search")) {
            Some(AdvertisedToolKind::Function)
        } else {
            None
        },
        ToolSpec::ImageGeneration { .. } => if namespace.is_none() && name.as_str().to_owned()
            == string_of(&chars_of("image_generation")) {
            Some(AdvertisedToolKind::Function)
        } else {
            None
        },
        ToolSpec::WebSearch => if namespace.is_none() && name.as_str().to_owned() == string_of(
            &chars_of("web_search"),
        ) {
            Some(AdvertisedToolKind::Function)
        } else {
            None
        },
    }
}

/// How the advertised tool `namespace`/`name` takes its input, if such a
/// tool is advertised: the first matching tool decides.
pub fn advertised_tool_kind(tools: &[ToolSpec], namespace: &Option<String>, name: &String) -> (out:
    Option<AdvertisedToolKind>)
    ensures
        out == advertised_kind(tools@, opt_view(*namespace), name@),
{
    let mut i: usize = 0;
    assert(tools@.subrange(0, tools@.len() as int) == tools@);
    while i < tools.len()
        invariant
            i <= tools.len(),
            advertised_kind(tools@, opt_view(*namespace), name@) == advertised_kind(
                tools@.subrange(i as int, tools@.len() as int),
                opt_view(*namespace),
                name@,
            ),
        decreases tools.len() - i,
    {
        let ghost rest = tools@.subrange(i as int, tools@.len() as int);
        assert(rest[0] == tools@[i as int]);
        assert(rest.drop_first() == tools@.subrange(i + 1, tools@.len() as int));
        match tool_kind_exec(&tools[i], namespace, name) {
            Some(k) => {
                return Some(k);
            },
            None => {},
        }
        i += 1;
    }
    None
}

// ---------------------------------------------------------------------------
// Arguments
// ---------------------------------------------------------------------------

/// The characters of a text result.
pub open spec fn text_result_view(r: Result<String, MincError>) -> Result<Seq<char>, MincErrorView> {
    match r {
        Ok(s) => Ok(s@),
        Err(e) => Err(e@),
    }
}

/// The JSON text of a function call's arguments: for `exec_command`, an
/// object with a `command` member and no `cmd` member has that member
/// renamed to `cmd`; the value is then printed compactly.
pub open spec fn normalized_arguments(name: Seq<char>, text: Seq<char>) -> Option<Seq<char>> {
    if name == EXEC_COMMAND@ && (json_shape_of(text) matches JsonShapeView::Object(fields)
        && field_value(fields, CMD_KEY@) is None && field_value(fields, COMMAND_KEY@) is Some) {
        json_renamed_of(text, COMMAND_KEY@, CMD_KEY@)
    } else {
        json_compact_of(text)
    }
}

/// The function arguments for a custom payload sent to a function tool: a
/// bare `exec_command` line becomes `{"cmd": line}`; anything else must be
/// JSON.
pub open spec fn custom_to_arguments(name: Seq<char>, input: Seq<char>) -> Result<
    Seq<char>,
    MincErrorView,
> {
    let t = trim(input);
    if name == EXEC_COMMAND@ && !starts_with(t, seq!['{']) {
        Ok(json_single_field_of(CMD_KEY@, t))
    } else if json_shape_of(t) is Invalid {
        Err(MincErrorView::InvalidRequest(NOT_JSON_PREFIX@ + name + NOT_JSON_SUFFIX@))
    } else {
        match normalized_arguments(name, t) {
            Some(a) => Ok(a),
            None => Err(MincErrorView::InvalidRequest(INVALID_ARGUMENTS_PREFIX@ + name)),
        }
    }
}

/// The free-form input for JSON arguments sent to a free-form tool: the
/// string member `input` of a JSON object.
pub open spec fn arguments_to_freeform(arguments: Seq<char>) -> Result<Seq<char>, MincErrorView> {
    match json_shape_of(arguments) {
        JsonShapeView::Invalid => Err(MincErrorView::InvalidRequest(UNPARSABLE_FREEFORM@)),
        JsonShapeView::Object(fields) => match field_value(fields, INPUT_KEY@) {
            Some(Some(input)) => Ok(input),
            _ => Err(MincErrorView::InvalidRequest(MISSING_INPUT@)),
        },
        JsonShapeView::Other => Err(MincErrorView::InvalidRequest(NON_OBJECT_FREEFORM@)),
    }
}

/// Prints the JSON arguments of a function call, renaming `command` to
/// `cmd` for `exec_command`.
pub fn normalize_function_arguments(name: &str, arguments: &str) -> (out: Option<String>)
    ensures
        opt_view(out) == normalized_arguments(name@, arguments@),
{
    let name_chars = chars_of(name);
    let exec_command = chars_of(EXEC_COMMAND);
    if chars_eq(&name_chars, &exec_command) {
        match json_shape(arguments) {
            JsonShape::Object(fields) => {
                if find_field(&fields, CMD_KEY).is_none() && find_field(
                    &fields,
                    COMMAND_KEY,
                ).is_some() {
                    return json_compact_renamed(arguments, COMMAND_KEY, CMD_KEY);
                }
            },
            _ => {},
        }
    }
    json_compact(arguments)
}

fn message_with_name(prefix: &str, name: &str, suffix: &str) -> (out: String)
    ensures
        out@ == prefix@ + name@ + suffix@,
{
    let mut m = chars_of(prefix);
    push_str(&mut m, name);
    push_str(&mut m, suffix);
    string_of(&m)
}

fn message(text: &str) -> (out: String)
    ensures
        out@ == text@,
{
    string_of(&chars_of(text))
}

/// Turns a custom payload into function arguments for a function tool.
pub fn custom_input_to_function_arguments(name: &str, input: &str) -> (out: Result<String, MincError>)
    ensures
        text_result_view(out) == custom_to_arguments(name@, input@),
{
    let input_chars = chars_of(input);
    let t = trimmed(&input_chars);
    let trimmed_input = string_of(&t);
    let name_chars = chars_of(name);
    let exec_command = chars_of(EXEC_COMMAND);
    let mut brace: Vec<char> = Vec::new();
    brace.push('{');
    if chars_eq(&name_chars, &exec_command) && !starts_with_chars(&t, &brace) {
        return Ok(json_single_field(CMD_KEY, trimmed_input.as_str()));
    }
    match json_shape(trimmed_input.as_str()) {
        JsonShape::Invalid => {
            return Err(
                MincError::InvalidRequest(message_with_name(NOT_JSON_PREFIX, name, NOT_JSON_SUFFIX)),
            );
        },
        _ => {},
    }
    match normalize_function_arguments(name, trimmed_input.as_str()) {
        Some(a) => Ok(a),
        None => {
            proof {
                reveal_strlit("");
            }
            Err(MincError::InvalidRequest(message_with_name(INVALID_ARGUMENTS_PREFIX, name, "")))
        },
    }
}

/// Turns JSON arguments into the input of a free-form tool.
pub fn function_arguments_to_custom_input(arguments: &str) -> (out: Result<String, MincError>)
    ensures
        text_result_view(out) == arguments_to_freeform(arguments@),
{
    match json_shape(arguments) {
        JsonShape::Invalid => Err(MincError::InvalidRequest(message(UNPARSABLE_FREEFORM))),
        JsonShape::Object(fields) => match find_field(&fields, INPUT_KEY) {
            Some(Some(input)) => Ok(input),
            _ => Err(MincError::InvalidRequest(message(MISSING_INPUT))),
        },
        JsonShape::Other => Err(MincError::InvalidRequest(message(NON_OBJECT_FREEFORM))),
    }
}

// ---------------------------------------------------------------------------
// Parsing an answer
// ---------------------------------------------------------------------------

/// A directive re-shaped to the advertised tool: a custom payload for a
/// function tool becomes a function call, JSON arguments for a free-form
/// tool become a custom call; anything else is kept.
pub open spec fn coerced(d: DirectiveView, tools: Seq<ToolSpec>) -> Result<DirectiveView, MincErrorView> {
    match d {
        DirectiveView::Custom { namespace, name, input } => if advertised_kind(
            tools,
            namespace,
            name,
        ) == Some(AdvertisedToolKind::Function) {
            match custom_to_arguments(name, input) {
                Ok(arguments) => Ok(DirectiveView::Function { namespace, name, arguments }),
                Err(e) => Err(e),
            }
        } else {
            Ok(d)
        },
        DirectiveView::Function { namespace, name, arguments } => if advertised_kind(
            tools,
            namespace,
            name,
        ) == Some(AdvertisedToolKind::Freeform) {
            match arguments_to_freeform(arguments) {
                Ok(input) => Ok(DirectiveView::Custom { namespace, name, input }),
                Err(e) => Err(e),
            }
        } else {
            Ok(d)
        },
    }
}

/// The characters of a coercion result.
pub open spec fn directive_result_view(r: Result<MincDirective, MincError>) -> Result<
    DirectiveView,
    MincErrorView,
> {
    match r {
        Ok(d) => Ok(d@),
        Err(e) => Err(e@),
    }
}

/// Re-shapes a directive to the kind of tool that is advertised under its
/// name.
pub fn coerce_directive_to_tool_spec(directive: MincDirective, tools: &[ToolSpec]) -> (out: Result<
    MincDirective,
    MincError,
>)
    ensures
        directive_result_view(out) == coerced(directive@, tools@),
{
    let kind = advertised_tool_kind(tools, &directive.namespace(), &directive.name());
    match directive {
        MincDirective::Custom { namespace, name, input } => {
            match kind {
                Some(AdvertisedToolKind::Function) => {
                    match custom_input_to_function_arguments(name.as_str(), input.as_str()) {
                        Ok(arguments) => Ok(MincDirective::Function { namespace, name, arguments }),
                        Err(e) => Err(e),
                    }
                },
                _ => Ok(MincDirective::Custom { namespace, name, input }),
            }
        },
        MincDirective::Function { namespace, name, arguments } => {
            match kind {
                Some(AdvertisedToolKind::Freeform) => {
                    match function_arguments_to_custom_input(arguments.as_str()) {
                        Ok(input) => Ok(MincDirective::Custom { namespace, name, input }),
                        Err(e) => Err(e),
                    }
                },
                _ => Ok(MincDirective::Function { namespace, name, arguments }),
            }
        },
    }
}

/// The text that is read as a directive: the directive block of the answer
/// if it has one, else the whole answer, trimmed.
pub open spec fn directive_text(answer: Seq<char>) -> Seq<char> {
    trim(
        match directive_candidate(answer) {
            Some(c) => c,
            None => answer,
        },
    )
}

/// The closing tag of the block that the directive text `a` opens: the
/// function one for `<minc:function`, else the custom one.
pub open spec fn block_close(a: Seq<char>) -> Seq<char> {
    if starts_with(a, open_prefix(FUNCTION_TAG@)) {
        close_tag(FUNCTION_TAG@)
    } else {
        close_tag(CUSTOM_TAG@)
    }
}

/// The directive text opens a second directive once its first block has
/// closed: a `<minc:` follows the first closing tag of the block's kind.
/// (A `<minc:` or a closing tag inside the body, before that, is body text.)
pub open spec fn holds_second_directive(a: Seq<char>) -> bool {
    match find(a, block_close(a)) {
        None => false,
        Some(k) => find_from(a, DIRECTIVE_PREFIX@, k + block_close(a).len()) is Some,
    }
}

/// Whether the directive text opens a second directive (character vector
/// form).
fn holds_second_directive_chars(a: &Vec<char>) -> (b: bool)
    ensures
        b == holds_second_directive(a@),
{
    let function_tag = chars_of(FUNCTION_TAG);
    let custom_tag = chars_of(CUSTOM_TAG);
    let close = if starts_with_chars(a, &open_prefix_chars(&function_tag)) {
        close_tag_chars(&function_tag)
    } else {
        close_tag_chars(&custom_tag)
    };
    assert(close@ == block_close(a@));
    proof {
        lemma_find(a@, close@);
    }
    match find_chars(a, &close) {
        None => false,
        Some(k) => {
            assert(crate::text::matches_at(a@, close@, k as int));
            assert(k + close.len() <= a.len());
            let prefix_marker = chars_of(DIRECTIVE_PREFIX);
            find_chars_from(a, &prefix_marker, k + close.len()).is_some()
        },
    }
}

/// The answers that cannot be read as a directive at all: taking the block
/// apart would end its body before it starts.
pub open spec fn directive_undefined(answer: Seq<char>) -> bool {
    let a = directive_text(answer);
    &&& a.len() > 0
    &&& starts_with(a, DIRECTIVE_PREFIX@)
    &&& !holds_second_directive(a)
    &&& (tag_parts_undefined(a, FUNCTION_TAG@) || (tag_parts(a, FUNCTION_TAG@) is None
        && tag_parts_undefined(a, CUSTOM_TAG@)))
}

/// The directive that an answer states, before it is matched to the
/// advertised tools; `None` for plain text, a malformed directive, or a
/// second directive after the first block.
pub open spec fn parsed_directive(answer: Seq<char>) -> Option<DirectiveView> {
    let a = directive_text(answer);
    if a.len() == 0 || !starts_with(a, DIRECTIVE_PREFIX@) || holds_second_directive(a) {
        None
    } else {
        match tag_parts(a, FUNCTION_TAG@) {
            Some((attrs, body)) => match required_attr_value(attrs, NAME_ATTR@) {
                None => None,
                Some(name) => if json_shape_of(body) is Object {
                    match normalized_arguments(name, body) {
                        Some(arguments) => Some(
                            DirectiveView::Function {
                                namespace: attr_value(attrs, NAMESPACE_ATTR@),
                                name,
                                arguments,
                            },
                        ),
                        None => None,
                    }
                } else {
                    None
                },
            },
            None => match tag_parts(a, CUSTOM_TAG@) {
                Some((attrs, body)) => match required_attr_value(attrs, NAME_ATTR@) {
                    None => None,
                    Some(name) => Some(
                        DirectiveView::Custom {
                            namespace: attr_value(attrs, NAMESPACE_ATTR@),
                            name,
                            input: body,
                        },
                    ),
                },
                None => None,
            },
        }
    }
}

/// What reading an answer gives: no directive, a directive matched to the
/// advertised tools, or the error of that match.
pub open spec fn parse_outcome(answer: Seq<char>, tools: Seq<ToolSpec>) -> Result<
    Option<DirectiveView>,
    MincErrorView,
> {
    match parsed_directive(answer) {
        None => Ok(None),
        Some(d) => match coerced(d, tools) {
            Ok(c) => Ok(Some(c)),
            Err(e) => Err(e),
        },
    }
}

/// The characters of a parse result.
pub open spec fn parse_result_view(r: Result<Option<MincDirective>, MincError>) -> Result<
    Option<DirectiveView>,
    MincErrorView,
> {
    match r {
        Ok(Some(d)) => Ok(Some(d@)),
        Ok(None) => Ok(None),
        Err(e) => Err(e@),
    }
}

/// The trimmed directive text (character vector form).
fn directive_text_chars(answer: &Vec<char>) -> (out: Vec<char>)
    ensures
        out@ == directive_text(answer@),
{
    match directive_candidate_chars(answer) {
        Some(c) => trimmed(&c),
        None => trimmed(answer),
    }
}

/// Whether `answer` can be read as a directive (see `directive_undefined`).
pub fn directive_is_defined(answer: &str) -> (b: bool)
    ensures
        b == !directive_undefined(answer@),
{
    let a = directive_text_chars(&chars_of(answer));
    let prefix_marker = chars_of(DIRECTIVE_PREFIX);
    if a.len() == 0 || !starts_with_chars(&a, &prefix_marker) || holds_second_directive_chars(&a) {
        return true;
    }
    let function_tag = chars_of(FUNCTION_TAG);
    let custom_tag = chars_of(CUSTOM_TAG);
    if !tag_parts_defined(&a, &function_tag) {
        return false;
    }
    match tag_parts_chars(&a, &function_tag) {
        Some(_) => true,
        None => tag_parts_defined(&a, &custom_tag),
    }
}

/// Whether taking `source` apart at `tag` is defined.
fn tag_parts_defined(source: &Vec<char>, tag: &Vec<char>) -> (b: bool)
    ensures
        b == !tag_parts_undefined(source@, tag@),
{
    let open = open_prefix_chars(tag);
    let close = close_tag_chars(tag);
    if !starts_with_chars(source, &open) || !ends_with_chars(source, &close) {
        return true;
    }
    let mut gt_pattern: Vec<char> = Vec::new();
    gt_pattern.push('>');
    match find_chars_from(source, &gt_pattern, open.len()) {
        None => true,
        Some(gt) => gt < source.len() - close.len(),
    }
}

/// Reads a Minc answer: plain text gives `Ok(None)`; a well-formed directive
/// gives the tool call, re-shaped to the advertised tool of that name; a
/// payload that cannot be re-shaped gives the error.
pub fn parse_minc_directive(answer: &str, tools: &[ToolSpec]) -> (out: Result<
    Option<MincDirective>,
    MincError,
>)
    requires
        !directive_undefined(answer@),
    ensures
        parse_result_view(out) == parse_outcome(answer@, tools@),
{
    let a = directive_text_chars(&chars_of(answer));
    let prefix_marker = chars_of(DIRECTIVE_PREFIX);
    if a.len() == 0 || !starts_with_chars(&a, &prefix_marker) {
        return Ok(None);
    }
    if holds_second_directive_chars(&a) {
        return Ok(None);
    }
    let function_tag = chars_of(FUNCTION_TAG);
    let custom_tag = chars_of(CUSTOM_TAG);
    let name_attr = chars_of(NAME_ATTR);
    let namespace_attr = chars_of(NAMESPACE_ATTR);
    match tag_parts_chars(&a, &function_tag) {
        Some((attrs, body)) => {
            let name = match attr_value_chars(&attrs, &name_attr) {
                Some(v) => if v.len() > 0 {
                    v
                } else {
                    return Ok(None);
                },
                None => {
                    return Ok(None);
                },
            };
            let namespace = match attr_value_chars(&attrs, &namespace_attr) {
                Some(v) => Some(string_of(&v)),
                None => None,
            };
            let body_text = string_of(&body);
            match json_shape(body_text.as_str()) {
                JsonShape::Object(_) => {},
                _ => {
                    return Ok(None);
                },
            }
            let name_text = string_of(&name);
            let arguments = match normalize_function_arguments(
                name_text.as_str(),
                body_text.as_str(),
            ) {
                Some(arguments) => arguments,
                None => {
                    return Ok(None);
                },
            };
            let directive = MincDirective::Function { namespace, name: name_text, arguments };
            match coerce_directive_to_tool_spec(directive, tools) {
                Ok(d) => Ok(Some(d)),
                Err(e) => Err(e),
            }
        },
        None => match tag_parts_chars(&a, &custom_tag) {
            Some((attrs, body)) => {
                let name = match attr_value_chars(&attrs, &name_attr) {
                    Some(v) => if v.len() > 0 {
                        v
                    } else {
                        return Ok(None);
                    },
                    None => {
                        return Ok(None);
                    },
                };
                let namespace = match attr_value_chars(&attrs, &namespace_attr) {
                    Some(v) => Some(string_of(&v)),
                    None => None,
                };
                let directive = MincDirective::Custom {
                    namespace,
                    name: string_of(&name),
                    input: string_of(&body),
                };
                match coerce_directive_to_tool_spec(directive, tools) {
                    Ok(d) => Ok(Some(d)),
                    Err(e) => Err(e),
                }
            },
            None => Ok(None),
        },
    }
}

} // verus!
