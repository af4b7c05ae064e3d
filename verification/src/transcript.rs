//! Rendering the conversation for Minc: the query transcript, the execution
//! state, the tool catalog and the system prompt.

use vstd::prelude::*;
use crate::sanitize::{sanitize_base_instructions, sanitized};
use crate::text::{
    blank, chars_of, is_blank, join, join_chars, push_all, push_str, string_of, trim,
    trimmed, views,
};
use crate::truncate::{
    truncate_chars_from_end, truncate_chars_from_start, truncated_from_end, truncated_from_start,
};
use crate::types::{ContentItem, Prompt, ResponseItem, ToolSpec, opt_view, tool_name};

verus! {

/// How many characters of the base instructions the system prompt keeps.
pub const MAX_MINC_BASE_INSTRUCTIONS_CHARS: usize = 1_000;
/// How many characters the execution state may take.
pub const MAX_MINC_EXECUTION_STATE_CHARS: usize = 700;
/// How many characters of the active request the system prompt keeps.
pub const MAX_ACTIVE_REQUEST_CHARS: usize = 400;
/// How many characters of tool arguments the execution state shows.
pub const MAX_STATE_CALL_CHARS: usize = 140;
/// How many characters of a tool result the execution state shows.
pub const MAX_STATE_RESULT_CHARS: usize = 180;
/// How many of the latest tool steps the execution state shows.
pub const MAX_STATE_ENTRIES: usize = 6;

/// The fixed instructions that teach Minc the directive grammar.
pub const MINC_SYSTEM_PROMPT_HEADER: &'static str = "You are Minc Agent, a CLI coding assistant.

When local tool execution is needed, you must output exactly one directive block and nothing else.
Otherwise, output only plain user-facing text.

Directive grammar:
1. Function tool call:
<minc:function name=\"tool_name\">{\"json\":\"arguments\"}</minc:function>
2. Namespaced function tool call:
<minc:function namespace=\"tool_namespace\" name=\"tool_name\">{\"json\":\"arguments\"}</minc:function>
3. Freeform custom tool call:
<minc:custom name=\"tool_name\">raw tool input</minc:custom>
4. Namespaced freeform custom tool call:
<minc:custom namespace=\"tool_namespace\" name=\"tool_name\">raw tool input</minc:custom>

Rules:
- Never mix prose with a directive block.
- Never emit markdown fences around a directive block.
- Use `exec_command` for shell execution and `apply_patch` for patch application.
- For `exec_command`, the JSON argument key is `cmd`, not `command`.
- For repository questions, code tasks, debugging, summaries, or implementation requests, inspect the repo and relevant files first unless the user explicitly asks for a no-tools answer.
- Most of the time, if the user asks about the codebase, you should use local tools to read the repo before answering.
- Only call tools that appear in the advertised tool list.
- Function arguments must be valid JSON objects.
- When tool results are present, continue working on the latest user request using those results instead of restarting the conversation.
- If you are unsure a tool call is needed, answer in plain text instead.";

/// Tells Minc to carry on from tool results rather than start over.
pub const CONTINUE_INSTRUCTION: &'static str = "If a tool was already run for this request, continue from that tool result instead of restarting or asking what to do next. Either answer the active user request using the available results, or emit one next valid directive.";

pub const ACTIVE_REQUEST_HEADING: &'static str = "Active user request:\n";
pub const EXECUTION_STATE_HEADING: &'static str = "Current execution state:\n";
pub const TOOLS_HEADING: &'static str = "Advertised local tools:\n";
pub const NO_TOOLS: &'static str = "<none>";
pub const TOOL_SEPARATOR: &'static str = ", ";
pub const SECTION_SEPARATOR: &'static str = "\n\n";

pub const USER_ROLE: &'static str = "user";
pub const ASSISTANT_ROLE: &'static str = "assistant";
pub const USER_REQUEST_LABEL: &'static str = "user_request: ";
pub const ASSISTANT_RESPONSE_LABEL: &'static str = "assistant_response: ";
pub const OTHER_MESSAGE_LABEL: &'static str = "_message: ";
pub const ACTION_LABEL: &'static str = "assistant_action: call ";
pub const ACTION_WITH: &'static str = " with ";
pub const RESULT_CALL_LABEL: &'static str = "tool_result: call_id=";
pub const RESULT_TOOL_LABEL: &'static str = "tool_result: tool=";
pub const RESULT_OUTPUT_LABEL: &'static str = "; output=";
pub const ORIGINAL_REQUEST_LABEL: &'static str = "original_user_request: ";
pub const LATEST_REQUEST_LABEL: &'static str = "latest_user_request: ";
pub const TURN_LOG_LABEL: &'static str = "turn_log:\n";
pub const STATE_CALL_LABEL: &'static str = "- Tool call: ";
pub const STATE_RESULT_LABEL: &'static str = "- Tool result [";
pub const STATE_RESULT_CLOSE: &'static str = "]: ";

// ---------------------------------------------------------------------------
// Messages
// ---------------------------------------------------------------------------

/// The text of one message part: its text for text parts, nothing otherwise.
pub open spec fn part_text(part: ContentItem) -> Seq<char> {
    match part {
        ContentItem::InputText { text } => text@,
        ContentItem::OutputText { text } => text@,
        ContentItem::InputImage { .. } => Seq::empty(),
    }
}

/// The text parts of a message, concatenated.
pub open spec fn content_text(content: Seq<ContentItem>) -> Seq<char>
    decreases content.len(),
{
    if content.len() == 0 {
        Seq::empty()
    } else {
        content_text(content.drop_last()) + part_text(content.last())
    }
}

/// The trimmed text of a message, when it is not empty.
pub open spec fn message_text(content: Seq<ContentItem>) -> Option<Seq<char>> {
    let t = trim(content_text(content));
    if t.len() == 0 {
        None
    } else {
        Some(t)
    }
}

/// The trimmed text of a user message.
pub open spec fn user_message_text(item: ResponseItem) -> Option<Seq<char>> {
    match item {
        ResponseItem::Message { role, content, .. } => if role@ == USER_ROLE@ {
            message_text(content@)
        } else {
            None
        },
        _ => None,
    }
}

/// Concatenates the text parts of a message.
pub fn content_text_chars(content: &Vec<ContentItem>) -> (out: Vec<char>)
    ensures
        out@ == content_text(content@),
{
    let mut out: Vec<char> = Vec::new();
    let mut i: usize = 0;
    while i < content.len()
        invariant
            i <= content.len(),
            out@ == content_text(content@.take(i as int)),
        decreases content.len() - i,
    {
        proof {
            let taken = content@.take(i + 1);
            assert(taken.drop_last() == content@.take(i as int));
            assert(taken.last() == content@[i as int]);
        }
        match &content[i] {
            ContentItem::InputText { text } => push_str(&mut out, text.as_str()),
            ContentItem::OutputText { text } => push_str(&mut out, text.as_str()),
            ContentItem::InputImage { .. } => {
                assert(out@ == out@ + Seq::<char>::empty());
            },
        }
        i += 1;
    }
    assert(content@.take(content.len() as int) == content@);
    out
}

fn message_text_chars(content: &Vec<ContentItem>) -> (out: Option<Vec<char>>)
    ensures
        out matches Some(t) ==> message_text(content@) == Some(t@),
        out is None ==> message_text(content@) is None,
{
    let t = trimmed(&content_text_chars(content));
    if t.len() == 0 {
        None
    } else {
        Some(t)
    }
}

/// The trimmed text of a message, when it is not empty.
pub fn extract_message_text(content: &Vec<ContentItem>) -> (out: Option<String>)
    ensures
        opt_view(out) == message_text(content@),
{
    match message_text_chars(content) {
        Some(t) => Some(string_of(&t)),
        None => None,
    }
}

fn is_role(role: &String, expected: &str) -> (b: bool)
    ensures
        b == (role@ == expected@),
{
    *role == string_of(&chars_of(expected))
}

/// The trimmed text of a user message, when it is not empty.
pub fn extract_user_message_text(item: &ResponseItem) -> (out: Option<String>)
    ensures
        opt_view(out) == user_message_text(*item),
{
    match item {
        ResponseItem::Message { role, content, .. } => if is_role(role, USER_ROLE) {
            extract_message_text(content)
        } else {
            None
        },
        _ => None,
    }
}

// ---------------------------------------------------------------------------
// The transcript
// ---------------------------------------------------------------------------

/// `ns.` for a namespaced tool, nothing otherwise.
pub open spec fn namespace_prefix(namespace: Option<String>) -> Seq<char> {
    match namespace {
        Some(ns) => ns@ + seq!['.'],
        None => Seq::empty(),
    }
}

/// `name:` for a named tool result, nothing otherwise.
pub open spec fn tool_prefix(name: Option<String>) -> Seq<char> {
    match name {
        Some(n) => n@ + seq![':'],
        None => Seq::empty(),
    }
}

/// The transcript line for one conversation item.
pub open spec fn rendered_item(item: ResponseItem) -> Option<Seq<char>> {
    match item {
        ResponseItem::Message { role, content, .. } => match message_text(content@) {
            None => None,
            Some(text) => Some(
                if role@ == USER_ROLE@ {
                    USER_REQUEST_LABEL@ + text
                } else if role@ == ASSISTANT_ROLE@ {
                    ASSISTANT_RESPONSE_LABEL@ + text
                } else {
                    role@ + OTHER_MESSAGE_LABEL@ + text
                },
            ),
        },
        ResponseItem::FunctionCall { namespace, name, arguments, .. } => Some(
            ACTION_LABEL@ + namespace_prefix(namespace) + name@ + ACTION_WITH@ + arguments@,
        ),
        ResponseItem::CustomToolCall { namespace, name, input, .. } => Some(
            ACTION_LABEL@ + namespace_prefix(namespace) + name@ + ACTION_WITH@ + input@,
        ),
        ResponseItem::FunctionCallOutput { call_id, output, .. } => match output.text {
            Some(text) => Some(RESULT_CALL_LABEL@ + call_id@ + RESULT_OUTPUT_LABEL@ + text@),
            None => None,
        },
        ResponseItem::CustomToolCallOutput { call_id, name, output, .. } => match output.text {
            Some(text) => Some(
                RESULT_TOOL_LABEL@ + tool_prefix(name) + call_id@ + RESULT_OUTPUT_LABEL@ + text@,
            ),
            None => None,
        },
        _ => None,
    }
}

fn push_namespace_prefix(out: &mut Vec<char>, namespace: &Option<String>)
    ensures
        final(out)@ == old(out)@ + namespace_prefix(*namespace),
{
    match namespace {
        Some(ns) => {
            push_str(out, ns.as_str());
            out.push('.');
        },
        None => {
            assert(out@ == out@ + Seq::<char>::empty());
        },
    }
}

fn push_tool_prefix(out: &mut Vec<char>, name: &Option<String>)
    ensures
        final(out)@ == old(out)@ + tool_prefix(*name),
{
    match name {
        Some(n) => {
            push_str(out, n.as_str());
            out.push(':');
        },
        None => {
            assert(out@ == out@ + Seq::<char>::empty());
        },
    }
}

/// The transcript line for one item (character vector form).
pub fn rendered_item_chars(item: &ResponseItem) -> (out: Option<Vec<char>>)
    ensures
        out matches Some(r) ==> rendered_item(*item) == Some(r@),
        out is None ==> rendered_item(*item) is None,
{
    match item {
        ResponseItem::Message { role, content, .. } => match message_text_chars(content) {
            None => None,
            Some(text) => {
                let mut out: Vec<char>;
                if is_role(role, USER_ROLE) {
                    out = chars_of(USER_REQUEST_LABEL);
                } else if is_role(role, ASSISTANT_ROLE) {
                    out = chars_of(ASSISTANT_RESPONSE_LABEL);
                } else {
                    out = chars_of(role.as_str());
                    push_str(&mut out, OTHER_MESSAGE_LABEL);
                }
                push_all(&mut out, &text);
                Some(out)
            },
        },
        ResponseItem::FunctionCall { namespace, name, arguments, .. } => {
            let mut out = chars_of(ACTION_LABEL);
            push_namespace_prefix(&mut out, namespace);
            push_str(&mut out, name.as_str());
            push_str(&mut out, ACTION_WITH);
            push_str(&mut out, arguments.as_str());
            Some(out)
        },
        ResponseItem::CustomToolCall { namespace, name, input, .. } => {
            let mut out = chars_of(ACTION_LABEL);
            push_namespace_prefix(&mut out, namespace);
            push_str(&mut out, name.as_str());
            push_str(&mut out, ACTION_WITH);
            push_str(&mut out, input.as_str());
            Some(out)
        },
        ResponseItem::FunctionCallOutput { call_id, output, .. } => match output.to_text() {
            Some(text) => {
                let mut out = chars_of(RESULT_CALL_LABEL);
                push_str(&mut out, call_id.as_str());
                push_str(&mut out, RESULT_OUTPUT_LABEL);
                push_str(&mut out, text.as_str());
                Some(out)
            },
            None => None,
        },
        ResponseItem::CustomToolCallOutput { call_id, name, output, .. } => match output.to_text() {
            Some(text) => {
                let mut out = chars_of(RESULT_TOOL_LABEL);
                push_tool_prefix(&mut out, name);
                push_str(&mut out, call_id.as_str());
                push_str(&mut out, RESULT_OUTPUT_LABEL);
                push_str(&mut out, text.as_str());
                Some(out)
            },
            None => None,
        },
        _ => None,
    }
}

/// The transcript line for one conversation item: messages, tool calls and
/// tool results; other items are left out.
pub fn render_response_item_for_minc(item: &ResponseItem) -> (out: Option<String>)
    ensures
        opt_view(out) == rendered_item(*item),
{
    match rendered_item_chars(item) {
        Some(r) => Some(string_of(&r)),
        None => None,
    }
}

/// The transcript lines of the items that have one, in order.
pub open spec fn rendered_items(items: Seq<ResponseItem>) -> Seq<Seq<char>>
    decreases items.len(),
{
    if items.len() == 0 {
        Seq::empty()
    } else {
        let prev = rendered_items(items.drop_last());
        match rendered_item(items.last()) {
            Some(r) => prev.push(r),
            None => prev,
        }
    }
}

/// The text of the first user message that has text.
pub open spec fn first_user_text(items: Seq<ResponseItem>) -> Option<Seq<char>>
    decreases items.len(),
{
    if items.len() == 0 {
        None
    } else {
        match user_message_text(items[0]) {
            Some(t) => Some(t),
            None => first_user_text(items.drop_first()),
        }
    }
}

/// The text of the last user message that has text.
pub open spec fn last_user_text(items: Seq<ResponseItem>) -> Option<Seq<char>>
    decreases items.len(),
{
    if items.len() == 0 {
        None
    } else {
        match user_message_text(items.last()) {
            Some(t) => Some(t),
            None => last_user_text(items.drop_last()),
        }
    }
}

/// An optional text, or nothing.
pub open spec fn or_empty(o: Option<Seq<char>>) -> Seq<char> {
    match o {
        Some(t) => t,
        None => Seq::empty(),
    }
}

/// The query sent to Minc: the original request, the latest request when it
/// differs, and the turn log, separated by blank lines.
pub open spec fn transcript(items: Seq<ResponseItem>) -> Seq<char> {
    let entries = rendered_items(items);
    let original = or_empty(first_user_text(items));
    let latest = or_empty(last_user_text(items));
    let first_section: Seq<Seq<char>> = if original.len() > 0 {
        seq![ORIGINAL_REQUEST_LABEL@ + original]
    } else {
        Seq::empty()
    };
    let second_section: Seq<Seq<char>> = if latest.len() > 0 && latest != original {
        seq![LATEST_REQUEST_LABEL@ + latest]
    } else {
        Seq::empty()
    };
    let third_section: Seq<Seq<char>> = if entries.len() > 0 {
        seq![TURN_LOG_LABEL@ + join(entries, seq!['\n'])]
    } else {
        Seq::empty()
    };
    join(first_section + second_section + third_section, SECTION_SEPARATOR@)
}

fn rendered_items_chars(items: &Vec<ResponseItem>) -> (out: Vec<Vec<char>>)
    ensures
        views(out@) == rendered_items(items@),
{
    let mut out: Vec<Vec<char>> = Vec::new();
    let mut i: usize = 0;
    while i < items.len()
        invariant
            i <= items.len(),
            views(out@) == rendered_items(items@.take(i as int)),
        decreases items.len() - i,
    {
        let ghost prev = out@;
        proof {
            let taken = items@.take(i + 1);
            assert(taken.drop_last() == items@.take(i as int));
            assert(taken.last() == items@[i as int]);
        }
        match rendered_item_chars(&items[i]) {
            Some(r) => {
                out.push(r);
                assert(views(out@) == views(prev).push(out@[out@.len() - 1]@));
            },
            None => {},
        }
        i += 1;
    }
    assert(items@.take(items.len() as int) == items@);
    out
}

fn first_user_text_chars(items: &Vec<ResponseItem>) -> (out: Vec<char>)
    ensures
        out@ == or_empty(first_user_text(items@)),
{
    let mut i: usize = 0;
    assert(items@.subrange(0, items@.len() as int) == items@);
    while i < items.len()
        invariant
            i <= items.len(),
            first_user_text(items@) == first_user_text(
                items@.subrange(i as int, items@.len() as int),
            ),
        decreases items.len() - i,
    {
        let ghost rest = items@.subrange(i as int, items@.len() as int);
        assert(rest[0] == items@[i as int]);
        assert(rest.drop_first() == items@.subrange(i + 1, items@.len() as int));
        match extract_user_message_text(&items[i]) {
            Some(t) => {
                return chars_of(t.as_str());
            },
            None => {},
        }
        i += 1;
    }
    Vec::new()
}

fn last_user_text_chars(items: &Vec<ResponseItem>) -> (out: Vec<char>)
    ensures
        out@ == or_empty(last_user_text(items@)),
{
    let mut i: usize = items.len();
    assert(items@.take(items@.len() as int) == items@);
    while i > 0
        invariant
            i <= items.len(),
            last_user_text(items@) == last_user_text(items@.take(i as int)),
        decreases i,
    {
        let ghost rest = items@.take(i as int);
        assert(rest.last() == items@[i - 1]);
        assert(rest.drop_last() == items@.take(i - 1));
        match extract_user_message_text(&items[i - 1]) {
            Some(t) => {
                return chars_of(t.as_str());
            },
            None => {},
        }
        i -= 1;
    }
    Vec::new()
}

/// Renders the conversation as Minc's query: the original user request, the
/// latest user request when it differs, and the turn log.
pub fn render_prompt_transcript(prompt: &Prompt) -> (out: String)
    ensures
        out@ == transcript(prompt.input@),
{
    let entries = rendered_items_chars(&prompt.input);
    let original = first_user_text_chars(&prompt.input);
    let latest = last_user_text_chars(&prompt.input);
    let ghost entries_v = rendered_items(prompt.input@);
    let mut sections: Vec<Vec<char>> = Vec::new();
    if original.len() > 0 {
        let mut s = chars_of(ORIGINAL_REQUEST_LABEL);
        push_all(&mut s, &original);
        sections.push(s);
    }
    let ghost after_first = views(sections@);
    if latest.len() > 0 && !crate::directive::chars_eq(&latest, &original) {
        let mut s = chars_of(LATEST_REQUEST_LABEL);
        push_all(&mut s, &latest);
        sections.push(s);
    }
    let ghost after_second = views(sections@);
    if entries.len() > 0 {
        let mut newline: Vec<char> = Vec::new();
        newline.push('\n');
        let mut s = chars_of(TURN_LOG_LABEL);
        let log = join_chars(&entries, &newline);
        push_all(&mut s, &log);
        sections.push(s);
    }
    proof {
        let original_v = or_empty(first_user_text(prompt.input@));
        let latest_v = or_empty(last_user_text(prompt.input@));
        let first_section: Seq<Seq<char>> = if original_v.len() > 0 {
            seq![ORIGINAL_REQUEST_LABEL@ + original_v]
        } else {
            Seq::empty()
        };
        let second_section: Seq<Seq<char>> = if latest_v.len() > 0 && latest_v != original_v {
            seq![LATEST_REQUEST_LABEL@ + latest_v]
        } else {
            Seq::empty()
        };
        let third_section: Seq<Seq<char>> = if entries_v.len() > 0 {
            seq![TURN_LOG_LABEL@ + join(entries_v, seq!['\n'])]
        } else {
            Seq::empty()
        };
        assert(after_first == first_section);
        assert(after_second == first_section + second_section);
        assert(views(sections@) == first_section + second_section + third_section);
    }
    let separator = chars_of(SECTION_SEPARATOR);
    let joined = join_chars(&sections, &separator);
    string_of(&joined)
}

// ---------------------------------------------------------------------------
// The execution state
// ---------------------------------------------------------------------------

/// The execution-state line for one item: tool calls with their arguments
/// cut to 140 characters, tool results cut to 180 characters.
pub open spec fn state_item(item: ResponseItem) -> Option<Seq<char>> {
    match item {
        ResponseItem::FunctionCall { namespace, name, arguments, .. } => Some(
            STATE_CALL_LABEL@ + namespace_prefix(namespace) + name@ + seq![' ']
                + truncated_from_end(arguments@, MAX_STATE_CALL_CHARS as nat),
        ),
        ResponseItem::CustomToolCall { namespace, name, input, .. } => Some(
            STATE_CALL_LABEL@ + namespace_prefix(namespace) + name@ + seq![' ']
                + truncated_from_end(input@, MAX_STATE_CALL_CHARS as nat),
        ),
        ResponseItem::FunctionCallOutput { call_id, output, .. } => match output.text {
            Some(text) => Some(
                STATE_RESULT_LABEL@ + call_id@ + STATE_RESULT_CLOSE@ + truncated_from_end(
                    text@,
                    MAX_STATE_RESULT_CHARS as nat,
                ),
            ),
            None => None,
        },
        ResponseItem::CustomToolCallOutput { call_id, name, output, .. } => match output.text {
            Some(text) => Some(
                STATE_RESULT_LABEL@ + tool_prefix(name) + call_id@ + STATE_RESULT_CLOSE@
                    + truncated_from_end(text@, MAX_STATE_RESULT_CHARS as nat),
            ),
            None => None,
        },
        _ => None,
    }
}

/// The execution-state lines of the items that have one, in order.
pub open spec fn state_items(items: Seq<ResponseItem>) -> Seq<Seq<char>>
    decreases items.len(),
{
    if items.len() == 0 {
        Seq::empty()
    } else {
        let prev = state_items(items.drop_last());
        match state_item(items.last()) {
            Some(r) => prev.push(r),
            None => prev,
        }
    }
}

/// The last `n` entries of `s` (all of them when there are fewer).
pub open spec fn last_n<A>(s: Seq<A>, n: nat) -> Seq<A> {
    if s.len() <= n {
        s
    } else {
        s.subrange(s.len() - n, s.len() as int)
    }
}

/// The latest six tool steps, one per line, cut to 700 characters from the
/// front; `None` when there are none.
pub open spec fn execution_state(items: Seq<ResponseItem>) -> Option<Seq<char>> {
    let entries = state_items(items);
    if entries.len() == 0 {
        None
    } else {
        Some(
            truncated_from_start(
                join(last_n(entries, MAX_STATE_ENTRIES as nat), seq!['\n']),
                MAX_MINC_EXECUTION_STATE_CHARS as nat,
            ),
        )
    }
}

fn push_truncated_end(out: &mut Vec<char>, text: &str, max_chars: usize)
    ensures
        final(out)@ == old(out)@ + truncated_from_end(text@, max_chars as nat),
{
    let t = truncate_chars_from_end(&chars_of(text), max_chars);
    push_all(out, &t);
}

/// The execution-state line for one item (character vector form).
pub fn state_item_chars(item: &ResponseItem) -> (out: Option<Vec<char>>)
    ensures
        out matches Some(r) ==> state_item(*item) == Some(r@),
        out is None ==> state_item(*item) is None,
{
    match item {
        ResponseItem::FunctionCall { namespace, name, arguments, .. } => {
            let mut out = chars_of(STATE_CALL_LABEL);
            push_namespace_prefix(&mut out, namespace);
            push_str(&mut out, name.as_str());
            out.push(' ');
            push_truncated_end(&mut out, arguments.as_str(), MAX_STATE_CALL_CHARS);
            Some(out)
        },
        ResponseItem::CustomToolCall { namespace, name, input, .. } => {
            let mut out = chars_of(STATE_CALL_LABEL);
            push_namespace_prefix(&mut out, namespace);
            push_str(&mut out, name.as_str());
            out.push(' ');
            push_truncated_end(&mut out, input.as_str(), MAX_STATE_CALL_CHARS);
            Some(out)
        },
        ResponseItem::FunctionCallOutput { call_id, output, .. } => match output.to_text() {
            Some(text) => {
                let mut out = chars_of(STATE_RESULT_LABEL);
                push_str(&mut out, call_id.as_str());
                push_str(&mut out, STATE_RESULT_CLOSE);
                push_truncated_end(&mut out, text.as_str(), MAX_STATE_RESULT_CHARS);
                Some(out)
            },
            None => None,
        },
        ResponseItem::CustomToolCallOutput { call_id, name, output, .. } => match output.to_text() {
            Some(text) => {
                let mut out = chars_of(STATE_RESULT_LABEL);
                push_tool_prefix(&mut out, name);
                push_str(&mut out, call_id.as_str());
                push_str(&mut out, STATE_RESULT_CLOSE);
                push_truncated_end(&mut out, text.as_str(), MAX_STATE_RESULT_CHARS);
                Some(out)
            },
            None => None,
        },
        _ => None,
    }
}

/// The execution-state line for one item: tool calls and tool results;
/// other items are left out.
pub fn render_execution_state_item(item: &ResponseItem) -> (out: Option<String>)
    ensures
        opt_view(out) == state_item(*item),
{
    match state_item_chars(item) {
        Some(r) => Some(string_of(&r)),
        None => None,
    }
}

fn state_items_chars(items: &Vec<ResponseItem>) -> (out: Vec<Vec<char>>)
    ensures
        views(out@) == state_items(items@),
{
    let mut out: Vec<Vec<char>> = Vec::new();
    let mut i: usize = 0;
    while i < items.len()
        invariant
            i <= items.len(),
            views(out@) == state_items(items@.take(i as int)),
        decreases items.len() - i,
    {
        let ghost prev = out@;
        proof {
            let taken = items@.take(i + 1);
            assert(taken.drop_last() == items@.take(i as int));
            assert(taken.last() == items@[i as int]);
        }
        match state_item_chars(&items[i]) {
            Some(r) => {
                out.push(r);
                assert(views(out@) == views(prev).push(out@[out@.len() - 1]@));
            },
            None => {},
        }
        i += 1;
    }
    assert(items@.take(items.len() as int) == items@);
    out
}

/// The latest six tool calls and results, one per line, cut to 700
/// characters from the front; `None` when the conversation has none.
pub fn render_execution_state(prompt: &Prompt) -> (out: Option<String>)
    ensures
        opt_view(out) == execution_state(prompt.input@),
{
    let entries = state_items_chars(&prompt.input);
    if entries.len() == 0 {
        return None;
    }
    let mut recent: Vec<Vec<char>> = Vec::new();
    let start = if entries.len() > MAX_STATE_ENTRIES {
        entries.len() - MAX_STATE_ENTRIES
    } else {
        0
    };
    let mut i = start;
    while i < entries.len()
        invariant
            start <= i <= entries.len(),
            views(recent@) == views(entries@).subrange(start as int, i as int),
        decreases entries.len() - i,
    {
        let ghost prev = recent@;
        let item = entries[i].clone();
        recent.push(item);
        proof {
            assert(recent@ == prev.push(item));
            assert(views(recent@) == views(prev).push(item@));
            assert(views(entries@)[i as int] == entries@[i as int]@);
            assert(views(recent@) == views(entries@).subrange(start as int, i + 1));
        }
        i += 1;
    }
    assert(views(recent@) == last_n(views(entries@), MAX_STATE_ENTRIES as nat));
    let mut newline: Vec<char> = Vec::new();
    newline.push('\n');
    let joined = join_chars(&recent, &newline);
    let out = truncate_chars_from_start(&joined, MAX_MINC_EXECUTION_STATE_CHARS);
    Some(string_of(&out))
}

/// The execution state never exceeds 706 characters: 700 when it fits,
/// else the truncation marker and the last 669 characters.
pub proof fn lemma_execution_state_is_bounded(items: Seq<ResponseItem>)
    ensures
        execution_state(items) matches Some(e) ==> e.len() <= MAX_MINC_EXECUTION_STATE_CHARS + 6,
{
    let entries = state_items(items);
    if entries.len() > 0 {
        crate::truncate::lemma_truncation_lengths(
            join(last_n(entries, MAX_STATE_ENTRIES as nat), seq!['\n']),
            MAX_MINC_EXECUTION_STATE_CHARS as nat,
        );
    }
}

/// A join of parts starts with its first part.
pub proof fn lemma_join_starts_with_first(parts: Seq<Seq<char>>, sep: Seq<char>)
    requires
        parts.len() > 0,
    ensures
        crate::text::starts_with(join(parts, sep), parts[0]),
    decreases parts.len(),
{
    if parts.len() > 1 {
        lemma_join_starts_with_first(parts.drop_last(), sep);
        let j = join(parts.drop_last(), sep);
        assert((j + sep + parts.last()).subrange(0, parts[0].len() as int) == j.subrange(
            0,
            parts[0].len() as int,
        ));
    } else {
        assert(join(parts, sep).subrange(0, parts[0].len() as int) == parts[0]);
    }
}

proof fn lemma_first_user_text_not_empty(items: Seq<ResponseItem>)
    ensures
        first_user_text(items) matches Some(t) ==> t.len() > 0,
    decreases items.len(),
{
    if items.len() > 0 {
        lemma_first_user_text_not_empty(items.drop_first());
    }
}

/// When the conversation holds a user message with text, the transcript
/// opens with the first such request.
pub proof fn lemma_transcript_opens_with_original_request(items: Seq<ResponseItem>)
    requires
        first_user_text(items) is Some,
    ensures
        crate::text::starts_with(
            transcript(items),
            ORIGINAL_REQUEST_LABEL@ + first_user_text(items).unwrap(),
        ),
{
    lemma_first_user_text_not_empty(items);
    let entries = rendered_items(items);
    let original = or_empty(first_user_text(items));
    let latest = or_empty(last_user_text(items));
    let first_section: Seq<Seq<char>> = seq![ORIGINAL_REQUEST_LABEL@ + original];
    let second_section: Seq<Seq<char>> = if latest.len() > 0 && latest != original {
        seq![LATEST_REQUEST_LABEL@ + latest]
    } else {
        Seq::empty()
    };
    let third_section: Seq<Seq<char>> = if entries.len() > 0 {
        seq![TURN_LOG_LABEL@ + join(entries, seq!['\n'])]
    } else {
        Seq::empty()
    };
    let all = first_section + second_section + third_section;
    assert(all[0] == ORIGINAL_REQUEST_LABEL@ + original);
    lemma_join_starts_with_first(all, SECTION_SEPARATOR@);
}

/// A conversation without text messages and without tool steps renders as
/// an empty transcript.
pub proof fn lemma_empty_conversation_transcript(items: Seq<ResponseItem>)
    requires
        first_user_text(items) is None,
        last_user_text(items) is None,
        rendered_items(items).len() == 0,
    ensures
        transcript(items).len() == 0,
{
    let empty: Seq<Seq<char>> = Seq::empty();
    assert(empty + empty + empty == empty);
}

// ---------------------------------------------------------------------------
// The system prompt
// ---------------------------------------------------------------------------

/// The text of the latest user message that is not blank (untrimmed).
pub open spec fn latest_request(items: Seq<ResponseItem>) -> Option<Seq<char>>
    decreases items.len(),
{
    if items.len() == 0 {
        None
    } else {
        match items.last() {
            ResponseItem::Message { role, content, .. } => if role@ == USER_ROLE@ && !is_blank(
                content_text(content@),
            ) {
                Some(content_text(content@))
            } else {
                latest_request(items.drop_last())
            },
            _ => latest_request(items.drop_last()),
        }
    }
}

/// The text of the latest user message that is not blank.
pub fn latest_user_request(prompt: &Prompt) -> (out: Option<String>)
    ensures
        opt_view(out) == latest_request(prompt.input@),
{
    let items = &prompt.input;
    let mut i: usize = items.len();
    assert(items@.take(items@.len() as int) == items@);
    while i > 0
        invariant
            i <= items.len(),
            items@ == prompt.input@,
            latest_request(items@) == latest_request(items@.take(i as int)),
        decreases i,
    {
        let ghost rest = items@.take(i as int);
        assert(rest.last() == items@[i - 1]);
        assert(rest.drop_last() == items@.take(i - 1));
        match &items[i - 1] {
            ResponseItem::Message { role, content, .. } => {
                if is_role(role, USER_ROLE) {
                    let text = content_text_chars(content);
                    if !blank(&text) {
                        assert(rest.last() == items@[i - 1]);
                        assert(latest_request(rest) == Some(text@));
                        let out = string_of(&text);
                        assert(opt_view(Some(out)) == Some(text@));
                        return Some(out);
                    }
                }
            },
            _ => {},
        }
        i -= 1;
    }
    None
}

/// The advertised tool names, comma separated, or `<none>`.
pub open spec fn tool_catalog(tools: Seq<ToolSpec>) -> Seq<char> {
    if tools.len() == 0 {
        NO_TOOLS@
    } else {
        join(tools.map_values(|t: ToolSpec| tool_name(t)), TOOL_SEPARATOR@)
    }
}

/// Lists the advertised tools by name, or `<none>` when there are none.
pub fn render_tool_catalog(tools: &[ToolSpec]) -> (out: String)
    ensures
        out@ == tool_catalog(tools@),
{
    if tools.len() == 0 {
        return string_of(&chars_of(NO_TOOLS));
    }
    let mut names: Vec<Vec<char>> = Vec::new();
    let mut i: usize = 0;
    while i < tools.len()
        invariant
            i <= tools.len(),
            views(names@) == tools@.map_values(|t: ToolSpec| tool_name(t)).take(i as int),
        decreases tools.len() - i,
    {
        let ghost prev = names@;
        let name = tools[i].name();
        let name_chars = chars_of(name.as_str());
        names.push(name_chars);
        proof {
            let all = tools@.map_values(|t: ToolSpec| tool_name(t));
            assert(names@ == prev.push(name_chars));
            assert(views(names@) == views(prev).push(name_chars@));
            assert(all[i as int] == tool_name(tools@[i as int]));
            assert(all.take(i + 1) == all.take(i as int).push(all[i as int]));
        }
        i += 1;
    }
    assert(tools@.map_values(|t: ToolSpec| tool_name(t)).take(tools.len() as int)
        == tools@.map_values(|t: ToolSpec| tool_name(t)));
    let separator = chars_of(TOOL_SEPARATOR);
    string_of(&join_chars(&names, &separator))
}

/// The sections of the system prompt, in order.
pub open spec fn system_sections(
    instructions: Seq<char>,
    base_instructions: Seq<char>,
    items: Seq<ResponseItem>,
    tools: Seq<ToolSpec>,
) -> Seq<Seq<char>> {
    let base = sanitized(base_instructions);
    let base_section: Seq<Seq<char>> = if !is_blank(base) {
        seq![truncated_from_end(base, MAX_MINC_BASE_INSTRUCTIONS_CHARS as nat)]
    } else {
        Seq::empty()
    };
    let request_section: Seq<Seq<char>> = match latest_request(items) {
        Some(u) => seq![
            ACTIVE_REQUEST_HEADING@ + truncated_from_end(u, MAX_ACTIVE_REQUEST_CHARS as nat),
        ],
        None => Seq::empty(),
    };
    let state_section: Seq<Seq<char>> = match execution_state(items) {
        Some(e) => seq![EXECUTION_STATE_HEADING@ + e],
        None => Seq::empty(),
    };
    seq![instructions] + base_section + request_section + state_section + seq![
        MINC_SYSTEM_PROMPT_HEADER@,
        CONTINUE_INSTRUCTION@,
        TOOLS_HEADING@ + tool_catalog(tools),
    ]
}

/// The system prompt: the model's instructions, the sanitized base
/// instructions, the active request, the execution state, the directive
/// grammar and the advertised tools, separated by blank lines.
pub open spec fn system_prompt(instructions: Seq<char>, prompt: Prompt) -> Seq<char> {
    join(
        system_sections(instructions, prompt.base_instructions@, prompt.input@, prompt.tools@),
        SECTION_SEPARATOR@,
    )
}

/// Builds the system prompt from the model's instructions and the prompt.
pub fn build_system_prompt(prompt: &Prompt, model_instructions: &str) -> (out: String)
    ensures
        out@ == system_prompt(model_instructions@, *prompt),
{
    let mut sections: Vec<Vec<char>> = Vec::new();
    sections.push(chars_of(model_instructions));
    let ghost s0 = views(sections@);
    let base = chars_of(sanitize_base_instructions(prompt.base_instructions.as_str()).as_str());
    if !blank(&base) {
        sections.push(truncate_chars_from_end(&base, MAX_MINC_BASE_INSTRUCTIONS_CHARS));
    }
    let ghost s1 = views(sections@);
    match latest_user_request(prompt) {
        Some(u) => {
            let mut s = chars_of(ACTIVE_REQUEST_HEADING);
            let t = truncate_chars_from_end(&chars_of(u.as_str()), MAX_ACTIVE_REQUEST_CHARS);
            push_all(&mut s, &t);
            sections.push(s);
        },
        None => {},
    }
    let ghost s2 = views(sections@);
    match render_execution_state(prompt) {
        Some(e) => {
            let mut s = chars_of(EXECUTION_STATE_HEADING);
            push_str(&mut s, e.as_str());
            sections.push(s);
        },
        None => {},
    }
    let ghost s3 = views(sections@);
    sections.push(chars_of(MINC_SYSTEM_PROMPT_HEADER));
    sections.push(chars_of(CONTINUE_INSTRUCTION));
    let mut tools_section = chars_of(TOOLS_HEADING);
    push_str(&mut tools_section, render_tool_catalog(prompt.tools.as_slice()).as_str());
    sections.push(tools_section);
    proof {
        let base_v = sanitized(prompt.base_instructions@);
        let base_section: Seq<Seq<char>> = if !is_blank(base_v) {
            seq![truncated_from_end(base_v, MAX_MINC_BASE_INSTRUCTIONS_CHARS as nat)]
        } else {
            Seq::empty()
        };
        let request_section: Seq<Seq<char>> = match latest_request(prompt.input@) {
            Some(u) => seq![
                ACTIVE_REQUEST_HEADING@ + truncated_from_end(u, MAX_ACTIVE_REQUEST_CHARS as nat),
            ],
            None => Seq::empty(),
        };
        let state_section: Seq<Seq<char>> = match execution_state(prompt.input@) {
            Some(e) => seq![EXECUTION_STATE_HEADING@ + e],
            None => Seq::empty(),
        };
        assert(s0 == seq![model_instructions@]);
        assert(s1 == seq![model_instructions@] + base_section);
        assert(s2 == seq![model_instructions@] + base_section + request_section);
        assert(s3 == seq![model_instructions@] + base_section + request_section + state_section);
        assert(views(sections@) == system_sections(
            model_instructions@,
            prompt.base_instructions@,
            prompt.input@,
            prompt.tools@,
        ));
    }
    let separator = chars_of(SECTION_SEPARATOR);
    string_of(&join_chars(&sections, &separator))
}

// ---------------------------------------------------------------------------
// Laws of the rendering
// ---------------------------------------------------------------------------

/// A join of parts ends with its last part.
proof fn lemma_join_ends_with_last(parts: Seq<Seq<char>>, sep: Seq<char>)
    requires
        parts.len() > 0,
    ensures
        crate::text::ends_with(join(parts, sep), parts.last()),
{
    let j = join(parts, sep);
    let l = parts.last();
    if parts.len() == 1 {
        assert(j.subrange(j.len() - l.len(), j.len() as int) == l);
    } else {
        let a = join(parts.drop_last(), sep);
        assert(j == a + sep + l);
        assert(j.subrange(j.len() - l.len(), j.len() as int) == l);
    }
}

/// The execution state keeps the latest tool steps.  It is absent exactly
/// when the conversation holds no tool step.  The last six step lines,
/// joined by newlines, are given whole when they fit in 700 characters;
/// past that, the earlier-context marker is followed by the last 669
/// characters of those lines, so the state ends where the joined lines end
/// and holds the latest step whole when that step is at most 669
/// characters long.
pub proof fn lemma_execution_state_keeps_latest_steps(items: Seq<ResponseItem>)
    ensures
        execution_state(items) is None <==> state_items(items).len() == 0,
        ({
            let steps = state_items(items);
            let joined = join(last_n(steps, 6), seq!['\n']);
            execution_state(items) matches Some(e) ==> {
                &&& joined.len() <= 700 ==> e == joined
                &&& joined.len() > 700 ==> e == crate::truncate::EARLIER_CONTEXT_MARKER@
                    + joined.subrange(joined.len() - 669, joined.len() as int)
                &&& crate::text::ends_with(e, joined.subrange(joined.len() - 669, joined.len() as int))
                    || e == joined
                &&& steps.last().len() <= 669 ==> crate::text::ends_with(e, steps.last())
            }
        }),
{
    let steps = state_items(items);
    if steps.len() > 0 {
        let recent = last_n(steps, 6);
        let joined = join(recent, seq!['\n']);
        assert(recent.len() > 0);
        assert(recent.last() == steps.last());
        lemma_join_ends_with_last(recent, seq!['\n']);
        if joined.len() > 700 {
            let e = execution_state(items).unwrap();
            let tail = joined.subrange(joined.len() - 669, joined.len() as int);
            assert(e == crate::truncate::EARLIER_CONTEXT_MARKER@ + tail);
            assert(e.subrange(e.len() - tail.len(), e.len() as int) == tail);
            let l = steps.last();
            if l.len() <= 669 {
                assert(joined.subrange(joined.len() - l.len(), joined.len() as int) == l);
                assert(e.subrange(e.len() - l.len(), e.len() as int) == tail.subrange(
                    tail.len() - l.len(),
                    tail.len() as int,
                ));
                assert(tail.subrange(tail.len() - l.len(), tail.len() as int) == joined.subrange(
                    joined.len() - l.len(),
                    joined.len() as int,
                ));
            }
        }
    }
}

/// A new conversation item moves the execution state as one would expect:
/// an item that is no tool step leaves it as it was, and a tool step becomes
/// its last line (whole, when that line is at most 669 characters long).
pub proof fn lemma_execution_state_follows_new_steps(items: Seq<ResponseItem>, item: ResponseItem)
    ensures
        state_item(item) is None ==> execution_state(items.push(item)) == execution_state(items),
        state_item(item) matches Some(line) ==> execution_state(items.push(item)) matches Some(e)
            && (line.len() <= 669 ==> crate::text::ends_with(e, line)),
{
    let all = items.push(item);
    assert(all.drop_last() == items);
    assert(all.last() == item);
    lemma_execution_state_keeps_latest_steps(all);
}

/// A tool call renders as `assistant_action: call `, then the namespace and
/// a dot when there is one, the tool name, ` with ` and the call's payload;
/// a function call and a custom call with the same tool and payload render
/// alike.
pub proof fn lemma_call_lines(
    id: Option<String>,
    status: Option<String>,
    call_id: String,
    name: String,
    namespace: Option<String>,
    payload: String,
)
    ensures
        ({
            let function_call = ResponseItem::FunctionCall {
                id,
                name,
                namespace,
                arguments: payload,
                call_id,
            };
            let custom_call = ResponseItem::CustomToolCall {
                id,
                status,
                call_id,
                name,
                namespace,
                input: payload,
            };
            &&& rendered_item(function_call) == rendered_item(custom_call)
            &&& namespace matches Some(ns) ==> rendered_item(function_call) == Some(
                ACTION_LABEL@ + ns@ + seq!['.'] + name@ + ACTION_WITH@ + payload@,
            )
            &&& namespace is None ==> rendered_item(function_call) == Some(
                ACTION_LABEL@ + name@ + ACTION_WITH@ + payload@,
            )
        }),
{
}

/// The request that a user message states: its text, when it comes from the
/// user and is not blank.
pub open spec fn stated_request(item: ResponseItem) -> Option<Seq<char>> {
    match item {
        ResponseItem::Message { role, content, .. } => if role@ == USER_ROLE@ && !is_blank(
            content_text(content@),
        ) {
            Some(content_text(content@))
        } else {
            None
        },
        _ => None,
    }
}

/// The active request is the most recent one: when it is some text, a user
/// message at some position states it and no later item states a request;
/// when there is none, no item states one.  A conversation that ends with
/// a user request has that request active, whatever came before.
pub proof fn lemma_latest_request_is_most_recent(items: Seq<ResponseItem>)
    ensures
        latest_request(items) matches Some(t) ==> exists|i: int|
            0 <= i < items.len() && stated_request(items[i]) == Some(t) && forall|j: int|
                i < j < items.len() ==> #[trigger] stated_request(items[j]) is None,
        latest_request(items) is None ==> forall|j: int|
            0 <= j < items.len() ==> #[trigger] stated_request(items[j]) is None,
        items.len() > 0 && stated_request(items.last()) is Some ==> latest_request(items)
            == stated_request(items.last()),
    decreases items.len(),
{
    if items.len() > 0 {
        let rest = items.drop_last();
        lemma_latest_request_is_most_recent(rest);
        let n = items.len() - 1;
        if stated_request(items.last()) is Some {
            assert(stated_request(items[n]) == latest_request(items));
        } else {
            assert(latest_request(items) == latest_request(rest));
            match latest_request(rest) {
                Some(t) => {
                    let i = choose|i: int|
                        0 <= i < rest.len() && stated_request(rest[i]) == Some(t) && forall|j: int|
                            i < j < rest.len() ==> #[trigger] stated_request(rest[j]) is None;
                    assert(items[i] == rest[i]);
                    assert forall|j: int| i < j < items.len() implies #[trigger] stated_request(
                        items[j],
                    ) is None by {
                        if j < n {
                            assert(items[j] == rest[j]);
                        }
                    }
                },
                None => {
                    assert forall|j: int| 0 <= j < items.len() implies #[trigger] stated_request(
                        items[j],
                    ) is None by {
                        if j < n {
                            assert(items[j] == rest[j]);
                        }
                    }
                },
            }
        }
    }
}

} // verus!
