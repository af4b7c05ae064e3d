//! The conversation items, tool descriptions and errors that the Minc
//! prompt shim reads and produces.

use vstd::prelude::*;
use crate::text::{chars_of, string_of};

verus! {

/// One part of a message.
#[derive(Debug, Clone, PartialEq, Eq)]
pub enum ContentItem {
    InputText { text: String },
    OutputText { text: String },
    InputImage { image_url: String },
}

/// The output that a tool call produced.
#[derive(Debug, Clone, PartialEq, Eq)]
pub struct FunctionCallOutputPayload {
    /// The output as text, where the output has a text form.
    pub text: Option<String>,
}

impl FunctionCallOutputPayload {
    /// A payload whose output is `text`.
    pub fn from_text(text: String) -> (out: Self)
        ensures
            out.text == Some(text),
    {
        FunctionCallOutputPayload { text: Some(text) }
    }

    /// The text form of the output, if any.
    pub fn to_text(&self) -> (out: Option<String>)
        ensures
            opt_view(out) == opt_view(self.text),
    {
        match &self.text {
            Some(t) => Some(t.clone()),
            None => None,
        }
    }
}

/// An item of the conversation.
#[derive(Debug, Clone, PartialEq, Eq)]
pub enum ResponseItem {
    Message { id: Option<String>, role: String, content: Vec<ContentItem> },
    Reasoning { id: Option<String>, summary: Vec<String>, content: Option<Vec<String>> },
    FunctionCall {
        id: Option<String>,
        name: String,
        namespace: Option<String>,
        arguments: String,
        call_id: String,
    },
    CustomToolCall {
        id: Option<String>,
        status: Option<String>,
        call_id: String,
        name: String,
        namespace: Option<String>,
        input: String,
    },
    FunctionCallOutput { id: Option<String>, call_id: String, output: FunctionCallOutputPayload },
    CustomToolCallOutput {
        id: Option<String>,
        call_id: String,
        name: Option<String>,
        output: FunctionCallOutputPayload,
    },
    Other,
}

/// A function tool with JSON arguments.
#[derive(Debug, Clone, PartialEq, Eq)]
pub struct FunctionTool {
    pub name: String,
    pub description: String,
}

/// A tool that takes free-form text input.
#[derive(Debug, Clone, PartialEq, Eq)]
pub struct FreeformTool {
    pub name: String,
    pub description: String,
}

/// A tool inside a namespace.
#[derive(Debug, Clone, PartialEq, Eq)]
pub enum NamespaceTool {
    Function(FunctionTool),
}

/// A named group of tools.
#[derive(Debug, Clone, PartialEq, Eq)]
pub struct ToolNamespace {
    pub name: String,
    pub description: String,
    pub tools: Vec<NamespaceTool>,
}

/// A tool advertised to the model.
#[derive(Debug, Clone, PartialEq, Eq)]
pub enum ToolSpec {
    Function(FunctionTool),
    Freeform(FreeformTool),
    Namespace(ToolNamespace),
    ToolSearch,
    ImageGeneration { output_format: String },
    WebSearch,
}

/// The name under which a tool is advertised.
pub open spec fn tool_name(tool: ToolSpec) -> Seq<char> {
    match tool {
        ToolSpec::Function(t) => t.name@,
        ToolSpec::Freeform(t) => t.name@,
        ToolSpec::Namespace(ns) => ns.name@,
        ToolSpec::ToolSearch => "tool_search"@,
        ToolSpec::ImageGeneration { .. } => "image_generation"@,
        ToolSpec::WebSearch => "web_search"@,
    }
}

impl ToolSpec {
    /// The name under which this tool is advertised.
    pub fn name(&self) -> (out: String)
        ensures
            out@ == tool_name(*self),
    {
        match self {
            ToolSpec::Function(t) => t.name.clone(),
            ToolSpec::Freeform(t) => t.name.clone(),
            ToolSpec::Namespace(ns) => ns.name.clone(),
            ToolSpec::ToolSearch => string_of(&chars_of("tool_search")),
            ToolSpec::ImageGeneration { .. } => string_of(&chars_of("image_generation")),
            ToolSpec::WebSearch => string_of(&chars_of("web_search")),
        }
    }
}

/// What a turn sends to the model.
#[derive(Debug, Clone, PartialEq, Eq)]
pub struct Prompt {
    pub input: Vec<ResponseItem>,
    pub base_instructions: String,
    pub tools: Vec<ToolSpec>,
}

impl Default for Prompt {
    fn default() -> (out: Self)
        ensures
            out.input@.len() == 0,
            out.base_instructions@.len() == 0,
            out.tools@.len() == 0,
    {
        Prompt { input: Vec::new(), base_instructions: String::new(), tools: Vec::new() }
    }
}

/// Why a Minc turn failed.
#[derive(Debug, Clone, PartialEq, Eq)]
pub enum MincError {
    Fatal(String),
    InvalidRequest(String),
    ConnectionFailed(String),
}

/// The kind of a `MincError`, with its message as characters.
pub enum MincErrorView {
    Fatal(Seq<char>),
    InvalidRequest(Seq<char>),
    ConnectionFailed(Seq<char>),
}

impl View for MincError {
    type V = MincErrorView;

    open spec fn view(&self) -> MincErrorView {
        match self {
            MincError::Fatal(m) => MincErrorView::Fatal(m@),
            MincError::InvalidRequest(m) => MincErrorView::InvalidRequest(m@),
            MincError::ConnectionFailed(m) => MincErrorView::ConnectionFailed(m@),
        }
    }
}

/// An event of the response stream handed back to the agent.
#[derive(Debug, Clone, PartialEq, Eq)]
pub enum ResponseEvent {
    Created,
    ServerModel(String),
    OutputItemAdded(ResponseItem),
    OutputItemDone(ResponseItem),
    Completed { response_id: String, end_turn: Option<bool> },
}

/// The characters of an optional string.
pub open spec fn opt_view(o: Option<String>) -> Option<Seq<char>> {
    match o {
        Some(s) => Some(s@),
        None => None,
    }
}

/// A copy of an optional string.
pub fn clone_opt(o: &Option<String>) -> (out: Option<String>)
    ensures
        opt_view(out) == opt_view(*o),
{
    match o {
        Some(s) => Some(s.clone()),
        None => None,
    }
}

// ---------------------------------------------------------------------------
// Views
// ---------------------------------------------------------------------------

/// A message part with its text as characters.
pub enum ContentItemView {
    InputText(Seq<char>),
    OutputText(Seq<char>),
    InputImage(Seq<char>),
}

impl View for ContentItem {
    type V = ContentItemView;

    open spec fn view(&self) -> ContentItemView {
        match self {
            ContentItem::InputText { text } => ContentItemView::InputText(text@),
            ContentItem::OutputText { text } => ContentItemView::OutputText(text@),
            ContentItem::InputImage { image_url } => ContentItemView::InputImage(image_url@),
        }
    }
}

/// The characters of a list of strings.
pub open spec fn strings_view(v: Seq<String>) -> Seq<Seq<char>> {
    v.map_values(|s: String| s@)
}

/// A conversation item with its strings as characters.
pub enum ResponseItemView {
    Message { id: Option<Seq<char>>, role: Seq<char>, content: Seq<ContentItemView> },
    Reasoning {
        id: Option<Seq<char>>,
        summary: Seq<Seq<char>>,
        content: Option<Seq<Seq<char>>>,
    },
    FunctionCall {
        id: Option<Seq<char>>,
        name: Seq<char>,
        namespace: Option<Seq<char>>,
        arguments: Seq<char>,
        call_id: Seq<char>,
    },
    CustomToolCall {
        id: Option<Seq<char>>,
        status: Option<Seq<char>>,
        call_id: Seq<char>,
        name: Seq<char>,
        namespace: Option<Seq<char>>,
        input: Seq<char>,
    },
    FunctionCallOutput { id: Option<Seq<char>>, call_id: Seq<char>, output: Option<Seq<char>> },
    CustomToolCallOutput {
        id: Option<Seq<char>>,
        call_id: Seq<char>,
        name: Option<Seq<char>>,
        output: Option<Seq<char>>,
    },
    Other,
}

impl View for ResponseItem {
    type V = ResponseItemView;

    open spec fn view(&self) -> ResponseItemView {
        match self {
            ResponseItem::Message { id, role, content } => ResponseItemView::Message {
                id: opt_view(*id),
                role: role@,
                content: content@.map_values(|c: ContentItem| c@),
            },
            ResponseItem::Reasoning { id, summary, content } => ResponseItemView::Reasoning {
                id: opt_view(*id),
                summary: strings_view(summary@),
                content: match content {
                    Some(c) => Some(strings_view(c@)),
                    None => None,
                },
            },
            ResponseItem::FunctionCall { id, name, namespace, arguments, call_id } =>
                ResponseItemView::FunctionCall {
                id: opt_view(*id),
                name: name@,
                namespace: opt_view(*namespace),
                arguments: arguments@,
                call_id: call_id@,
            },
            ResponseItem::CustomToolCall { id, status, call_id, name, namespace, input } =>
                ResponseItemView::CustomToolCall {
                id: opt_view(*id),
                status: opt_view(*status),
                call_id: call_id@,
                name: name@,
                namespace: opt_view(*namespace),
                input: input@,
            },
            ResponseItem::FunctionCallOutput { id, call_id, output } =>
                ResponseItemView::FunctionCallOutput {
                id: opt_view(*id),
                call_id: call_id@,
                output: opt_view(output.text),
            },
            ResponseItem::CustomToolCallOutput { id, call_id, name, output } =>
                ResponseItemView::CustomToolCallOutput {
                id: opt_view(*id),
                call_id: call_id@,
                name: opt_view(*name),
                output: opt_view(output.text),
            },
            ResponseItem::Other => ResponseItemView::Other,
        }
    }
}

/// A stream event with its strings as characters.
pub enum ResponseEventView {
    Created,
    ServerModel(Seq<char>),
    OutputItemAdded(ResponseItemView),
    OutputItemDone(ResponseItemView),
    Completed { response_id: Seq<char>, end_turn: Option<bool> },
}

impl View for ResponseEvent {
    type V = ResponseEventView;

    open spec fn view(&self) -> ResponseEventView {
        match self {
            ResponseEvent::Created => ResponseEventView::Created,
            ResponseEvent::ServerModel(m) => ResponseEventView::ServerModel(m@),
            ResponseEvent::OutputItemAdded(item) => ResponseEventView::OutputItemAdded(item@),
            ResponseEvent::OutputItemDone(item) => ResponseEventView::OutputItemDone(item@),
            ResponseEvent::Completed { response_id, end_turn } => ResponseEventView::Completed {
                response_id: response_id@,
                end_turn: *end_turn,
            },
        }
    }
}

} // verus!
