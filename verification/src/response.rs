//! Turning Minc's answer into the events of a response stream.

use vstd::prelude::*;
use crate::directive::{
    directive_undefined, parse_minc_directive, parse_outcome, DirectiveView, MincDirective,
};
use crate::text::{blank, chars_of, is_blank, push_all, string_of, text_of, trim, trimmed};
use crate::types::{
    clone_opt, opt_view, strings_view, ContentItem, ContentItemView, MincError, MincErrorView,
    ResponseEvent, ResponseEventView, ResponseItem, ResponseItemView, ToolSpec,
};

verus! {

pub const CALL_ID_PREFIX: &'static str = "minc-call-";
pub const RESPONSE_ID_PREFIX: &'static str = "minc-";
pub const COMPLETED_STATUS: &'static str = "completed";
pub const MESSAGE_ID: &'static str = "minc-message";
pub const REASONING_ID: &'static str = "minc-reasoning";
pub const REASONING_SUMMARY: &'static str = "Minc thinking";
pub const ASSISTANT_ROLE: &'static str = "assistant";
pub const NOT_SUCCESSFUL: &'static str = "Minc API returned success: false";
pub const NO_ANSWER: &'static str = "Minc API response did not include an answer";

/// The body of a reply from Minc's ask endpoint.
#[derive(Debug, Clone, PartialEq, Eq)]
pub struct MincAskResponse {
    pub answer: String,
    pub thinking: Option<String>,
    pub model: Option<String>,
    pub latency_ms: Option<i64>,
    pub success: bool,
}

// ---------------------------------------------------------------------------
// Decimal numbers
// ---------------------------------------------------------------------------

/// The character of a decimal digit.
pub open spec fn digit_char(d: nat) -> char {
    if d == 0 {
        '0'
    } else if d == 1 {
        '1'
    } else if d == 2 {
        '2'
    } else if d == 3 {
        '3'
    } else if d == 4 {
        '4'
    } else if d == 5 {
        '5'
    } else if d == 6 {
        '6'
    } else if d == 7 {
        '7'
    } else if d == 8 {
        '8'
    } else {
        '9'
    }
}

/// The decimal digits of `n`, most significant first.
pub open spec fn decimal(n: nat) -> Seq<char>
    decreases n,
{
    if n < 10 {
        seq![digit_char(n)]
    } else {
        decimal(n / 10).push(digit_char(n % 10))
    }
}

fn digit(d: u64) -> (c: char)
    requires
        d < 10,
    ensures
        c == digit_char(d as nat),
{
    if d == 0 {
        '0'
    } else if d == 1 {
        '1'
    } else if d == 2 {
        '2'
    } else if d == 3 {
        '3'
    } else if d == 4 {
        '4'
    } else if d == 5 {
        '5'
    } else if d == 6 {
        '6'
    } else if d == 7 {
        '7'
    } else if d == 8 {
        '8'
    } else {
        '9'
    }
}

/// Writes `n` in decimal.
pub fn decimal_chars(n: u64) -> (out: Vec<char>)
    ensures
        out@ == decimal(n as nat),
    decreases n,
{
    if n < 10 {
        let mut out: Vec<char> = Vec::new();
        out.push(digit(n));
        out
    } else {
        let mut out = decimal_chars(n / 10);
        out.push(digit(n % 10));
        out
    }
}

fn prefixed_number(prefix: &str, n: u64) -> (out: String)
    ensures
        out@ == prefix@ + decimal(n as nat),
{
    let mut v = chars_of(prefix);
    push_all(&mut v, &decimal_chars(n));
    string_of(&v)
}

// ---------------------------------------------------------------------------
// Checking the reply
// ---------------------------------------------------------------------------

/// A reply is usable when it reports success and carries a non-blank
/// answer.
pub open spec fn reply_check(success: bool, answer: Seq<char>) -> Result<(), MincErrorView> {
    if !success {
        Err(MincErrorView::InvalidRequest(NOT_SUCCESSFUL@))
    } else if is_blank(answer) {
        Err(MincErrorView::InvalidRequest(NO_ANSWER@))
    } else {
        Ok(())
    }
}

/// The characters of a check result.
pub open spec fn check_result_view(r: Result<(), MincError>) -> Result<(), MincErrorView> {
    match r {
        Ok(()) => Ok(()),
        Err(e) => Err(e@),
    }
}

/// The characters of an events result.
pub open spec fn events_result_view(r: Result<Vec<ResponseEvent>, MincError>) -> Result<
    Seq<ResponseEventView>,
    MincErrorView,
> {
    match r {
        Ok(events) => Ok(events_view(events@)),
        Err(e) => Err(e@),
    }
}

impl MincAskResponse {
    /// Rejects a reply that reports failure or carries no answer.
    pub fn validate(&self) -> (out: Result<(), MincError>)
        ensures
            check_result_view(out) == reply_check(self.success, self.answer@),
    {
        if !self.success {
            return Err(MincError::InvalidRequest(text_of(NOT_SUCCESSFUL)));
        }
        if blank(&chars_of(self.answer.as_str())) {
            return Err(MincError::InvalidRequest(text_of(NO_ANSWER)));
        }
        Ok(())
    }
}

// ---------------------------------------------------------------------------
// Response items and events
// ---------------------------------------------------------------------------

/// The tool-call item for a directive, with call id `minc-call-<ms>`.
pub open spec fn directive_item(d: DirectiveView, call_ms: nat) -> ResponseItemView {
    let call_id = CALL_ID_PREFIX@ + decimal(call_ms);
    match d {
        DirectiveView::Function { namespace, name, arguments } => ResponseItemView::FunctionCall {
            id: Some(call_id),
            name,
            namespace,
            arguments,
            call_id,
        },
        DirectiveView::Custom { namespace, name, input } => ResponseItemView::CustomToolCall {
            id: Some(call_id),
            status: Some(COMPLETED_STATUS@),
            call_id,
            name,
            namespace,
            input,
        },
    }
}

/// The assistant message that carries a plain-text answer.
pub open spec fn answer_item(answer: Seq<char>) -> ResponseItemView {
    ResponseItemView::Message {
        id: Some(MESSAGE_ID@),
        role: ASSISTANT_ROLE@,
        content: seq![ContentItemView::OutputText(answer)],
    }
}

/// The reasoning item that carries Minc's thinking.
pub open spec fn reasoning_item(thinking: Seq<char>) -> ResponseItemView {
    ResponseItemView::Reasoning {
        id: Some(REASONING_ID@),
        summary: seq![REASONING_SUMMARY@],
        content: Some(seq![thinking]),
    }
}

impl MincDirective {
    /// The tool-call item for this directive; `now_ms` stamps its call id.
    pub fn into_response_item(self, now_ms: u64) -> (out: ResponseItem)
        ensures
            out@ == directive_item(self@, now_ms as nat),
    {
        let call_id = prefixed_number(CALL_ID_PREFIX, now_ms);
        match self {
            MincDirective::Function { namespace, name, arguments } => ResponseItem::FunctionCall {
                id: Some(call_id.clone()),
                name,
                namespace,
                arguments,
                call_id,
            },
            MincDirective::Custom { namespace, name, input } => ResponseItem::CustomToolCall {
                id: Some(call_id.clone()),
                status: Some(text_of(COMPLETED_STATUS)),
                call_id,
                name,
                namespace,
                input,
            },
        }
    }
}

fn directive_item_exec(d: &MincDirective, now_ms: u64) -> (out: ResponseItem)
    ensures
        out@ == directive_item(d@, now_ms as nat),
{
    let copy = match d {
        MincDirective::Function { namespace, name, arguments } => MincDirective::Function {
            namespace: clone_opt(namespace),
            name: name.clone(),
            arguments: arguments.clone(),
        },
        MincDirective::Custom { namespace, name, input } => MincDirective::Custom {
            namespace: clone_opt(namespace),
            name: name.clone(),
            input: input.clone(),
        },
    };
    copy.into_response_item(now_ms)
}

fn answer_item_exec(answer: &String) -> (out: ResponseItem)
    ensures
        out@ == answer_item(answer@),
{
    let mut content: Vec<ContentItem> = Vec::new();
    content.push(ContentItem::OutputText { text: answer.clone() });
    let out = ResponseItem::Message {
        id: Some(text_of(MESSAGE_ID)),
        role: text_of(ASSISTANT_ROLE),
        content,
    };
    assert(content@.map_values(|c: ContentItem| c@) == seq![ContentItemView::OutputText(answer@)]);
    out
}

fn reasoning_item_exec(thinking: &String) -> (out: ResponseItem)
    ensures
        out@ == reasoning_item(thinking@),
{
    let mut summary: Vec<String> = Vec::new();
    summary.push(text_of(REASONING_SUMMARY));
    let mut content: Vec<String> = Vec::new();
    content.push(thinking.clone());
    let out = ResponseItem::Reasoning { id: Some(text_of(REASONING_ID)), summary, content: Some(content) };
    assert(strings_view(summary@) == seq![REASONING_SUMMARY@]);
    assert(strings_view(content@) == seq![thinking@]);
    out
}

/// The thinking that is shown: only when it is not blank.
pub open spec fn shown_thinking(thinking: Option<Seq<char>>) -> Option<Seq<char>> {
    match thinking {
        Some(t) => if is_blank(t) {
            None
        } else {
            Some(t)
        },
        None => None,
    }
}

/// The events that a reply becomes: `Created`; the server's model when
/// reported; the thinking as a reasoning item (added, then done) when it is
/// not blank; the directive's tool call, or else the answer as an assistant
/// message (added, then done); `Completed` with id `minc-<ms>`, ending the
/// turn.  A directive that cannot be matched to its tool fails the reply.
pub open spec fn reply_events(
    answer: Seq<char>,
    thinking: Option<Seq<char>>,
    model: Option<Seq<char>>,
    tools: Seq<ToolSpec>,
    response_ms: nat,
    call_ms: nat,
) -> Result<Seq<ResponseEventView>, MincErrorView> {
    match parse_outcome(trim(answer), tools) {
        Err(e) => Err(e),
        Ok(directive) => {
            let final_item = match directive {
                Some(d) => directive_item(d, call_ms),
                None => answer_item(answer),
            };
            let model_events: Seq<ResponseEventView> = match model {
                Some(m) => seq![ResponseEventView::ServerModel(m)],
                None => Seq::empty(),
            };
            let thinking_events: Seq<ResponseEventView> = match shown_thinking(thinking) {
                Some(t) => seq![
                    ResponseEventView::OutputItemAdded(reasoning_item(t)),
                    ResponseEventView::OutputItemDone(reasoning_item(t)),
                ],
                None => Seq::empty(),
            };
            Ok(
                seq![ResponseEventView::Created] + model_events + thinking_events + seq![
                    ResponseEventView::OutputItemAdded(final_item),
                    ResponseEventView::OutputItemDone(final_item),
                    ResponseEventView::Completed {
                        response_id: RESPONSE_ID_PREFIX@ + decimal(response_ms),
                        end_turn: Some(true),
                    },
                ],
            )
        },
    }
}

/// Every reply that streams opens with `Created`, ends the turn with
/// `Completed` (its id stamped `minc-<ms>`), and just before that adds and
/// completes one final item.
pub proof fn lemma_reply_events_frame(
    answer: Seq<char>,
    thinking: Option<Seq<char>>,
    model: Option<Seq<char>>,
    tools: Seq<ToolSpec>,
    response_ms: nat,
    call_ms: nat,
)
    ensures
        reply_events(answer, thinking, model, tools, response_ms, call_ms) matches Ok(events) ==> {
            &&& events.len() >= 4
            &&& events[0] == ResponseEventView::Created
            &&& events.last() == (ResponseEventView::Completed {
                response_id: RESPONSE_ID_PREFIX@ + decimal(response_ms),
                end_turn: Some(true),
            })
            &&& events[events.len() - 3] matches ResponseEventView::OutputItemAdded(added)
            &&& events[events.len() - 2] == ResponseEventView::OutputItemDone(added)
        },
{
}

/// An answer that nowhere holds `<minc:` streams as one assistant message
/// that carries the whole answer.
pub proof fn lemma_plain_answer_streams_as_message(
    answer: Seq<char>,
    thinking: Option<Seq<char>>,
    model: Option<Seq<char>>,
    tools: Seq<ToolSpec>,
    response_ms: nat,
    call_ms: nat,
)
    requires
        !crate::text::contains(answer, crate::directive::DIRECTIVE_PREFIX@),
    ensures
        reply_events(answer, thinking, model, tools, response_ms, call_ms) matches Ok(events)
            && events[events.len() - 3] == ResponseEventView::OutputItemAdded(answer_item(answer)),
{
    crate::text::lemma_trim_subrange(answer);
    let (lo, hi) = choose|lo: int, hi: int|
        0 <= lo <= hi <= answer.len() && trim(answer) == answer.subrange(lo, hi);
    if crate::text::contains(trim(answer), crate::directive::DIRECTIVE_PREFIX@) {
        crate::text::lemma_contains_in_subrange(
            answer,
            lo,
            hi,
            crate::directive::DIRECTIVE_PREFIX@,
        );
    }
    crate::grammar::lemma_plain_text_is_not_a_directive(trim(answer), tools);
}

/// A reply fails to stream exactly when its trimmed answer fails to parse,
/// and then with the very error that parsing gave; a reply that streams
/// carries no error.
pub proof fn lemma_reply_fails_exactly_when_parse_fails(
    answer: Seq<char>,
    thinking: Option<Seq<char>>,
    model: Option<Seq<char>>,
    tools: Seq<ToolSpec>,
    response_ms: nat,
    call_ms: nat,
)
    ensures
        reply_events(answer, thinking, model, tools, response_ms, call_ms) is Err
            <==> parse_outcome(trim(answer), tools) is Err,
        forall|e: MincErrorView|
            reply_events(answer, thinking, model, tools, response_ms, call_ms) == Err::<
                Seq<ResponseEventView>,
                MincErrorView,
            >(e) <==> parse_outcome(trim(answer), tools) == Err::<Option<DirectiveView>, MincErrorView>(
                e,
            ),
{
}

/// The characters of a list of events.
pub open spec fn events_view(events: Seq<ResponseEvent>) -> Seq<ResponseEventView> {
    events.map_values(|e: ResponseEvent| e@)
}

impl MincAskResponse {
    /// The events that this reply becomes, in the order they are streamed;
    /// `response_ms` stamps the response id and `call_ms` the call id of a
    /// directive.
    pub fn into_response_events(self, tools: &[ToolSpec], response_ms: u64, call_ms: u64) -> (out:
        Result<Vec<ResponseEvent>, MincError>)
        requires
            !directive_undefined(trim(self.answer@)),
        ensures
            events_result_view(out) == reply_events(
                self.answer@,
                opt_view(self.thinking),
                opt_view(self.model),
                tools@,
                response_ms as nat,
                call_ms as nat,
            ),
    {
        let answer_trimmed = string_of(&trimmed(&chars_of(self.answer.as_str())));
        let parsed = match parse_minc_directive(answer_trimmed.as_str(), tools) {
            Ok(p) => p,
            Err(e) => {
                return Err(e);
            },
        };
        let mut events: Vec<ResponseEvent> = Vec::new();
        events.push(ResponseEvent::Created);
        let ghost e0 = events_view(events@);
        match &self.model {
            Some(m) => {
                events.push(ResponseEvent::ServerModel(m.clone()));
            },
            None => {},
        }
        let ghost e1 = events_view(events@);
        match &self.thinking {
            Some(t) => {
                if !blank(&chars_of(t.as_str())) {
                    events.push(ResponseEvent::OutputItemAdded(reasoning_item_exec(t)));
                    events.push(ResponseEvent::OutputItemDone(reasoning_item_exec(t)));
                }
            },
            None => {},
        }
        let ghost e2 = events_view(events@);
        let ghost final_view = match &parsed {
            Some(d) => directive_item(d@, call_ms as nat),
            None => answer_item(self.answer@),
        };
        match &parsed {
            Some(d) => {
                events.push(ResponseEvent::OutputItemAdded(directive_item_exec(d, call_ms)));
                events.push(ResponseEvent::OutputItemDone(directive_item_exec(d, call_ms)));
            },
            None => {
                events.push(ResponseEvent::OutputItemAdded(answer_item_exec(&self.answer)));
                events.push(ResponseEvent::OutputItemDone(answer_item_exec(&self.answer)));
            },
        }
        let ghost e3 = events_view(events@);
        let completed = ResponseEvent::Completed {
            response_id: prefixed_number(RESPONSE_ID_PREFIX, response_ms),
            end_turn: Some(true),
        };
        events.push(completed);
        assert(events_view(events@) == e3.push(completed@));
        proof {
            let directive_v: Option<DirectiveView> = match &parsed {
                Some(d) => Some(d@),
                None => None,
            };
            assert(parse_outcome(trim(self.answer@), tools@) == Ok::<
                Option<DirectiveView>,
                MincErrorView,
            >(directive_v));
            let final_item = match directive_v {
                Some(d) => directive_item(d, call_ms as nat),
                None => answer_item(self.answer@),
            };
            assert(final_item == final_view);
            let model_events: Seq<ResponseEventView> = match opt_view(self.model) {
                Some(m) => seq![ResponseEventView::ServerModel(m)],
                None => Seq::empty(),
            };
            let thinking_events: Seq<ResponseEventView> = match shown_thinking(
                opt_view(self.thinking),
            ) {
                Some(t) => seq![
                    ResponseEventView::OutputItemAdded(reasoning_item(t)),
                    ResponseEventView::OutputItemDone(reasoning_item(t)),
                ],
                None => Seq::empty(),
            };
            assert(e0 == seq![ResponseEventView::Created]);
            assert(e1 == seq![ResponseEventView::Created] + model_events);
            assert(e2 == seq![ResponseEventView::Created] + model_events + thinking_events);
            let expected = seq![ResponseEventView::Created] + model_events + thinking_events + seq![
                ResponseEventView::OutputItemAdded(final_item),
                ResponseEventView::OutputItemDone(final_item),
                ResponseEventView::Completed {
                    response_id: RESPONSE_ID_PREFIX@ + decimal(response_ms as nat),
                    end_turn: Some(true),
                },
            ];
            assert(events_view(events@) == expected);
            assert(reply_events(
                self.answer@,
                opt_view(self.thinking),
                opt_view(self.model),
                tools@,
                response_ms as nat,
                call_ms as nat,
            ) == events_result_view(Ok(events)));
        }
        Ok(events)
    }
}

} // verus!
