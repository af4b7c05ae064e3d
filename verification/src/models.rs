//! The Minc modes offered as models, and the URL they are listed at.

use vstd::prelude::*;
use crate::text::{chars_of, push_str, string_of, text_of};
use crate::types::{MincError, MincErrorView};

verus! {

pub const MODELS_PATH: &'static str = "/api/v1/models";
pub const MISSING_BASE_URL: &'static str = "Minc provider missing base_url";
pub const INVALID_BASE_URL: &'static str = "invalid Minc base_url: ";
pub const INVALID_MODELS_URL: &'static str = "invalid Minc models url: ";

pub const AUTO_MODE: &'static str = "Auto";
pub const INSTANT_MODE: &'static str = "Instant";
pub const LOW_REASONING_MODE: &'static str = "Low Reasoning";
pub const HIGH_REASONING_MODE: &'static str = "High Reasoning";

pub const AUTO_DESCRIPTION: &'static str = "Lets Minc choose the best mode for the turn.";
pub const INSTANT_DESCRIPTION: &'static str = "Fastest Minc mode for lightweight requests.";
pub const LOW_REASONING_DESCRIPTION: &'static str =
    "Adds some extra reasoning without slowing to a crawl.";
pub const HIGH_REASONING_DESCRIPTION: &'static str =
    "Most deliberate Minc mode for trickier tasks.";
pub const OTHER_DESCRIPTION: &'static str = "Minc mode";

pub const MODEL_BASE_INSTRUCTIONS: &'static str = "You are Minc Agent, a CLI coding assistant that can either answer directly or request a single local tool action using the documented directive grammar.";

/// The truncation budget of tool output, in bytes.
pub const TRUNCATION_BYTES: u64 = 32_000;
/// The context window of every Minc mode, in tokens.
pub const CONTEXT_WINDOW: i64 = 128_000;
/// The share of the context window that may be used.
pub const EFFECTIVE_CONTEXT_WINDOW_PERCENT: i64 = 95;

/// How the shell tool is offered to a model.
#[derive(Debug, Clone, Copy, PartialEq, Eq)]
pub enum ShellToolType {
    ShellCommand,
}

/// Whether a model is shown in the model list.
#[derive(Debug, Clone, Copy, PartialEq, Eq)]
pub enum ModelVisibility {
    List,
}

/// The reasoning summary that a model gives by default.
#[derive(Debug, Clone, Copy, PartialEq, Eq)]
pub enum ReasoningSummary {
    NoSummary,
}

/// The form in which the apply-patch tool is offered.
#[derive(Debug, Clone, Copy, PartialEq, Eq)]
pub enum ApplyPatchToolType {
    Freeform,
}

/// The form in which the web-search tool is offered.
#[derive(Debug, Clone, Copy, PartialEq, Eq)]
pub enum WebSearchToolType {
    Text,
}

/// How tool output is cut for a model.
#[derive(Debug, Clone, Copy, PartialEq, Eq)]
pub enum TruncationPolicy {
    Bytes(u64),
}

/// A kind of input that a model accepts.
#[derive(Debug, Clone, Copy, PartialEq, Eq)]
pub enum InputModality {
    Text,
    Image,
}

/// What the agent knows about a Minc mode.  The optional settings that
/// Minc modes leave unset (reasoning levels, service tiers, messages and
/// the like) are held by name.
#[derive(Debug, Clone, PartialEq, Eq)]
pub struct MincModelInfo {
    pub slug: String,
    pub display_name: String,
    pub description: Option<String>,
    pub default_reasoning_level: Option<String>,
    pub supported_reasoning_levels: Vec<String>,
    pub shell_type: ShellToolType,
    pub visibility: ModelVisibility,
    pub supported_in_api: bool,
    pub priority: i32,
    pub additional_speed_tiers: Vec<String>,
    pub service_tiers: Vec<String>,
    pub default_service_tier: Option<String>,
    pub availability_nux: Option<String>,
    pub upgrade: Option<String>,
    pub base_instructions: String,
    pub model_messages: Option<String>,
    pub include_skills_usage_instructions: bool,
    pub supports_reasoning_summaries: bool,
    pub default_reasoning_summary: ReasoningSummary,
    pub support_verbosity: bool,
    pub default_verbosity: Option<String>,
    pub apply_patch_tool_type: Option<ApplyPatchToolType>,
    pub web_search_tool_type: WebSearchToolType,
    pub truncation_policy: TruncationPolicy,
    pub supports_parallel_tool_calls: bool,
    pub supports_image_detail_original: bool,
    pub context_window: Option<i64>,
    pub max_context_window: Option<i64>,
    pub auto_compact_token_limit: Option<i64>,
    pub comp_hash: Option<String>,
    pub effective_context_window_percent: i64,
    pub experimental_supported_tools: Vec<String>,
    pub input_modalities: Vec<InputModality>,
    pub used_fallback_model_metadata: bool,
    pub supports_search_tool: bool,
    pub use_responses_lite: bool,
    pub auto_review_model_override: Option<String>,
    pub tool_mode: Option<String>,
    pub multi_agent_version: Option<String>,
}

/// The order in which the modes are listed: Auto, Instant, Low Reasoning,
/// High Reasoning, then any other mode.
pub open spec fn mode_priority(slug: Seq<char>) -> i32 {
    if slug == AUTO_MODE@ {
        0
    } else if slug == INSTANT_MODE@ {
        1
    } else if slug == LOW_REASONING_MODE@ {
        2
    } else if slug == HIGH_REASONING_MODE@ {
        3
    } else {
        10
    }
}

/// The description shown for a mode.
pub open spec fn mode_description(slug: Seq<char>) -> Seq<char> {
    if slug == AUTO_MODE@ {
        AUTO_DESCRIPTION@
    } else if slug == INSTANT_MODE@ {
        INSTANT_DESCRIPTION@
    } else if slug == LOW_REASONING_MODE@ {
        LOW_REASONING_DESCRIPTION@
    } else if slug == HIGH_REASONING_MODE@ {
        HIGH_REASONING_DESCRIPTION@
    } else {
        OTHER_DESCRIPTION@
    }
}

/// The modes are listed Auto, Instant, Low Reasoning, High Reasoning, and
/// any other mode after them.
pub proof fn lemma_mode_order(other: Seq<char>)
    requires
        other != AUTO_MODE@,
        other != INSTANT_MODE@,
        other != LOW_REASONING_MODE@,
        other != HIGH_REASONING_MODE@,
    ensures
        mode_priority(AUTO_MODE@) < mode_priority(INSTANT_MODE@),
        mode_priority(INSTANT_MODE@) < mode_priority(LOW_REASONING_MODE@),
        mode_priority(LOW_REASONING_MODE@) < mode_priority(HIGH_REASONING_MODE@),
        mode_priority(HIGH_REASONING_MODE@) < mode_priority(other),
{
    reveal_strlit("Auto");
    reveal_strlit("Instant");
    reveal_strlit("Low Reasoning");
    reveal_strlit("High Reasoning");
    assert(INSTANT_MODE@.len() != AUTO_MODE@.len());
    assert(LOW_REASONING_MODE@.len() != AUTO_MODE@.len());
    assert(LOW_REASONING_MODE@ != INSTANT_MODE@);
    assert(HIGH_REASONING_MODE@ != AUTO_MODE@);
    assert(HIGH_REASONING_MODE@ != INSTANT_MODE@);
    assert(HIGH_REASONING_MODE@ != LOW_REASONING_MODE@);
}

/// The model record of a mode: named after its slug, with its priority and
/// description, listed and offered through the API, a shell-command shell
/// tool, a free-form patch tool and a text web-search tool, 32 000-byte
/// tool output, a 128 000-token window of which 95% is used, text and image
/// input, no reasoning summary by default, and none of the optional
/// capabilities or settings.
pub open spec fn is_mode_info(info: MincModelInfo, slug: Seq<char>) -> bool {
    &&& info.slug@ == slug
    &&& info.display_name@ == slug
    &&& info.description matches Some(d) && d@ == mode_description(slug)
    &&& info.default_reasoning_level is None
    &&& info.supported_reasoning_levels@.len() == 0
    &&& info.shell_type == ShellToolType::ShellCommand
    &&& info.visibility == ModelVisibility::List
    &&& info.supported_in_api
    &&& info.priority == mode_priority(slug)
    &&& info.additional_speed_tiers@.len() == 0
    &&& info.service_tiers@.len() == 0
    &&& info.default_service_tier is None
    &&& info.availability_nux is None
    &&& info.upgrade is None
    &&& info.base_instructions@ == MODEL_BASE_INSTRUCTIONS@
    &&& info.model_messages is None
    &&& info.include_skills_usage_instructions
    &&& !info.supports_reasoning_summaries
    &&& info.default_reasoning_summary == ReasoningSummary::NoSummary
    &&& !info.support_verbosity
    &&& info.default_verbosity is None
    &&& info.apply_patch_tool_type == Some(ApplyPatchToolType::Freeform)
    &&& info.web_search_tool_type == WebSearchToolType::Text
    &&& info.truncation_policy == TruncationPolicy::Bytes(TRUNCATION_BYTES)
    &&& !info.supports_parallel_tool_calls
    &&& !info.supports_image_detail_original
    &&& info.context_window == Some(CONTEXT_WINDOW)
    &&& info.max_context_window == Some(CONTEXT_WINDOW)
    &&& info.auto_compact_token_limit is None
    &&& info.comp_hash is None
    &&& info.effective_context_window_percent == EFFECTIVE_CONTEXT_WINDOW_PERCENT
    &&& info.experimental_supported_tools@.len() == 0
    &&& info.input_modalities@ == seq![InputModality::Text, InputModality::Image]
    &&& !info.used_fallback_model_metadata
    &&& !info.supports_search_tool
    &&& !info.use_responses_lite
    &&& info.auto_review_model_override is None
    &&& info.tool_mode is None
    &&& info.multi_agent_version is None
}

fn is_slug(slug: &String, mode: &str) -> (b: bool)
    ensures
        b == (slug@ == mode@),
{
    *slug == text_of(mode)
}

/// The model record of the Minc mode `slug`.
pub fn minc_model_info(slug: &str) -> (out: MincModelInfo)
    ensures
        is_mode_info(out, slug@),
{
    let s = text_of(slug);
    let (priority, description) = if is_slug(&s, AUTO_MODE) {
        (0i32, AUTO_DESCRIPTION)
    } else if is_slug(&s, INSTANT_MODE) {
        (1i32, INSTANT_DESCRIPTION)
    } else if is_slug(&s, LOW_REASONING_MODE) {
        (2i32, LOW_REASONING_DESCRIPTION)
    } else if is_slug(&s, HIGH_REASONING_MODE) {
        (3i32, HIGH_REASONING_DESCRIPTION)
    } else {
        (10i32, OTHER_DESCRIPTION)
    };
    let mut input_modalities: Vec<InputModality> = Vec::new();
    input_modalities.push(InputModality::Text);
    input_modalities.push(InputModality::Image);
    assert(input_modalities@ =~= seq![InputModality::Text, InputModality::Image]);
    MincModelInfo {
        slug: text_of(slug),
        display_name: text_of(slug),
        description: Some(text_of(description)),
        default_reasoning_level: None,
        supported_reasoning_levels: Vec::new(),
        shell_type: ShellToolType::ShellCommand,
        visibility: ModelVisibility::List,
        supported_in_api: true,
        priority,
        additional_speed_tiers: Vec::new(),
        service_tiers: Vec::new(),
        default_service_tier: None,
        availability_nux: None,
        upgrade: None,
        base_instructions: text_of(MODEL_BASE_INSTRUCTIONS),
        model_messages: None,
        include_skills_usage_instructions: true,
        supports_reasoning_summaries: false,
        default_reasoning_summary: ReasoningSummary::NoSummary,
        support_verbosity: false,
        default_verbosity: None,
        apply_patch_tool_type: Some(ApplyPatchToolType::Freeform),
        web_search_tool_type: WebSearchToolType::Text,
        truncation_policy: TruncationPolicy::Bytes(TRUNCATION_BYTES),
        supports_parallel_tool_calls: false,
        supports_image_detail_original: false,
        context_window: Some(CONTEXT_WINDOW),
        max_context_window: Some(CONTEXT_WINDOW),
        auto_compact_token_limit: None,
        comp_hash: None,
        effective_context_window_percent: EFFECTIVE_CONTEXT_WINDOW_PERCENT,
        experimental_supported_tools: Vec::new(),
        input_modalities,
        used_fallback_model_metadata: false,
        supports_search_tool: false,
        use_responses_lite: false,
        auto_review_model_override: None,
        tool_mode: None,
        multi_agent_version: None,
    }
}

// ---------------------------------------------------------------------------
// The models endpoint
// ---------------------------------------------------------------------------

/// The serialization that `url::Url::parse` gives `input`, or the text of
/// its parse error.
pub uninterp spec fn url_parse_of(input: Seq<char>) -> Result<Seq<char>, Seq<char>>;

/// The serialization of `url::Url::join(input)` on the URL that parses from
/// `base`, or the text of the error.
pub uninterp spec fn url_join_of(base: Seq<char>, input: Seq<char>) -> Result<Seq<char>, Seq<char>>;

/// The characters of a URL or of a URL error.
pub open spec fn url_text_view(r: Result<String, String>) -> Result<Seq<char>, Seq<char>> {
    match r {
        Ok(u) => Ok(u@),
        Err(e) => Err(e@),
    }
}

/// Parses `input` with `url::Url::parse` (re-exported by reqwest) and
/// returns its serialization, or the display text of the parse error.  The
/// contract claims only that the result is a function of `input`, named
/// `url_parse_of`.
#[verifier::external_body]
fn url_parse(input: &str) -> (out: Result<String, String>)
    ensures
        url_text_view(out) == url_parse_of(input@),
{
    reqwest::Url::parse(input).map(String::from).map_err(|err| err.to_string())
}

/// Parses `base` with `url::Url::parse` and resolves `input` against it with
/// `Url::join`, returning the serialization or the display text of the
/// error.  The contract claims only that the result is a function of the
/// two arguments, named `url_join_of`.
#[verifier::external_body]
fn url_join(base: &str, input: &str) -> (out: Result<String, String>)
    ensures
        url_text_view(out) == url_join_of(base@, input@),
{
    reqwest::Url::parse(base).and_then(|url| url.join(input)).map(String::from).map_err(
        |err| err.to_string(),
    )
}

/// The URL at which the modes are listed: the models path resolved against
/// the provider's base URL.  The base URL is parsed first, so that a base
/// URL that does not parse is reported as such; the join then starts again
/// from the same base URL text, which parses the same way.
pub open spec fn models_url(base_url: Option<Seq<char>>) -> Result<Seq<char>, MincErrorView> {
    match base_url {
        None => Err(MincErrorView::Fatal(MISSING_BASE_URL@)),
        Some(base) => match url_parse_of(base) {
            Err(e) => Err(MincErrorView::Fatal(INVALID_BASE_URL@ + e)),
            Ok(_) => match url_join_of(base, MODELS_PATH@) {
                Err(e) => Err(MincErrorView::Fatal(INVALID_MODELS_URL@ + e)),
                Ok(u) => Ok(u),
            },
        },
    }
}

/// The provider that lists the Minc modes.
#[derive(Debug, Clone, PartialEq, Eq)]
pub struct MincModelsEndpoint {
    pub base_url: Option<String>,
}

fn fatal_with(prefix: &str, detail: &str) -> (out: MincError)
    ensures
        out@ == MincErrorView::Fatal(prefix@ + detail@),
{
    let mut m = chars_of(prefix);
    push_str(&mut m, detail);
    MincError::Fatal(string_of(&m))
}

impl MincModelsEndpoint {
    /// An endpoint for the provider with this base URL.
    pub fn new(base_url: Option<String>) -> (out: Self)
        ensures
            out.base_url == base_url,
    {
        MincModelsEndpoint { base_url }
    }

    /// Minc needs no command-based authentication.
    pub fn has_command_auth(&self) -> (b: bool)
        ensures
            !b,
    {
        false
    }

    /// The modes are refreshed through the shared backend path.
    pub fn uses_codex_backend(&self) -> (b: bool)
        ensures
            b,
    {
        true
    }

    /// The listed modes replace the models known before.
    pub fn replace_remote_models(&self) -> (b: bool)
        ensures
            b,
    {
        true
    }

    /// The URL at which the modes are listed.
    pub fn models_url(&self) -> (out: Result<String, MincError>)
        ensures
            crate::directive::text_result_view(out) == models_url(
                crate::types::opt_view(self.base_url),
            ),
    {
        let base = match &self.base_url {
            None => {
                return Err(MincError::Fatal(text_of(MISSING_BASE_URL)));
            },
            Some(b) => b,
        };
        match url_parse(base.as_str()) {
            Err(e) => {
                return Err(fatal_with(INVALID_BASE_URL, e.as_str()));
            },
            Ok(_) => {},
        }
        match url_join(base.as_str(), MODELS_PATH) {
            Err(e) => Err(fatal_with(INVALID_MODELS_URL, e.as_str())),
            Ok(u) => Ok(u),
        }
    }

    /// The model records of the listed mode ids, in order.
    pub fn models_from_ids(ids: &Vec<String>) -> (out: Vec<MincModelInfo>)
        ensures
            out@.len() == ids@.len(),
            forall|i: int| 0 <= i < ids@.len() ==> is_mode_info(#[trigger] out@[i], ids@[i]@),
    {
        let mut out: Vec<MincModelInfo> = Vec::new();
        let mut i: usize = 0;
        while i < ids.len()
            invariant
                i <= ids.len(),
                out@.len() == i,
                forall|j: int| 0 <= j < i ==> is_mode_info(#[trigger] out@[j], ids@[j]@),
            decreases ids.len() - i,
        {
            out.push(minc_model_info(ids[i].as_str()));
            i += 1;
        }
        out
    }
}

} // verus!
