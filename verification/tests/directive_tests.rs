use minc::directive::{parse_minc_directive, MincDirective};
use minc::request::{fit_request_parts, minc_request_url_length, MAX_MINC_URL_CHARS};
use minc::sanitize::sanitize_base_instructions;
use minc::transcript::{
    build_system_prompt, render_prompt_transcript, render_response_item_for_minc,
    render_tool_catalog, MAX_MINC_BASE_INSTRUCTIONS_CHARS,
};
use minc::types::{
    ContentItem, FreeformTool, FunctionCallOutputPayload, FunctionTool, Prompt, ResponseItem,
    ToolSpec,
};

fn empty_tools() -> Vec<ToolSpec> {
    Vec::new()
}

#[test]
fn parses_exec_command_directive() {
    let directive = parse_minc_directive(
        r#"<minc:function name="exec_command">{"cmd":"pwd"}</minc:function>"#,
        &empty_tools(),
    )
    .expect("directive should parse");

    assert_eq!(
        directive,
        Some(MincDirective::Function {
            namespace: None,
            name: "exec_command".to_string(),
            arguments: r#"{"cmd":"pwd"}"#.to_string(),
        })
    );
}

#[test]
fn normalizes_exec_command_argument_alias() {
    let directive = parse_minc_directive(
        r#"<minc:function name="exec_command">{"command":"pwd"}</minc:function>"#,
        &empty_tools(),
    )
    .expect("directive should parse");

    assert_eq!(
        directive,
        Some(MincDirective::Function {
            namespace: None,
            name: "exec_command".to_string(),
            arguments: r#"{"cmd":"pwd"}"#.to_string(),
        })
    );
}

#[test]
fn parses_apply_patch_directive() {
    let directive = parse_minc_directive(
        "<minc:custom name=\"apply_patch\">*** Begin Patch\n*** End Patch</minc:custom>",
        &empty_tools(),
    )
    .expect("directive should parse");

    assert_eq!(
        directive,
        Some(MincDirective::Custom {
            namespace: None,
            name: "apply_patch".to_string(),
            input: "*** Begin Patch\n*** End Patch".to_string(),
        })
    );
}

#[test]
fn plain_text_is_not_treated_as_directive() {
    assert_eq!(
        parse_minc_directive("hello there", &empty_tools()).expect("parse should succeed"),
        None
    );
}

#[test]
fn wrapped_single_directive_is_accepted() {
    let directive = parse_minc_directive(
        "I'll explore the repository structure and summarize it for you.\n<minc:function name=\"exec_command\">{\"command\":\"pwd\"}</minc:function>",
        &empty_tools(),
    )
    .expect("parse should succeed");

    assert_eq!(
        directive,
        Some(MincDirective::Function {
            namespace: None,
            name: "exec_command".to_string(),
            arguments: r#"{"cmd":"pwd"}"#.to_string(),
        })
    );
}

#[test]
fn multiple_directives_are_rejected() {
    assert_eq!(
        parse_minc_directive(
            "<minc:function name=\"exec_command\">{\"cmd\":\"pwd\"}</minc:function>\n<minc:function name=\"exec_command\">{\"cmd\":\"ls\"}</minc:function>",
            &empty_tools(),
        )
        .expect("parse should succeed"),
        None
    );
}

#[test]
fn custom_exec_command_is_coerced_to_function_payload() {
    let tools = vec![ToolSpec::Function(FunctionTool {
        name: "exec_command".to_string(),
        description: "Run a shell command".to_string(),
    })];

    let directive = parse_minc_directive(
        "<minc:custom name=\"exec_command\">ls -la</minc:custom>",
        &tools,
    )
    .expect("directive should parse");

    assert_eq!(
        directive,
        Some(MincDirective::Function {
            namespace: None,
            name: "exec_command".to_string(),
            arguments: r#"{"cmd":"ls -la"}"#.to_string(),
        })
    );
}

#[test]
fn function_apply_patch_with_input_is_coerced_to_custom_payload() {
    let tools = vec![ToolSpec::Freeform(FreeformTool {
        name: "apply_patch".to_string(),
        description: "Apply a patch".to_string(),
    })];

    let directive = parse_minc_directive(
        r#"<minc:function name="apply_patch">{"input":"*** Begin Patch\n*** End Patch"}</minc:function>"#,
        &tools,
    )
    .expect("directive should parse");

    assert_eq!(
        directive,
        Some(MincDirective::Custom {
            namespace: None,
            name: "apply_patch".to_string(),
            input: "*** Begin Patch\n*** End Patch".to_string(),
        })
    );
}

#[test]
fn transcript_includes_tool_outputs() {
    let rendered = render_response_item_for_minc(&ResponseItem::FunctionCallOutput {
        id: None,
        call_id: "call-1".to_string(),
        output: FunctionCallOutputPayload::from_text("ok".to_string()),
    })
    .expect("tool output should render");

    assert_eq!(rendered, "tool_result: call_id=call-1; output=ok");
}

#[test]
fn sanitize_base_instructions_removes_large_skills_sections() {
    let text = r#"keep me
<skills_instructions>
very large skills blob
</skills_instructions>
⚠ Skill descriptions were shortened to fit the 2% skills context budget.
also keep me"#;

    let sanitized = sanitize_base_instructions(text);

    assert_eq!(sanitized, "keep me\nalso keep me");
}

#[test]
fn tool_catalog_renders_compact_names() {
    let tools = vec![
        ToolSpec::ImageGeneration {
            output_format: "png".to_string(),
        },
        ToolSpec::WebSearch,
    ];

    assert_eq!(render_tool_catalog(&tools), "image_generation, web_search");
}

#[test]
fn fit_request_parts_respects_url_budget() {
    let query = "user: hi\n".repeat(700);
    let system = "developer instructions\n".repeat(700);

    let (query, system) = fit_request_parts(
        "https://mincapi.space-z.ai",
        "Auto",
        query.as_str(),
        system.as_str(),
    );
    let url_len = minc_request_url_length(
        "https://mincapi.space-z.ai",
        query.as_str(),
        "Auto",
        system.as_str(),
    )
    .expect("url should build");

    assert!(url_len <= MAX_MINC_URL_CHARS);
}

fn repo_turn(listing: &str) -> Vec<ResponseItem> {
    vec![
        ResponseItem::Message {
            id: None,
            role: "user".to_string(),
            content: vec![ContentItem::InputText {
                text: "Read and summarize the repo".to_string(),
            }],
        },
        ResponseItem::FunctionCall {
            id: None,
            name: "exec_command".to_string(),
            namespace: None,
            arguments: r#"{"cmd":"ls"}"#.to_string(),
            call_id: "call-1".to_string(),
        },
        ResponseItem::FunctionCallOutput {
            id: None,
            call_id: "call-1".to_string(),
            output: FunctionCallOutputPayload::from_text(listing.to_string()),
        },
    ]
}

#[test]
fn transcript_carries_original_request_and_turn_log() {
    let mut prompt = Prompt::default();
    prompt.input = repo_turn("Cargo.toml\nsrc");

    let rendered = render_prompt_transcript(&prompt);

    assert!(rendered.contains("original_user_request: Read and summarize the repo"));
    assert!(rendered.contains("turn_log:"));
    assert!(rendered.contains(r#"assistant_action: call exec_command with {"cmd":"ls"}"#));
    assert!(rendered.contains("tool_result: call_id=call-1; output=Cargo.toml\nsrc"));
}

#[test]
fn build_system_prompt_caps_base_instructions() {
    let mut prompt = Prompt::default();
    prompt.base_instructions = "x".repeat(MAX_MINC_BASE_INSTRUCTIONS_CHARS * 2);

    let prompt_text = build_system_prompt(&prompt, "base");

    assert!(prompt_text.chars().count() < 4_000);
    assert!(prompt_text.contains("[Remaining system prompt truncated]"));
}

#[test]
fn build_system_prompt_includes_active_request_and_tool_state() {
    let mut prompt = Prompt::default();
    prompt.input = repo_turn("Cargo.toml\nREADME.md");

    let prompt_text = build_system_prompt(&prompt, "base");

    assert!(prompt_text.contains("Active user request:\nRead and summarize the repo"));
    assert!(prompt_text.contains(r#"Tool call: exec_command {"cmd":"ls"}"#));
    assert!(prompt_text.contains("Tool result [call-1]: Cargo.toml"));
}
