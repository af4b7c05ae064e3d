use minc::directive::{
    advertised_tool_kind, coerce_directive_to_tool_spec, custom_input_to_function_arguments,
    directive_is_defined, extract_directive_candidate, extract_tag_block,
    function_arguments_to_custom_input, normalize_function_arguments, parse_minc_directive,
    parse_optional_attr, parse_required_attr, strip_tag, AdvertisedToolKind, MincDirective,
};
use minc::models::{
    minc_model_info, ApplyPatchToolType, InputModality, MincModelsEndpoint, ModelVisibility,
    ReasoningSummary, ShellToolType, TruncationPolicy, WebSearchToolType,
};
use minc::request::{
    fit_request_parts, minc_ask_url, minc_request_parts, minc_request_url_length,
};
use minc::response::MincAskResponse;
use minc::sanitize::{sanitize_base_instructions, strip_tagged_section};
use minc::transcript::{
    build_system_prompt, extract_message_text, extract_user_message_text, latest_user_request,
    render_execution_state, render_execution_state_item, render_prompt_transcript,
    render_response_item_for_minc, render_tool_catalog,
};
use minc::truncate::{truncate_from_end, truncate_from_start};
use minc::types::{
    ContentItem, FreeformTool, FunctionCallOutputPayload, FunctionTool, MincError, NamespaceTool,
    Prompt, ResponseEvent, ResponseItem, ToolNamespace, ToolSpec,
};

fn user(text: &str) -> ResponseItem {
    ResponseItem::Message {
        id: None,
        role: "user".to_string(),
        content: vec![ContentItem::InputText { text: text.to_string() }],
    }
}

fn call(name: &str, arguments: &str, call_id: &str) -> ResponseItem {
    ResponseItem::FunctionCall {
        id: None,
        name: name.to_string(),
        namespace: None,
        arguments: arguments.to_string(),
        call_id: call_id.to_string(),
    }
}

fn exec_command_tool() -> ToolSpec {
    ToolSpec::Function(FunctionTool {
        name: "exec_command".to_string(),
        description: "Run a shell command".to_string(),
    })
}

// ---------------------------------------------------------------------------
// Truncation
// ---------------------------------------------------------------------------

#[test]
fn truncation_keeps_text_within_budget() {
    assert_eq!(truncate_from_start("abcdef", 6), "abcdef");
    assert_eq!(truncate_from_end("abcdef", 10), "abcdef");
}

#[test]
fn truncate_from_start_keeps_the_tail_behind_a_marker() {
    let text: String = ('a'..='z').cycle().take(100).collect();
    let out = truncate_from_start(&text, 40);
    let kept: String = text.chars().skip(91).collect();
    assert_eq!(out, format!("[Earlier context truncated for Minc]\n{kept}"));
    assert_eq!(out.chars().count(), 46);
}

#[test]
fn truncate_from_end_keeps_the_head_before_a_marker() {
    let text = "y".repeat(100);
    let out = truncate_from_end(&text, 40);
    assert_eq!(out, format!("{}\n[Remaining system prompt truncated]", "y".repeat(5)));
    assert_eq!(out.chars().count(), 41);
}

#[test]
fn truncation_counts_characters_not_bytes() {
    let text = "\u{e9}".repeat(10);
    assert_eq!(truncate_from_end(&text, 10), text);
    let small_budget = truncate_from_end(&text, 9);
    assert_eq!(small_budget, "\n[Remaining system prompt truncated]");
}

// ---------------------------------------------------------------------------
// Sanitizing
// ---------------------------------------------------------------------------

#[test]
fn strip_tagged_section_removes_closed_sections() {
    assert_eq!(strip_tagged_section("a<t>b</t>c<t>d</t>e", "t"), "ace");
}

#[test]
fn strip_tagged_section_drops_an_unclosed_section() {
    assert_eq!(strip_tagged_section("keep<t>lost", "t"), "keep");
}

#[test]
fn strip_tagged_section_keeps_untagged_text() {
    assert_eq!(strip_tagged_section("no sections here", "t"), "no sections here");
}

#[test]
fn sanitized_text_has_no_blank_lines_and_no_padding() {
    let text = "\n\n  first\n\n\n\nsecond\r\n\n<environment_context>cwd</environment_context>\nthird  \n\n";
    let out = sanitize_base_instructions(text);
    assert_eq!(out, "first\nsecond\nthird");
    assert!(!out.contains("\n\n"));
    assert_eq!(out.trim(), out);
}

#[test]
fn sanitize_drops_budget_notices() {
    let text = "a\n  \u{26a0} warning line\nwithin the skills context budget\nb";
    assert_eq!(sanitize_base_instructions(text), "a\nb");
}

#[test]
fn every_sanitized_line_passes_the_notice_filter() {
    let text = "  keep me\r\n\u{26a0} drop\n\n\n  \n mid \u{26a0} stays\r\nSkill descriptions were shortened here\n   last  \n";
    let out = sanitize_base_instructions(text);
    assert_eq!(out, "keep me\n mid \u{26a0} stays\n   last");
    for line in out.lines() {
        let trimmed = line.trim();
        assert!(!trimmed.starts_with('\u{26a0}'));
        assert!(!trimmed.contains("skills context budget"));
        assert!(!trimmed.contains("Skill descriptions were shortened"));
    }
}

// ---------------------------------------------------------------------------
// Tags and attributes
// ---------------------------------------------------------------------------

#[test]
fn tag_block_positions_are_byte_offsets() {
    let block = extract_tag_block("\u{e9}<t>x</t>", "t").expect("block should be found");
    assert_eq!((block.start, block.end), (2, 10));
    let text = "\u{e9}\u{e9} ab<t x>y</t>z";
    let block = extract_tag_block(text, "t").expect("block should be found");
    assert_eq!(&text[block.start..block.end], "<t x>y</t>");
}

#[test]
fn extract_tag_block_finds_the_first_block() {
    let block = extract_tag_block("xx<minc:custom a>b</minc:custom>yy", "minc:custom")
        .expect("block should be found");
    assert_eq!((block.start, block.end), (2, 32));
    assert!(extract_tag_block("<minc:custom a>no close", "minc:custom").is_none());
}

#[test]
fn strip_tag_splits_attributes_and_body() {
    assert_eq!(
        strip_tag("<minc:custom  name=\"x\" >body</minc:custom>", "minc:custom"),
        Some(("name=\"x\"".to_string(), "body".to_string()))
    );
    assert_eq!(strip_tag("<minc:custom name=\"x\">body", "minc:custom"), None);
}

#[test]
fn attributes_are_read_up_to_the_closing_quote() {
    assert_eq!(
        parse_optional_attr("namespace=\"ns\" name=\"tool\"", "name"),
        Some("tool".to_string())
    );
    assert_eq!(
        parse_optional_attr("namespace=\"ns\" name=\"tool\"", "namespace"),
        Some("ns".to_string())
    );
    assert_eq!(parse_optional_attr("name=\"\"", "name"), Some(String::new()));
    assert_eq!(parse_required_attr("name=\"\"", "name"), None);
    assert_eq!(parse_optional_attr("name=\"open", "name"), None);
}

#[test]
fn directive_candidate_rules() {
    let block = "<minc:function name=\"exec_command\">{\"cmd\":\"ls\"}</minc:function>";
    assert_eq!(
        extract_directive_candidate(&format!("  Listing files.\n{block}\n")),
        Some(block.to_string())
    );
    assert_eq!(extract_directive_candidate(&format!("```\n{block}\n```")), None);
    assert_eq!(
        extract_directive_candidate(&format!("{}\n{block}", "x".repeat(241))),
        None
    );
    assert_eq!(extract_directive_candidate("just text"), None);
}

// ---------------------------------------------------------------------------
// Arguments and coercion
// ---------------------------------------------------------------------------

#[test]
fn exec_command_line_becomes_cmd_arguments() {
    assert_eq!(
        custom_input_to_function_arguments("exec_command", "  echo \"hi\"  ").unwrap(),
        r#"{"cmd":"echo \"hi\""}"#
    );
}

#[test]
fn exec_command_line_is_escaped_as_a_json_string() {
    assert_eq!(
        custom_input_to_function_arguments("exec_command", "printf 'a\\tb\tc\u{1}d'\nls /").unwrap(),
        "{\"cmd\":\"printf 'a\\\\tb\\tc\\u0001d'\\nls /\"}"
    );
    assert_eq!(
        custom_input_to_function_arguments("exec_command", "echo \u{e9}\u{1f}\u{7f}").unwrap(),
        "{\"cmd\":\"echo \u{e9}\\u001f\u{7f}\"}"
    );
}

#[test]
fn custom_payload_that_is_not_json_is_an_error() {
    assert_eq!(
        custom_input_to_function_arguments("read_file", "not json"),
        Err(MincError::InvalidRequest(
            "Minc emitted a custom payload for function tool read_file that was not valid JSON"
                .to_string()
        ))
    );
}

#[test]
fn json_custom_payload_is_printed_compactly() {
    assert_eq!(
        custom_input_to_function_arguments("read_file", " { \"path\" : \"a.rs\" } ").unwrap(),
        r#"{"path":"a.rs"}"#
    );
}

#[test]
fn freeform_arguments_errors() {
    let err = |m: &str| Err(MincError::InvalidRequest(m.to_string()));
    assert_eq!(
        function_arguments_to_custom_input("nope"),
        err("Minc emitted JSON arguments for a freeform tool that could not be parsed")
    );
    assert_eq!(
        function_arguments_to_custom_input("[1]"),
        err("Minc emitted non-object JSON arguments for a freeform tool")
    );
    assert_eq!(
        function_arguments_to_custom_input(r#"{"input":5}"#),
        err("Minc emitted JSON arguments for a freeform tool without an `input` string")
    );
    assert_eq!(
        function_arguments_to_custom_input(r#"{"input":"patch"}"#),
        Ok("patch".to_string())
    );
}

#[test]
fn command_is_not_renamed_when_cmd_is_present() {
    assert_eq!(
        normalize_function_arguments("exec_command", r#"{"command":"ls","cmd":"pwd"}"#),
        Some(r#"{"cmd":"pwd","command":"ls"}"#.to_string())
    );
    assert_eq!(
        normalize_function_arguments("other_tool", r#"{"command":"ls"}"#),
        Some(r#"{"command":"ls"}"#.to_string())
    );
}

#[test]
fn advertised_kinds_follow_the_tool_list() {
    let tools = vec![
        ToolSpec::Namespace(ToolNamespace {
            name: "mcp".to_string(),
            description: "server tools".to_string(),
            tools: vec![NamespaceTool::Function(FunctionTool {
                name: "lookup".to_string(),
                description: "Look up".to_string(),
            })],
        }),
        ToolSpec::ToolSearch,
        ToolSpec::Freeform(FreeformTool {
            name: "apply_patch".to_string(),
            description: "Apply a patch".to_string(),
        }),
    ];
    assert_eq!(
        advertised_tool_kind(&tools, &Some("mcp".to_string()), &"lookup".to_string()),
        Some(AdvertisedToolKind::Function)
    );
    assert_eq!(
        advertised_tool_kind(&tools, &None, &"lookup".to_string()),
        None
    );
    assert_eq!(
        advertised_tool_kind(&tools, &None, &"tool_search".to_string()),
        Some(AdvertisedToolKind::Function)
    );
    assert_eq!(
        advertised_tool_kind(&tools, &None, &"apply_patch".to_string()),
        Some(AdvertisedToolKind::Freeform)
    );
}

#[test]
fn coercion_keeps_unadvertised_directives() {
    let directive = MincDirective::Custom {
        namespace: None,
        name: "unknown".to_string(),
        input: "raw".to_string(),
    };
    assert_eq!(
        coerce_directive_to_tool_spec(directive, &[exec_command_tool()]),
        Ok(MincDirective::Custom {
            namespace: None,
            name: "unknown".to_string(),
            input: "raw".to_string(),
        })
    );
}

#[test]
fn coercion_is_idempotent() {
    let tools = vec![exec_command_tool()];
    let once = coerce_directive_to_tool_spec(
        MincDirective::Custom {
            namespace: None,
            name: "exec_command".to_string(),
            input: "ls".to_string(),
        },
        &tools,
    )
    .unwrap();
    let expected = MincDirective::Function {
        namespace: None,
        name: "exec_command".to_string(),
        arguments: r#"{"cmd":"ls"}"#.to_string(),
    };
    assert_eq!(once, expected);
    let twice = coerce_directive_to_tool_spec(once, &tools).unwrap();
    assert_eq!(twice, expected);
}

#[test]
fn bad_payload_for_a_function_tool_fails_the_parse() {
    let tools = vec![ToolSpec::Function(FunctionTool {
        name: "read_file".to_string(),
        description: "Read".to_string(),
    })];
    assert_eq!(
        parse_minc_directive("<minc:custom name=\"read_file\">a.rs</minc:custom>", &tools),
        Err(MincError::InvalidRequest(
            "Minc emitted a custom payload for function tool read_file that was not valid JSON"
                .to_string()
        ))
    );
}

// ---------------------------------------------------------------------------
// Reading directives
// ---------------------------------------------------------------------------

#[test]
fn namespaced_directives_read_back() {
    let directive = parse_minc_directive(
        "<minc:custom namespace=\"mcp\" name=\"note\">free text</minc:custom>",
        &[],
    )
    .unwrap();
    assert_eq!(
        directive,
        Some(MincDirective::Custom {
            namespace: Some("mcp".to_string()),
            name: "note".to_string(),
            input: "free text".to_string(),
        })
    );
    let function = parse_minc_directive(
        "<minc:function namespace=\"mcp\" name=\"lookup\">{\"q\": 1}</minc:function>",
        &[],
    )
    .unwrap();
    assert_eq!(
        function,
        Some(MincDirective::Function {
            namespace: Some("mcp".to_string()),
            name: "lookup".to_string(),
            arguments: r#"{"q":1}"#.to_string(),
        })
    );
}

#[test]
fn malformed_directives_are_plain_text() {
    assert_eq!(
        parse_minc_directive("<minc:function>{}</minc:function>", &[]),
        Ok(None)
    );
    assert_eq!(
        parse_minc_directive("<minc:function name=\"x\">[1]</minc:function>", &[]),
        Ok(None)
    );
    assert_eq!(
        parse_minc_directive("<minc:function name=\"x\">not json</minc:function>", &[]),
        Ok(None)
    );
    assert_eq!(parse_minc_directive("   ", &[]), Ok(None));
}

#[test]
fn two_custom_directives_are_rejected() {
    assert_eq!(
        parse_minc_directive(
            "<minc:custom name=\"a\">x</minc:custom>\n<minc:custom name=\"b\">y</minc:custom>",
            &[],
        ),
        Ok(None)
    );
}

#[test]
fn closing_tag_inside_a_body_stays_in_the_body() {
    assert_eq!(
        parse_minc_directive("<minc:custom name=\"a\">x</minc:custom>y</minc:custom>", &[]),
        Ok(Some(MincDirective::Custom {
            namespace: None,
            name: "a".to_string(),
            input: "x</minc:custom>y".to_string(),
        }))
    );
    assert_eq!(
        parse_minc_directive(
            "<minc:function name=\"f\">{\"a\":\"</minc:function>\"}</minc:function>",
            &[],
        ),
        Ok(Some(MincDirective::Function {
            namespace: None,
            name: "f".to_string(),
            arguments: "{\"a\":\"</minc:function>\"}".to_string(),
        }))
    );
}

#[test]
fn directive_start_inside_a_body_stays_in_the_body() {
    assert_eq!(
        parse_minc_directive(
            "<minc:custom name=\"apply_patch\">+ say <minc:custom name=\"x\">hi\n</minc:custom>",
            &[],
        ),
        Ok(Some(MincDirective::Custom {
            namespace: None,
            name: "apply_patch".to_string(),
            input: "+ say <minc:custom name=\"x\">hi\n".to_string(),
        }))
    );
    assert_eq!(
        parse_minc_directive(
            "<minc:function name=\"f\">{}</minc:function><minc:custom name=\"g\">y</minc:custom>",
            &[],
        ),
        Ok(None)
    );
}

#[test]
fn answers_without_the_prefix_are_plain_text() {
    assert_eq!(
        parse_minc_directive("Here is <b>bold</b> text about minc:function tags", &[]),
        Ok(None)
    );
}

#[test]
fn body_ending_before_it_starts_is_undefined() {
    assert!(!directive_is_defined("<minc:custom</minc:custom>"));
    assert!(directive_is_defined("<minc:custom name=\"x\">y</minc:custom>"));
    assert!(directive_is_defined("plain"));
}

// ---------------------------------------------------------------------------
// Transcript and system prompt
// ---------------------------------------------------------------------------

#[test]
fn message_text_joins_text_parts_and_trims() {
    let content = vec![
        ContentItem::InputText { text: "  Hello".to_string() },
        ContentItem::InputImage { image_url: "data:".to_string() },
        ContentItem::OutputText { text: " world ".to_string() },
    ];
    assert_eq!(extract_message_text(&content), Some("Hello world".to_string()));
    assert_eq!(
        extract_message_text(&[ContentItem::InputText { text: "  ".to_string() }].to_vec()),
        None
    );
    assert_eq!(extract_user_message_text(&user(" hi ")), Some("hi".to_string()));
}

#[test]
fn transcript_renders_each_kind_of_item() {
    let assistant = ResponseItem::Message {
        id: None,
        role: "assistant".to_string(),
        content: vec![ContentItem::OutputText { text: "done".to_string() }],
    };
    let developer = ResponseItem::Message {
        id: None,
        role: "developer".to_string(),
        content: vec![ContentItem::InputText { text: "rules".to_string() }],
    };
    let custom_call = ResponseItem::CustomToolCall {
        id: None,
        status: None,
        call_id: "c2".to_string(),
        name: "apply_patch".to_string(),
        namespace: Some("fs".to_string()),
        input: "patch".to_string(),
    };
    let custom_output = ResponseItem::CustomToolCallOutput {
        id: None,
        call_id: "c2".to_string(),
        name: Some("apply_patch".to_string()),
        output: FunctionCallOutputPayload::from_text("applied".to_string()),
    };
    assert_eq!(
        render_response_item_for_minc(&assistant),
        Some("assistant_response: done".to_string())
    );
    assert_eq!(
        render_response_item_for_minc(&developer),
        Some("developer_message: rules".to_string())
    );
    assert_eq!(
        render_response_item_for_minc(&custom_call),
        Some("assistant_action: call fs.apply_patch with patch".to_string())
    );
    assert_eq!(
        render_response_item_for_minc(&custom_output),
        Some("tool_result: tool=apply_patch:c2; output=applied".to_string())
    );
    assert_eq!(render_response_item_for_minc(&ResponseItem::Other), None);
}

#[test]
fn transcript_adds_a_later_request() {
    let mut prompt = Prompt::default();
    prompt.input = vec![user("first"), call("exec_command", "{}", "c1"), user("second")];
    assert_eq!(
        render_prompt_transcript(&prompt),
        "original_user_request: first\n\nlatest_user_request: second\n\nturn_log:\nuser_request: first\nassistant_action: call exec_command with {}\nuser_request: second"
    );
}

#[test]
fn empty_conversation_renders_empty_transcript() {
    assert_eq!(render_prompt_transcript(&Prompt::default()), "");
}

#[test]
fn execution_state_keeps_the_last_six_steps() {
    let mut prompt = Prompt::default();
    for i in 0..8 {
        prompt.input.push(call("exec_command", &format!("{{\"cmd\":\"step{i}\"}}"), "c"));
    }
    let state = render_execution_state(&prompt).expect("state should render");
    assert_eq!(state.lines().count(), 6);
    assert!(state.starts_with("- Tool call: exec_command {\"cmd\":\"step2\"}"));
    assert!(state.chars().count() <= 706);
    assert_eq!(render_execution_state(&Prompt::default()), None);
}

#[test]
fn execution_state_item_cuts_long_results() {
    let output = ResponseItem::FunctionCallOutput {
        id: None,
        call_id: "c1".to_string(),
        output: FunctionCallOutputPayload::from_text("z".repeat(500)),
    };
    let line = render_execution_state_item(&output).unwrap();
    assert_eq!(
        line,
        format!("- Tool result [c1]: {}\n[Remaining system prompt truncated]", "z".repeat(145))
    );
}

#[test]
fn latest_request_skips_blank_user_messages() {
    let mut prompt = Prompt::default();
    prompt.input = vec![user(" keep spacing "), user("   ")];
    assert_eq!(latest_user_request(&prompt), Some(" keep spacing ".to_string()));
}

#[test]
fn empty_tool_catalog_says_none() {
    assert_eq!(render_tool_catalog(&[]), "<none>");
}

#[test]
fn system_prompt_section_order() {
    let mut prompt = Prompt::default();
    prompt.tools = vec![exec_command_tool()];
    let text = build_system_prompt(&prompt, "model instructions");
    assert!(text.starts_with("model instructions\n\nYou are Minc Agent"));
    assert!(text.ends_with("\n\nAdvertised local tools:\nexec_command"));
}

// ---------------------------------------------------------------------------
// Request URL
// ---------------------------------------------------------------------------

#[test]
fn ask_url_is_form_encoded() {
    let url = minc_ask_url("https://example.com/base?x=1", "a b&c", "Auto", "sys").unwrap();
    assert_eq!(
        url,
        "https://example.com/api/v1/ask?q=a+b%26c&model=Auto&format=json&system=sys"
    );
    assert_eq!(
        minc_request_url_length("https://example.com/base?x=1", "a b&c", "Auto", "sys"),
        Some(url.len())
    );
}

#[test]
fn unparsable_base_url_is_fatal() {
    assert_eq!(
        minc_ask_url("not a url", "q", "Auto", "s"),
        Err(MincError::Fatal(
            "invalid Minc base_url: relative URL without a base".to_string()
        ))
    );
    assert_eq!(minc_request_url_length("not a url", "q", "Auto", "s"), None);
}

#[test]
fn fit_request_parts_leaves_small_requests_alone() {
    let (query, system) = fit_request_parts("https://example.com", "Auto", "hi", "sys");
    assert_eq!((query.as_str(), system.as_str()), ("hi", "sys"));
}

#[test]
fn fitting_cuts_within_the_limits_until_the_url_fits() {
    let base = "http://localhost:3000";
    let query = "\u{e9}".repeat(2000);
    let system = "\u{e9}".repeat(2000);
    let (q, s) = fit_request_parts(base, "Auto", &query, &system);
    let query_limit = (300..=1800).find(|&limit| truncate_from_start(&query, limit) == q);
    let system_limit = (500..=1800).find(|&limit| truncate_from_end(&system, limit) == s);
    assert!(query_limit.is_some());
    assert!(system_limit.is_some());
    assert!(query_limit.unwrap() < 1800 && system_limit.unwrap() < 1800);
    let url_len = minc_request_url_length(base, &q, "Auto", &s).unwrap();
    assert!(
        url_len <= 5_500
            || (q == truncate_from_start(&query, 300) && s == truncate_from_end(&system, 500))
    );
}

#[test]
fn request_parts_cover_transcript_and_system_prompt() {
    let mut prompt = Prompt::default();
    prompt.input = vec![user("hello")];
    let (query, system) = minc_request_parts("https://example.com", "Auto", "base", &prompt);
    assert_eq!(query, "original_user_request: hello\n\nturn_log:\nuser_request: hello");
    assert!(system.starts_with("base\n\nActive user request:\nhello"));
}

// ---------------------------------------------------------------------------
// Replies
// ---------------------------------------------------------------------------

fn reply(answer: &str) -> MincAskResponse {
    MincAskResponse {
        answer: answer.to_string(),
        thinking: Some("pondering".to_string()),
        model: Some("Auto".to_string()),
        latency_ms: Some(12),
        success: true,
    }
}

#[test]
fn replies_are_validated() {
    let mut failed = reply("x");
    failed.success = false;
    assert_eq!(
        failed.validate(),
        Err(MincError::InvalidRequest("Minc API returned success: false".to_string()))
    );
    assert_eq!(
        reply("  \n").validate(),
        Err(MincError::InvalidRequest(
            "Minc API response did not include an answer".to_string()
        ))
    );
    assert_eq!(reply("ok").validate(), Ok(()));
}

#[test]
fn reply_fails_with_the_parse_error() {
    let tools = vec![ToolSpec::Function(FunctionTool {
        name: "read_file".to_string(),
        description: "Read".to_string(),
    })];
    let answer = "  <minc:custom name=\"read_file\">a.rs</minc:custom>\n";
    let parsed = parse_minc_directive(answer.trim(), &tools);
    let streamed = reply(answer).into_response_events(&tools, 1, 2);
    assert!(parsed.is_err());
    assert_eq!(streamed, Err(parsed.unwrap_err()));
    assert!(reply("fine").into_response_events(&tools, 1, 2).is_ok());
}

#[test]
fn plain_answer_streams_as_a_message() {
    let events = reply(" The repo has two crates. ").into_response_events(&[], 456, 123).unwrap();
    assert_eq!(events.len(), 7);
    assert_eq!(events[0], ResponseEvent::Created);
    assert_eq!(events[1], ResponseEvent::ServerModel("Auto".to_string()));
    let message = ResponseItem::Message {
        id: Some("minc-message".to_string()),
        role: "assistant".to_string(),
        content: vec![ContentItem::OutputText {
            text: " The repo has two crates. ".to_string(),
        }],
    };
    assert_eq!(events[4], ResponseEvent::OutputItemAdded(message.clone()));
    assert_eq!(events[5], ResponseEvent::OutputItemDone(message));
    assert_eq!(
        events[6],
        ResponseEvent::Completed {
            response_id: "minc-456".to_string(),
            end_turn: Some(true),
        }
    );
    match &events[2] {
        ResponseEvent::OutputItemAdded(ResponseItem::Reasoning { id, summary, content }) => {
            assert_eq!(id.as_deref(), Some("minc-reasoning"));
            assert_eq!(summary, &vec!["Minc thinking".to_string()]);
            assert_eq!(content, &Some(vec!["pondering".to_string()]));
        }
        other => panic!("unexpected event {other:?}"),
    }
}

#[test]
fn directive_answer_streams_as_a_tool_call() {
    let mut response = reply("<minc:function name=\"exec_command\">{\"cmd\":\"ls\"}</minc:function>");
    response.thinking = Some("   ".to_string());
    response.model = None;
    let events = response.into_response_events(&[], 9, 1070).unwrap();
    assert_eq!(events.len(), 4);
    let item = ResponseItem::FunctionCall {
        id: Some("minc-call-1070".to_string()),
        name: "exec_command".to_string(),
        namespace: None,
        arguments: r#"{"cmd":"ls"}"#.to_string(),
        call_id: "minc-call-1070".to_string(),
    };
    assert_eq!(events[1], ResponseEvent::OutputItemAdded(item));
}

#[test]
fn custom_directive_becomes_a_completed_custom_call() {
    let item = MincDirective::Custom {
        namespace: None,
        name: "apply_patch".to_string(),
        input: "p".to_string(),
    }
    .into_response_item(0);
    assert_eq!(
        item,
        ResponseItem::CustomToolCall {
            id: Some("minc-call-0".to_string()),
            status: Some("completed".to_string()),
            call_id: "minc-call-0".to_string(),
            name: "apply_patch".to_string(),
            namespace: None,
            input: "p".to_string(),
        }
    );
}

// ---------------------------------------------------------------------------
// Models
// ---------------------------------------------------------------------------

#[test]
fn modes_are_ordered_and_described() {
    let auto = minc_model_info("Auto");
    let instant = minc_model_info("Instant");
    let low = minc_model_info("Low Reasoning");
    let high = minc_model_info("High Reasoning");
    let other = minc_model_info("Experimental");
    assert!(auto.priority < instant.priority);
    assert!(instant.priority < low.priority);
    assert!(low.priority < high.priority);
    assert!(high.priority < other.priority);
    assert_eq!(
        auto.description.as_deref(),
        Some("Lets Minc choose the best mode for the turn.")
    );
    assert_eq!(other.description.as_deref(), Some("Minc mode"));
    assert_eq!(other.priority, 10);
    assert_eq!(high.context_window, Some(128_000));
    assert_eq!(high.effective_context_window_percent, 95);
    assert_eq!(high.display_name, "High Reasoning");
    assert_eq!(high.shell_type, ShellToolType::ShellCommand);
    assert_eq!(high.visibility, ModelVisibility::List);
    assert_eq!(high.web_search_tool_type, WebSearchToolType::Text);
    assert_eq!(high.apply_patch_tool_type, Some(ApplyPatchToolType::Freeform));
    assert_eq!(high.default_reasoning_summary, ReasoningSummary::NoSummary);
    assert_eq!(high.truncation_policy, TruncationPolicy::Bytes(32_000));
    assert_eq!(high.input_modalities, vec![InputModality::Text, InputModality::Image]);
    assert!(high.supported_reasoning_levels.is_empty());
    assert_eq!(high.default_reasoning_level, None);
    assert_eq!(high.auto_compact_token_limit, None);
}

#[test]
fn models_url_errors_and_success() {
    assert_eq!(
        MincModelsEndpoint::new(None).models_url(),
        Err(MincError::Fatal("Minc provider missing base_url".to_string()))
    );
    assert_eq!(
        MincModelsEndpoint::new(Some("::".to_string())).models_url(),
        Err(MincError::Fatal(
            "invalid Minc base_url: relative URL without a base".to_string()
        ))
    );
    assert_eq!(
        MincModelsEndpoint::new(Some("https://example.com/v0/".to_string())).models_url(),
        Ok("https://example.com/api/v1/models".to_string())
    );
    let endpoint = MincModelsEndpoint::new(None);
    assert!(!endpoint.has_command_auth());
    assert!(endpoint.uses_codex_backend());
    assert!(endpoint.replace_remote_models());
}

#[test]
fn listed_ids_become_model_records() {
    let ids = vec!["Auto".to_string(), "Instant".to_string()];
    let models = MincModelsEndpoint::models_from_ids(&ids);
    assert_eq!(models.len(), 2);
    assert_eq!(models[0].slug, "Auto");
    assert_eq!(models[1].priority, 1);
}
