use malim_chat::addresses::is_safe_public_url;
use malim_chat::anthropic_stream::AnthropicMessage;
use malim_chat::content::{content_part, parse_data_url, plain_text_content};
use malim_chat::json::Json;
use malim_chat::provider_errors::provider_error_from_response;
use malim_chat::provider_stream::{provider_stream_delta, StreamFragment};
use malim_chat::providers::{build_request, provider_url, RequestKind, Tools};
use malim_chat::respond::instruction_message;
use malim_chat::thinking::{split_thinking, strip_thinking, ThinkingStream};
use malim_chat::web_tools::{is_valid_search_query, web_tool_definitions};

#[test]
fn accepts_generic_planner_queries_without_topic_rules() {
    assert!(is_valid_search_query("ab"));
    assert!(is_valid_search_query("a specific search query"));
    assert!(!is_valid_search_query("x"));
}

#[test]
fn repeats_the_provider_own_error_words() {
    let error = provider_error_from_response(
        500,
        "{\"error\":{\"message\":\"no channel for model gpt-5.6-luna\",\"type\":\"new_api_error\"}}",
        false,
        false,
    );
    assert_eq!(error.code, "provider_unavailable");
    assert!(
        error.message.contains("no channel for model gpt-5.6-luna"),
        "{}",
        error.message
    );
}

#[test]
fn reports_failures_nested_inside_a_response_stream() {
    // A gateway can answer 200 and still fail the turn inside the stream body.
    let failed = provider_stream_delta(
        "openai_responses",
        "data: {\"type\":\"response.failed\",\"response\":{\"id\":\"resp_1\",\"status\":\"failed\",\"error\":{\"message\":\"no channel for model\"}}}",
    )
    .expect("nested failure should surface");
    assert_eq!(failed.error.as_deref(), Some("no channel for model"));

    let incomplete = provider_stream_delta(
        "openai_responses",
        "data: {\"type\":\"response.incomplete\",\"response\":{\"id\":\"resp_2\",\"status\":\"incomplete\",\"incomplete_details\":{\"reason\":\"max_output_tokens\"}}}",
    )
    .expect("incomplete should surface");
    assert_eq!(incomplete.error, None);
    assert_eq!(incomplete.incomplete.as_deref(), Some("max_output_tokens"));

    // Lifecycle frames serialize their empty fields as JSON null, so `"error": null`
    // must read as "no error": reading it as one kills the turn before any text.
    let created = provider_stream_delta(
        "openai_responses",
        "data: {\"type\":\"response.created\",\"response\":{\"id\":\"resp_3\",\"status\":\"in_progress\",\"error\":null,\"incomplete_details\":null}}",
    )
    .expect("the stored response id is still worth keeping");
    assert_eq!(created.error, None);
    assert_eq!(created.incomplete, None);
    assert_eq!(created.response_id.as_deref(), Some("resp_3"));
}

#[test]
fn shows_anthropic_hosted_tools_as_timeline_activity() {
    let call = provider_stream_delta(
        "anthropic",
        "data: {\"type\":\"content_block_start\",\"index\":1,\"content_block\":{\"type\":\"server_tool_use\",\"id\":\"srvtoolu_1\",\"name\":\"web_search\",\"input\":{}}}",
    )
    .expect("a hosted call is worth showing");
    assert_eq!(call.activity.as_ref().unwrap().at("id").as_str(), Some("srvtoolu_1"));
    assert_eq!(call.activity.as_ref().unwrap().at("status").as_str(), Some("running"));
    assert!(call.sources.is_empty());

    let result = provider_stream_delta(
        "anthropic",
        "data: {\"type\":\"content_block_start\",\"index\":2,\"content_block\":{\"type\":\"web_search_tool_result\",\"tool_use_id\":\"srvtoolu_1\",\"content\":[{\"type\":\"web_search_result\",\"title\":\"The Router\",\"url\":\"https://example.com/a\",\"page_age\":\"3 days ago\"}]}}",
    )
    .expect("a hosted result is worth showing");
    // The same id updates the row the call opened instead of adding a second one.
    assert_eq!(result.activity.as_ref().unwrap().at("id").as_str(), Some("srvtoolu_1"));
    assert_eq!(result.activity.as_ref().unwrap().at("status").as_str(), Some("completed"));
    assert_eq!(result.sources.len(), 1);
    assert_eq!(result.sources[0].at("url").as_str(), Some("https://example.com/a"));

    let paused = provider_stream_delta(
        "anthropic",
        "data: {\"type\":\"message_delta\",\"delta\":{\"stop_reason\":\"pause_turn\"}}",
    )
    .expect("a pause is not an end");
    assert!(paused.paused);
    assert!(paused.text.is_empty());

    let stopped = provider_stream_delta(
        "anthropic",
        "data: {\"type\":\"message_delta\",\"delta\":{\"stop_reason\":\"end_turn\"}}",
    );
    assert!(stopped.is_none(), "a finished turn has nothing to relay");
}

#[test]
fn sends_the_provider_the_tools_its_dialect_actually_defines() {
    let hosted = build_request(
        "anthropic",
        "https://api.anthropic.com",
        "sonnet-5",
        &vec![instruction_message(true)],
        None,
        None,
        Tools::Hosted,
        false,
        None,
    );
    let types = hosted
        .body
        .at("tools")
        .as_array()
        .unwrap()
        .iter()
        .map(|tool| tool.at("type").as_str().unwrap())
        .collect::<Vec<_>>();
    // These exact strings are the API's, and the versions are the ones that need no
    // beta header and no paired code-execution version.
    assert_eq!(
        types,
        [
            "web_search_20250305",
            "web_fetch_20250910",
            "code_execution_20250825"
        ]
    );
    assert_eq!(hosted.body.at("messages"), &Json::Array(vec![]));
    assert!(hosted.anthropic);

    // A Chat endpoint has no hosted tools at all, so it must never be sent any.
    let plain = build_request(
        "openai_compatible",
        "https://example.com/v1",
        "glm-5.3",
        &vec![instruction_message(true)],
        None,
        None,
        Tools::Hosted,
        false,
        None,
    );
    assert!(plain.body.field("tools").is_none());
}

#[test]
fn rebuilds_a_paused_anthropic_message_to_send_back_unchanged() {
    let mut message = AnthropicMessage::default();
    for frame in [
        "data: {\"type\":\"content_block_start\",\"index\":0,\"content_block\":{\"type\":\"text\",\"text\":\"\"}}",
        "data: {\"type\":\"content_block_delta\",\"index\":0,\"delta\":{\"type\":\"text_delta\",\"text\":\"Searching\"}}",
        "data: {\"type\":\"content_block_delta\",\"index\":0,\"delta\":{\"type\":\"text_delta\",\"text\":\" now\"}}",
        "data: {\"type\":\"content_block_start\",\"index\":1,\"content_block\":{\"type\":\"server_tool_use\",\"id\":\"srvtoolu_1\",\"name\":\"web_search\",\"input\":{}}}",
    ] {
        message.apply(frame);
    }
    // A hosted call's input arrives in fragments and is only whole at the end.
    let partial = serde_json::from_str::<serde_json::Value>(
        "{\"type\":\"content_block_delta\",\"index\":1,\"delta\":{\"type\":\"input_json_delta\",\"partial_json\":\"{\\\"query\\\":\\\"routers\\\"}\"}}",
    )
    .unwrap();
    message.apply(&format!("data: {partial}"));
    for frame in [
        "data: {\"type\":\"message_start\",\"message\":{\"id\":\"msg_1\"}}",
        "data: {\"type\":\"message_delta\",\"delta\":{\"stop_reason\":\"pause_turn\"}}",
    ] {
        message.apply(frame);
    }
    assert!(message.paused());
    let content = message.content();
    assert_eq!(content[0].at("text").as_str(), Some("Searching now"));
    assert_eq!(content[1].at("input").at("query").as_str(), Some("routers"));
    assert_eq!(content[1].at("name").as_str(), Some("web_search"));
    // `message_start` describes the envelope, not a block, so it must not become one.
    assert_eq!(content.len(), 2);
}

#[test]
fn keeps_responses_summary_parts_apart() {
    assert_eq!(
        provider_stream_delta(
            "openai_responses",
            "data: {\"type\":\"response.reasoning_summary_text.delta\",\"output_index\":1,\"summary_index\":2,\"delta\":\"**Modeling**\"}"
        ),
        Some(StreamFragment {
            reasoning: true,
            text: "**Modeling**".into(),
            part: Some("1:2".into()),
            response_id: None,
            error: None,
            ..Default::default()
        })
    );
    assert_eq!(
        provider_stream_delta(
            "openai_responses",
            "data: {\"type\":\"response.reasoning_summary_text.delta\",\"output_index\":2,\"summary_index\":2,\"delta\":\"**Again**\"}"
        ),
        Some(StreamFragment {
            reasoning: true,
            text: "**Again**".into(),
            part: Some("2:2".into()),
            response_id: None,
            error: None,
            ..Default::default()
        })
    );
    assert_eq!(
        provider_stream_delta(
            "openai_responses",
            "data: {\"type\":\"response.output_text.delta\",\"delta\":\"hello\"}"
        ),
        Some(StreamFragment {
            reasoning: false,
            text: "hello".into(),
            part: None,
            response_id: None,
            error: None,
            ..Default::default()
        })
    );
}

#[test]
fn parses_openai_stream_delta() {
    assert_eq!(
        provider_stream_delta(
            "openai_compatible",
            "data: {\"choices\":[{\"delta\":{\"content\":\"hello\"}}]}"
        ),
        Some(StreamFragment {
            reasoning: false,
            text: "hello".into(),
            part: None,
            response_id: None,
            error: None,
            ..Default::default()
        })
    );
    assert_eq!(
        provider_stream_delta(
            "openai_compatible",
            "data: {\"choices\":[{\"delta\":{\"reasoning_content\":\"plan\"}}]}"
        ),
        Some(StreamFragment {
            reasoning: true,
            text: "plan".into(),
            part: None,
            response_id: None,
            error: None,
            ..Default::default()
        })
    );
    assert_eq!(
        provider_stream_delta("anthropic", "data: {\"delta\":{\"thinking\":\"plan\"}}"),
        Some(StreamFragment {
            reasoning: true,
            text: "plan".into(),
            part: None,
            response_id: None,
            error: None,
            ..Default::default()
        })
    );
}

#[test]
fn accepts_standard_provider_base_urls() {
    assert_eq!(
        provider_url(RequestKind::OpenAiChat, "https://api.openai.com"),
        "https://api.openai.com/v1/chat/completions"
    );
    assert_eq!(
        provider_url(RequestKind::OpenAiChat, "https://api.openai.com/v1"),
        "https://api.openai.com/v1/chat/completions"
    );
    assert_eq!(
        provider_url(RequestKind::Anthropic, "https://api.anthropic.com"),
        "https://api.anthropic.com/v1/messages"
    );
    assert_eq!(
        provider_url(RequestKind::Anthropic, "https://api.anthropic.com/v1"),
        "https://api.anthropic.com/v1/messages"
    );
}

#[test]
fn exposes_provider_native_web_tools_and_rejects_private_urls() {
    assert!(web_tool_definitions("openai_compatible").as_array().unwrap()[0]
        .at("function")
        .at("parameters")
        .at("properties")
        .at("query")
        .is_object());
    assert!(web_tool_definitions("anthropic").as_array().unwrap()[0]
        .at("input_schema")
        .at("properties")
        .at("query")
        .is_object());
    assert!(is_safe_public_url("https://www.example.com/article"));
    assert!(!is_safe_public_url("http://127.0.0.1:3100/healthz"));
    assert!(!is_safe_public_url("http://10.0.0.8/admin"));
    assert!(!is_safe_public_url("http://[::1]/"));
}

#[test]
fn parses_image_data_urls() {
    assert_eq!(
        parse_data_url("data:image/png;base64,AAAA"),
        Some(("image/png".into(), "AAAA".into()))
    );
    assert_eq!(
        parse_data_url("data:image/jpeg;base64,BBBB"),
        Some(("image/jpeg".into(), "BBBB".into()))
    );
    assert_eq!(parse_data_url("data:text/plain;base64,AAAA"), None);
    assert_eq!(parse_data_url("data:image/png;base64,"), None);
    assert_eq!(parse_data_url("https://example.com/a.png"), None);
}

#[test]
fn degrades_images_to_placeholder_when_model_has_no_vision() {
    let images = vec![Json::text("data:image/png;base64,AAAA")];
    let content = content_part("openai_compatible", false, "describe this", &images);
    assert!(content
        .as_str()
        .unwrap()
        .contains("does not support image input"));
    let text = plain_text_content("describe this", &images);
    assert!(text.contains("does not support image input"));
    assert!(text.starts_with("describe this"));
}

#[test]
fn builds_multimodal_content_for_vision_models() {
    let images = vec![Json::text("data:image/png;base64,AAAA")];
    let openai = content_part("openai_compatible", true, "describe this", &images);
    let openai = openai.as_array().unwrap();
    assert_eq!(openai[0].at("type").as_str(), Some("text"));
    assert_eq!(openai[1].at("type").as_str(), Some("image_url"));
    assert_eq!(
        openai[1].at("image_url").at("url").as_str(),
        Some("data:image/png;base64,AAAA")
    );
    let anthropic = content_part("anthropic", true, "describe this", &images);
    let anthropic = anthropic.as_array().unwrap();
    assert_eq!(anthropic[1].at("type").as_str(), Some("image"));
    assert_eq!(anthropic[1].at("source").at("media_type").as_str(), Some("image/png"));
    assert_eq!(anthropic[1].at("source").at("data").as_str(), Some("AAAA"));
    let responses = content_part("openai_responses", true, "describe this", &images);
    let responses = responses.as_array().unwrap();
    assert_eq!(responses[0].at("type").as_str(), Some("input_text"));
    assert_eq!(responses[1].at("type").as_str(), Some("input_image"));
    assert_eq!(responses[1].at("image_url").as_str(), Some("data:image/png;base64,AAAA"));
}

#[test]
fn separates_thinking_from_visible_answer_in_complete_and_streamed_text() {
    assert_eq!(
        strip_thinking("Before<think>private</think>After"),
        "BeforeAfter"
    );
    assert_eq!(
        split_thinking("Before<think>private</think>After"),
        ("BeforeAfter".into(), "private".into())
    );
    assert_eq!(
        split_thinking("Before<THINKING>private</Thinking>After"),
        ("BeforeAfter".into(), "private".into())
    );
    let mut stream = ThinkingStream::new();
    assert_eq!(stream.push("Before<thi"), vec![(false, "Before".into())]);
    assert_eq!(
        stream.push("nk>private</think>After"),
        vec![(true, "private".into()), (false, "After".into())]
    );
    let mut long_tag_stream = ThinkingStream::new();
    assert_eq!(
        long_tag_stream.push("Before<thinkin"),
        vec![(false, "Before".into())]
    );
    assert_eq!(
        long_tag_stream.push("g>private</thinking>After"),
        vec![(true, "private".into()), (false, "After".into())]
    );
}

#[test]
fn distinguishes_provider_access_and_tool_schema_failures() {
    assert_eq!(
        provider_error_from_response(403, "tool calling is unsupported", true, false).code,
        "provider_access_denied"
    );
    assert_eq!(
        provider_error_from_response(400, "tool_choice is unsupported", true, false).code,
        "provider_tool_unsupported"
    );
    assert_eq!(
        provider_error_from_response(429, "", false, false).code,
        "provider_rate_limited"
    );
}
