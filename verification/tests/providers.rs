use malim_chat::json::Json;
use malim_chat::models::{
    clamp_temperature, default_context_rounds, default_tool_rounds, validate_generation_settings,
    GenerationSettings, DEFAULT_WEB_TOOL_ROUNDS,
};
use malim_chat::provider_errors::{
    ensure_provider_success, explain, provider_error_kind, provider_error_with_detail,
    upstream_detail,
};
use malim_chat::providers::{
    build_request, provider_url, request_headers, responses_input, responses_tools,
    tool_turn_request, RequestKind, Tools,
};
use malim_chat::replies::{
    anthropic_parts, call_provider, call_provider_with_tools, openai_message_parts,
    responses_content, responses_reasoning, tool_input,
};
use malim_chat::request_shape::responses_shape;

fn parse(text: &str) -> Json {
    Json::parse(text).unwrap()
}

#[test]
fn kinds_name_their_dialect() {
    assert_eq!(RequestKind::parse("anthropic"), RequestKind::Anthropic);
    assert_eq!(RequestKind::parse("openai_responses"), RequestKind::OpenAiResponses);
    assert_eq!(RequestKind::parse("openai_compatible"), RequestKind::OpenAiChat);
    assert_eq!(RequestKind::parse("Anthropic"), RequestKind::OpenAiChat);
}

#[test]
fn an_endpoint_may_be_configured_as_the_base() {
    for kind in [RequestKind::OpenAiChat, RequestKind::OpenAiResponses, RequestKind::Anthropic] {
        for base in ["https://a.example", "https://a.example/v1//", "https://a.example/x/"] {
            let url = provider_url(kind, base);
            assert_eq!(provider_url(kind, &url), url);
        }
    }
    assert_eq!(
        provider_url(RequestKind::OpenAiResponses, "https://a.example/v1/"),
        "https://a.example/v1/responses"
    );
    assert_eq!(
        provider_url(RequestKind::OpenAiResponses, "https://a.example"),
        "https://a.example/v1/responses"
    );
}

#[test]
fn responses_requests_have_their_own_shape() {
    let messages = vec![
        parse("{\"role\":\"system\",\"content\":\"s\",\"extra\":1}"),
        parse("{\"content\":\"no role\"}"),
        parse("{\"role\":\"user\",\"content\":[{\"type\":\"input_text\",\"text\":\"t\"}]}"),
    ];
    let request = build_request(
        "openai_responses",
        "https://a.example",
        "m",
        &messages,
        Some(parse("0.5")),
        Some("high"),
        Tools::Hosted,
        true,
        Some("resp_1"),
    );
    assert!(!request.anthropic);
    assert_eq!(
        request.body.print(),
        "{\"input\":[{\"content\":\"s\",\"role\":\"system\"},{\"content\":[{\"text\":\"t\",\"type\":\"input_text\"}],\"role\":\"user\"}],\"model\":\"m\",\"previous_response_id\":\"resp_1\",\"reasoning\":{\"effort\":\"high\",\"summary\":\"auto\"},\"stream\":true,\"temperature\":0.5,\"tools\":[{\"type\":\"web_search_preview\"},{\"container\":{\"type\":\"auto\"},\"type\":\"code_interpreter\"}]}"
    );
    assert_eq!(
        responses_shape(&request.body),
        "fields=[input,model,previous_response_id,reasoning,stream,temperature,tools] tools=[web_search_preview+code_interpreter] reasoning={\"effort\":\"high\",\"summary\":\"auto\"} chain=resp_1 input=[system:str user:parts]"
    );
    assert_eq!(responses_input(&messages).len(), 2);
    assert_eq!(responses_tools().len(), 2);
    assert_eq!(
        responses_shape(&parse("{\"model\":\"m\"}")),
        "fields=[model] tools=[-] reasoning=- chain=- input=[]"
    );
    let said = |first: &str, second: &str| {
        responses_shape(&parse(&format!(
            "{{\"model\":\"m\",\"input\":[{{\"role\":\"user\",\"content\":{first}}},{{\"role\":\"user\",\"content\":{second}}}]}}"
        )))
    };
    assert_eq!(said("\"secret\"", "[{\"text\":\"private\"}]"), said("\"\"", "[]"));
    assert_ne!(said("\"secret\"", "[]"), said("[]", "[]"));
}

#[test]
fn anthropic_requests_take_system_messages_apart() {
    let messages = vec![
        parse("{\"role\":\"system\",\"content\":\"one\"}"),
        parse("{\"role\":\"user\",\"content\":\"hi\"}"),
        parse("{\"role\":\"system\",\"content\":\"two\"}"),
        parse("{\"role\":\"system\",\"content\":[1]}"),
    ];
    let request = build_request(
        "anthropic", "https://a.example", "m", &messages, None, Some("low"), Tools::Retrieved, true,
        Some("ignored"),
    );
    assert!(request.anthropic);
    assert_eq!(request.body.at("system").as_str(), Some("one\n\ntwo"));
    assert_eq!(request.body.at("messages").print(), "[{\"content\":\"hi\",\"role\":\"user\"}]");
    assert_eq!(request.body.at("max_tokens").as_u64(), Some(8192));
    assert_eq!(request.body.at("stream"), &Json::Bool(true));
    assert_eq!(request.body.at("tools").as_array().unwrap()[1].at("name").as_str(), Some("open_web_page"));
    assert!(request.body.field("reasoning_effort").is_none());
    assert!(request.body.field("previous_response_id").is_none());
    let plain = build_request(
        "anthropic", "https://a.example", "m", &vec![], None, None, Tools::Without, false, None,
    );
    assert!(plain.body.field("system").is_none());
    assert!(plain.body.field("tools").is_none());
    assert!(plain.body.field("stream").is_none());
}

#[test]
fn chat_requests_always_say_whether_they_stream() {
    let messages = vec![parse("{\"role\":\"user\",\"content\":\"hi\"}")];
    let request = tool_turn_request("other", "https://a.example", "m", &messages, None, Some("low"));
    assert_eq!(request.url, "https://a.example/v1/chat/completions");
    assert_eq!(request.body.at("model").as_str(), Some("m"));
    assert_eq!(request.body.at("stream"), &Json::Bool(false));
    assert_eq!(request.body.at("reasoning_effort").as_str(), Some("low"));
    assert_eq!(request.body.at("messages").as_array().unwrap().len(), 1);
    assert_eq!(
        request.body.at("tools").as_array().unwrap()[0].at("function").at("name").as_str(),
        Some("web_search")
    );
}

#[test]
fn keys_travel_in_the_header_of_their_dialect() {
    assert_eq!(
        request_headers(true, "k"),
        vec![
            ("x-api-key", "k".to_string()),
            ("anthropic-version", "2023-06-01".to_string())
        ]
    );
    assert_eq!(
        request_headers(false, "k"),
        vec![("authorization", "Bearer k".to_string())]
    );
}

#[test]
fn responses_replies_give_text_reasoning_and_an_id() {
    let body = parse("{\"id\":\"r\",\"output\":[{\"type\":\"reasoning\",\"content\":[{\"text\":\"hidden\"}],\"summary\":[{\"text\":\"one\"},{\"text\":\"  \"},{\"text\":\"two\"}]},{\"type\":\"message\",\"content\":[{\"text\":\"a\"},{\"text\":1},{\"text\":\"b\"}]},{\"type\":\"message\"}]}");
    assert_eq!(responses_content(&body).as_deref(), Some("ab"));
    assert_eq!(responses_reasoning(&body).as_deref(), Some("one\n\ntwo"));
    let reply = call_provider("openai_responses", &body).unwrap();
    assert_eq!(
        (reply.text.as_str(), reply.reasoning.as_str(), reply.response_id.as_deref()),
        ("ab", "one\n\ntwo", Some("r"))
    );
    assert_eq!(
        responses_content(&parse("{\"output_text\":\"short\",\"output\":[]}")).as_deref(),
        Some("short")
    );
    let empty = call_provider("openai_responses", &parse("{\"output\":[]}")).unwrap_err();
    assert_eq!((empty.status, empty.code), (400, "invalid_request"));
    assert_eq!(empty.message, "The Responses provider returned no text output.");
    assert_eq!(responses_reasoning(&parse("{\"output\":[]}")), None);
    assert_eq!(responses_reasoning(&parse("{}")), None);
}

#[test]
fn anthropic_replies_keep_thinking_apart() {
    let body = parse("{\"content\":[{\"type\":\"thinking\",\"thinking\":\"p\"},{\"type\":\"text\",\"text\":\"a\"},{\"type\":\"thinking\",\"thinking\":\"q\"},{\"type\":\"text\",\"text\":\"b\"},{\"type\":\"tool_use\",\"id\":\"t\",\"name\":\"n\",\"input\":{\"x\":1}}]}");
    assert_eq!(anthropic_parts(&body), ("ab".to_string(), "p\n\nq".to_string()));
    assert_eq!(call_provider("anthropic", &body).unwrap().response_id, None);
    let turn = call_provider_with_tools(true, &body).unwrap();
    assert_eq!(turn.tool_calls.len(), 1);
    assert_eq!(turn.tool_calls[0].id, "t");
    assert_eq!(turn.tool_calls[0].input, parse("{\"x\":1}"));
    assert_eq!(turn.assistant_message.at("role").as_str(), Some("assistant"));
    assert_eq!(turn.assistant_message.at("content"), body.at("content"));
    let error = call_provider("anthropic", &parse("{\"content\":[]}")).unwrap_err();
    assert_eq!((error.status, error.code), (502, "invalid_provider_response"));
    match call_provider_with_tools(true, &parse("{}")) {
        Err(error) => assert_eq!(error.message, "The provider returned an unexpected tool response."),
        Ok(_) => panic!("there is no content"),
    }
}

#[test]
fn chat_replies_join_both_reasoning_fields() {
    let message = parse("{\"content\":\"a\",\"reasoning_content\":\"r\",\"reasoning\":\"s\"}");
    assert_eq!(openai_message_parts(&message), ("a".to_string(), "r\ns".to_string()));
    assert_eq!(
        openai_message_parts(&parse("{\"reasoning\":\"s\"}")),
        (String::new(), "s".to_string())
    );
    let reply = call_provider("x", &parse("{\"choices\":[{\"message\":{\"content\":\"a\"}}]}")).unwrap();
    assert_eq!(reply.text, "a");
    assert!(call_provider("x", &parse("{\"choices\":[]}")).is_err());
    assert!(call_provider("x", &parse("{}")).is_err());
}

#[test]
fn chat_tool_calls_parse_their_arguments() {
    let body = parse("{\"choices\":[{\"message\":{\"content\":null,\"tool_calls\":[{\"id\":\"1\",\"function\":{\"name\":\"web_search\",\"arguments\":\"{\\\"query\\\":\\\"q\\\"}\"}},{\"id\":\"2\",\"function\":{\"name\":\"n\",\"arguments\":\"not json\"}},{\"id\":\"3\",\"function\":{\"name\":\"n\"}},{\"id\":\"4\"},{\"function\":{\"name\":\"n\"}}]}}]}");
    let turn = call_provider_with_tools(false, &body).unwrap();
    let ids: Vec<&str> = turn.tool_calls.iter().map(|call| call.id.as_str()).collect();
    assert_eq!(ids, ["1", "2", "3"]);
    assert_eq!(turn.tool_calls[0].input.at("query").as_str(), Some("q"));
    assert_eq!(turn.tool_calls[1].input, Json::object());
    assert_eq!(turn.tool_calls[2].input, Json::object());
    assert_eq!(tool_input(None), Json::object());
    let none = call_provider_with_tools(false, &parse("{\"choices\":[{\"message\":\"text\"}]}")).unwrap();
    assert_eq!(none.assistant_message.print(), "{\"role\":\"assistant\"}");
    assert!(none.tool_calls.is_empty());
}

#[test]
fn the_providers_words_are_found_where_gateways_put_them() {
    assert_eq!(upstream_detail("  "), "");
    assert_eq!(upstream_detail("{\"error\":{\"message\":\"m\",\"err_msg\":\"e\"}}"), "m");
    assert_eq!(upstream_detail("{\"error\":{\"err_msg\":\"e\"},\"message\":\"top\"}"), "e");
    assert_eq!(upstream_detail("{\"error\":\"plain\"}"), "plain");
    assert_eq!(upstream_detail("{\"error\":{},\"message\":\"top\"}"), "top");
    assert_eq!(upstream_detail("{\"error\":{\"message\":7}}"), "{\"error\":{\"message\":7}}");
    assert_eq!(upstream_detail(" gateway\ntimeout, "), "gatewaytimeout:");
    assert_eq!(upstream_detail(&"x".repeat(500)).len(), 240);
    assert_eq!(explain("body", Some(&parse("{\"message\":\"said\"}"))), "said");
    assert_eq!(explain("body", None), "body");
}

#[test]
fn refusals_are_told_apart() {
    for (status, tools, chained, body, code) in [
        (401, false, true, "", "provider_access_denied"),
        (403, true, false, "tools are not supported", "provider_access_denied"),
        (429, true, true, "tool_choice", "provider_rate_limited"),
        (400, true, true, "Function Calling is off", "provider_tool_unsupported"),
        (500, true, false, "model does not support tools", "provider_tool_unsupported"),
        (400, false, true, "tool_choice", "provider_chain_stale"),
        (404, false, false, "", "provider_rejected_request"),
        (500, false, true, "", "provider_unavailable"),
    ] {
        assert_eq!(provider_error_kind(status, body, tools, chained).code, code);
    }
    let told = provider_error_with_detail(404, "no such model", false, false);
    assert_eq!(
        told.message,
        "The AI provider rejected this request. Check the selected model and provider configuration. no such model"
    );
    assert!(ensure_provider_success(204, "anything", false, false).is_ok());
    assert!(ensure_provider_success(300, "", false, false).is_err());
    let long = format!("{}{}", "a".repeat(399), "bc");
    let error = ensure_provider_success(500, &long, false, false).unwrap_err();
    assert_eq!(error.code, "provider_unavailable");
}

fn settings(temperature: f32) -> GenerationSettings {
    GenerationSettings {
        temperature: Json::from_value(serde_json::Value::from(temperature)),
        temperature_bits: temperature.to_bits(),
        reasoning_effort: "medium".to_string(),
        enable_markdown: true,
        stream: false,
        context_rounds: default_context_rounds(),
        tool_rounds: default_tool_rounds(),
    }
}

#[test]
fn temperatures_are_checked_as_floats_are() {
    for t in [
        0.0f32, -0.0, 1.0e-45, 0.7, 1.999_999_9, 2.0, 2.000_000_2, 3.0, -1.0e-45, -1.0,
        f32::INFINITY, f32::NEG_INFINITY, f32::NAN, -f32::NAN, f32::MAX,
    ] {
        let valid = t.is_finite() && (0.0..=2.0).contains(&t);
        assert_eq!(validate_generation_settings(settings(t)).is_ok(), valid, "{}", t);
        let clamped = f32::from_bits(clamp_temperature(t.to_bits()));
        assert_eq!(clamped.to_bits(), t.clamp(0.0, 2.0).to_bits(), "{}", t);
    }
}

#[test]
fn settings_are_stored_or_refused() {
    let stored = validate_generation_settings(settings(0.5)).unwrap();
    assert_eq!(
        stored.print(),
        "{\"context_rounds\":8,\"enable_markdown\":true,\"reasoning_effort\":\"medium\",\"stream\":false,\"temperature\":0.5,\"tool_rounds\":8}"
    );
    assert!((1..=20).contains(&DEFAULT_WEB_TOOL_ROUNDS));
    let mut unlimited = settings(0.5);
    unlimited.context_rounds = None;
    unlimited.tool_rounds = None;
    assert!(validate_generation_settings(unlimited).unwrap().at("tool_rounds").is_null());
    let mut effort = settings(0.5);
    effort.reasoning_effort = "extreme".to_string();
    assert_eq!(
        validate_generation_settings(effort).unwrap_err().message,
        "Reasoning effort must be low, medium, or high."
    );
    let mut context = settings(0.5);
    context.context_rounds = Some(21);
    assert_eq!(
        validate_generation_settings(context).unwrap_err().message,
        "Context rounds must be between 0 and 20, or All."
    );
    for rounds in [0, 21] {
        let mut tools = settings(0.5);
        tools.tool_rounds = Some(rounds);
        assert_eq!(
            validate_generation_settings(tools).unwrap_err().message,
            "Tool rounds must be between 1 and 20, or Unlimited."
        );
    }
    assert_eq!(
        validate_generation_settings(settings(2.5)).unwrap_err().message,
        "Temperature must be between 0 and 2."
    );
}
