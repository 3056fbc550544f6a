use malim_chat::error::ApiError;
use malim_chat::json::Json;
use malim_chat::providers::Tools;
use malim_chat::replies::Reply;
use malim_chat::respond::{
    answering_provider, build_transcript, chain_transcript, instruction_message, load_chain,
    persist_assistant_message, plan_turn, read_reply, recover, removed_provider, select_model,
    Recovery, RespondRequest, StoredMessage, TurnMode,
};
use malim_chat::turns::{respond, Turn, TurnAction};

fn parse(text: &str) -> Json {
    Json::parse(text).unwrap()
}

fn request() -> RespondRequest {
    RespondRequest { search: None, enable_markdown: None, stream: None, context_rounds: None, tool_rounds: None }
}

fn rows(n: usize) -> Vec<StoredMessage> {
    (0..n)
        .rev()
        .map(|i| StoredMessage {
            role: if i % 2 == 0 { "user" } else { "assistant" }.to_string(),
            content: format!("<think>t</think>m{i}"),
            images: parse("[]"),
        })
        .collect()
}

fn turn(kind: &str, request: &RespondRequest, content: &str, images: &Json) -> Turn {
    respond(kind, false, request, content, images, 5, None).0
}

fn contents(transcript: &[Json]) -> Vec<&str> {
    transcript.iter().map(|m| m.at("content").as_str().unwrap()).collect()
}

#[test]
fn transcripts_hold_the_latest_rounds() {
    let all = build_transcript("x", false, &rows(5), None, None, true);
    assert_eq!(&contents(&all)[1..], ["m0", "m1", "m2", "m3", "m4"]);
    assert_eq!(all[0], instruction_message(true));
    let two = build_transcript("x", false, &rows(5), Some("S"), Some(2), false);
    assert_eq!(
        &contents(&two)[1..],
        ["Previous conversation context, compressed by malim_chat:\nS", "m1", "m2", "m3", "m4"]
    );
    assert_eq!(two[0], instruction_message(false));
    assert_eq!(two[1].at("role").as_str(), Some("system"));
    assert_eq!(build_transcript("x", false, &rows(3), None, Some(0), true).len(), 1);
    assert_eq!(build_transcript("x", false, &rows(3), None, Some(255), true).len(), 4);
    let pictured = vec![StoredMessage {
        role: "user".to_string(),
        content: "see".to_string(),
        images: parse("[\"data:image/png;base64,QQ==\"]"),
    }];
    let shown = build_transcript("openai_responses", true, &pictured, None, None, true);
    assert_eq!(shown[1].at("content").as_array().unwrap().len(), 2);
}

#[test]
fn instructions_differ_by_format() {
    assert!(instruction_message(true).at("content").as_str().unwrap().contains("GitHub-flavored Markdown"));
    assert!(instruction_message(false).at("content").as_str().unwrap().starts_with("Respond in plain text only."));
}

#[test]
fn chains_end_right_before_the_message() {
    let chain = |sequence: i64| load_chain(Some((Some("r".to_string()), sequence)), 5);
    assert_eq!(chain(4).as_deref(), Some("r"));
    assert_eq!(chain(3), None);
    assert_eq!(chain(5), None);
    assert_eq!(load_chain(Some((None, 4)), 5), None);
    assert_eq!(load_chain(None, 5), None);
    let sent = chain_transcript("openai_responses", true, "hi", false);
    assert_eq!(sent.len(), 2);
    assert_eq!(sent[0], instruction_message(false));
    assert_eq!(sent[1].print(), "{\"content\":\"hi\",\"role\":\"user\"}");
}

#[test]
fn responses_providers_search_on_their_own() {
    let plan = turn("openai_responses", &RespondRequest { search: Some(true), ..request() }, "web search", &parse("[]"));
    let plan = plan.plan();
    assert!(plan.hosted_tools && !plan.search_requested && plan.may_chain);
    assert_eq!((plan.tools, plan.mode), (Tools::Hosted, TurnMode::Complete));
    let pictured = turn("openai_responses", &request(), "x", &parse("[1]"));
    let pictured = pictured.plan();
    assert!(!pictured.may_chain);
    assert!(turn("openai_responses", &request(), "x", &Json::Null).plan().may_chain);
    assert!(!turn("anthropic", &request(), "x", &Json::Null).plan().may_chain);
}

#[test]
fn searches_run_the_agent() {
    let asked = turn("anthropic", &RespondRequest { search: Some(true), ..request() }, "x", &Json::Null);
    let asked = asked.plan();
    assert_eq!((asked.tools, asked.mode), (Tools::Retrieved, TurnMode::Agent));
    let explicit = turn("x", &RespondRequest { stream: Some(true), ..request() }, "请帮我搜索 rust", &Json::Null);
    let explicit = explicit.plan();
    assert_eq!((explicit.tools, explicit.mode, explicit.stream), (Tools::Retrieved, TurnMode::Agent, true));
    let blank = turn("x", &RespondRequest { search: Some(true), stream: Some(true), ..request() }, "  ", &Json::Null);
    let blank = blank.plan();
    assert_eq!((blank.tools, blank.mode), (Tools::Retrieved, TurnMode::Relay));
    let plain = turn("x", &request(), "hello", &Json::Null);
    let plain = plain.plan();
    assert_eq!((plain.tools, plain.mode), (Tools::Without, TurnMode::Complete));
    assert!(plan_turn("x", &request(), "hello", &Json::Null, true).search_requested);
}

#[test]
fn missing_choices_have_defaults() {
    let plan = turn("x", &request(), "hello", &Json::Null);
    let plan = plan.plan();
    assert_eq!((plan.context_rounds, plan.tool_rounds), (Some(8), Some(8)));
    assert!(plan.enable_markdown && !plan.stream);
    let all = RespondRequest { context_rounds: Some(None), tool_rounds: Some(Some(3)), enable_markdown: Some(false), ..request() };
    let plan = turn("x", &all, "hello", &Json::Null);
    let plan = plan.plan();
    assert_eq!((plan.context_rounds, plan.tool_rounds), (None, Some(3)));
    assert!(!plan.enable_markdown);
}

#[test]
fn an_answer_needs_a_provider_and_a_model() {
    assert_eq!(answering_provider(Some(9)).unwrap(), 9);
    assert_eq!(answering_provider(None).unwrap_err().message, "Choose a provider before requesting a response.");
    assert_eq!(removed_provider().message, "The selected provider was removed.");
    assert_eq!(select_model(Some("own"), Some("first".to_string()), "default"), "own");
    assert_eq!(select_model(Some(" "), Some("first".to_string()), "default"), "first");
    assert_eq!(select_model(None, None, "default"), "default");
}

#[test]
fn only_a_stale_chain_is_sent_again() {
    assert!(matches!(recover(ApiError::provider_chain_stale()), Recovery::ResendWhole));
    assert!(matches!(recover(ApiError::provider_rejected()), Recovery::Fail(error) if error.code == "provider_rejected_request"));
}

#[test]
fn thinking_is_stored_apart_from_the_answer() {
    let message = persist_assistant_message("a<think>b</think>c", "r", true);
    assert_eq!((message.content.as_str(), message.reasoning.as_str()), ("ac", "rb"));
    assert_eq!((message.content_format, message.tokens), ("markdown", 1));
    assert_eq!(persist_assistant_message("x", "", false).content_format, "plain");
    let reply = Reply { text: "<think>t</think>answer".to_string(), reasoning: "r".to_string(), response_id: None };
    assert_eq!(read_reply(&reply), ("answer".to_string(), "rt".to_string()));
}

#[test]
fn errors_are_sent_with_their_code() {
    let (status, body) = ApiError::not_found().into_response();
    assert_eq!(status, 404);
    assert_eq!(
        body.print(),
        "{\"error\":{\"code\":\"not_found\",\"message\":\"The requested resource was not found.\"}}"
    );
    for (error, status, code) in [
        (ApiError::bad("m"), 400, "invalid_request"),
        (ApiError::unauthorized(), 401, "unauthorized"),
        (ApiError::forbidden("m"), 403, "forbidden"),
        (ApiError::conflict("m"), 409, "active_run"),
        (ApiError::internal("m"), 500, "internal_error"),
        (ApiError::provider_access_denied(), 502, "provider_access_denied"),
        (ApiError::provider_rate_limited(), 503, "provider_rate_limited"),
        (ApiError::provider_tool_unsupported(), 502, "provider_tool_unsupported"),
        (ApiError::provider_unavailable(), 502, "provider_unavailable"),
    ] {
        assert_eq!((error.status, error.code), (status, code));
    }
    assert_eq!(ApiError::database_failure().message, "The server could not complete this request.");
}

#[test]
fn a_chained_turn_is_sent_alone_and_once_more_as_a_whole() {
    let (mut turn, first) = respond("openai_responses", true, &request(), "hi", &parse("[]"), 5, Some("S"));
    assert!(matches!(first, TurnAction::LoadChain));
    assert!(matches!(turn.take_chain(true, Some((Some("r".to_string()), 4))), TurnAction::Send));
    assert_eq!(turn.chain(), Some("r"));
    assert_eq!(contents(turn.transcript())[1..], ["hi"]);
    assert!(matches!(turn.take_refusal(ApiError::provider_chain_stale()), TurnAction::ForgetChain));
    assert!(matches!(turn.take_messages(&rows(1)), TurnAction::Send));
    assert_eq!(turn.chain(), None);
    assert_eq!(
        contents(turn.transcript())[1..],
        ["Previous conversation context, compressed by malim_chat:\nS", "m0"]
    );
    assert!(matches!(
        turn.take_refusal(ApiError::provider_chain_stale()),
        TurnAction::Fail(error) if error.code == "provider_chain_stale"
    ));
}

#[test]
fn a_turn_without_a_usable_chain_loads_the_messages() {
    for (enabled, stored) in [
        (false, Some((Some("r".to_string()), 4))),
        (true, Some((Some("r".to_string()), 3))),
        (true, Some((None, 4))),
        (true, None),
    ] {
        let (mut turn, _) = respond("openai_responses", true, &request(), "hi", &Json::Null, 5, None);
        assert!(matches!(turn.take_chain(enabled, stored), TurnAction::LoadMessages));
        assert_eq!(turn.chain(), None);
        assert!(matches!(turn.take_messages(&rows(2)), TurnAction::Send));
        assert_eq!(turn.transcript().len(), 3);
    }
}

#[test]
fn a_search_resumes_what_failed_before() {
    let asked = RespondRequest { search: Some(true), ..request() };
    let begun = || {
        let (mut turn, first) = respond("x", false, &asked, "hi", &Json::Null, 5, None);
        assert!(matches!(first, TurnAction::LoadMessages));
        assert!(matches!(turn.take_messages(&rows(1)), TurnAction::LoadFailedRun));
        turn
    };
    let mut fresh = begun();
    assert!(matches!(fresh.take_failed_run(None), TurnAction::Research));
    let (transcript, sources) = fresh.into_run();
    assert_eq!((transcript.len(), sources.len()), (2, 0));
    let mut resumed = begun();
    assert!(matches!(resumed.take_failed_run(Some((parse("[1,2,3]"), parse("[4]")))), TurnAction::Research));
    let (transcript, sources) = resumed.into_run();
    assert_eq!((transcript.len(), sources.len()), (3, 1));
    let (mut blank, _) = respond("x", false, &asked, " ", &Json::Null, 5, None);
    assert!(matches!(blank.take_messages(&rows(1)), TurnAction::LoadFailedRun));
    assert!(matches!(blank.take_failed_run(None), TurnAction::Send));
}

#[test]
fn a_reply_ends_a_turn_and_a_refusal_fails_it() {
    let (mut turn, first) = respond("x", false, &request(), "hi", &Json::Null, 5, None);
    assert!(matches!(first, TurnAction::LoadMessages));
    assert!(matches!(turn.take_messages(&rows(1)), TurnAction::Send));
    let reply = Reply {
        text: "<think>t</think>a".to_string(),
        reasoning: "r".to_string(),
        response_id: Some("id".to_string()),
    };
    match turn.take_reply(reply) {
        TurnAction::Store { answer, reasoning, response_id } => {
            assert_eq!((answer.as_str(), reasoning.as_str(), response_id.as_deref()), ("a", "rt", Some("id")));
        }
        _ => panic!("the reply is stored"),
    }
    assert!(matches!(
        turn.take_refusal(ApiError::provider_rejected()),
        TurnAction::Fail(error) if error.code == "provider_rejected_request"
    ));
}
