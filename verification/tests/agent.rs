use malim_chat::agent::{
    agent_run_events, json_items, run_web_agent, save_agent_run, AgentAction, AgentStep, WebAgent,
};
use malim_chat::agent_events::AgentEventSink;
use malim_chat::error::ApiError;
use malim_chat::json::Json;
use malim_chat::pages::Page;
use malim_chat::replies::{Reply, ToolCall, ToolTurn};
use malim_chat::web_search::SearchResult;

fn parse(text: &str) -> Json {
    Json::parse(text).unwrap()
}

fn reply(text: &str, reasoning: &str) -> Reply {
    Reply { text: text.to_string(), reasoning: reasoning.to_string(), response_id: None }
}

fn call(id: &str, name: &str, input: &str) -> ToolCall {
    ToolCall { id: id.to_string(), name: name.to_string(), input: parse(input) }
}

fn turn(text: &str, calls: Vec<ToolCall>) -> ToolTurn {
    ToolTurn {
        reply: reply(text, "thought"),
        assistant_message: parse("{\"role\":\"assistant\"}"),
        tool_calls: calls,
    }
}

fn result(url: &str) -> SearchResult {
    SearchResult {
        title: "T".to_string(),
        url: url.to_string(),
        content: "C".to_string(),
        engine: "E".to_string(),
    }
}

fn start(kind: &str, rounds: Option<u8>) -> (WebAgent, AgentStep) {
    run_web_agent(kind, vec![parse("{\"role\":\"user\",\"content\":\"q\"}")], true, rounds, vec![])
}

fn last(items: &[Json]) -> &Json {
    &items[items.len() - 1]
}

#[test]
fn a_run_searches_opens_and_answers() {
    let (mut agent, first) = start("openai_compatible", Some(3));
    assert!(matches!(first.action, AgentAction::AskWithTools));
    let stored = first.checkpoint.unwrap();
    assert_eq!((stored.status, stored.round, stored.events.len()), ("running", 0, 0));
    assert_eq!(stored.transcript.len(), 2);
    assert_eq!(last(agent.events()).at("id").as_str(), Some("plan-0"));

    let calls = vec![
        call("1", "web_search", "{\"query\":\"  rust   verus \"}"),
        call("2", "open_web_page", "{\"url\":\"https://example.com/a\"}"),
        call("3", "unknown", "{}"),
        call("4", "web_search", "{\"query\":\"x\"}"),
    ];
    let step = agent.take_turn(Ok(turn("", calls)));
    assert!(matches!(step.action, AgentAction::Proceed));
    assert!(step.checkpoint.is_none());
    assert_eq!(last(agent.events()).print(), "{\"delta\":\"thought\",\"round\":0,\"type\":\"reasoning\"}");

    let query = match agent.proceed().action {
        AgentAction::Search(query) => query,
        _ => panic!("a search is asked for"),
    };
    assert_eq!(query, "rust verus");
    assert!(agent.awaits_result());
    assert_eq!(last(agent.events()).at("status").as_str(), Some("running"));
    agent.take_results(
        &query,
        Ok(vec![result("https://example.com/a"), result("http://127.0.0.1/b"), result("https://example.com/a")]),
    );
    assert_eq!(agent.allowed_urls(), &vec!["https://example.com/a".to_string()]);
    let told = parse(last(agent.transcript()).at("content").as_str().unwrap());
    assert_eq!(last(agent.transcript()).at("tool_call_id").as_str(), Some("1"));
    assert_eq!(told.at("query").as_str(), Some("rust verus"));
    assert_eq!(told.at("results").as_array().unwrap().len(), 2);
    assert_eq!(last(agent.events()).at("source_count").as_u64(), Some(2));
    assert_eq!(last(agent.events()).at("status").as_str(), Some("completed"));

    match agent.proceed().action {
        AgentAction::Open(url) => assert_eq!(url, "https://example.com/a"),
        _ => panic!("a page is asked for"),
    }
    agent.take_page(Ok(Page {
        url: "https://example.com/a".to_string(),
        content: "text".to_string(),
    }));
    assert_eq!(
        last(agent.transcript()).at("content").as_str(),
        Some("{\"content\":\"text\",\"url\":\"https://example.com/a\"}")
    );

    for (id, words) in [
        ("3", "Unknown tool. Only web_search and open_web_page are available."),
        ("4", "web_search requires a focused query between 2 and 180 characters."),
    ] {
        assert!(matches!(agent.proceed().action, AgentAction::Proceed));
        assert_eq!(last(agent.transcript()).at("tool_call_id").as_str(), Some(id));
        assert_eq!(last(agent.events()).at("status").as_str(), Some("failed"));
        assert_eq!(last(agent.events()).at("detail").as_str(), Some(words));
    }

    let next = agent.proceed();
    assert!(matches!(next.action, AgentAction::AskWithTools));
    assert_eq!(next.checkpoint.unwrap().round, 1);
    assert_eq!(agent.round(), 1);
    let end = agent.take_turn(Ok(turn("<think>hm</think>Done", vec![])));
    assert!(end.checkpoint.is_none());
    match end.action {
        AgentAction::Answer(answer) => {
            assert_eq!(answer.answer, "Done");
            assert_eq!(answer.reasoning, "thoughthm");
            assert_eq!(answer.sources.len(), 2);
            assert_eq!(answer.sources[0].at("content").as_str(), Some("text"));
            assert_eq!(answer.sources[0].at("query").as_str(), Some("rust verus"));
        }
        _ => panic!("the run is over"),
    }
}

#[test]
fn anthropic_gets_the_results_of_a_turn_together() {
    let (mut agent, _) = start("anthropic", None);
    agent.take_turn(Ok(turn("", vec![call("a", "unknown", "{}"), call("b", "unknown", "{}")])));
    agent.proceed();
    agent.proceed();
    let before = agent.transcript().len();
    agent.proceed();
    assert_eq!(agent.transcript().len(), before + 1);
    let message = last(agent.transcript());
    assert_eq!(message.at("role").as_str(), Some("user"));
    let results = message.at("content").as_array().unwrap();
    let ids: Vec<&str> = results.iter().map(|r| r.at("tool_use_id").as_str().unwrap()).collect();
    assert_eq!(ids, ["a", "b"]);
    assert_eq!(results[0].at("type").as_str(), Some("tool_result"));
}

#[test]
fn rounds_end_at_the_limit() {
    let (mut agent, mut step) = start("x", Some(2));
    let mut rounds = 0;
    while let AgentAction::AskWithTools = step.action {
        rounds += 1;
        step = agent.take_turn(Ok(turn("", vec![call("c", "unknown", "{}")])));
        while let AgentAction::Proceed = step.action {
            step = agent.proceed();
        }
    }
    assert_eq!(rounds, 2);
    assert!(matches!(step.action, AgentAction::Draft));
    assert!(agent.transcript()[0].at("content").as_str().unwrap().starts_with("Finish now"));
    assert_eq!(last(agent.events()).at("name").as_str(), Some("drafting"));
    let end = agent.take_draft(Ok(reply("final", "")));
    assert_eq!(end.checkpoint.unwrap().status, "completed");
    match end.action {
        AgentAction::Answer(answer) => assert_eq!(answer.answer, "final"),
        _ => panic!("the run is over"),
    }
    let (_, none) = start("x", Some(0));
    assert!(matches!(none.action, AgentAction::Draft));
}

#[test]
fn no_more_than_sixteen_calls_reach_the_web() {
    let (mut agent, _) = start("x", None);
    let calls = (0..18).map(|i| call(&i.to_string(), "web_search", "{\"query\":\"some words\"}")).collect();
    let mut step = agent.take_turn(Ok(turn("", calls)));
    let mut searches = 0;
    for _ in 0..18 {
        step = agent.proceed();
        if let AgentAction::Search(query) = &step.action {
            searches += 1;
            let query = query.clone();
            step = agent.take_results(&query, Err(ApiError::bad("offline")));
        }
    }
    assert_eq!(searches, 16);
    assert!(matches!(step.action, AgentAction::Proceed));
    let told = last(agent.transcript()).at("content").as_str().unwrap();
    assert!(told.contains("safety limit of sixteen calls"));
    assert!(matches!(agent.proceed().action, AgentAction::AskWithTools));
}

#[test]
fn failures_end_a_run_or_change_its_course() {
    let (mut agent, _) = start("x", None);
    let step = agent.take_turn(Err(ApiError::provider_tool_unsupported()));
    assert!(matches!(step.action, AgentAction::AskPlainly));
    assert!(step.checkpoint.is_none());
    assert_eq!(
        last(agent.events()).at("detail").as_str(),
        Some("This provider does not accept native tools")
    );
    match agent.take_plain_reply(Ok(reply("a<think>b</think>", "r"))).action {
        AgentAction::Answer(answer) => {
            assert_eq!((answer.answer.as_str(), answer.reasoning.as_str()), ("a", "rb"));
        }
        _ => panic!("the run is over"),
    }
    match agent.take_plain_reply(Err(ApiError::bad("no"))).action {
        AgentAction::Fail(error) => assert_eq!(error.message, "no"),
        _ => panic!("the run failed"),
    }

    let (mut agent, _) = start("x", None);
    let step = agent.take_turn(Err(ApiError::bad("no")));
    let stored = step.checkpoint.unwrap();
    assert_eq!((stored.status, stored.error.as_deref()), ("failed", Some("no")));
    assert!(matches!(step.action, AgentAction::Fail(_)));

    let (mut agent, _) = start("x", None);
    let blank = agent.take_turn(Ok(turn(" <think>only</think>", vec![])));
    assert!(matches!(blank.action, AgentAction::Draft));
    let step = agent.take_draft(Err(ApiError::bad("no")));
    assert_eq!(step.checkpoint.unwrap().status, "failed");
    assert!(matches!(step.action, AgentAction::Fail(_)));
    assert_eq!(last(agent.events()).at("status").as_str(), Some("failed"));
}

#[test]
fn a_page_that_cannot_be_read_is_told() {
    let (mut agent, _) = start("x", None);
    agent.take_turn(Ok(turn("", vec![call("1", "open_web_page", "{}")])));
    match agent.proceed().action {
        AgentAction::Open(url) => assert_eq!(url, ""),
        _ => panic!("a page is asked for"),
    }
    agent.take_page(Err("refused".to_string()));
    assert_eq!(last(agent.transcript()).at("content").as_str(), Some("{\"error\":\"refused\"}"));
}

#[test]
fn without_a_listener_nothing_is_told() {
    let (mut agent, _) = run_web_agent("x", vec![], false, None, vec![]);
    agent.take_turn(Ok(turn("", vec![call("1", "unknown", "{}")])));
    agent.proceed();
    assert!(agent.events().is_empty());
    let mut sink = AgentEventSink::new(true);
    sink.emit_reasoning("  ", 0);
    assert!(sink.history().is_empty());
    sink.emit("i", "n", "s", Json::object(), 2, Some(3), None);
    sink.send(Json::Null);
    assert_eq!(
        sink.history()[0].print(),
        "{\"id\":\"i\",\"input\":{},\"name\":\"n\",\"round\":2,\"source_count\":3,\"status\":\"s\",\"type\":\"tool\"}"
    );
    assert_eq!(sink.history().len(), 2);
}

#[test]
fn previews_of_results_are_short() {
    let (mut agent, _) = start("x", None);
    agent.take_turn(Ok(turn("", vec![call("1", "open_web_page", "{\"url\":\"u\"}")])));
    agent.proceed();
    agent.record_result(&parse("{\"content\":\"c\"}"), &"y".repeat(2000));
    assert_eq!(last(agent.events()).at("detail").as_str().unwrap().len(), 1200);
    assert_eq!(last(agent.transcript()).at("content").as_str().unwrap().len(), 2000);
}

#[test]
fn stored_runs_are_read_and_reported() {
    assert_eq!(json_items(&parse("[1,2]")).len(), 2);
    assert!(json_items(&parse("{\"a\":1}")).is_empty());
    let report = agent_run_events("failed", parse("[]"), parse("[]"), parse("[1]"), -1, Some("e"));
    assert_eq!(
        report.print(),
        "{\"error_message\":\"e\",\"events\":[],\"round\":-1,\"sources\":[],\"status\":\"failed\",\"transcript\":[1]}"
    );
    assert!(agent_run_events("s", Json::Null, Json::Null, Json::Null, 0, None).at("error_message").is_null());
    assert_eq!(save_agent_run(Some("23505")).status, 409);
    assert_eq!(save_agent_run(Some("23503")).status, 500);
    assert_eq!(save_agent_run(None).status, 500);
}
