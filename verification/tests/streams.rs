use malim_chat::agent::WebAgentAnswer;
use malim_chat::anthropic_stream::{
    finish_block, fragment, host_tool_activity, hosted_sources, AnthropicMessage, MAX_CONTINUATIONS,
};
use malim_chat::error::ApiError;
use malim_chat::json::Json;
use malim_chat::provider_stream::{
    decode_frame, failure_detail, provider_stream_delta, read_frame, StreamFragment,
};
use malim_chat::thinking::split_thinking;
use malim_chat::stream::{
    frame_data_text, interrupted_event, pass_on, relay_saved_event, run_saved_event, sse_event,
    stream_web_agent_response, RelayEnd, RunEnd, StreamRelay,
};

fn parse(text: &str) -> Json {
    Json::parse(text).unwrap()
}

fn chat(text: &str) -> String {
    format!(
        "data: {}\n\n",
        Json::object()
            .with(
                "choices",
                Json::list1(Json::object().with("delta", Json::object().with("content", Json::text(text))))
            )
            .print()
    )
}

#[test]
fn frames_carry_the_first_data_line() {
    assert_eq!(read_frame("event: x\ndata:  {} \ndata: 2").as_deref(), Some("{}"));
    assert_eq!(read_frame("event: x\r\ndata:1\r\n").as_deref(), Some("1"));
    assert_eq!(read_frame("event: x"), None);
    assert_eq!(read_frame(""), None);
    assert!(provider_stream_delta("x", "data: [DONE]").is_none());
    assert!(provider_stream_delta("x", "data: {broken").is_none());
    assert!(provider_stream_delta("x", "data: {\"choices\":[]}").is_none());
}

#[test]
fn failures_in_a_stream_are_told() {
    let bare = provider_stream_delta("x", "data: {\"error\":\"bad key\"}").unwrap();
    assert_eq!(bare.error.as_deref(), Some("bad key"));
    let silent = provider_stream_delta("x", "data: {\"response\":{\"status\":\"failed\"}}").unwrap();
    assert_eq!(
        silent.error.as_deref(),
        Some("the provider marked the response as failed")
    );
    let empty = provider_stream_delta("x", "data: {\"error\":\"\"}").unwrap();
    assert_eq!(
        empty.error.as_deref(),
        Some("the provider marked the response as failed")
    );
    // A null counts as absent, also where it stands before a nested error.
    let nested = provider_stream_delta(
        "x",
        "data: {\"error\":null,\"response\":{\"error\":{\"message\":\"inner\"}}}",
    )
    .unwrap();
    assert_eq!(nested.error.as_deref(), Some("inner"));
    let early = provider_stream_delta("x", "data: {\"incomplete_details\":{\"reason\":\"filter\"}}").unwrap();
    assert_eq!(early.incomplete.as_deref(), Some("filter"));
    assert_eq!(failure_detail(&parse("{\"error\":{\"message\":\"m\"}}")), "m");
    assert_eq!(failure_detail(&parse("{\"error\":{\"code\":7}}")), "{\"code\":7}");
    let told = decode_frame("x", &parse("{\"error\":1}"), "words").unwrap();
    assert_eq!(told.error.as_deref(), Some("words"));
}

#[test]
fn responses_frames_carry_ids_and_parts() {
    let created = provider_stream_delta("openai_responses", "data: {\"type\":\"response.created\",\"id\":\"r\"}").unwrap();
    assert_eq!(created.response_id.as_deref(), Some("r"));
    assert!(provider_stream_delta("openai_responses", "data: {\"type\":\"other\",\"id\":\"r\"}").is_none());
    assert!(provider_stream_delta("openai_responses", "data: {\"response\":{\"id\":\"r\"}}").is_none());
    assert!(provider_stream_delta("openai_responses", "data: {\"type\":\"response.output_text.delta\",\"delta\":1}").is_none());
    let part = provider_stream_delta(
        "openai_responses",
        "data: {\"type\":\"response.reasoning_text.delta\",\"output_index\":3,\"content_index\":4,\"delta\":\"x\"}",
    )
    .unwrap();
    assert_eq!(part.part.as_deref(), Some("3:4"));
    let first = provider_stream_delta(
        "openai_responses",
        "data: {\"type\":\"response.reasoning_text.delta\",\"output_index\":3,\"delta\":\"x\"}",
    )
    .unwrap();
    assert_eq!(first.part.as_deref(), Some("3:0"));
    let lone = provider_stream_delta(
        "openai_responses",
        "data: {\"type\":\"response.reasoning_text.delta\",\"delta\":\"x\"}",
    )
    .unwrap();
    assert_eq!((lone.reasoning, lone.part), (true, None));
}

#[test]
fn hosted_blocks_become_rows_and_sources() {
    let call = host_tool_activity(&parse("{\"type\":\"server_tool_use\",\"id\":\"a\",\"name\":\"web_search\",\"input\":{\"q\":1}}")).unwrap();
    assert_eq!(
        call.print(),
        "{\"id\":\"a\",\"input\":{\"q\":1},\"name\":\"web_search\",\"status\":\"running\",\"type\":\"tool\"}"
    );
    let result = host_tool_activity(&parse("{\"type\":\"code_execution_tool_result\",\"tool_use_id\":\"a\"}")).unwrap();
    assert_eq!(result.at("name").as_str(), Some("code_execution"));
    assert_eq!(result.at("id").as_str(), Some("a"));
    assert!(host_tool_activity(&parse("{\"type\":\"text\"}")).is_none());
    let sources = hosted_sources(&parse("{\"type\":\"web_search_tool_result\",\"content\":[{\"type\":\"web_search_result\",\"url\":\"u\"},{\"type\":\"other\",\"url\":\"v\"},{\"type\":\"web_search_result\"}]}"));
    assert_eq!(sources, vec![parse("{\"title\":\"\",\"url\":\"u\"}")]);
    assert!(hosted_sources(&parse("{\"type\":\"text\",\"content\":[]}")).is_empty());
    assert_eq!(
        fragment(&parse("{\"type\":\"content_block_start\",\"content_block\":{\"type\":\"text\"}}")),
        Some(StreamFragment::default())
    );
    assert!(fragment(&parse("{\"type\":\"ping\"}")).is_none());
    assert_eq!(MAX_CONTINUATIONS, 6);
}

#[test]
fn messages_grow_by_their_frames() {
    let mut message = AnthropicMessage::default();
    message.apply("data: {\"type\":\"content_block_start\",\"index\":2,\"content_block\":{\"type\":\"thinking\",\"thinking\":\"a\"}}");
    message.apply("data: {\"type\":\"content_block_delta\",\"index\":2,\"delta\":{\"type\":\"thinking_delta\",\"thinking\":\"b\"}}");
    message.apply("data: {\"type\":\"content_block_delta\",\"index\":2,\"delta\":{\"type\":\"signature_delta\",\"signature\":\"s\"}}");
    message.apply("data: {\"type\":\"content_block_delta\",\"index\":9,\"delta\":{\"type\":\"text_delta\",\"text\":\"lost\"}}");
    message.apply("data: {\"type\":\"content_block_delta\",\"index\":0,\"delta\":{\"type\":\"text_delta\",\"text\":\"lost\"}}");
    message.apply("no data");
    message.apply("data: {broken");
    message.apply("data: {\"type\":\"content_block_start\",\"index\":18446744073709551615,\"content_block\":{}}");
    assert!(!message.paused());
    let content = message.content();
    assert_eq!(content, vec![parse("{\"type\":\"thinking\",\"thinking\":\"ab\",\"signature\":\"s\"}")]);
    // The inputs have moved on; a later piece of input finds no place.
    message.apply("data: {\"type\":\"content_block_delta\",\"index\":2,\"delta\":{\"type\":\"input_json_delta\",\"partial_json\":\"{}\"}}");
    assert_eq!(message.content(), content);
    message.apply("data: {\"type\":\"message_delta\",\"delta\":{\"stop_reason\":\"end_turn\"}}");
    assert!(!message.paused());
}

#[test]
fn pieces_of_one_text_add_up() {
    let mut message = AnthropicMessage::default();
    message.grow(1);
    message.apply_value(&parse("{\"type\":\"content_block_start\",\"index\":1,\"content_block\":{\"type\":\"text\",\"text\":\"0\",\"k\":1}}"));
    for piece in ["1", "", "2", "3"] {
        message.append(1, "text", &Json::text(piece));
    }
    message.append(1, "text", &Json::natural(4));
    assert_eq!(message.content(), vec![parse("{\"type\":\"text\",\"text\":\"0123\",\"k\":1}")]);
}

#[test]
fn inputs_move_into_hosted_calls_only() {
    let call = parse("{\"type\":\"server_tool_use\",\"input\":{}}");
    assert_eq!(finish_block(&call, "[1]", Some(parse("[1]"))).at("input"), &parse("[1]"));
    assert_eq!(finish_block(&call, "[", None), call);
    assert_eq!(finish_block(&call, "", Some(parse("[1]"))), call);
    let text = parse("{\"type\":\"text\"}");
    assert_eq!(finish_block(&text, "[1]", Some(parse("[1]"))), text);
}

#[test]
fn a_relayed_stream_tells_what_it_stores() {
    let mut relay = StreamRelay::new("openai_compatible");
    let whole = format!("{}{}{}", chat("Hel"), chat("lo<think>why"), chat("</think> you"));
    let mut told = String::new();
    let mut reasoning = String::new();
    // Chunks cut frames anywhere, and lines may end in either way.
    for chunk in whole.replace("\n\n", "\r\n\r\n").as_bytes().chunks(7) {
        for event in relay.stream_response(&chunk.to_vec()) {
            match event.at("type").as_str() {
                Some("delta") => told.push_str(event.at("delta").as_str().unwrap()),
                Some("reasoning") => reasoning.push_str(event.at("delta").as_str().unwrap()),
                other => panic!("{:?}", other),
            }
        }
    }
    let (rest, end) = relay.finish();
    assert!(rest.is_empty());
    assert_eq!(told, "Hello you");
    assert_eq!(reasoning, "why");
    match end {
        RelayEnd::Store { answer, reasoning, response_id } => {
            assert_eq!(answer, "Hello you");
            assert_eq!(reasoning, "why");
            assert_eq!(response_id, None);
        }
        _ => panic!("there is an answer"),
    }
}

#[test]
fn summary_parts_get_rows_of_their_own() {
    let mut relay = StreamRelay::new("openai_responses");
    let delta = |item: u64, index: u64, text: &str| {
        format!(
            "data: {{\"type\":\"response.reasoning_summary_text.delta\",\"output_index\":{item},\"summary_index\":{index},\"delta\":\"{text}\",\"response\":{{\"id\":\"r\"}}}}\n\n"
        )
    };
    let text = format!(
        "{}{}{}data: {{\"type\":\"response.output_text.delta\",\"delta\":\"ok\"}}\n\ndata: unfinished",
        delta(0, 0, "a"),
        delta(0, 0, "b"),
        delta(1, 0, "c")
    );
    let rows: Vec<Option<u64>> = relay
        .relay_text(&text)
        .iter()
        .map(|event| event.at("round").as_u64())
        .collect();
    assert_eq!(rows, [Some(1), Some(1), Some(2), None]);
    match relay.finish().1 {
        RelayEnd::Store { reasoning, response_id, .. } => {
            assert_eq!(reasoning, "ab\n\nc");
            assert_eq!(response_id.as_deref(), Some("r"));
        }
        _ => panic!("there is an answer"),
    }
}

#[test]
fn text_that_still_waits_is_told_at_the_end() {
    let mut relay = StreamRelay::new("x");
    assert_eq!(relay.relay_text(&chat("a<thi")).len(), 1);
    let (events, end) = relay.finish();
    assert_eq!(events, vec![parse("{\"type\":\"delta\",\"delta\":\"<thi\"}")]);
    match end {
        RelayEnd::Store { answer, .. } => assert_eq!(answer, "a<thi"),
        _ => panic!("there is an answer"),
    }
    let mut hidden = StreamRelay::new("x");
    hidden.relay_text(&chat("<think>all of it"));
    match hidden.finish().1 {
        RelayEnd::Tell(event) => assert_eq!(
            event,
            parse("{\"type\":\"error\",\"message\":\"The provider returned no final answer.\"}")
        ),
        _ => panic!("nothing is visible"),
    }
}

#[test]
fn events_are_framed_and_passed_on() {
    assert_eq!(frame_data_text("{}"), "data: {}\n\n");
    assert_eq!(sse_event(&parse("{\"b\":1,\"a\":2}")), "data: {\"a\":2,\"b\":1}\n\n");
    let tool = parse("{\"type\":\"tool\",\"id\":\"x\"}");
    let (passed, last) = pass_on(&tool);
    assert_eq!((passed.at("type").as_str(), passed.at("tool"), last), (Some("tool"), &tool, false));
    let (delta, _) = pass_on(&parse("{\"type\":\"delta\",\"delta\":\"d\"}"));
    assert_eq!(delta.at("tool").at("delta").as_str(), Some("d"));
    for (kind, ends) in [("reasoning", false), ("done", true), ("error", true)] {
        let event = Json::object().with("type", Json::text(kind));
        assert_eq!(pass_on(&event), (event.clone(), ends));
    }
    assert_eq!(
        interrupted_event().at("message").as_str(),
        Some("The provider stream was interrupted.")
    );
    assert_eq!(relay_saved_event(Some(Json::Null)).print(), "{\"message\":null,\"type\":\"done\"}");
    assert_eq!(
        relay_saved_event(None).at("message").as_str(),
        Some("The streamed response could not be saved.")
    );
    assert_eq!(
        run_saved_event(None).at("message").as_str(),
        Some("The response could not be saved.")
    );
    assert_eq!(run_saved_event(Some(Json::Null)).at("type").as_str(), Some("done"));
}

#[test]
fn an_answer_is_told_in_runs_of_bytes() {
    let answer = |text: &str, reasoning: &str| WebAgentAnswer {
        answer: text.to_string(),
        reasoning: reasoning.to_string(),
        sources: vec![],
    };
    let long = format!("{}é{}", "a".repeat(1199), "b".repeat(1200));
    match stream_web_agent_response(Ok(answer(&long, "why"))) {
        RunEnd::Store(events, stored) => {
            assert_eq!(stored.answer, long);
            let expected: Vec<Json> = std::iter::once(parse("{\"type\":\"reasoning\",\"delta\":\"why\"}"))
                .chain(long.as_bytes().chunks(1200).map(|run| {
                    Json::object()
                        .with("type", Json::text("delta"))
                        .with("delta", Json::text(&String::from_utf8_lossy(run)))
                }))
                .collect();
            assert_eq!(events, expected);
            assert_eq!(events.len(), 4);
        }
        RunEnd::Tell(_) => panic!("there is an answer"),
    }
    match stream_web_agent_response(Ok(answer("short", " "))) {
        RunEnd::Store(events, _) => assert_eq!(events.len(), 1),
        RunEnd::Tell(_) => panic!("there is an answer"),
    }
    for (result, message) in [
        (Ok(answer(" \n", "r")), "The provider returned no final answer."),
        (Err(ApiError::bad("broken")), "broken"),
    ] {
        match stream_web_agent_response(result) {
            RunEnd::Tell(event) => assert_eq!(event.at("message").as_str(), Some(message)),
            RunEnd::Store(..) => panic!("there is no answer"),
        }
    }
}

#[test]
fn streams_cut_anywhere_tell_the_answer_that_is_stored() {
    let mut stream = String::new();
    let reply = "a<think>plan</think>b <b>c</b> d";
    for piece in ["a<th", "ink>pl", "an</think>b", " <b>c", "</b> d"] {
        let delta = Json::object().with("content", Json::text(piece));
        let choice = Json::object().with("delta", delta);
        let frame = Json::object().with("choices", Json::Array(vec![choice]));
        stream.push_str(&format!("data: {}\r\n\r\n", frame.print()));
    }
    stream.push_str("data: [DONE]\n\n");
    let (answer, reasoning) = split_thinking(reply);
    for cut in 0..=stream.len() {
        let mut relay = StreamRelay::new("openai_compatible");
        let mut told = String::new();
        let mut events = relay.stream_response(&stream.as_bytes()[..cut].to_vec());
        events.extend(relay.stream_response(&stream.as_bytes()[cut..].to_vec()));
        let (last, end) = relay.finish();
        events.extend(last);
        for event in &events {
            if event.at("type").is_str("delta") {
                told.push_str(event.at("delta").as_str().unwrap());
            }
        }
        match end {
            RelayEnd::Store { answer: stored, reasoning: thought, response_id } => {
                assert_eq!((stored.as_str(), thought.as_str()), (answer.as_str(), reasoning.as_str()));
                assert_eq!(told, stored);
                assert_eq!(response_id, None);
            }
            _ => panic!("there is an answer"),
        }
    }
}

#[test]
fn parts_of_different_items_have_different_rows() {
    let part = |output: u64, summary: u64| {
        let frame = format!(
            "data: {{\"type\":\"response.reasoning_summary_text.delta\",\"delta\":\"x\",\"output_index\":{output},\"summary_index\":{summary}}}"
        );
        provider_stream_delta("openai_responses", &frame).unwrap().part.unwrap()
    };
    assert_eq!(part(1, 11), "1:11");
    assert_ne!(part(1, 11), part(11, 1));
    assert_ne!(part(0, 1), part(1, 0));
}

#[test]
fn every_field_that_comes_in_pieces_is_put_together() {
    let mut message = AnthropicMessage::default();
    let frames = [
        "{\"type\":\"content_block_start\",\"index\":0,\"content_block\":{\"type\":\"thinking\",\"thinking\":\"\"}}",
        "{\"type\":\"content_block_delta\",\"index\":0,\"delta\":{\"type\":\"thinking_delta\",\"thinking\":\"a\"}}",
        "{\"type\":\"content_block_delta\",\"index\":0,\"delta\":{\"type\":\"thinking_delta\",\"thinking\":\"b\"}}",
        "{\"type\":\"content_block_delta\",\"index\":0,\"delta\":{\"type\":\"signature_delta\",\"signature\":\"s1\"}}",
        "{\"type\":\"content_block_delta\",\"index\":0,\"delta\":{\"type\":\"signature_delta\",\"signature\":\"s2\"}}",
        "{\"type\":\"content_block_start\",\"index\":1,\"content_block\":{\"type\":\"server_tool_use\",\"id\":\"t\",\"input\":{}}}",
        "{\"type\":\"content_block_delta\",\"index\":1,\"delta\":{\"type\":\"input_json_delta\",\"partial_json\":\"{\\\"q\\\":\"}}",
        "{\"type\":\"content_block_delta\",\"index\":1,\"delta\":{\"type\":\"input_json_delta\",\"partial_json\":\"1}\"}}",
    ];
    for frame in frames {
        message.apply(&format!("data: {frame}"));
    }
    let content = message.content();
    assert_eq!(content[0].print(), "{\"signature\":\"s1s2\",\"thinking\":\"ab\",\"type\":\"thinking\"}");
    assert_eq!(content[1].print(), "{\"id\":\"t\",\"input\":{\"q\":1},\"type\":\"server_tool_use\"}");
}

#[test]
fn hosted_tools_are_shown_while_they_run() {
    let mut relay = StreamRelay::new("anthropic");
    let events = relay.relay_text(
        "data: {\"type\":\"content_block_start\",\"index\":0,\"content_block\":{\"type\":\"server_tool_use\",\"id\":\"srvtoolu_1\",\"name\":\"web_search\",\"input\":{}}}\n\ndata: {\"delta\":{\"text\":\"found\"}}\n\n",
    );
    assert_eq!(events.len(), 2);
    assert_eq!(
        events[0].print(),
        "{\"tool\":{\"id\":\"srvtoolu_1\",\"input\":{},\"name\":\"web_search\",\"status\":\"running\",\"type\":\"tool\"},\"type\":\"tool\"}"
    );
    assert_eq!(events[1].print(), "{\"delta\":\"found\",\"type\":\"delta\"}");
    assert!(!relay.has_failed());
    assert!(matches!(relay.finish().1, RelayEnd::Store { answer, .. } if answer == "found"));
}

#[test]
fn failures_inside_a_stream_end_it() {
    let mut relay = StreamRelay::new("openai_compatible");
    let events = relay.relay_text(
        "data: {\"choices\":[{\"delta\":{\"content\":\"half <th\"}}]}\n\ndata: {\"error\":{\"message\":\"no channel for model\"}}\n\ndata: {\"choices\":[{\"delta\":{\"content\":\"more\"}}]}\n\n",
    );
    let told: Vec<String> = events.iter().map(|event| event.print()).collect();
    assert_eq!(
        told,
        [
            "{\"delta\":\"half \",\"type\":\"delta\"}",
            "{\"message\":\"no channel for model\",\"type\":\"error\"}"
        ]
    );
    assert!(relay.has_failed());
    assert!(relay.relay_text("data: {\"choices\":[{\"delta\":{\"content\":\"x\"}}]}\n\n").is_empty());
    let (rest, end) = relay.finish();
    assert!(rest.is_empty());
    assert!(matches!(end, RelayEnd::Stop));
}
