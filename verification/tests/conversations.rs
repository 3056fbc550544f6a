use malim_chat::compaction::{
    auto_compact, compact, compaction_end, compaction_marker, compaction_request, compaction_result,
    compaction_source, compaction_start, compaction_threshold, plain_summary, roll_up, write_lines,
    write_summary,
};
use malim_chat::content::{
    content_part, estimate_image_tokens, estimate_tokens, parse_data_url, plain_text_content, text_part,
};
use malim_chat::conversation::{
    affected, check_selection, configured_window, conversation_cursor, conversation_title,
    create_conversation, create_message, derive_title, list_conversations, list_messages,
    message_cursor, page_limit, place_message, update_conversation, update_message, CurrentModel,
    Placement, SelectedProvider, UpdateConversation, DEFAULT_CONTEXT_WINDOW,
};
use malim_chat::error::ApiError;
use malim_chat::json::Json;
use malim_chat::models::GenerationSettings;
use malim_chat::respond::StoredMessage;
use malim_chat::timestamps::Timestamp;

fn text(s: &str) -> Option<String> {
    Some(s.to_string())
}

fn message<T>(result: Result<T, ApiError>) -> String {
    match result {
        Ok(_) => panic!("this is refused"),
        Err(error) => error.message,
    }
}

fn stored(role: &str, content: &str, images: &str) -> StoredMessage {
    StoredMessage {
        role: role.to_string(),
        content: content.to_string(),
        images: Json::parse(images).unwrap(),
    }
}

#[test]
fn page_sizes_are_clamped() {
    assert_eq!(page_limit(None), 50);
    for (asked, given) in [(i64::MIN, 1), (0, 1), (1, 1), (73, 73), (100, 100), (i64::MAX, 100)] {
        assert_eq!(page_limit(Some(asked)), given);
    }
}

#[test]
fn messages_are_paged_backward() {
    let page = list_messages(vec![(9, "d"), (7, "c"), (5, "b"), (3, "a")], 3);
    assert_eq!(page.items, ["b", "c", "d"]);
    assert_eq!(page.next_cursor.as_deref(), Some("5"));
    assert_eq!(message_cursor(page.next_cursor.as_deref()), Some(5));
    let last = list_messages(vec![(2, "b"), (1, "a")], 3);
    assert_eq!((last.items.as_slice(), last.next_cursor), (&["a", "b"][..], None));
    assert_eq!(message_cursor(Some("-12")), Some(-12));
    assert_eq!(message_cursor(Some("+12")), Some(12));
    assert_eq!(message_cursor(Some("12x")), None);
    assert_eq!(message_cursor(Some("9223372036854775808")), None);
    assert_eq!(message_cursor(None), None);
}

#[test]
fn conversations_are_paged_by_their_last_change() {
    let at = |seconds: i64, nanos: u32| Timestamp { seconds, nanos };
    let rows = vec![(at(1_700_000_002, 0), 'a'), (at(1_700_000_001, 123_000_000), 'b'), (at(1_700_000_000, 0), 'c')];
    let page = list_conversations(rows, 2);
    assert_eq!(page.items, ['a', 'b']);
    assert_eq!(page.next_cursor.as_deref(), Some("2023-11-14T22:13:21.123+00:00"));
    assert_eq!(conversation_cursor(page.next_cursor.as_deref()), Some(at(1_700_000_001, 123_000_000)));
    assert_eq!(conversation_cursor(Some("2023-11-15T00:13:20+02:00")), Some(at(1_700_000_000, 0)));
    assert_eq!(conversation_cursor(Some("yesterday")), None);
    assert_eq!(conversation_cursor(None), None);
    for moment in [
        at(-62_167_219_201, 5), at(253_402_300_800, 999_999_999), at(8_210_266_876_799, 1_999_999_999),
        at(-8_334_601_228_800, 0), at(1_483_228_799, 1_250_000_000),
    ] {
        let page = list_conversations(vec![(moment, 1), (at(0, 0), 2)], 1);
        assert_eq!(conversation_cursor(page.next_cursor.as_deref()), Some(moment));
    }
    for beyond in [at(8_210_266_876_800, 0), at(-8_334_601_228_801, 0), at(0, 1_000_000_000), at(59, 2_000_000_000)] {
        assert!(list_conversations(vec![(beyond, 1), (at(0, 0), 2)], 1).next_cursor.is_none());
    }
    let all = list_conversations(vec![(at(0, 0), 1)], 1);
    assert_eq!((all.items, all.next_cursor), (vec![1], None));
}

#[test]
fn message_pages_show_every_message_once() {
    for count in 0..12i64 {
        for limit in 1..5usize {
            let mut cursor: Option<String> = None;
            let mut history: Vec<i64> = Vec::new();
            loop {
                let below = message_cursor(cursor.as_deref()).unwrap_or(i64::MAX);
                let rows: Vec<(i64, i64)> = (0..count)
                    .rev()
                    .map(|n| (3 * n, n))
                    .filter(|row| row.0 < below)
                    .take(limit + 1)
                    .collect();
                let page = list_messages(rows, limit);
                assert!(page.items.len() <= limit);
                history = page.items.into_iter().chain(history).collect();
                cursor = page.next_cursor;
                if cursor.is_none() {
                    break;
                }
            }
            assert_eq!(history, (0..count).collect::<Vec<i64>>());
        }
    }
}

#[test]
fn conversation_pages_show_every_conversation_once() {
    for count in 0..12i64 {
        for limit in 1..5usize {
            let mut cursor: Option<String> = None;
            let mut listed: Vec<i64> = Vec::new();
            loop {
                let before = conversation_cursor(cursor.as_deref());
                let rows: Vec<(Timestamp, i64)> = (0..count)
                    .rev()
                    .map(|n| (Timestamp { seconds: 1_700_000_000 + n / 2, nanos: 500_000_000 * (n % 2) as u32 }, n))
                    .filter(|row| before.map_or(true, |b| (row.0.seconds, row.0.nanos) < (b.seconds, b.nanos)))
                    .take(limit + 1)
                    .collect();
                let page = list_conversations(rows, limit);
                listed.extend(page.items);
                cursor = page.next_cursor;
                if cursor.is_none() {
                    break;
                }
            }
            assert_eq!(listed, (0..count).rev().collect::<Vec<i64>>());
        }
    }
}

#[test]
fn repeated_messages_are_answered_with_the_stored_one() {
    let checked = || create_message(" hi ", vec![]).unwrap_or_else(|error| panic!("{}", error.message));
    match place_message(checked(), None::<u8>) {
        Placement::New(message) => assert_eq!(message.content, "hi"),
        Placement::Stored(_) => panic!("nothing is stored yet"),
    }
    assert!(matches!(place_message(checked(), Some(7u8)), Placement::Stored(7)));
}

#[test]
fn new_conversations_take_a_model_of_their_provider() {
    let provider = |owned: bool, first: Option<&str>| {
        Some(SelectedProvider { owned, first_model: first.map(str::to_string) })
    };
    let chosen = |r: Result<Option<String>, ApiError>| r.unwrap();
    assert_eq!(chosen(create_conversation(None, None)), None);
    assert_eq!(chosen(create_conversation(None, text("m"))), text("m"));
    assert_eq!(chosen(create_conversation(provider(true, Some("first")), text("m"))), text("m"));
    assert_eq!(chosen(create_conversation(provider(true, Some("first")), None)), text("first"));
    assert_eq!(
        message(create_conversation(provider(true, None), None)),
        "Add a configured model to this provider before creating a chat."
    );
    assert_eq!(
        message(create_conversation(provider(false, Some("first")), text("m"))),
        "Selected provider does not belong to this account."
    );
    assert_eq!(configured_window(Some(9000)).unwrap(), 9000);
    assert_eq!(message(configured_window(None)), "Choose a configured model for this provider.");
    assert_eq!(DEFAULT_CONTEXT_WINDOW, 128_000);
    assert_eq!(conversation_title(None), "New chat");
    assert_eq!(conversation_title(Some("  T ")), "T");
}

#[test]
fn conversation_changes_select_a_model() {
    let nothing = || UpdateConversation { title: None, provider_id: None, model: None, generation_settings: None };
    let current = CurrentModel { provider_id: Some(7), model: text("old") };
    let change = |request: UpdateConversation, current: &CurrentModel| match update_conversation(request, current) {
        Ok(change) => change,
        Err(error) => panic!("{}", error.message),
    };
    let same = change(nothing(), &current);
    assert_eq!(same.selection, Some((7, "old".to_string())));
    assert!(!same.takes_window);
    let model = change(UpdateConversation { title: text(" T "), model: text(" new "), ..nothing() }, &current);
    assert_eq!((model.title.as_deref(), model.model.as_deref()), (Some("T"), Some("new")));
    assert_eq!(model.selection, Some((7, "new".to_string())));
    assert!(model.takes_window);
    let provider = change(UpdateConversation { provider_id: Some(8), ..nothing() }, &current);
    assert_eq!(provider.selection, Some((8, "old".to_string())));
    assert!(provider.takes_window);
    let bare = change(
        UpdateConversation { model: text("new"), ..nothing() },
        &CurrentModel { provider_id: None, model: None },
    );
    assert_eq!(bare.selection, None);
    assert!(!bare.takes_window);
    assert_eq!(
        message(update_conversation(UpdateConversation { model: text("  "), ..nothing() }, &current)),
        "Model name cannot be empty."
    );
    let settings = GenerationSettings {
        temperature: Json::natural(9),
        temperature_bits: 9.0f32.to_bits(),
        reasoning_effort: "low".to_string(),
        enable_markdown: true,
        stream: true,
        context_rounds: None,
        tool_rounds: None,
    };
    assert_eq!(
        message(update_conversation(
            UpdateConversation { model: text(" "), generation_settings: Some(settings), ..nothing() },
            &current
        )),
        "Temperature must be between 0 and 2."
    );
    assert_eq!(check_selection(true, Some(5)).unwrap(), 5);
    assert_eq!(message(check_selection(false, Some(5))), "Selected provider does not belong to this account.");
    assert_eq!(message(check_selection(true, None)), "Choose a configured model for this provider.");
    assert!(affected(1).is_ok());
    assert_eq!(affected(0).unwrap_err().status, 404);
}

#[test]
fn messages_are_checked_in_order() {
    let image = "data:image/png;base64,AAAA".to_string();
    let checked = match create_message("  hello\n", vec![image.clone()]) {
        Ok(checked) => checked,
        Err(error) => panic!("{}", error.message),
    };
    assert_eq!((checked.content.as_str(), checked.tokens), ("hello", 302));
    assert_eq!(checked.images, [image.clone()]);
    assert_eq!(message(create_message("x", vec![image.clone(); 9])), "A message may contain at most 8 images.");
    assert!(create_message("", vec![image.clone(); 8]).is_ok());
    assert_eq!(
        message(create_message("x", vec!["http://a/b.png".to_string()])),
        "Each image must be a data URL of at most 5 MB."
    );
    assert_eq!(
        message(create_message("x", vec![format!("data:image/png,{}", "A".repeat(7_000_000))])),
        "Each image must be a data URL of at most 5 MB."
    );
    assert_eq!(
        message(create_message("x", vec!["data:image/png".to_string()])),
        "Each image must be a valid base64 image data URL."
    );
    assert_eq!(message(create_message(" \n", vec![])), "Message must contain text or at least one image.");
    assert_eq!(
        message(create_message(&"é".repeat(100_001), vec![])),
        "Message text must be at most 200,000 characters."
    );
    assert!(create_message(&"é".repeat(100_000), vec![]).is_ok());
}

#[test]
fn first_messages_name_their_conversation() {
    assert_eq!(derive_title(true, "New chat", " a  b\nc ").as_deref(), Some("a b c"));
    assert_eq!(derive_title(true, "New chat", "").as_deref(), Some("[Image]"));
    assert_eq!(derive_title(true, "New chat", &"é".repeat(50)).unwrap().chars().count(), 40);
    assert_eq!(derive_title(true, "Named", "a"), None);
    assert_eq!(derive_title(false, "New chat", "a"), None);
}

#[test]
fn edited_messages_are_counted_again() {
    assert_eq!(update_message(" 12345678 ").unwrap(), ("12345678".to_string(), 3));
    assert_eq!(message(update_message(" ")), "Message cannot be empty.");
}

#[test]
fn token_estimates_agree_with_floating_point() {
    for n in (0..3000).chain([100_000, 123_457]) {
        let float = ((n as f64 / 3.5).ceil() as i32).max(1);
        assert_eq!(estimate_tokens(&"x".repeat(n)), float, "{}", n);
    }
    assert_eq!(estimate_tokens("日本語日本語日本"), 3);
}

#[test]
fn image_estimates_are_clamped() {
    let image = |n: usize| format!("data:image/png;base64,{}", "A".repeat(n));
    assert_eq!(estimate_image_tokens(&vec![]), 0);
    assert_eq!(estimate_image_tokens(&vec![image(10)]), 300);
    assert_eq!(estimate_image_tokens(&vec![image(1024 * 1000 + 1023)]), 1000);
    assert_eq!(estimate_image_tokens(&vec![image(1024 * 3000), image(1)]), 2700);
    assert_eq!(estimate_image_tokens(&vec!["no comma".to_string()]), 300);
}

#[test]
fn content_is_shaped_for_its_dialect() {
    let images = vec![Json::text("data:image/png;base64,QQ=="), Json::Null];
    assert_eq!(content_part("x", true, "plain", &vec![]), Json::text("plain"));
    assert_eq!(
        content_part("openai_responses", true, "look", &images).print(),
        "[{\"text\":\"look\",\"type\":\"input_text\"},{\"image_url\":\"data:image/png;base64,QQ==\",\"type\":\"input_image\"},{\"text\":\"[Image attachment omitted: invalid image data.]\",\"type\":\"input_text\"}]"
    );
    assert_eq!(
        content_part("anthropic", true, " ", &vec![Json::text("data:image/png;base64,QQ==")]).print(),
        "[{\"text\":\"\",\"type\":\"text\"},{\"source\":{\"data\":\"QQ==\",\"media_type\":\"image/png\",\"type\":\"base64\"},\"type\":\"image\"}]"
    );
    assert_eq!(text_part("anthropic", "t").at("type").as_str(), Some("text"));
    assert_eq!(plain_text_content("", &images).matches("omitted").count(), 2);
    assert!(plain_text_content("", &images).starts_with("[Image"));
    assert_eq!(parse_data_url("data:image/png,a,b"), Some(("image/png".to_string(), "a,b".to_string())));
}

#[test]
fn thresholds_agree_with_single_precision() {
    let windows = (-5000..5000)
        .chain((0..2_000_001).step_by(997))
        .chain([4096, 128_000, 200_000, 1_000_000, 2_000_000, 16_777_217, 33_554_433, i32::MAX, i32::MIN]);
    for window in windows {
        assert_eq!(compaction_threshold(window), (window as f32 * 0.70) as i32, "{}", window);
    }
}

#[test]
fn long_conversations_are_rolled_up() {
    assert_eq!(auto_compact(89_599, 128_000, 10, None), None);
    assert_eq!(auto_compact(89_600, 128_000, 10, None), Some((0, 9)));
    assert_eq!(auto_compact(i32::MAX, 128_000, 10, Some(4)), Some((4, 9)));
    assert_eq!(auto_compact(i32::MAX, 128_000, 10, Some(9)), None);
    assert_eq!(auto_compact(i32::MAX, 128_000, 1, None), None);
    let rows = vec![stored("user", "hi", "[1]"), stored("assistant", "<think>x</think>yo", "{}")];
    assert_eq!(
        write_lines(&rows),
        "user: hi [image attachments were present in this message]\nassistant: yo"
    );
    let summary = roll_up(9, Some("before"), &rows).unwrap();
    assert_eq!(
        summary.content,
        "Conversation summary through message 9:\nbefore\nuser: hi [image attachments were present in this message]\nassistant: yo"
    );
    assert_eq!(summary.tokens, estimate_tokens(&summary.content));
    assert!(roll_up(9, None, &vec![]).is_none());
    let long = roll_up(1, None, &vec![stored("user", &"é".repeat(40_000), "[]")]).unwrap();
    assert_eq!(long.content.chars().count(), 30_000);
}

#[test]
fn compaction_on_request_waits_for_the_threshold() {
    let waits = compact(None, 10, 100).unwrap();
    assert_eq!(
        waits.print(),
        "{\"compacted\":false,\"context_tokens\":10,\"context_window\":100,\"reason\":\"below_threshold\"}"
    );
    assert!(compact(Some(false), 69, 100).is_some());
    assert!(compact(Some(true), 10, 100).is_none());
    assert!(compact(None, 70, 100).is_none());
    assert_eq!(compaction_end(Some(3), 9), 3);
    assert_eq!(compaction_end(None, 9), 9);
    assert_eq!(compaction_start(None), 1);
    assert_eq!(compaction_start(Some(4)), 5);
}

#[test]
fn compaction_asks_the_provider_for_a_memory() {
    assert_eq!(message(compaction_source(&vec![])), "There are no messages to compact.");
    let source = compaction_source(&vec![stored("user", "hi", "[]")]).unwrap();
    assert_eq!(source, "user: hi");
    let asked = compaction_request(Some("before"), &source);
    assert_eq!(asked[0].at("role").as_str(), Some("system"));
    assert_eq!(
        asked[1].at("content").as_str(),
        Some("Previous memory:\nbefore\n\nConversation to compact:\nuser: hi")
    );
    let long = compaction_request(None, &"x".repeat(130_000));
    let head = "Previous memory:\n\n\nConversation to compact:\n";
    assert_eq!(long[1].at("content").as_str().unwrap().len(), head.len() + 120_000);
    assert_eq!(plain_summary(&"x".repeat(40_000)).len(), 30_000);
    assert_eq!(plain_summary("short"), "short");
}

#[test]
fn compaction_leaves_a_marker() {
    let summary = write_summary(4, "facts");
    assert_eq!(summary.content, "Conversation summary through message 4:\nfacts");
    assert_eq!(summary.tokens, estimate_tokens(&summary.content));
    assert_eq!(
        compaction_marker(4, 13),
        "Context compacted through message 4. The conversation now uses a durable summary (13 estimated tokens)."
    );
    assert_eq!(
        compaction_result("id", -1, 13, Json::Null).print(),
        "{\"compacted\":true,\"context_tokens\":13,\"estimated_tokens\":13,\"message\":null,\"summary_id\":\"id\",\"through_sequence\":-1}"
    );
}
