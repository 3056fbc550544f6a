//! Reading a provider's complete reply: the answer, the reasoning and the tool calls in it.

use vstd::prelude::*;
use vstd::string::*;

use crate::error::{bad, invalid_provider_reply, ApiError, ErrorView};
use crate::json::{parsed_json, views, Json, JsonView};
use crate::names::names_are_told_apart;
use crate::picking::{
    gathered_lists, gathered_lists_ends, gathered_lists_step, picked, picked_ends, picked_push,
    picked_step,
};
use crate::providers::{kind_of, RequestKind};
use crate::text::{blank, is_blank, join, joined, joined_push, opt_string, texts};

verus! {

/// A completed turn. Reasoning is carried separately instead of inside the answer.
#[derive(Debug)]
pub struct Reply {
    pub text: String,
    pub reasoning: String,
    /// Responses ids can be referenced by the next turn; other dialects return none.
    pub response_id: Option<String>,
}

/// What a completed turn says.
pub struct ReplyView {
    pub text: Seq<char>,
    pub reasoning: Seq<char>,
    pub response_id: Option<Seq<char>>,
}

impl View for Reply {
    type V = ReplyView;

    open spec fn view(&self) -> ReplyView {
        ReplyView {
            text: self.text@,
            reasoning: self.reasoning@,
            response_id: opt_string(self.response_id),
        }
    }
}

/// A tool that the model asks to be run.
#[derive(Debug)]
pub struct ToolCall {
    pub id: String,
    pub name: String,
    pub input: Json,
}

/// What a tool call says.
pub struct ToolCallView {
    pub id: Seq<char>,
    pub name: Seq<char>,
    pub input: JsonView,
}

impl View for ToolCall {
    type V = ToolCallView;

    open spec fn view(&self) -> ToolCallView {
        ToolCallView { id: self.id@, name: self.name@, input: self.input@ }
    }
}

/// The views of a list of tool calls.
pub open spec fn call_views(calls: Seq<ToolCall>) -> Seq<ToolCallView> {
    calls.map_values(|c: ToolCall| c@)
}

/// A turn of the agent loop: the reply, the message to keep in the transcript and the tool calls.
pub struct ToolTurn {
    pub reply: Reply,
    pub assistant_message: Json,
    pub tool_calls: Vec<ToolCall>,
}

// ---------------------------------------------------------------- picking strings

/// The texts that `key` holds in the items of a list.
pub open spec fn texts_at(items: Seq<JsonView>, key: Seq<char>) -> Seq<Seq<char>> {
    picked(items, |p: JsonView| p.at(key).text())
}

fn collect_texts_at(items: &Vec<Json>, key: &str) -> (r: Vec<String>)
    ensures
        texts(r@) == texts_at(views(items@), key@),
{
    let ghost pick = |p: JsonView| p.at(key@).text();
    let mut out: Vec<String> = Vec::new();
    proof {
        picked_ends(views(items@), pick);
        assert(texts(out@) =~= Seq::empty());
    }
    for i in 0..items.len()
        invariant
            pick == (|p: JsonView| p.at(key@).text()),
            texts(out@) == picked(views(items@).take(i as int), pick),
    {
        let ghost before = texts(out@);
        proof {
            picked_step(views(items@), pick, i as int);
        }
        if let Some(text) = items[i].at(key).as_str() {
            out.push(text.to_owned());
            assert(texts(out@) =~= before.push(text@));
        }
    }
    proof {
        picked_ends(views(items@), pick);
    }
    out
}

/// The text under `key` of an item of one type.
pub open spec fn text_of_type(item: JsonView, kind: Seq<char>, key: Seq<char>) -> Option<Seq<char>> {
    if item.at("type"@).is_text(kind) {
        item.at(key).text()
    } else {
        None
    }
}

fn collect_texts_of_type(items: &Vec<Json>, kind: &str, key: &str) -> (r: Vec<String>)
    ensures
        texts(r@) == picked(views(items@), |b: JsonView| text_of_type(b, kind@, key@)),
{
    let ghost pick = |b: JsonView| text_of_type(b, kind@, key@);
    let mut out: Vec<String> = Vec::new();
    proof {
        picked_ends(views(items@), pick);
        assert(texts(out@) =~= Seq::empty());
    }
    for i in 0..items.len()
        invariant
            pick == (|b: JsonView| text_of_type(b, kind@, key@)),
            texts(out@) == picked(views(items@).take(i as int), pick),
    {
        let ghost before = texts(out@);
        proof {
            picked_step(views(items@), pick, i as int);
        }
        if items[i].at("type").is_str(kind) {
            if let Some(text) = items[i].at(key).as_str() {
                out.push(text.to_owned());
                assert(texts(out@) =~= before.push(text@));
            }
        }
    }
    proof {
        picked_ends(views(items@), pick);
    }
    out
}

/// Texts one after the other.
pub open spec fn run_together(parts: Seq<Seq<char>>) -> Seq<char> {
    joined(parts, Seq::empty())
}

fn concatenate(parts: &Vec<String>) -> (r: String)
    ensures
        r@ == run_together(texts(parts@)),
{
    proof {
        reveal_strlit("");
        assert(""@ =~= Seq::empty());
    }
    join(parts, "")
}

// ---------------------------------------------------------------- Responses

/// The texts that one output item adds to the answer: those of its parts, unless it is reasoning.
pub open spec fn answer_texts(item: JsonView) -> Seq<Seq<char>> {
    if item.at("type"@).is_text("reasoning"@) {
        Seq::empty()
    } else {
        texts_at(item.at("content"@).items_or_empty(), "text"@)
    }
}

/// The answer of a Responses reply: its short form, else the texts of its output items; none where
/// that is no text at all.
pub open spec fn responses_answer(body: JsonView) -> Option<Seq<char>> {
    match body.at("output_text"@).text() {
        Some(text) => Some(text),
        None => match body.at("output"@).items() {
            Some(items) => {
                let text = run_together(gathered_lists(items, |i: JsonView| answer_texts(i)));
                if text.len() > 0 {
                    Some(text)
                } else {
                    None
                }
            },
            None => None,
        },
    }
}

fn append_all(out: &mut Vec<String>, more: Vec<String>)
    ensures
        texts(final(out)@) == texts(old(out)@) + texts(more@),
{
    let ghost added = texts(more@);
    let mut rest = more;
    out.append(&mut rest);
    assert(texts(out@) =~= texts(old(out)@) + added);
}

/// The answer of a Responses reply.
pub fn responses_content(body: &Json) -> (r: Option<String>)
    ensures
        opt_string(r) == responses_answer(body@),
{
    if let Some(text) = body.at("output_text").as_str() {
        return Some(text.to_owned());
    }
    match body.at("output").as_array() {
        Some(items) => {
            let ghost pick = |i: JsonView| answer_texts(i);
            let mut parts: Vec<String> = Vec::new();
            proof {
                gathered_lists_ends(views(items@), pick);
                assert(texts(parts@) =~= Seq::empty());
            }
            for i in 0..items.len()
                invariant
                    pick == (|i: JsonView| answer_texts(i)),
                    texts(parts@) == gathered_lists(views(items@).take(i as int), pick),
            {
                let item = &items[i];
                let ghost before = texts(parts@);
                proof {
                    gathered_lists_step(views(items@), pick, i as int);
                }
                let mut more: Vec<String> = Vec::new();
                assert(texts(more@) =~= Seq::empty());
                if !item.at("type").is_str("reasoning") {
                    if let Some(content) = item.at("content").as_array() {
                        more = collect_texts_at(content, "text");
                    } else {
                        assert(texts_at(Seq::empty(), "text"@) =~= Seq::empty());
                    }
                }
                append_all(&mut parts, more);
            }
            proof {
                gathered_lists_ends(views(items@), pick);
            }
            let text = concatenate(&parts);
            if text.as_str().is_empty() {
                None
            } else {
                Some(text)
            }
        },
        None => None,
    }
}

/// The text of a summary part that is not blank.
pub open spec fn summary_text(part: JsonView) -> Option<Seq<char>> {
    match part.at("text"@).text() {
        Some(text) => if is_blank(text) {
            None
        } else {
            Some(text)
        },
        None => None,
    }
}

/// The summary texts of one output item, where it is reasoning.
pub open spec fn summary_texts(item: JsonView) -> Seq<Seq<char>> {
    if item.at("type"@).is_text("reasoning"@) {
        picked(item.at("summary"@).items_or_empty(), |p: JsonView| summary_text(p))
    } else {
        Seq::empty()
    }
}

/// The reasoning of a Responses reply: the summary parts of its reasoning items.
pub open spec fn responses_thought(body: JsonView) -> Option<Seq<char>> {
    match body.at("output"@).items() {
        Some(items) => {
            let parts = gathered_lists(items, |i: JsonView| summary_texts(i));
            if parts.len() > 0 {
                Some(joined(parts, "\n\n"@))
            } else {
                None
            }
        },
        None => None,
    }
}

fn collect_summary(items: &Vec<Json>) -> (r: Vec<String>)
    ensures
        texts(r@) == picked(views(items@), |p: JsonView| summary_text(p)),
{
    let ghost pick = |p: JsonView| summary_text(p);
    let mut out: Vec<String> = Vec::new();
    proof {
        picked_ends(views(items@), pick);
        assert(texts(out@) =~= Seq::empty());
    }
    for i in 0..items.len()
        invariant
            pick == (|p: JsonView| summary_text(p)),
            texts(out@) == picked(views(items@).take(i as int), pick),
    {
        let ghost before = texts(out@);
        proof {
            picked_step(views(items@), pick, i as int);
        }
        if let Some(text) = items[i].at("text").as_str() {
            if !blank(text) {
                out.push(text.to_owned());
                assert(texts(out@) =~= before.push(text@));
            }
        }
    }
    proof {
        picked_ends(views(items@), pick);
    }
    out
}

/// The reasoning of a Responses reply. Summaries sit in output items of type `reasoning`, one
/// entry per part.
pub fn responses_reasoning(body: &Json) -> (r: Option<String>)
    ensures
        opt_string(r) == responses_thought(body@),
{
    match body.at("output").as_array() {
        Some(items) => {
            let ghost pick = |i: JsonView| summary_texts(i);
            let mut parts: Vec<String> = Vec::new();
            proof {
                gathered_lists_ends(views(items@), pick);
                assert(texts(parts@) =~= Seq::empty());
            }
            for i in 0..items.len()
                invariant
                    pick == (|i: JsonView| summary_texts(i)),
                    texts(parts@) == gathered_lists(views(items@).take(i as int), pick),
            {
                let item = &items[i];
                proof {
                    gathered_lists_step(views(items@), pick, i as int);
                }
                let mut more: Vec<String> = Vec::new();
                assert(texts(more@) =~= Seq::empty());
                if item.at("type").is_str("reasoning") {
                    if let Some(summary) = item.at("summary").as_array() {
                        more = collect_summary(summary);
                    } else {
                        assert(picked(Seq::empty(), |p: JsonView| summary_text(p)) =~= Seq::empty());
                    }
                }
                append_all(&mut parts, more);
            }
            proof {
                gathered_lists_ends(views(items@), pick);
                assert(texts(parts@).len() == parts@.len());
            }
            if parts.len() == 0 {
                None
            } else {
                Some(join(&parts, "\n\n"))
            }
        },
        None => None,
    }
}

// ---------------------------------------------------------------- Anthropic

/// The answer and the reasoning of an Anthropic reply: the texts of its text blocks, and its
/// thinking blocks apart from each other.
pub open spec fn anthropic_split(body: JsonView) -> (Seq<char>, Seq<char>) {
    let blocks = body.at("content"@).items_or_empty();
    (
        run_together(picked(blocks, |b: JsonView| text_of_type(b, "text"@, "text"@))),
        joined(picked(blocks, |b: JsonView| text_of_type(b, "thinking"@, "thinking"@)), "\n\n"@),
    )
}

/// Splits an Anthropic reply into its answer and any thinking blocks.
pub fn anthropic_parts(body: &Json) -> (r: (String, String))
    ensures
        (r.0@, r.1@) == anthropic_split(body@),
{
    match body.at("content").as_array() {
        Some(blocks) => {
            let answer = collect_texts_of_type(blocks, "text", "text");
            let thinking = collect_texts_of_type(blocks, "thinking", "thinking");
            (concatenate(&answer), join(&thinking, "\n\n"))
        },
        None => (String::new(), String::new()),
    }
}

// ---------------------------------------------------------------- Chat Completions

/// The reasoning of a Chat message: what its two possible fields hold, on lines of their own.
pub open spec fn chat_reasoning(message: JsonView) -> Seq<char> {
    let first = message.at("reasoning_content"@).text_or_empty();
    match message.at("reasoning"@).text() {
        Some(second) => if first.len() > 0 {
            first + "\n"@ + second
        } else {
            second
        },
        None => first,
    }
}

/// The answer and the reasoning of a Chat message.
pub open spec fn chat_split(message: JsonView) -> (Seq<char>, Seq<char>) {
    (message.at("content"@).text_or_empty(), chat_reasoning(message))
}

/// Chat Completions reasoning models report their thinking in `reasoning_content` (or
/// `reasoning`), separate from the answer.
pub fn openai_message_parts(message: &Json) -> (r: (String, String))
    ensures
        (r.0@, r.1@) == chat_split(message@),
{
    let mut reasoning = message.at("reasoning_content").str_or_empty().to_owned();
    if let Some(value) = message.at("reasoning").as_str() {
        if !reasoning.as_str().is_empty() {
            reasoning.append("\n");
            reasoning.append(value);
        } else {
            reasoning = value.to_owned();
        }
    }
    (message.at("content").str_or_empty().to_owned(), reasoning)
}

/// The message of the first choice of a Chat reply.
pub open spec fn first_message(body: JsonView) -> Option<JsonView> {
    match body.at("choices"@).items() {
        Some(choices) => if choices.len() > 0 {
            choices[0].field("message"@)
        } else {
            None
        },
        None => None,
    }
}

fn find_first_message(body: &Json) -> (r: Option<&Json>)
    ensures
        match r {
            Some(m) => first_message(body@) == Some(m@),
            None => first_message(body@) is None,
        },
{
    match body.at("choices").as_array() {
        Some(choices) => if choices.len() > 0 {
            choices[0].field("message")
        } else {
            None
        },
        None => None,
    }
}

// ---------------------------------------------------------------- whole replies

/// The reply that a body holds, or the error where it holds none.
pub open spec fn reply_of(kind: RequestKind, body: JsonView) -> Result<ReplyView, ErrorView> {
    match kind {
        RequestKind::OpenAiResponses => match responses_answer(body) {
            Some(text) => Ok(
                ReplyView {
                    text,
                    reasoning: match responses_thought(body) {
                        Some(thought) => thought,
                        None => Seq::empty(),
                    },
                    response_id: body.at("id"@).text(),
                },
            ),
            None => Err(bad("The Responses provider returned no text output."@)),
        },
        RequestKind::Anthropic => plain_reply(anthropic_split(body)),
        RequestKind::OpenAiChat => plain_reply(
            chat_split(
                match first_message(body) {
                    Some(message) => message,
                    None => JsonView::Null,
                },
            ),
        ),
    }
}

/// A reply without an id, or the error where it has neither answer nor reasoning.
pub open spec fn plain_reply(parts: (Seq<char>, Seq<char>)) -> Result<ReplyView, ErrorView> {
    if parts.0.len() == 0 && parts.1.len() == 0 {
        Err(invalid_provider_reply())
    } else {
        Ok(ReplyView { text: parts.0, reasoning: parts.1, response_id: None })
    }
}

/// The view of a result.
pub open spec fn reply_result(r: Result<Reply, ApiError>) -> Result<ReplyView, ErrorView> {
    match r {
        Ok(reply) => Ok(reply@),
        Err(error) => Err(error@),
    }
}

/// The error for a provider that answered with something that is no answer.
pub fn invalid_provider_response() -> (r: ApiError)
    ensures
        r@ == invalid_provider_reply(),
{
    ApiError {
        status: 502,
        code: "invalid_provider_response",
        message: "The AI provider returned an unexpected response.".to_owned(),
    }
}

fn make_plain_reply(parts: (String, String)) -> (r: Result<Reply, ApiError>)
    ensures
        reply_result(r) == plain_reply((parts.0@, parts.1@)),
{
    if parts.0.as_str().is_empty() && parts.1.as_str().is_empty() {
        Err(invalid_provider_response())
    } else {
        Ok(Reply { text: parts.0, reasoning: parts.1, response_id: None })
    }
}

/// Reads the reply of a call without tools of our own from the body of the response.
pub fn call_provider(kind: &str, body: &Json) -> (r: Result<Reply, ApiError>)
    ensures
        reply_result(r) == reply_of(kind_of(kind@), body@),
{
    match RequestKind::parse(kind) {
        RequestKind::OpenAiResponses => match responses_content(body) {
            Some(text) => {
                let reasoning = match responses_reasoning(body) {
                    Some(thought) => thought,
                    None => String::new(),
                };
                let response_id = match body.at("id").as_str() {
                    Some(id) => Some(id.to_owned()),
                    None => None,
                };
                Ok(Reply { text, reasoning, response_id })
            },
            None => Err(ApiError::bad("The Responses provider returned no text output.")),
        },
        RequestKind::Anthropic => make_plain_reply(anthropic_parts(body)),
        RequestKind::OpenAiChat => match find_first_message(body) {
            Some(message) => make_plain_reply(openai_message_parts(message)),
            None => make_plain_reply(openai_message_parts(&Json::Null)),
        },
    }
}

// ---------------------------------------------------------------- tool calls

/// A block of an Anthropic reply as a tool call: any block with an id and a name.
pub open spec fn anthropic_call(block: JsonView) -> Option<ToolCallView> {
    match (block.at("id"@).text(), block.at("name"@).text()) {
        (Some(id), Some(name)) => Some(ToolCallView { id, name, input: block.at("input"@) }),
        _ => None,
    }
}

/// The arguments of a call as they parse; no arguments where they do not.
pub open spec fn call_input(parsed: Option<JsonView>) -> JsonView {
    match parsed {
        Some(value) => value,
        None => JsonView::object(),
    }
}

/// The text of the arguments of a Chat call.
pub open spec fn arguments_text(call: JsonView) -> Seq<char> {
    match call.at("function"@).at("arguments"@).text() {
        Some(text) => text,
        None => "{}"@,
    }
}

/// A Chat tool call, where it has an id and a name.
pub open spec fn chat_call(call: JsonView) -> Option<ToolCallView> {
    match (call.at("id"@).text(), call.at("function"@).at("name"@).text()) {
        (Some(id), Some(name)) => Some(
            ToolCallView { id, name, input: call_input(parsed_json(arguments_text(call))) },
        ),
        _ => None,
    }
}

/// The arguments of a call as they parsed; no arguments where they did not.
pub fn tool_input(parsed: Option<Json>) -> (r: Json)
    ensures
        r@ == call_input(
            match parsed {
                Some(value) => Some(value@),
                None => None,
            },
        ),
{
    match parsed {
        Some(value) => value,
        None => Json::object(),
    }
}

fn read_anthropic_call(block: &Json) -> (r: Option<ToolCall>)
    ensures
        match r {
            Some(call) => anthropic_call(block@) == Some(call@),
            None => anthropic_call(block@) is None,
        },
{
    match (block.at("id").as_str(), block.at("name").as_str()) {
        (Some(id), Some(name)) => Some(
            ToolCall { id: id.to_owned(), name: name.to_owned(), input: block.at("input").clone() },
        ),
        _ => None,
    }
}

fn read_chat_call(call: &Json) -> (r: Option<ToolCall>)
    ensures
        match r {
            Some(c) => chat_call(call@) == Some(c@),
            None => chat_call(call@) is None,
        },
{
    let function = call.at("function");
    match (call.at("id").as_str(), function.at("name").as_str()) {
        (Some(id), Some(name)) => {
            let arguments = match function.at("arguments").as_str() {
                Some(text) => text,
                None => "{}",
            };
            let input = tool_input(Json::parse(arguments));
            Some(ToolCall { id: id.to_owned(), name: name.to_owned(), input })
        },
        _ => None,
    }
}

fn read_calls(items: &Vec<Json>, anthropic: bool) -> (r: Vec<ToolCall>)
    ensures
        call_views(r@) == picked(
            views(items@),
            |c: JsonView| if anthropic {
                anthropic_call(c)
            } else {
                chat_call(c)
            },
        ),
{
    let ghost pick = |c: JsonView|
        if anthropic {
            anthropic_call(c)
        } else {
            chat_call(c)
        };
    let mut out: Vec<ToolCall> = Vec::new();
    proof {
        picked_ends(views(items@), pick);
        assert(call_views(out@) =~= Seq::empty());
    }
    for i in 0..items.len()
        invariant
            pick == (|c: JsonView|
                if anthropic {
                    anthropic_call(c)
                } else {
                    chat_call(c)
                }),
            call_views(out@) == picked(views(items@).take(i as int), pick),
    {
        let ghost before = call_views(out@);
        proof {
            picked_step(views(items@), pick, i as int);
        }
        let read = if anthropic {
            read_anthropic_call(&items[i])
        } else {
            read_chat_call(&items[i])
        };
        if let Some(call) = read {
            let ghost seen = call@;
            out.push(call);
            assert(call_views(out@) =~= before.push(seen));
        }
    }
    proof {
        picked_ends(views(items@), pick);
    }
    out
}

/// The message that an assistant turn adds to the transcript.
pub open spec fn assistant(message: Option<JsonView>) -> JsonView {
    match message {
        Some(m) => if m is Object {
            m
        } else {
            JsonView::object().with("role"@, JsonView::Str("assistant"@))
        },
        None => JsonView::object().with("role"@, JsonView::Str("assistant"@)),
    }
}

/// Reads a turn of the agent loop from the body of the response.
pub fn call_provider_with_tools(anthropic: bool, body: &Json) -> (r: Result<ToolTurn, ApiError>)
    ensures
        anthropic ==> match body@.at("content"@).items() {
            Some(blocks) => {
                &&& r matches Ok(turn)
                &&& (turn.reply.text@, turn.reply.reasoning@) == anthropic_split(body@)
                &&& turn.reply.response_id is None
                &&& turn.assistant_message@ == JsonView::object().with(
                    "role"@,
                    JsonView::Str("assistant"@),
                ).with("content"@, JsonView::Array(blocks))
                &&& call_views(turn.tool_calls@) == picked(blocks, |b: JsonView| anthropic_call(b))
            },
            None => r matches Err(e) && e@ == bad(
                "The provider returned an unexpected tool response."@,
            ),
        },
        !anthropic ==> {
            let message = assistant(first_message(body@));
            &&& r matches Ok(turn)
            &&& (turn.reply.text@, turn.reply.reasoning@) == chat_split(message)
            &&& turn.reply.response_id is None
            &&& turn.assistant_message@ == message
            &&& call_views(turn.tool_calls@) == picked(
                message.at("tool_calls"@).items_or_empty(),
                |c: JsonView| chat_call(c),
            )
        },
{
    if anthropic {
        match body.at("content").as_array() {
            Some(blocks) => {
                let tool_calls = read_calls(blocks, true);
                let (text, reasoning) = anthropic_parts(body);
                let message = Json::object().with("role", Json::text("assistant")).with(
                    "content",
                    Json::Array(crate::json::copy_all(blocks)),
                );
                proof {
                    assert((|c: JsonView|
                        if anthropic {
                            anthropic_call(c)
                        } else {
                            chat_call(c)
                        }) =~= (|b: JsonView| anthropic_call(b)));
                }
                Ok(
                    ToolTurn {
                        reply: Reply { text, reasoning, response_id: None },
                        assistant_message: message,
                        tool_calls,
                    },
                )
            },
            None => Err(ApiError::bad("The provider returned an unexpected tool response.")),
        }
    } else {
        let message = match find_first_message(body) {
            Some(found) => if found.is_object() {
                found.clone()
            } else {
                Json::object().with("role", Json::text("assistant"))
            },
            None => Json::object().with("role", Json::text("assistant")),
        };
        let tool_calls = match message.at("tool_calls").as_array() {
            Some(calls) => read_calls(calls, false),
            None => {
                let none: Vec<ToolCall> = Vec::new();
                assert(call_views(none@) =~= picked(Seq::empty(), |c: JsonView| chat_call(c)));
                none
            },
        };
        proof {
            assert((|c: JsonView|
                if anthropic {
                    anthropic_call(c)
                } else {
                    chat_call(c)
                }) =~= (|c: JsonView| chat_call(c)));
        }
        let (text, reasoning) = openai_message_parts(&message);
        Ok(
            ToolTurn {
                reply: Reply { text, reasoning, response_id: None },
                assistant_message: message,
                tool_calls,
            },
        )
    }
}

// ---------------------------------------------------------------- laws

/// The reply of a Chat provider is the content of its first message; what stands under its reasoning
/// fields is the reasoning, and neither is taken for the other.
pub proof fn chat_replies_keep_reasoning_apart(body: JsonView)
    ensures
        ({
            let choices = body.at("choices"@).items_or_empty();
            let message = if choices.len() > 0 {
                choices[0].at("message"@)
            } else {
                JsonView::Null
            };
            let content = message.at("content"@).text_or_empty();
            let first = message.at("reasoning_content"@).text_or_empty();
            let second = message.at("reasoning"@).text_or_empty();
            match reply_of(RequestKind::OpenAiChat, body) {
                Ok(reply) => {
                    &&& reply.text == content
                    &&& reply.response_id is None
                    &&& first.len() == 0 ==> reply.reasoning == second
                    &&& !(message.at("reasoning"@) is Str) ==> reply.reasoning == first
                    &&& first.len() > 0 && message.at("reasoning"@) is Str ==> reply.reasoning
                        == first + "\n"@ + second
                },
                Err(error) => {
                    &&& content.len() == 0 && first.len() == 0 && second.len() == 0
                    &&& error.code == "invalid_provider_response"@
                },
            }
        }),
{
    reveal_strlit("\n");
    assert(Seq::<char>::empty().len() == 0);
}

/// One more block of an Anthropic reply adds its text to the answer, or its thinking to the
/// reasoning, at the end; a block of another type adds nothing.
pub proof fn anthropic_blocks_keep_reasoning_apart(
    body: JsonView,
    longer: JsonView,
    block: JsonView,
    said: Seq<char>,
)
    requires
        longer.at("content"@) == JsonView::Array(body.at("content"@).items_or_empty().push(block)),
    ensures
        block.at("type"@) == JsonView::Str("text"@) && block.at("text"@) == JsonView::Str(said) ==> {
            &&& anthropic_split(longer).0 == anthropic_split(body).0 + said
            &&& anthropic_split(longer).1 == anthropic_split(body).1
        },
        block.at("type"@) == JsonView::Str("thinking"@) && block.at("thinking"@) == JsonView::Str(
            said,
        ) ==> {
            &&& anthropic_split(longer).0 == anthropic_split(body).0
            &&& anthropic_split(longer).1 == anthropic_split(body).1 + "\n\n"@ + said || (
            anthropic_split(body).1.len() == 0 && anthropic_split(longer).1 == said)
        },
        block.at("type"@) != JsonView::Str("text"@) && block.at("type"@) != JsonView::Str(
            "thinking"@,
        ) ==> anthropic_split(longer) == anthropic_split(body),
        body.at("content"@).items_or_empty().len() == 0 ==> anthropic_split(body) == (
            Seq::<char>::empty(),
            Seq::<char>::empty(),
        ),
{
    names_are_told_apart();
    let blocks = body.at("content"@).items_or_empty();
    let text = |b: JsonView| text_of_type(b, "text"@, "text"@);
    let thinking = |b: JsonView| text_of_type(b, "thinking"@, "thinking"@);
    picked_push(blocks, block, text);
    picked_push(blocks, block, thinking);
    if let Some(more) = text(block) {
        lemma_run_together_push(picked(blocks, text), more);
    }
    if let Some(more) = thinking(block) {
        joined_push(picked(blocks, thinking), more, "\n\n"@);
    }
}

proof fn lemma_run_together_push(parts: Seq<Seq<char>>, part: Seq<char>)
    ensures
        run_together(parts.push(part)) == run_together(parts) + part,
{
    joined_push(parts, part, Seq::empty());
    assert(run_together(parts) + Seq::<char>::empty() + part =~= run_together(parts) + part);
    assert(parts.len() == 0 ==> run_together(parts) + part =~= part);
}

/// An Anthropic reply is its text and its thinking, each in its place.
pub proof fn anthropic_replies_keep_reasoning_apart(body: JsonView)
    ensures
        match reply_of(RequestKind::Anthropic, body) {
            Ok(reply) => {
                &&& reply.text == anthropic_split(body).0
                &&& reply.reasoning == anthropic_split(body).1
                &&& reply.response_id is None
            },
            Err(error) => {
                &&& anthropic_split(body).0.len() == 0 && anthropic_split(body).1.len() == 0
                &&& error.code == "invalid_provider_response"@
            },
        },
{
}

/// A Responses reply is its own text where it has one, and carries its id; without text it is
/// refused.
pub proof fn responses_replies_are_read(body: JsonView)
    ensures
        match reply_of(RequestKind::OpenAiResponses, body) {
            Ok(reply) => {
                &&& body.at("output_text"@) is Str ==> body.at("output_text"@) == JsonView::Str(
                    reply.text,
                )
                &&& !(body.at("output_text"@) is Str) ==> reply.text.len() > 0
                &&& reply.response_id == body.at("id"@).text()
            },
            Err(error) => !(body.at("output_text"@) is Str) && error.code == "invalid_request"@,
        },
{
}

/// One more item of a Responses output adds its text to the answer, unless it is reasoning; then its
/// summary is added to the reasoning and nothing to the answer.
pub proof fn responses_items_keep_reasoning_apart(
    body: JsonView,
    longer: JsonView,
    item: JsonView,
    part: JsonView,
    said: Seq<char>,
)
    requires
        !(body.at("output_text"@) is Str),
        !(longer.at("output_text"@) is Str),
        body.at("output"@) is Array,
        longer.at("output"@) == JsonView::Array(body.at("output"@).items_or_empty().push(item)),
        part.at("text"@) == JsonView::Str(said),
        !is_blank(said),
    ensures
        ({
            let answer = match responses_answer(body) {
                Some(text) => text,
                None => Seq::empty(),
            };
            let thought = match responses_thought(body) {
                Some(text) => text,
                None => Seq::empty(),
            };
            &&& item.at("type"@) == JsonView::Str("reasoning"@) && item.at("summary"@)
                == JsonView::Array(seq![part]) ==> {
                &&& responses_answer(longer) == responses_answer(body)
                &&& responses_thought(longer) == Some(
                    if responses_thought(body) is Some {
                        thought + "\n\n"@ + said
                    } else {
                        said
                    },
                )
            }
            &&& item.at("type"@) != JsonView::Str("reasoning"@) && item.at("content"@)
                == JsonView::Array(seq![part]) ==> {
                &&& responses_answer(longer) == Some(answer + said)
                &&& responses_thought(longer) == responses_thought(body)
            }
        }),
{
    let items = body.at("output"@).items_or_empty();
    let texts = |i: JsonView| answer_texts(i);
    let thoughts = |i: JsonView| summary_texts(i);
    assert(items.push(item).drop_last() =~= items);
    let before = gathered_lists(items, texts);
    let known = gathered_lists(items, thoughts);
    assert(said.len() > 0);
    assert(before + Seq::<Seq<char>>::empty() =~= before);
    assert(known + Seq::<Seq<char>>::empty() =~= known);
    let pick = |p: JsonView| p.at("text"@).text();
    let pick_summary = |p: JsonView| summary_text(p);
    assert(seq![part].drop_last() =~= Seq::empty());
    assert(picked(seq![part].drop_last(), pick) =~= Seq::empty());
    assert(picked(seq![part].drop_last(), pick_summary) =~= Seq::empty());
    assert(picked(seq![part], pick) =~= seq![said]);
    assert(picked(seq![part], pick_summary) =~= seq![said]);
    assert(before + seq![said] =~= before.push(said));
    assert(known + seq![said] =~= known.push(said));
    lemma_run_together_push(before, said);
    joined_push(known, said, "\n\n"@);
    assert(Seq::<char>::empty() + said =~= said);
    assert(run_together(before).len() == 0 ==> run_together(before) =~= Seq::empty());
}

/// A call that is read has the id, the name and the arguments that the model gave it, in both
/// dialects.
pub proof fn calls_are_read_as_given(call: JsonView)
    ensures
        anthropic_call(call) is Some <==> call.at("id"@) is Str && call.at("name"@) is Str,
        anthropic_call(call) matches Some(read) ==> {
            &&& call.at("id"@) == JsonView::Str(read.id)
            &&& call.at("name"@) == JsonView::Str(read.name)
            &&& call.at("input"@) == read.input
        },
        chat_call(call) is Some <==> call.at("id"@) is Str && call.at("function"@).at(
            "name"@,
        ) is Str,
        chat_call(call) matches Some(read) ==> {
            &&& call.at("id"@) == JsonView::Str(read.id)
            &&& call.at("function"@).at("name"@) == JsonView::Str(read.name)
            &&& call.at("function"@).at("arguments"@) is Str ==> match parsed_json(
                call.at("function"@).at("arguments"@).text_or_empty(),
            ) {
                Some(arguments) => read.input == arguments,
                None => read.input == JsonView::object(),
            }
            &&& !(call.at("function"@).at("arguments"@) is Str) ==> match parsed_json("{}"@) {
                Some(arguments) => read.input == arguments,
                None => read.input == JsonView::object(),
            }
        },
{
}

/// A message of the assistant joins the transcript as it is; where there is none, an empty one of
/// the assistant does.
pub proof fn assistant_messages_are_kept(message: JsonView)
    ensures
        message is Object ==> assistant(Some(message)) == message,
        !(message is Object) ==> assistant(Some(message)).at("role"@) == JsonView::Str(
            "assistant"@,
        ),
        assistant(None).at("role"@) == JsonView::Str("assistant"@),
        assistant(None).field("tool_calls"@) is None,
{
    names_are_told_apart();
    reveal_strlit("tool_calls");
    assert("tool_calls"@.len() == 10);
}

} // verus!
