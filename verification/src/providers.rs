//! Provider requests: which dialect an endpoint speaks, where a request goes and what it says.

use vstd::prelude::*;
use vstd::string::*;

use crate::json::{views, views_push, Json, JsonNumber, JsonView};
use crate::names::names_are_told_apart;
use crate::picking::{picked, picked_ends, picked_from, picked_push, picked_step};
use crate::search::{ends_with, trim_end_of, trimmed_end_of, trimmed_end_of_facts};
use crate::text::{join, joined, joined_push, opt_text, same, texts};
use crate::web_tools::{tool_definitions, web_tool_definitions};

verus! {

// ---------------------------------------------------------------- dialects

/// Which wire dialect a provider endpoint speaks. Parsed once per call so the request builder has
/// a single place to branch on.
#[derive(Debug, Clone, Copy, PartialEq, Eq, Structural)]
pub enum RequestKind {
    OpenAiChat,
    OpenAiResponses,
    Anthropic,
}

/// The dialect that a stored kind names; a kind of another spelling is the Chat dialect.
pub open spec fn kind_of(kind: Seq<char>) -> RequestKind {
    if kind == "anthropic"@ {
        RequestKind::Anthropic
    } else if kind == "openai_responses"@ {
        RequestKind::OpenAiResponses
    } else {
        RequestKind::OpenAiChat
    }
}

impl RequestKind {
    /// The dialect that a stored kind names.
    pub fn parse(kind: &str) -> (r: Self)
        ensures
            r == kind_of(kind@),
    {
        if same(kind, "anthropic") {
            RequestKind::Anthropic
        } else if same(kind, "openai_responses") {
            RequestKind::OpenAiResponses
        } else {
            RequestKind::OpenAiChat
        }
    }
}

/// Who does the searching: the agent loop hands the model our own search functions, while a
/// provider with hosted tools runs them on its side.
#[derive(Debug, Clone, Copy, PartialEq, Eq, Structural)]
pub enum Tools {
    Without,
    Retrieved,
    Hosted,
}

// ---------------------------------------------------------------- addresses

/// `base` where it already ends with the whole path of an endpoint, else `base` with what is
/// missing of it.
pub open spec fn completed(
    base: Seq<char>,
    full: Seq<char>,
    version: Seq<char>,
    rest: Seq<char>,
    missing: Seq<char>,
) -> Seq<char> {
    if full.is_suffix_of(base) {
        base
    } else if version.is_suffix_of(base) {
        base + rest
    } else {
        base + missing
    }
}

/// The address of the endpoint of a dialect at a provider.
pub open spec fn endpoint(kind: RequestKind, base: Seq<char>) -> Seq<char> {
    let base = trimmed_end_of(base, '/');
    match kind {
        RequestKind::Anthropic => completed(
            base,
            "/v1/messages"@,
            "/v1"@,
            "/messages"@,
            "/v1/messages"@,
        ),
        RequestKind::OpenAiResponses => completed(
            base,
            "/responses"@,
            "/v1"@,
            "/responses"@,
            "/v1/responses"@,
        ),
        RequestKind::OpenAiChat => completed(
            base,
            "/chat/completions"@,
            "/v1"@,
            "/chat/completions"@,
            "/v1/chat/completions"@,
        ),
    }
}

fn complete(base: &str, full: &str, rest: &str, missing: &str) -> (r: String)
    ensures
        r@ == completed(base@, full@, "/v1"@, rest@, missing@),
{
    if ends_with(base, full) {
        base.to_owned()
    } else if ends_with(base, "/v1") {
        base.to_owned().concat(rest)
    } else {
        base.to_owned().concat(missing)
    }
}

/// The address of the endpoint of a dialect at a provider.
pub fn provider_url(kind: RequestKind, base: &str) -> (r: String)
    ensures
        r@ == endpoint(kind, base@),
{
    let base = trim_end_of(base, '/');
    match kind {
        RequestKind::Anthropic => complete(base, "/v1/messages", "/messages", "/v1/messages"),
        RequestKind::OpenAiResponses => complete(base, "/responses", "/responses", "/v1/responses"),
        RequestKind::OpenAiChat => complete(
            base,
            "/chat/completions",
            "/chat/completions",
            "/v1/chat/completions",
        ),
    }
}

proof fn lemma_suffix(a: Seq<char>, b: Seq<char>, full: Seq<char>)
    requires
        full.is_suffix_of(b) || (exists|x: Seq<char>, y: Seq<char>|
            x.is_suffix_of(a) && y == b && full == #[trigger] (x + y)),
    ensures
        full.is_suffix_of(a + b),
{
    let s = a + b;
    if full.is_suffix_of(b) {
        assert(full =~= s.subrange(s.len() - full.len(), s.len() as int));
    } else {
        let (x, y) = choose|x: Seq<char>, y: Seq<char>|
            x.is_suffix_of(a) && y == b && full == #[trigger] (x + y);
        assert(full =~= s.subrange(s.len() - full.len(), s.len() as int));
    }
}

/// An endpoint address may itself be configured as the base: completing it again changes nothing.
pub proof fn endpoint_is_stable(kind: RequestKind, base: Seq<char>)
    ensures
        endpoint(kind, endpoint(kind, base)) == endpoint(kind, base),
{
    reveal_strlit("/v1");
    reveal_strlit("/v1/messages");
    reveal_strlit("/messages");
    reveal_strlit("/responses");
    reveal_strlit("/v1/responses");
    reveal_strlit("/chat/completions");
    reveal_strlit("/v1/chat/completions");
    let b = trimmed_end_of(base, '/');
    let e = endpoint(kind, base);
    trimmed_end_of_facts(base, '/');
    let full = match kind {
        RequestKind::Anthropic => "/v1/messages"@,
        RequestKind::OpenAiResponses => "/responses"@,
        RequestKind::OpenAiChat => "/chat/completions"@,
    };
    assert(full.is_suffix_of(e)) by {
        if full.is_suffix_of(b) {
        } else if "/v1"@.is_suffix_of(b) {
            if kind == RequestKind::Anthropic {
                assert(full =~= "/v1"@ + "/messages"@);
                lemma_suffix(b, "/messages"@, full);
            } else {
                assert(full =~= full.subrange(0, full.len() as int));
                lemma_suffix(b, full, full);
            }
        } else {
            match kind {
                RequestKind::Anthropic => {
                    assert(full =~= full.subrange(0, full.len() as int));
                    lemma_suffix(b, full, full);
                },
                RequestKind::OpenAiResponses => {
                    let long = "/v1/responses"@;
                    assert(full =~= long.subrange(long.len() - full.len(), long.len() as int));
                    lemma_suffix(b, long, full);
                },
                RequestKind::OpenAiChat => {
                    let long = "/v1/chat/completions"@;
                    assert(full =~= long.subrange(long.len() - full.len(), long.len() as int));
                    lemma_suffix(b, long, full);
                },
            }
        }
    }
    assert(full == e.subrange(e.len() - full.len(), e.len() as int));
    assert(e.last() == full.last());
    assert(full.last() != '/');
}

// ---------------------------------------------------------------- bodies

/// The turns of a transcript as Responses input: the role and content of each message that has a
/// role.
pub open spec fn input_item(message: JsonView) -> Option<JsonView> {
    match message.at("role"@).text() {
        Some(role) => Some(
            JsonView::object().with("role"@, JsonView::Str(role)).with(
                "content"@,
                message.at("content"@),
            ),
        ),
        None => None,
    }
}

/// Responses never runs the agent loop (it searches on its own side), so the transcript it
/// receives is plain role and content turns.
pub fn responses_input(messages: &Vec<Json>) -> (r: Vec<Json>)
    ensures
        views(r@) == picked(views(messages@), |m: JsonView| input_item(m)),
{
    let ghost pick = |m: JsonView| input_item(m);
    let mut out: Vec<Json> = Vec::new();
    proof {
        picked_ends(views(messages@), pick);
        assert(views(out@) =~= Seq::empty());
    }
    for i in 0..messages.len()
        invariant
            pick == (|m: JsonView| input_item(m)),
            views(out@) == picked(views(messages@).take(i as int), pick),
    {
        let message = &messages[i];
        proof {
            picked_step(views(messages@), pick, i as int);
        }
        if let Some(role) = message.at("role").as_str() {
            let item = Json::object().with("role", Json::text(role)).with(
                "content",
                message.at("content").clone(),
            );
            proof {
                views_push(out@, item);
            }
            out.push(item);
        }
    }
    proof {
        picked_ends(views(messages@), pick);
    }
    out
}

/// An object that says its type and nothing else.
pub open spec fn typed(name: Seq<char>) -> JsonView {
    JsonView::object().with("type"@, JsonView::Str(name))
}

/// The tools that Responses runs on its own side.
pub open spec fn hosted_responses_tools() -> Seq<JsonView> {
    seq![
        typed("web_search_preview"@),
        typed("code_interpreter"@).with("container"@, typed("auto"@)),
    ]
}

/// Hosted tools the Responses API runs on its own side: no call ever comes back to us, so these
/// need no executor.
///
/// `web_search_preview` rather than the newer `web_search` spelling: that keeps the tool name the
/// gateways are known to accept, so a failure here points at `code_interpreter`.
pub fn responses_tools() -> (r: Vec<Json>)
    ensures
        views(r@) == hosted_responses_tools(),
{
    let search = Json::object().with("type", Json::text("web_search_preview"));
    let container = Json::object().with("type", Json::text("auto"));
    let interpreter = Json::object().with("type", Json::text("code_interpreter")).with(
        "container",
        container,
    );
    let mut out: Vec<Json> = Vec::new();
    out.push(search);
    out.push(interpreter);
    assert(views(out@) =~= hosted_responses_tools());
    out
}

/// A hosted Anthropic tool: its versioned type and the name the model calls it by.
pub open spec fn hosted_tool(version: Seq<char>, name: Seq<char>) -> JsonView {
    typed(version).with("name"@, JsonView::Str(name))
}

/// The tools that Anthropic runs on its own side.
pub open spec fn hosted_anthropic_tools() -> Seq<JsonView> {
    seq![
        hosted_tool("web_search_20250305"@, "web_search"@),
        hosted_tool("web_fetch_20250910"@, "web_fetch"@),
        hosted_tool("code_execution_20250825"@, "code_execution"@),
    ]
}

/// Hosted tools the Anthropic API runs on its own side. The versions are the ones that need no
/// beta header and no paired code-execution version.
pub fn anthropic_tools() -> (r: Vec<Json>)
    ensures
        views(r@) == hosted_anthropic_tools(),
{
    let search = Json::object().with("type", Json::text("web_search_20250305")).with(
        "name",
        Json::text("web_search"),
    );
    let fetch = Json::object().with("type", Json::text("web_fetch_20250910")).with(
        "name",
        Json::text("web_fetch"),
    );
    let code = Json::object().with("type", Json::text("code_execution_20250825")).with(
        "name",
        Json::text("code_execution"),
    );
    let mut out: Vec<Json> = Vec::new();
    out.push(search);
    out.push(fetch);
    out.push(code);
    assert(views(out@) =~= hosted_anthropic_tools());
    out
}

/// The text of a system message.
pub open spec fn system_text(message: JsonView) -> Option<Seq<char>> {
    if message.at("role"@).is_text("system"@) {
        message.at("content"@).text()
    } else {
        None
    }
}

/// A message that is not a system message.
pub open spec fn turn_message(message: JsonView) -> Option<JsonView> {
    if message.at("role"@).is_text("system"@) {
        None
    } else {
        Some(message)
    }
}

/// The system messages of a transcript as one text.
pub open spec fn system_prompt(messages: Seq<JsonView>) -> Seq<char> {
    joined(picked(messages, |m: JsonView| system_text(m)), "\n\n"@)
}

/// The messages of a transcript that are not system messages.
pub open spec fn turns(messages: Seq<JsonView>) -> Seq<JsonView> {
    picked(messages, |m: JsonView| turn_message(m))
}

fn join_system(messages: &Vec<Json>) -> (r: String)
    ensures
        r@ == system_prompt(views(messages@)),
{
    let ghost pick = |m: JsonView| system_text(m);
    let mut out: Vec<String> = Vec::new();
    proof {
        picked_ends(views(messages@), pick);
        assert(texts(out@) =~= Seq::empty());
    }
    for i in 0..messages.len()
        invariant
            pick == (|m: JsonView| system_text(m)),
            texts(out@) == picked(views(messages@).take(i as int), pick),
    {
        let message = &messages[i];
        let ghost before = texts(out@);
        proof {
            picked_step(views(messages@), pick, i as int);
        }
        if message.at("role").is_str("system") {
            if let Some(content) = message.at("content").as_str() {
                out.push(content.to_owned());
                assert(texts(out@) =~= before.push(content@));
            }
        }
    }
    proof {
        picked_ends(views(messages@), pick);
    }
    join(&out, "\n\n")
}

fn keep_turns(messages: &Vec<Json>) -> (r: Vec<Json>)
    ensures
        views(r@) == turns(views(messages@)),
{
    let ghost pick = |m: JsonView| turn_message(m);
    let mut out: Vec<Json> = Vec::new();
    proof {
        picked_ends(views(messages@), pick);
        assert(views(out@) =~= Seq::empty());
    }
    for i in 0..messages.len()
        invariant
            pick == (|m: JsonView| turn_message(m)),
            views(out@) == picked(views(messages@).take(i as int), pick),
    {
        let message = &messages[i];
        proof {
            picked_step(views(messages@), pick, i as int);
        }
        if !message.at("role").is_str("system") {
            let copy = message.clone();
            proof {
                views_push(out@, copy);
            }
            out.push(copy);
        }
    }
    proof {
        picked_ends(views(messages@), pick);
    }
    out
}

/// What a request asks for, apart from the transcript.
pub struct Ask {
    pub model: Seq<char>,
    pub temperature: Option<JsonView>,
    pub reasoning_effort: Option<Seq<char>>,
    pub tools: Tools,
    pub stream: bool,
    pub chain: Option<Seq<char>>,
}

/// A string value, where there is a string.
pub open spec fn maybe_text(s: Option<Seq<char>>) -> Option<JsonView> {
    match s {
        Some(s) => Some(JsonView::Str(s)),
        None => None,
    }
}

/// A value, where a condition holds.
pub open spec fn when(condition: bool, value: JsonView) -> Option<JsonView> {
    if condition {
        Some(value)
    } else {
        None
    }
}

/// The body of a request in the dialect of its endpoint.
pub open spec fn request_body(kind: RequestKind, messages: Seq<JsonView>, ask: Ask) -> JsonView {
    let head = JsonView::object().with("model"@, JsonView::Str(ask.model)).with_some(
        "temperature"@,
        ask.temperature,
    );
    match kind {
        RequestKind::OpenAiResponses => head.with(
            "input"@,
            JsonView::Array(picked(messages, |m: JsonView| input_item(m))),
        ).with_some("previous_response_id"@, maybe_text(ask.chain)).with_some(
            "tools"@,
            when(ask.tools == Tools::Hosted, JsonView::Array(hosted_responses_tools())),
        ).with_some(
            "reasoning"@,
            match ask.reasoning_effort {
                Some(effort) => Some(
                    JsonView::object().with("effort"@, JsonView::Str(effort)).with(
                        "summary"@,
                        JsonView::Str("auto"@),
                    ),
                ),
                None => None,
            },
        ).with_some("stream"@, when(ask.stream, JsonView::Bool(true))),
        RequestKind::Anthropic => head.with(
            "max_tokens"@,
            JsonView::Number(JsonNumber::Natural(8192)),
        ).with("messages"@, JsonView::Array(turns(messages))).with_some(
            "system"@,
            when(system_prompt(messages).len() > 0, JsonView::Str(system_prompt(messages))),
        ).with_some(
            "tools"@,
            match ask.tools {
                Tools::Retrieved => Some(tool_definitions("anthropic"@)),
                Tools::Hosted => Some(JsonView::Array(hosted_anthropic_tools())),
                Tools::Without => None,
            },
        ).with_some("stream"@, when(ask.stream, JsonView::Bool(true))),
        RequestKind::OpenAiChat => head.with("messages"@, JsonView::Array(messages)).with(
            "stream"@,
            JsonView::Bool(ask.stream),
        ).with_some(
            "tools"@,
            when(ask.tools == Tools::Retrieved, tool_definitions("openai_compatible"@)),
        ).with_some("reasoning_effort"@, maybe_text(ask.reasoning_effort)),
    }
}

/// A provider request, already shaped for its dialect.
pub struct Outbound {
    pub url: String,
    pub body: Json,
    pub anthropic: bool,
}

/// The view of an optional value.
pub open spec fn opt_view(v: Option<Json>) -> Option<JsonView> {
    match v {
        Some(v) => Some(v@),
        None => None,
    }
}

/// Shapes a request for the dialect of its endpoint. The temperature is the number to send.
pub fn build_request(
    kind: &str,
    base: &str,
    model: &str,
    messages: &Vec<Json>,
    temperature: Option<Json>,
    reasoning_effort: Option<&str>,
    tools: Tools,
    stream: bool,
    chain: Option<&str>,
) -> (r: Outbound)
    ensures
        r.url@ == endpoint(kind_of(kind@), base@),
        r.anthropic == (kind_of(kind@) == RequestKind::Anthropic),
        r.body@ == request_body(
            kind_of(kind@),
            views(messages@),
            Ask {
                model: model@,
                temperature: opt_view(temperature),
                reasoning_effort: opt_text(reasoning_effort),
                tools,
                stream,
                chain: opt_text(chain),
            },
        ),
{
    let kind = RequestKind::parse(kind);
    let url = provider_url(kind, base);
    let mut body = Json::object().with("model", Json::text(model));
    if let Some(value) = temperature {
        body.set("temperature", value);
    }
    match kind {
        RequestKind::OpenAiResponses => {
            body.set("input", Json::Array(responses_input(messages)));
            if let Some(id) = chain {
                body.set("previous_response_id", Json::text(id));
            }
            if tools == Tools::Hosted {
                body.set("tools", Json::Array(responses_tools()));
            }
            if let Some(value) = reasoning_effort {
                // Responses exposes no raw chain of thought; the summary is all there is.
                body.set(
                    "reasoning",
                    Json::object().with("effort", Json::text(value)).with(
                        "summary",
                        Json::text("auto"),
                    ),
                );
            }
            if stream {
                body.set("stream", Json::Bool(true));
            }
            Outbound { url, body, anthropic: false }
        },
        RequestKind::Anthropic => {
            let system = join_system(messages);
            body.set("max_tokens", Json::natural(8192));
            body.set("messages", Json::Array(keep_turns(messages)));
            if !system.as_str().is_empty() {
                body.set("system", Json::Str(system));
            }
            match tools {
                Tools::Retrieved => body.set("tools", web_tool_definitions("anthropic")),
                Tools::Hosted => body.set("tools", Json::Array(anthropic_tools())),
                Tools::Without => {},
            }
            if stream {
                body.set("stream", Json::Bool(true));
            }
            Outbound { url, body, anthropic: true }
        },
        RequestKind::OpenAiChat => {
            body.set("messages", Json::Array(crate::json::copy_all(messages)));
            body.set("stream", Json::Bool(stream));
            if tools == Tools::Retrieved {
                body.set("tools", web_tool_definitions("openai_compatible"));
            }
            if let Some(value) = reasoning_effort {
                body.set("reasoning_effort", Json::text(value));
            }
            Outbound { url, body, anthropic: false }
        },
    }
}

/// The request of a turn of the agent loop: our own tools, no stream and no chain.
pub fn tool_turn_request(
    kind: &str,
    base: &str,
    model: &str,
    messages: &Vec<Json>,
    temperature: Option<Json>,
    reasoning_effort: Option<&str>,
) -> (r: Outbound)
    ensures
        r.url@ == endpoint(kind_of(kind@), base@),
        r.anthropic == (kind_of(kind@) == RequestKind::Anthropic),
        r.body@ == request_body(
            kind_of(kind@),
            views(messages@),
            Ask {
                model: model@,
                temperature: opt_view(temperature),
                reasoning_effort: opt_text(reasoning_effort),
                tools: Tools::Retrieved,
                stream: false,
                chain: None,
            },
        ),
{
    build_request(
        kind,
        base,
        model,
        messages,
        temperature,
        reasoning_effort,
        Tools::Retrieved,
        false,
        None,
    )
}

// ---------------------------------------------------------------- headers

/// The headers that carry the provider's key: Anthropic's own, and the version of its interface,
/// or a bearer token.
pub open spec fn key_headers(anthropic: bool, key: Seq<char>) -> Seq<(Seq<char>, Seq<char>)> {
    if anthropic {
        seq![("x-api-key"@, key), ("anthropic-version"@, "2023-06-01"@)]
    } else {
        seq![("authorization"@, "Bearer "@ + key)]
    }
}

/// The views of a list of headers.
pub open spec fn header_views(headers: Seq<(&'static str, String)>) -> Seq<(Seq<char>, Seq<char>)> {
    headers.map_values(|h: (&'static str, String)| (h.0@, h.1@))
}

/// The headers that carry the provider's key.
pub fn request_headers(anthropic: bool, key: &str) -> (r: Vec<(&'static str, String)>)
    ensures
        header_views(r@) == key_headers(anthropic, key@),
{
    let mut out: Vec<(&'static str, String)> = Vec::new();
    if anthropic {
        out.push(("x-api-key", key.to_owned()));
        out.push(("anthropic-version", "2023-06-01".to_owned()));
    } else {
        out.push(("authorization", "Bearer ".to_owned().concat(key)));
    }
    assert(header_views(out@) =~= key_headers(anthropic, key@));
    out
}

// ---------------------------------------------------------------- laws

/// What is known of the keys of a request.
proof fn lemma_request_keys()
    ensures
        "model"@ != "temperature"@,
        "model"@ != "messages"@,
        "model"@ != "stream"@,
        "model"@ != "tools"@,
        "model"@ != "reasoning_effort"@,
        "model"@ != "input"@,
        "model"@ != "previous_response_id"@,
        "model"@ != "reasoning"@,
        "model"@ != "max_tokens"@,
        "model"@ != "system"@,
        "tools"@ != "temperature"@,
        "tools"@ != "messages"@,
        "tools"@ != "stream"@,
        "tools"@ != "reasoning_effort"@,
{
    reveal_strlit("model");
    reveal_strlit("temperature");
    reveal_strlit("messages");
    reveal_strlit("stream");
    reveal_strlit("tools");
    reveal_strlit("reasoning_effort");
    reveal_strlit("input");
    reveal_strlit("previous_response_id");
    reveal_strlit("reasoning");
    reveal_strlit("max_tokens");
    reveal_strlit("system");
    assert("model"@[0] == 'm' && "tools"@[0] == 't' && "input"@[0] == 'i');
    assert("model"@.len() == 5 && "tools"@.len() == 5);
    assert("temperature"@.len() == 11 && "messages"@.len() == 8 && "stream"@.len() == 6);
    assert("reasoning_effort"@.len() == 16 && "previous_response_id"@.len() == 20);
    assert("reasoning"@.len() == 9 && "max_tokens"@.len() == 10 && "system"@.len() == 6);
}

/// A Chat endpoint has no hosted tools, so it is never sent any: only our own tools ever reach it.
pub proof fn chat_is_sent_no_hosted_tools(messages: Seq<JsonView>, ask: Ask)
    requires
        ask.tools != Tools::Retrieved,
    ensures
        request_body(RequestKind::OpenAiChat, messages, ask).field("tools"@) is None,
{
    lemma_request_keys();
}

/// Whatever the dialect, a request names the model that was asked for.
pub proof fn requests_name_their_model(kind: RequestKind, messages: Seq<JsonView>, ask: Ask)
    ensures
        request_body(kind, messages, ask).field("model"@) == Some(JsonView::Str(ask.model)),
{
    lemma_request_keys();
}

/// Anthropic takes system messages apart from the turns: none of them is among the turns.
pub proof fn turns_are_not_system_messages(messages: Seq<JsonView>, i: int)
    requires
        0 <= i < turns(messages).len(),
    ensures
        !turns(messages)[i].at("role"@).is_text("system"@),
        messages.contains(turns(messages)[i]),
{
    let pick = |m: JsonView| turn_message(m);
    let at = picked_from(messages, pick, i);
    assert(messages[at] == turns(messages)[i]);
}

/// Whatever the dialect, a request asks for a stream exactly where one was asked for.
pub proof fn requests_stream_when_asked(kind: RequestKind, messages: Seq<JsonView>, ask: Ask)
    ensures
        request_body(kind, messages, ask).at("stream"@) == JsonView::Bool(true) <==> ask.stream,
        kind == RequestKind::OpenAiChat ==> request_body(kind, messages, ask).at("stream"@)
            == JsonView::Bool(ask.stream),
        kind != RequestKind::OpenAiChat && !ask.stream ==> request_body(kind, messages, ask).field(
            "stream"@,
        ) is None,
{
    names_are_told_apart();
}

/// A request carries the temperature, the effort and the chain that were asked for, where its
/// dialect knows them, and none where none was asked for.
pub proof fn requests_carry_their_settings(kind: RequestKind, messages: Seq<JsonView>, ask: Ask)
    ensures
        ({
            let body = request_body(kind, messages, ask);
            let responses = kind == RequestKind::OpenAiResponses;
            &&& body.field("temperature"@) == ask.temperature
            &&& body.at("previous_response_id"@).text() == if responses {
                ask.chain
            } else {
                None
            }
            &&& body.at("reasoning"@).at("effort"@).text() == if responses {
                ask.reasoning_effort
            } else {
                None
            }
            &&& body.field("reasoning"@) is Some ==> body.at("reasoning"@).at("summary"@).is_text(
                "auto"@,
            )
            &&& body.at("reasoning_effort"@).text() == if kind == RequestKind::OpenAiChat {
                ask.reasoning_effort
            } else {
                None
            }
            &&& body.field("max_tokens"@) is Some <==> kind == RequestKind::Anthropic
            &&& kind == RequestKind::Anthropic ==> body.at("max_tokens"@).natural() == Some(8192u64)
        }),
{
    names_are_told_apart();
}

/// A Chat request carries the transcript as it is; the other dialects carry it under their own
/// names, and none under two.
pub proof fn requests_carry_the_transcript(kind: RequestKind, messages: Seq<JsonView>, ask: Ask)
    ensures
        ({
            let body = request_body(kind, messages, ask);
            &&& kind == RequestKind::OpenAiChat ==> body.at("messages"@).items() == Some(messages)
            &&& kind == RequestKind::OpenAiResponses <==> body.field("input"@) is Some
            &&& kind == RequestKind::OpenAiResponses <==> body.field("messages"@) is None
            &&& kind == RequestKind::Anthropic ==> body.at("messages"@).items() == Some(
                turns(messages),
            )
            &&& kind == RequestKind::Anthropic ==> body.at("system"@).text_or_empty()
                == system_prompt(messages)
            &&& kind != RequestKind::Anthropic ==> body.field("system"@) is None
        }),
{
    names_are_told_apart();
    assert(system_prompt(messages).len() == 0 ==> system_prompt(messages) =~= Seq::empty());
}

/// One more message of the conversation becomes one more item of a Responses input, with its own
/// role and its own content, behind those before it.
pub proof fn responses_input_keeps_messages(
    messages: Seq<JsonView>,
    message: JsonView,
    role: Seq<char>,
    ask: Ask,
)
    requires
        message.at("role"@) == JsonView::Str(role),
    ensures
        ({
            let before = request_body(RequestKind::OpenAiResponses, messages, ask).at(
                "input"@,
            ).items_or_empty();
            let after = request_body(
                RequestKind::OpenAiResponses,
                messages.push(message),
                ask,
            ).at("input"@).items_or_empty();
            &&& after.len() == before.len() + 1
            &&& before.is_prefix_of(after)
            &&& after.last().at("role"@) == message.at("role"@)
            &&& after.last().at("content"@) == message.at("content"@)
        }),
{
    names_are_told_apart();
    picked_push(messages, message, |m: JsonView| input_item(m));
    let before = picked(messages, |m: JsonView| input_item(m));
    let after = picked(messages.push(message), |m: JsonView| input_item(m));
    assert(before =~= after.subrange(0, before.len() as int));
}

/// One more message of the conversation becomes one more turn of an Anthropic request, unchanged,
/// unless it is a system message; then its text ends the system prompt.
pub proof fn anthropic_requests_keep_messages(messages: Seq<JsonView>, message: JsonView, ask: Ask)
    ensures
        ({
            let before = request_body(RequestKind::Anthropic, messages, ask);
            let after = request_body(RequestKind::Anthropic, messages.push(message), ask);
            let prompt = before.at("system"@).text_or_empty();
            if message.at("role"@).is_text("system"@) {
                &&& after.at("messages"@) == before.at("messages"@)
                &&& message.at("content"@).text() matches Some(text) ==> {
                    let more = after.at("system"@).text_or_empty();
                    &&& more == prompt + "\n\n"@ + text || (prompt.len() == 0 && more == text)
                }
            } else {
                &&& after.at("messages"@).items_or_empty() == before.at(
                    "messages"@,
                ).items_or_empty().push(message)
                &&& after.at("system"@) == before.at("system"@)
            }
        }),
{
    names_are_told_apart();
    picked_push(messages, message, |m: JsonView| system_text(m));
    picked_push(messages, message, |m: JsonView| turn_message(m));
    assert(system_prompt(messages).len() == 0 ==> system_prompt(messages) =~= Seq::empty());
    let all = messages.push(message);
    assert(system_prompt(all).len() == 0 ==> system_prompt(all) =~= Seq::empty());
    if let Some(text) = system_text(message) {
        let parts = picked(messages, |m: JsonView| system_text(m));
        joined_push(parts, text, "\n\n"@);
    }
}

/// An endpoint lies at the base that was configured and ends with the path of its dialect; a bare
/// base gets the version before it.
pub proof fn endpoints_lead_to_their_dialect(kind: RequestKind, base: Seq<char>)
    ensures
        ({
            let url = endpoint(kind, base);
            let path = match kind {
                RequestKind::Anthropic => "/messages"@,
                RequestKind::OpenAiResponses => "/responses"@,
                RequestKind::OpenAiChat => "/chat/completions"@,
            };
            let bare = trimmed_end_of(base, '/');
            &&& bare.is_prefix_of(url)
            &&& path.is_suffix_of(url)
            &&& "/v1"@.is_suffix_of(bare) ==> url == bare + path
            &&& kind == RequestKind::Anthropic && "/v1/messages"@.is_suffix_of(bare) ==> url == bare
            &&& kind != RequestKind::Anthropic && path.is_suffix_of(bare) ==> url == bare
            &&& !path.is_suffix_of(bare) && !"/v1"@.is_suffix_of(bare) ==> url == bare + "/v1"@ + path
        }),
{
    reveal_strlit("/v1");
    reveal_strlit("/v1/messages");
    reveal_strlit("/messages");
    reveal_strlit("/responses");
    reveal_strlit("/v1/responses");
    reveal_strlit("/chat/completions");
    reveal_strlit("/v1/chat/completions");
    let url = endpoint(kind, base);
    let bare = trimmed_end_of(base, '/');
    assert(bare =~= url.subrange(0, bare.len() as int));
    assert("/v1/messages"@ =~= "/v1"@ + "/messages"@);
    assert("/v1/responses"@ =~= "/v1"@ + "/responses"@);
    assert("/v1/chat/completions"@ =~= "/v1"@ + "/chat/completions"@);
    let path = match kind {
        RequestKind::Anthropic => "/messages"@,
        RequestKind::OpenAiResponses => "/responses"@,
        RequestKind::OpenAiChat => "/chat/completions"@,
    };
    let full = match kind {
        RequestKind::Anthropic => "/v1/messages"@,
        _ => path,
    };
    assert(bare + ("/v1"@ + path) =~= bare + "/v1"@ + path);
    if full.is_suffix_of(bare) {
        assert(bare.last() == full.last());
        assert(full == bare.subrange(bare.len() - full.len(), bare.len() as int));
        assert(path =~= full.subrange(full.len() - path.len(), full.len() as int));
        assert(path =~= bare.subrange(bare.len() - path.len(), bare.len() as int));
        if "/v1"@.is_suffix_of(bare) {
            assert(bare.last() == "/v1"@.last());
        }
    } else {
        assert(path =~= url.subrange(url.len() - path.len(), url.len() as int));
    }
}

/// The provider's key travels in one header, whole: as it is for Anthropic, as a bearer token
/// otherwise.
pub proof fn keys_travel_whole(anthropic: bool, key: Seq<char>)
    ensures
        ({
            let headers = key_headers(anthropic, key);
            &&& key.is_suffix_of(headers[0].1)
            &&& headers[0].1.len() == if anthropic {
                key.len()
            } else {
                key.len() + 7
            }
            &&& headers[0].0 == if anthropic {
                "x-api-key"@
            } else {
                "authorization"@
            }
            &&& headers.len() == if anthropic {
                2int
            } else {
                1int
            }
            &&& anthropic ==> headers[1] == ("anthropic-version"@, "2023-06-01"@)
            &&& !anthropic ==> "Bearer "@.is_prefix_of(headers[0].1)
        }),
{
    reveal_strlit("Bearer ");
    let carried = key_headers(anthropic, key)[0].1;
    assert(key =~= carried.subrange(carried.len() - key.len(), carried.len() as int));
}

/// Each dialect has a kind of its own, and every other spelling is the Chat dialect.
pub proof fn kinds_are_told_apart(kind: Seq<char>)
    ensures
        kind_of(kind) == RequestKind::Anthropic <==> kind == "anthropic"@,
        kind_of(kind) == RequestKind::OpenAiResponses <==> kind == "openai_responses"@,
{
    names_are_told_apart();
}

/// A request offers tools exactly where it was asked to and its dialect knows them: our own two, or
/// the provider's.
pub proof fn requests_offer_their_tools(kind: RequestKind, messages: Seq<JsonView>, ask: Ask)
    ensures
        ({
            let tools = request_body(kind, messages, ask).field("tools"@);
            let own = request_body(kind, messages, ask).at("tools"@).items_or_empty();
            &&& tools is Some <==> match ask.tools {
                Tools::Without => false,
                Tools::Retrieved => kind != RequestKind::OpenAiResponses,
                Tools::Hosted => kind != RequestKind::OpenAiChat,
            }
            &&& tools is Some && ask.tools == Tools::Hosted ==> {
                &&& kind == RequestKind::Anthropic ==> own.len() == 3 && forall|i: int|
                    0 <= i < 3 ==> (#[trigger] own[i]).at("name"@).text_or_empty().is_prefix_of(
                        own[i].at("type"@).text_or_empty(),
                    )
                &&& kind == RequestKind::Anthropic ==> {
                    &&& own[0].at("name"@).is_text("web_search"@)
                    &&& own[0].at("type"@).is_text("web_search_20250305"@)
                    &&& own[1].at("name"@).is_text("web_fetch"@)
                    &&& own[1].at("type"@).is_text("web_fetch_20250910"@)
                    &&& own[2].at("name"@).is_text("code_execution"@)
                    &&& own[2].at("type"@).is_text("code_execution_20250825"@)
                }
                &&& kind == RequestKind::OpenAiResponses ==> own.len() == 2 && own[0].at(
                    "type"@,
                ).is_text("web_search_preview"@) && own[1].at("type"@).is_text("code_interpreter"@)
                    && own[1].at("container"@).at("type"@).is_text("auto"@)
            }
            &&& tools is Some && ask.tools == Tools::Retrieved ==> {
                &&& own.len() == 2
                &&& kind == RequestKind::Anthropic ==> own[0].at("name"@).is_text("web_search"@)
                    && own[1].at("name"@).is_text("open_web_page"@)
                &&& kind == RequestKind::OpenAiChat ==> own[0].at("function"@).at("name"@).is_text(
                    "web_search"@,
                ) && own[1].at("function"@).at("name"@).is_text("open_web_page"@)
            }
        }),
{
    names_are_told_apart();
    reveal_strlit("web_search_20250305");
    reveal_strlit("web_fetch_20250910");
    reveal_strlit("code_execution_20250825");
    reveal_strlit("web_search");
    reveal_strlit("web_fetch");
    reveal_strlit("code_execution");
    assert("web_search"@ =~= "web_search_20250305"@.subrange(0, 10));
    assert("web_fetch"@ =~= "web_fetch_20250910"@.subrange(0, 9));
    assert("code_execution"@ =~= "code_execution_20250825"@.subrange(0, 14));
    assert(hosted_anthropic_tools()[0].at("name"@).is_text("web_search"@));
    assert(hosted_anthropic_tools()[1].at("name"@).is_text("web_fetch"@));
    assert(hosted_anthropic_tools()[2].at("name"@).is_text("code_execution"@));
}

} // verus!
