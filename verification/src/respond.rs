//! What a turn is made of: what the provider sees, the choice between hosted tools, the agent loop
//! and a plain answer, and the form in which a reply is stored.

use vstd::prelude::*;
use vstd::string::*;

use crate::agent::{make_system_message, system_message};
use crate::content::{
    content_part, content_value, estimate_tokens, plain_texts_are_sent_unchanged,
    seven_characters_take_two_tokens, text_tokens,
};
use crate::error::{bad, ApiError};
use crate::json::{views, views_push, Json, JsonView};
use crate::letters::ascii_lowered;
use crate::models::DEFAULT_WEB_TOOL_ROUNDS;
use crate::names::names_are_told_apart;
use crate::providers::{kind_of, RequestKind, Tools};
use crate::replies::Reply;
use crate::search::holds;
use crate::text::{blank, is_blank, opt_string, opt_text, same};
use crate::thinking::{
    split_text, split_text_is_bounded, split_thinking, strip_thinking, unmarked_text_is_unchanged,
};

verus! {

// ---------------------------------------------------------------- transcripts

/// The formatting instruction.
pub open spec fn instruction(enable_markdown: bool) -> JsonView {
    system_message(
        if enable_markdown {
            "Format the answer with GitHub-flavored Markdown when it improves readability. Use fenced code blocks with a language label for code."@
        } else {
            "Respond in plain text only. Do not use Markdown syntax, headings, lists, tables, fenced code blocks, or inline formatting markers."@
        },
    )
}

/// The formatting instruction. It is sent again with every turn and is not part of the stored
/// chain.
pub fn instruction_message(enable_markdown: bool) -> (r: Json)
    ensures
        r@ == instruction(enable_markdown),
{
    if enable_markdown {
        make_system_message(
            "Format the answer with GitHub-flavored Markdown when it improves readability. Use fenced code blocks with a language label for code.",
        )
    } else {
        make_system_message(
            "Respond in plain text only. Do not use Markdown syntax, headings, lists, tables, fenced code blocks, or inline formatting markers.",
        )
    }
}

/// A message as it is stored.
pub struct StoredMessage {
    pub role: String,
    pub content: String,
    pub images: Json,
}

/// What a stored message says.
pub struct StoredView {
    pub role: Seq<char>,
    pub content: Seq<char>,
    pub images: JsonView,
}

impl View for StoredMessage {
    type V = StoredView;

    open spec fn view(&self) -> StoredView {
        StoredView { role: self.role@, content: self.content@, images: self.images@ }
    }
}

/// The views of stored messages.
pub open spec fn stored_views(rows: Seq<StoredMessage>) -> Seq<StoredView> {
    rows.map_values(|m: StoredMessage| m@)
}

/// A stored message as the provider sees it: without what it hid as thinking, and with its images
/// in the provider's own shape.
pub open spec fn turn_view(kind: RequestKind, supports_images: bool, message: StoredView) -> JsonView {
    JsonView::object().with("role"@, JsonView::Str(message.role)).with(
        "content"@,
        content_value(
            kind,
            supports_images,
            split_text(message.content, false).0,
            message.images.items_or_empty(),
        ),
    )
}

/// The last rounds of a conversation, a round being two messages; all of it without a limit.
pub open spec fn last_rounds(turns: Seq<JsonView>, rounds: Option<u8>) -> Seq<JsonView> {
    match rounds {
        Some(n) => if turns.len() <= 2 * n {
            turns
        } else {
            turns.skip(turns.len() - 2 * n)
        },
        None => turns,
    }
}

/// The message that carries a summary.
pub open spec fn summary_message(summary: Seq<char>) -> JsonView {
    system_message("Previous conversation context, compressed by malim_chat:\n"@ + summary)
}

/// What the provider sees of a conversation: the formatting instruction, the summary of what came
/// before, where there is one, and the last rounds. The rows come newest first.
pub open spec fn transcript_of(
    kind: RequestKind,
    supports_images: bool,
    rows: Seq<StoredView>,
    summary: Option<Seq<char>>,
    context_rounds: Option<u8>,
    enable_markdown: bool,
) -> Seq<JsonView> {
    let turns = rows.reverse().map_values(|m: StoredView| turn_view(kind, supports_images, m));
    let head = match summary {
        Some(text) => seq![instruction(enable_markdown), summary_message(text)],
        None => seq![instruction(enable_markdown)],
    };
    head + last_rounds(turns, context_rounds)
}

fn make_turn(kind: &str, supports_images: bool, message: &StoredMessage) -> (r: Json)
    ensures
        r@ == turn_view(kind_of(kind@), supports_images, message@),
        r@.at("role"@) == JsonView::Str(message.role@),
{
    let content = strip_thinking(message.content.as_str());
    let none: Vec<Json> = Vec::new();
    assert(views(none@) =~= Seq::empty());
    let part = match message.images.as_array() {
        Some(images) => content_part(kind, supports_images, content.as_str(), images),
        None => content_part(kind, supports_images, content.as_str(), &none),
    };
    proof {
        names_are_told_apart();
    }
    Json::object().with("role", Json::text(message.role.as_str())).with("content", part)
}

/// What the provider sees of a conversation. The rows come newest first.
pub fn build_transcript(
    kind: &str,
    supports_images: bool,
    rows: &Vec<StoredMessage>,
    prior_summary: Option<&str>,
    context_rounds: Option<u8>,
    enable_markdown: bool,
) -> (r: Vec<Json>)
    ensures
        views(r@) == transcript_of(
            kind_of(kind@),
            supports_images,
            stored_views(rows@),
            opt_text(prior_summary),
            context_rounds,
            enable_markdown,
        ),
{
    let ghost dialect = kind_of(kind@);
    let ghost turns = stored_views(rows@).reverse().map_values(
        |m: StoredView| turn_view(dialect, supports_images, m),
    );
    let mut out: Vec<Json> = Vec::new();
    out.push(instruction_message(enable_markdown));
    let ghost head = seq![instruction(enable_markdown)];
    assert(views(out@) =~= head);
    if let Some(summary) = prior_summary {
        let text = "Previous conversation context, compressed by malim_chat:\n".to_owned().concat(
            summary,
        );
        let message = make_system_message(text.as_str());
        proof {
            views_push(out@, message);
            head = seq![instruction(enable_markdown), summary_message(summary@)];
        }
        out.push(message);
        assert(views(out@) =~= head);
    }
    let n = rows.len();
    let from: usize = match context_rounds {
        Some(rounds) => {
            let keep = 2 * (rounds as usize);
            if n <= keep {
                0
            } else {
                n - keep
            }
        },
        None => 0,
    };
    let ghost kept = last_rounds(turns, context_rounds);
    assert(kept =~= turns.skip(from as int));
    assert(head + turns.subrange(from as int, from as int) =~= head);
    let mut i: usize = from;
    while i < n
        invariant
            from <= i <= n == rows@.len(),
            dialect == kind_of(kind@),
            turns == stored_views(rows@).reverse().map_values(
                |m: StoredView| turn_view(dialect, supports_images, m),
            ),
            turns.len() == n,
            views(out@) == head + turns.subrange(from as int, i as int),
        decreases n - i,
    {
        let turn = make_turn(kind, supports_images, &rows[n - 1 - i]);
        proof {
            views_push(out@, turn);
            assert(stored_views(rows@).reverse()[i as int] == rows@[n - 1 - i]@);
            assert(turns[i as int] == turn@);
            assert(head + turns.subrange(from as int, i + 1) =~= (head + turns.subrange(
                from as int,
                i as int,
            )).push(turn@));
        }
        out.push(turn);
        i = i + 1;
    }
    assert(turns.subrange(from as int, n as int) =~= kept);
    out
}

/// Whatever the limit, the rounds that are sent are the latest, and no more than asked for.
pub proof fn latest_rounds_are_sent(turns: Seq<JsonView>, rounds: Option<u8>)
    ensures
        last_rounds(turns, rounds).is_suffix_of(turns),
        rounds matches Some(n) ==> last_rounds(turns, rounds).len() <= 2 * n,
        rounds is None ==> last_rounds(turns, rounds) == turns,
{
    let kept = last_rounds(turns, rounds);
    assert(kept =~= turns.subrange(turns.len() - kept.len(), turns.len() as int));
}

// ---------------------------------------------------------------- chains

/// The stored chain, where it ends at the message directly before the one being answered; anything
/// else means the conversation branched.
pub open spec fn usable_chain(
    stored: Option<(Option<Seq<char>>, i64)>,
    user_sequence: i64,
) -> Option<Seq<char>> {
    match stored {
        Some((id, sequence)) => if sequence == user_sequence - 1 {
            id
        } else {
            None
        },
        None => None,
    }
}

/// The stored chain, where it can be continued.
pub fn load_chain(stored: Option<(Option<String>, i64)>, user_sequence: i64) -> (r: Option<String>)
    ensures
        opt_string(r) == usable_chain(
            match stored {
                Some((id, sequence)) => Some((opt_string(id), sequence)),
                None => None,
            },
            user_sequence,
        ),
{
    match stored {
        Some((id, sequence)) => if sequence < user_sequence && sequence == user_sequence - 1 {
            id
        } else {
            None
        },
        None => None,
    }
}

// ---------------------------------------------------------------- plans

/// What a client asks of a turn. Rounds are doubly optional: not given, or given as no limit.
pub struct RespondRequest {
    pub search: Option<bool>,
    pub enable_markdown: Option<bool>,
    pub stream: Option<bool>,
    pub context_rounds: Option<Option<u8>>,
    pub tool_rounds: Option<Option<u8>>,
}

/// How a turn is answered.
#[derive(Debug, Clone, Copy, PartialEq, Eq, Structural)]
pub enum TurnMode {
    /// The agent researches and answers.
    Agent,
    /// The provider's stream is relayed.
    Relay,
    /// The provider's reply is stored at once.
    Complete,
}

/// How a turn is to be answered.
pub struct TurnPlan {
    pub hosted_tools: bool,
    pub search_requested: bool,
    pub tools: Tools,
    pub enable_markdown: bool,
    pub context_rounds: Option<u8>,
    pub tool_rounds: Option<u8>,
    pub stream: bool,
    pub mode: TurnMode,
    /// Whether the stored chain may be continued, if the model allows it.
    pub may_chain: bool,
}

/// A choice of the client, or what stands in for it.
pub open spec fn chosen<T>(given: Option<T>, otherwise: T) -> T {
    match given {
        Some(value) => value,
        None => otherwise,
    }
}

/// Whether a value is an array with items.
pub open spec fn has_items(value: JsonView) -> bool {
    value.items_or_empty().len() > 0
}

/// How a turn is to be answered, where `asks` says whether the message itself asks for a search.
pub open spec fn planned(
    kind: Seq<char>,
    request: RespondRequest,
    content: Seq<char>,
    images: JsonView,
    asks: bool,
) -> TurnPlan {
    let hosted = kind == "openai_responses"@;
    let search = !hosted && (chosen(request.search, false) || asks);
    let stream = chosen(request.stream, false);
    TurnPlan {
        hosted_tools: hosted,
        search_requested: search,
        tools: if hosted {
            Tools::Hosted
        } else if search {
            Tools::Retrieved
        } else {
            Tools::Without
        },
        enable_markdown: chosen(request.enable_markdown, true),
        context_rounds: chosen(request.context_rounds, Some(8u8)),
        tool_rounds: chosen(request.tool_rounds, Some(DEFAULT_WEB_TOOL_ROUNDS)),
        stream,
        mode: if search && !is_blank(content) {
            TurnMode::Agent
        } else if stream {
            TurnMode::Relay
        } else {
            TurnMode::Complete
        },
        may_chain: hosted && !has_items(images),
    }
}

/// How a turn is to be answered, where `asks` says whether the message itself asks for a search.
/// Responses providers get hosted tools on every call, so the agent loop never applies to them.
pub fn plan_turn(kind: &str, request: &RespondRequest, content: &str, images: &Json, asks: bool) -> (r:
    TurnPlan)
    ensures
        r == planned(kind@, *request, content@, images@, asks),
{
    let hosted_tools = same(kind, "openai_responses");
    let search_requested = !hosted_tools && (match request.search {
        Some(search) => search,
        None => false,
    } || asks);
    let tools = if hosted_tools {
        Tools::Hosted
    } else if search_requested {
        Tools::Retrieved
    } else {
        Tools::Without
    };
    let stream = match request.stream {
        Some(stream) => stream,
        None => false,
    };
    let mode = if search_requested && !blank(content) {
        TurnMode::Agent
    } else if stream {
        TurnMode::Relay
    } else {
        TurnMode::Complete
    };
    let with_images = match images.as_array() {
        Some(items) => {
            assert(views(items@).len() == items@.len());
            items.len() > 0
        },
        None => false,
    };
    TurnPlan {
        hosted_tools,
        search_requested,
        tools,
        enable_markdown: match request.enable_markdown {
            Some(enable) => enable,
            None => true,
        },
        context_rounds: match request.context_rounds {
            Some(rounds) => rounds,
            None => Some(8),
        },
        tool_rounds: match request.tool_rounds {
            Some(rounds) => rounds,
            None => Some(DEFAULT_WEB_TOOL_ROUNDS),
        },
        stream,
        mode,
        may_chain: hosted_tools && !with_images,
    }
}

/// The agent loop and hosted tools exclude each other, and without a search the model is offered
/// no tools of ours.
pub proof fn tools_match_the_plan(
    kind: Seq<char>,
    request: RespondRequest,
    content: Seq<char>,
    images: JsonView,
    asks: bool,
)
    ensures
        ({
            let plan = planned(kind, request, content, images, asks);
            &&& plan.mode == TurnMode::Agent ==> plan.tools == Tools::Retrieved
            &&& plan.tools == Tools::Hosted <==> kind_of(kind) == RequestKind::OpenAiResponses
            &&& plan.may_chain ==> plan.tools == Tools::Hosted
        }),
{
    reveal_strlit("anthropic");
    reveal_strlit("openai_responses");
    assert("anthropic"@.len() != "openai_responses"@.len());
}

/// The provider that answers, where the conversation has one.
pub fn answering_provider(provider: Option<u128>) -> (r: Result<u128, ApiError>)
    ensures
        match r {
            Ok(id) => provider == Some(id),
            Err(error) => provider is None && error@ == bad(
                "Choose a provider before requesting a response."@,
            ),
        },
{
    match provider {
        Some(id) => Ok(id),
        None => Err(ApiError::bad("Choose a provider before requesting a response.")),
    }
}

/// The error for a provider that is no longer there.
pub fn removed_provider() -> (r: ApiError)
    ensures
        r@ == bad("The selected provider was removed."@),
{
    ApiError::bad("The selected provider was removed.")
}

/// The model that answers: the conversation's own unless it is blank, else the provider's first
/// configured model, else the provider's default.
pub open spec fn answering_model(
    own: Option<Seq<char>>,
    first: Option<Seq<char>>,
    default_model: Seq<char>,
) -> Seq<char> {
    match own {
        Some(model) => if is_blank(model) {
            chosen(first, default_model)
        } else {
            model
        },
        None => chosen(first, default_model),
    }
}

/// The model that answers.
pub fn select_model(own: Option<&str>, first: Option<String>, default_model: &str) -> (r: String)
    ensures
        r@ == answering_model(opt_text(own), opt_string(first), default_model@),
{
    if let Some(model) = own {
        if !blank(model) {
            return model.to_owned();
        }
    }
    match first {
        Some(model) => model,
        None => default_model.to_owned(),
    }
}

/// What a chained call sends: the instruction and this turn alone.
pub open spec fn chained_transcript(
    kind: RequestKind,
    supports_images: bool,
    content: Seq<char>,
    enable_markdown: bool,
) -> Seq<JsonView> {
    seq![
        instruction(enable_markdown),
        JsonView::object().with("role"@, JsonView::Str("user"@)).with(
            "content"@,
            content_value(kind, supports_images, content, Seq::empty()),
        ),
    ]
}

/// What a chained call sends. A Responses endpoint stores the conversation on its own side.
pub fn chain_transcript(kind: &str, supports_images: bool, content: &str, enable_markdown: bool) -> (r:
    Vec<Json>)
    ensures
        views(r@) == chained_transcript(kind_of(kind@), supports_images, content@, enable_markdown),
{
    let none: Vec<Json> = Vec::new();
    assert(views(none@) =~= Seq::empty());
    let turn = Json::object().with("role", Json::text("user")).with(
        "content",
        content_part(kind, supports_images, content, &none),
    );
    let mut out: Vec<Json> = Vec::new();
    out.push(instruction_message(enable_markdown));
    out.push(turn);
    assert(views(out@) =~= chained_transcript(
        kind_of(kind@),
        supports_images,
        content@,
        enable_markdown,
    ));
    out
}

// ---------------------------------------------------------------- attempts

/// What follows a call that failed.
pub enum Recovery {
    /// Forget the stored chain and send the whole conversation without it.
    ResendWhole,
    /// Tell the client.
    Fail(ApiError),
}

/// What follows a call that failed: a stale chain is recovered from, anything else is told.
pub fn recover(error: ApiError) -> (r: Recovery)
    ensures
        match r {
            Recovery::ResendWhole => error.code@ == "provider_chain_stale"@,
            Recovery::Fail(told) => error.code@ != "provider_chain_stale"@ && told == error,
        },
{
    if same(error.code, "provider_chain_stale") {
        Recovery::ResendWhole
    } else {
        Recovery::Fail(error)
    }
}

// ---------------------------------------------------------------- storing

/// An answer in the form in which it is stored.
pub struct AssistantMessage {
    pub content: String,
    pub reasoning: String,
    pub content_format: &'static str,
    pub tokens: i32,
}

/// An answer in the form in which it is stored: what it hid as thinking joins the reasoning, and
/// the tokens are those of what remains.
pub open spec fn is_stored_form(
    message: AssistantMessage,
    answer: Seq<char>,
    reasoning: Seq<char>,
    enable_markdown: bool,
) -> bool {
    let (visible, leaked) = split_text(answer, false);
    &&& message.content@ == visible
    &&& message.reasoning@ == reasoning + leaked
    &&& message.content_format@ == if enable_markdown {
        "markdown"@
    } else {
        "plain"@
    }
    &&& message.tokens == text_tokens(visible.len())
}

/// Shapes an answer for storage. Providers sometimes put thinking tags in normal content; they are
/// taken out here, so private reasoning does not become visible later.
pub fn persist_assistant_message(answer: &str, reasoning: &str, enable_markdown: bool) -> (r:
    AssistantMessage)
    ensures
        is_stored_form(r, answer@, reasoning@, enable_markdown),
{
    let (content, leaked) = split_thinking(answer);
    let reasoning = reasoning.to_owned().concat(leaked.as_str());
    let tokens = estimate_tokens(content.as_str());
    AssistantMessage {
        content,
        reasoning,
        content_format: if enable_markdown {
            "markdown"
        } else {
            "plain"
        },
        tokens,
    }
}

/// The answer and the reasoning of a complete reply, before it is shaped for storage.
pub fn read_reply(reply: &Reply) -> (r: (String, String))
    ensures
        r.0@ == split_text(reply@.text, false).0,
        r.1@ == reply@.reasoning + split_text(reply@.text, false).1,
{
    let (answer, inline) = split_thinking(reply.text.as_str());
    (answer, reply.reasoning.clone().concat(inline.as_str()))
}

/// An answer without thinking tags is stored as it is, and the reasoning with it.
pub proof fn clean_answers_are_stored_unchanged(
    message: AssistantMessage,
    answer: Seq<char>,
    reasoning: Seq<char>,
    enable_markdown: bool,
)
    requires
        is_stored_form(message, answer, reasoning, enable_markdown),
        !holds(ascii_lowered(answer), "<think>"@),
        !holds(ascii_lowered(answer), "<thinking>"@),
    ensures
        message.content@ == answer,
        message.reasoning@ == reasoning,
{
    unmarked_text_is_unchanged(answer);
    assert(reasoning + Seq::<char>::empty() =~= reasoning);
}

/// What an answer hid as thinking is in the reasoning, and the stored answer hides nothing more,
/// unless taking thinking out has put another marker together.
pub proof fn stored_answers_hide_no_thinking(
    message: AssistantMessage,
    answer: Seq<char>,
    reasoning: Seq<char>,
    enable_markdown: bool,
)
    requires
        is_stored_form(message, answer, reasoning, enable_markdown),
        !holds(ascii_lowered(split_text(answer, false).0), "<think>"@),
        !holds(ascii_lowered(split_text(answer, false).0), "<thinking>"@),
    ensures
        message.reasoning@ == reasoning + split_text(answer, false).1,
        split_text(message.content@, false) == (message.content@, Seq::<char>::empty()),
{
    unmarked_text_is_unchanged(message.content@);
}

// ---------------------------------------------------------------- laws

/// Behind the head of a transcript stand the last rows, the newest at the end, and each has the
/// role of the message that it stands for. A message without images keeps its text, but for what it
/// hid as thinking.
pub proof fn messages_keep_their_roles(
    kind: RequestKind,
    supports_images: bool,
    rows: Seq<StoredView>,
    summary: Option<Seq<char>>,
    context_rounds: Option<u8>,
    enable_markdown: bool,
    i: int,
)
    requires
        0 <= i < rows.len(),
        context_rounds matches Some(n) ==> i < 2 * n,
    ensures
        ({
            let sent = transcript_of(
                kind,
                supports_images,
                rows,
                summary,
                context_rounds,
                enable_markdown,
            );
            let message = sent[sent.len() - 1 - i];
            &&& sent.len() > i + 1
            &&& message.at("role"@) == JsonView::Str(rows[i].role)
            &&& rows[i].images.items_or_empty().len() == 0 ==> message.at("content"@)
                == JsonView::Str(split_text(rows[i].content, false).0)
            &&& message.at("content"@) == content_value(
                kind,
                supports_images,
                split_text(rows[i].content, false).0,
                rows[i].images.items_or_empty(),
            )
        }),
{
    names_are_told_apart();
    let turns = rows.reverse().map_values(|m: StoredView| turn_view(kind, supports_images, m));
    let place = turns.len() - 1 - i;
    assert(turns[place] == turn_view(kind, supports_images, rows[i]));
    let kept = last_rounds(turns, context_rounds);
    assert(kept[kept.len() - 1 - i] == turns[place]);
    if rows[i].images.items_or_empty().len() == 0 {
        assert(rows[i].images.items_or_empty() =~= Seq::empty());
        plain_texts_are_sent_unchanged(
            kind,
            supports_images,
            split_text(rows[i].content, false).0,
        );
    }
}

/// A transcript is its head and the rows that the limit leaves, no more and no fewer. Its head is
/// of the system: how to format the answer and, where there is a summary, the summary.
pub proof fn transcripts_start_with_their_head(
    kind: RequestKind,
    supports_images: bool,
    rows: Seq<StoredView>,
    summary: Option<Seq<char>>,
    context_rounds: Option<u8>,
    enable_markdown: bool,
)
    ensures
        ({
            let sent = transcript_of(
                kind,
                supports_images,
                rows,
                summary,
                context_rounds,
                enable_markdown,
            );
            let kept = match context_rounds {
                Some(n) => if rows.len() <= 2 * n {
                    rows.len() as int
                } else {
                    2 * n
                },
                None => rows.len() as int,
            };
            let told = sent[0].at("content"@).text_or_empty();
            &&& sent.len() == kept + if summary is Some {
                2int
            } else {
                1int
            }
            &&& sent[0].at("role"@) == JsonView::Str("system"@)
            &&& enable_markdown ==> "Format the answer with GitHub-flavored Markdown"@.is_prefix_of(
                told,
            )
            &&& !enable_markdown ==> "Respond in plain text only."@.is_prefix_of(told)
            &&& summary matches Some(text) ==> {
                &&& sent[1].at("role"@) == JsonView::Str("system"@)
                &&& text.is_suffix_of(sent[1].at("content"@).text_or_empty())
                &&& sent[1].at("content"@) == JsonView::Str(
                    "Previous conversation context, compressed by malim_chat:\n"@ + text,
                )
            }
        }),
{
    names_are_told_apart();
    lemma_instructions();
    if let Some(text) = summary {
        let lead = "Previous conversation context, compressed by malim_chat:\n"@;
        let whole = lead + text;
        assert(text =~= whole.subrange(whole.len() - text.len(), whole.len() as int));
    }
}

proof fn lemma_instructions()
    ensures
        "Format the answer with GitHub-flavored Markdown"@.is_prefix_of(
            "Format the answer with GitHub-flavored Markdown when it improves readability. Use fenced code blocks with a language label for code."@,
        ),
        "Respond in plain text only."@.is_prefix_of(
            "Respond in plain text only. Do not use Markdown syntax, headings, lists, tables, fenced code blocks, or inline formatting markers."@,
        ),
{
    reveal_strlit("Format the answer with GitHub-flavored Markdown");
    reveal_strlit(
        "Format the answer with GitHub-flavored Markdown when it improves readability. Use fenced code blocks with a language label for code.",
    );
    reveal_strlit("Respond in plain text only.");
    reveal_strlit(
        "Respond in plain text only. Do not use Markdown syntax, headings, lists, tables, fenced code blocks, or inline formatting markers.",
    );
    let long = "Format the answer with GitHub-flavored Markdown when it improves readability. Use fenced code blocks with a language label for code."@;
    let short = "Format the answer with GitHub-flavored Markdown"@;
    assert(short =~= long.subrange(0, short.len() as int));
    let long = "Respond in plain text only. Do not use Markdown syntax, headings, lists, tables, fenced code blocks, or inline formatting markers."@;
    let short = "Respond in plain text only."@;
    assert(short =~= long.subrange(0, short.len() as int));
}

/// A chained call sends the formatting instruction that the whole conversation would start with,
/// and the message as the user's, unchanged.
pub proof fn chained_calls_send_the_message(
    kind: RequestKind,
    supports_images: bool,
    content: Seq<char>,
    enable_markdown: bool,
    rows: Seq<StoredView>,
    context_rounds: Option<u8>,
)
    ensures
        ({
            let sent = chained_transcript(kind, supports_images, content, enable_markdown);
            let whole = transcript_of(
                kind,
                supports_images,
                rows,
                None,
                context_rounds,
                enable_markdown,
            );
            &&& sent.len() == 2
            &&& sent[0] == whole[0]
            &&& sent[1].at("role"@) == JsonView::Str("user"@)
            &&& sent[1].at("content"@) == JsonView::Str(content)
        }),
{
    names_are_told_apart();
    plain_texts_are_sent_unchanged(kind, supports_images, content);
}

/// A stored chain is continued exactly where it ends at the message directly before the one being
/// answered, and then by its own id.
pub proof fn chains_continue_where_they_end(id: Option<Seq<char>>, sequence: i64, user_sequence: i64)
    ensures
        sequence + 1 == user_sequence ==> usable_chain(Some((id, sequence)), user_sequence) == id,
        sequence + 1 != user_sequence ==> usable_chain(Some((id, sequence)), user_sequence) is None,
        usable_chain(None, user_sequence) is None,
{
}

/// What the client asks for is what is planned: only what it left open is filled in.
pub proof fn plans_follow_the_request(
    kind: Seq<char>,
    request: RespondRequest,
    content: Seq<char>,
    images: JsonView,
    asks: bool,
)
    ensures
        ({
            let plan = planned(kind, request, content, images, asks);
            &&& plan.stream <==> request.stream == Some(true)
            &&& plan.enable_markdown <==> request.enable_markdown != Some(false)
            &&& request.context_rounds matches Some(rounds) ==> plan.context_rounds == rounds
            &&& request.context_rounds is None ==> plan.context_rounds == Some(8u8)
            &&& request.tool_rounds matches Some(rounds) ==> plan.tool_rounds == rounds
            &&& request.tool_rounds is None ==> plan.tool_rounds == Some(8u8)
            &&& plan.hosted_tools <==> kind_of(kind) == RequestKind::OpenAiResponses
            &&& plan.search_requested <==> kind_of(kind) != RequestKind::OpenAiResponses && (
            request.search == Some(true) || asks)
            &&& plan.tools == Tools::Retrieved <==> plan.search_requested
            &&& plan.mode == TurnMode::Agent <==> plan.search_requested && !is_blank(content)
            &&& plan.mode == TurnMode::Relay ==> request.stream == Some(true)
            &&& plan.mode == TurnMode::Complete ==> request.stream != Some(true)
            &&& plan.may_chain <==> kind_of(kind) == RequestKind::OpenAiResponses
                && images.items_or_empty().len() == 0
        }),
{
    names_are_told_apart();
}

/// The conversation's own model answers wherever it names one; the provider's choice stands in for
/// it otherwise, its first configured model before its default.
pub proof fn own_models_answer_first(
    own: Seq<char>,
    first: Option<Seq<char>>,
    default_model: Seq<char>,
)
    ensures
        !is_blank(own) ==> answering_model(Some(own), first, default_model) == own,
        is_blank(own) ==> answering_model(Some(own), first, default_model) == answering_model(
            None,
            first,
            default_model,
        ),
        first matches Some(model) ==> answering_model(None, first, default_model) == model,
        answering_model(None, None, default_model) == default_model,
{
}

/// Whether an answer is stored as Markdown is what the turn asked for, and its tokens are counted on
/// what is stored.
pub proof fn stored_answers_are_labelled(
    message: AssistantMessage,
    answer: Seq<char>,
    reasoning: Seq<char>,
    enable_markdown: bool,
)
    requires
        is_stored_form(message, answer, reasoning, enable_markdown),
        answer.len() <= 1_000_000_000,
    ensures
        enable_markdown <==> message.content_format@ == "markdown"@,
        !enable_markdown <==> message.content_format@ == "plain"@,
        7 * message.tokens >= 2 * message.content@.len(),
        message.content@.len() > 0 ==> 7 * (message.tokens - 1) < 2 * message.content@.len(),
        reasoning.is_prefix_of(message.reasoning@),
        message.content@.len() + message.reasoning@.len() <= answer.len() + reasoning.len(),
{
    reveal_strlit("markdown");
    reveal_strlit("plain");
    assert("markdown"@.len() == 8);
    assert("plain"@.len() == 5);
    split_text_is_bounded(answer, false);
    seven_characters_take_two_tokens(message.content@.len());
    assert(reasoning =~= message.reasoning@.subrange(0, reasoning.len() as int));
}

} // verus!
