//! The web research agent: a loop in which the model asks for tools, gets their results, and in
//! the end writes an answer.
//!
//! The provider, the search service, the pages and the stored checkpoints are outside. An agent
//! says what it needs next; whoever drives it does that and hands the outcome back.

use vstd::prelude::*;
use vstd::string::*;

use crate::addresses::public_url;
use crate::agent_events::{heard, heard_reasoning, tool_event, AgentEventSink};
use crate::decimal::{digits, write_u64};
use crate::error::{conflict, internal, ApiError, ErrorView};
use crate::json::{copy_all, json_text, views, views_push, Json, JsonView};
use crate::letters::ascii_lowered;
use crate::names::names_are_told_apart;
use crate::pages::{page_result, Page, PageView};
use crate::replies::{call_views, Reply, ReplyView, ToolCall, ToolCallView, ToolTurn};
use crate::search::holds;
use crate::text::{
    blank, clip, clipped, collapsed, is_blank, opt_string, opt_text, same, texts, trimmed,
};
use crate::thinking::{split_text, split_thinking, unmarked_text_is_unchanged};
use crate::web_calls::{
    error_result, execute_web_tool, finish_open, finish_search, make_error_result,
    only_found_addresses_open, opened_addresses_stay_open, page_told, search_told,
    sources_are_bounded, tool_step, with_opened, with_page, with_sources, ToolStep, ToolStepView,
};
use crate::web_search::{result_views, ResultView, SearchResult};

verus! {

/// So many tool calls of one turn are run; the others are refused.
pub const MAX_CALLS_PER_TURN: usize = 16;

// ---------------------------------------------------------------- stored values

/// The items of a stored array; none where another value was stored.
pub fn json_items(value: &Json) -> (r: Vec<Json>)
    ensures
        views(r@) == value@.items_or_empty(),
{
    match value.as_array() {
        Some(items) => copy_all(items),
        None => {
            let none: Vec<Json> = Vec::new();
            assert(views(none@) =~= Seq::empty());
            none
        },
    }
}

/// What a client is told of a stored run.
pub fn agent_run_events(
    status: &str,
    events: Json,
    sources: Json,
    transcript: Json,
    round: i32,
    error_message: Option<&str>,
) -> (r: Json)
    ensures
        r@ == JsonView::object().with("status"@, JsonView::Str(status@)).with(
            "events"@,
            events@,
        ).with("sources"@, sources@).with("transcript"@, transcript@).with(
            "round"@,
            JsonView::integer(round as i64),
        ).with(
            "error_message"@,
            match error_message {
                Some(message) => JsonView::Str(message@),
                None => JsonView::Null,
            },
        ),
{
    let error = match error_message {
        Some(message) => Json::text(message),
        None => Json::Null,
    };
    Json::object().with("status", Json::text(status)).with("events", events).with(
        "sources",
        sources,
    ).with("transcript", transcript).with("round", Json::integer(round as i64)).with(
        "error_message",
        error,
    )
}

/// The error for a run that could not be stored, by the code that the database gives: another run
/// of the conversation is active, or the database failed.
pub fn save_agent_run(code: Option<&str>) -> (r: ApiError)
    ensures
        r@ == if opt_text(code) == Some("23505"@) {
            conflict("This conversation already has an active agent run."@)
        } else {
            internal("The server could not complete this request."@)
        },
{
    if let Some(code) = code {
        if same(code, "23505") {
            return ApiError::conflict("This conversation already has an active agent run.");
        }
    }
    ApiError::database_failure()
}

// ---------------------------------------------------------------- what an agent asks for

/// What a run came to.
pub struct WebAgentAnswer {
    pub answer: String,
    pub reasoning: String,
    pub sources: Vec<Json>,
}

/// The state of a run as it is stored, so a retry can resume it.
pub struct Checkpoint {
    pub status: &'static str,
    pub transcript: Vec<Json>,
    pub sources: Vec<Json>,
    pub events: Vec<Json>,
    pub round: usize,
    pub error: Option<String>,
}

/// What an agent needs next.
pub enum AgentAction {
    /// Send the transcript with the web tools; then `take_turn`.
    AskWithTools,
    /// Send the transcript without tools; then `take_plain_reply`.
    AskPlainly,
    /// Search the web; then `take_results`.
    Search(String),
    /// Open a page, if its address may be opened; then `take_page`.
    Open(String),
    /// Nothing; then `proceed`.
    Proceed,
    /// Send the transcript without tools; then `take_draft`.
    Draft,
    /// The run is over.
    Answer(WebAgentAnswer),
    /// The run failed.
    Fail(ApiError),
}

/// A step of a run: a checkpoint to store first, where there is one, and what to do then.
pub struct AgentStep {
    pub checkpoint: Option<Checkpoint>,
    pub action: AgentAction,
}

/// What a run came to.
pub struct AnswerView {
    pub answer: Seq<char>,
    pub reasoning: Seq<char>,
    pub sources: Seq<JsonView>,
}

/// What a checkpoint holds.
pub struct CheckpointView {
    pub status: Seq<char>,
    pub transcript: Seq<JsonView>,
    pub sources: Seq<JsonView>,
    pub events: Seq<JsonView>,
    pub round: nat,
    pub error: Option<Seq<char>>,
}

/// What an agent needs next.
pub enum ActionView {
    AskWithTools,
    AskPlainly,
    Search(Seq<char>),
    Open(Seq<char>),
    Proceed,
    Draft,
    Answer(AnswerView),
    Fail(ErrorView),
}

/// A step of a run.
pub struct StepView {
    pub checkpoint: Option<CheckpointView>,
    pub action: ActionView,
}

impl View for WebAgentAnswer {
    type V = AnswerView;

    open spec fn view(&self) -> AnswerView {
        AnswerView {
            answer: self.answer@,
            reasoning: self.reasoning@,
            sources: views(self.sources@),
        }
    }
}

impl View for Checkpoint {
    type V = CheckpointView;

    open spec fn view(&self) -> CheckpointView {
        CheckpointView {
            status: self.status@,
            transcript: views(self.transcript@),
            sources: views(self.sources@),
            events: views(self.events@),
            round: self.round as nat,
            error: opt_string(self.error),
        }
    }
}

impl View for AgentAction {
    type V = ActionView;

    open spec fn view(&self) -> ActionView {
        match self {
            AgentAction::AskWithTools => ActionView::AskWithTools,
            AgentAction::AskPlainly => ActionView::AskPlainly,
            AgentAction::Search(query) => ActionView::Search(query@),
            AgentAction::Open(url) => ActionView::Open(url@),
            AgentAction::Proceed => ActionView::Proceed,
            AgentAction::Draft => ActionView::Draft,
            AgentAction::Answer(answer) => ActionView::Answer(answer@),
            AgentAction::Fail(error) => ActionView::Fail(error@),
        }
    }
}

impl View for AgentStep {
    type V = StepView;

    open spec fn view(&self) -> StepView {
        StepView {
            checkpoint: match self.checkpoint {
                Some(checkpoint) => Some(checkpoint@),
                None => None,
            },
            action: self.action@,
        }
    }
}

impl StepView {
    /// A step without a checkpoint.
    pub open spec fn only(action: ActionView) -> StepView {
        StepView { checkpoint: None, action }
    }
}

// ---------------------------------------------------------------- the state of a run

/// A run of the agent.
pub struct WebAgent {
    anthropic: bool,
    max_rounds: Option<u8>,
    transcript: Vec<Json>,
    sources: Vec<Json>,
    allowed_urls: Vec<String>,
    events: AgentEventSink,
    round: usize,
    calls: Vec<ToolCall>,
    at: usize,
    results: Vec<Json>,
}

/// The state of a run: the transcript and the sources so far, the addresses that may be opened,
/// the events that were told, the round, and in a round the calls of the turn, how many of them
/// are answered, and the answers that are still to be sent together.
pub struct AgentView {
    pub anthropic: bool,
    pub listening: bool,
    pub max_rounds: Option<u8>,
    pub transcript: Seq<JsonView>,
    pub sources: Seq<JsonView>,
    pub allowed: Seq<Seq<char>>,
    pub events: Seq<JsonView>,
    pub round: nat,
    pub calls: Seq<ToolCallView>,
    pub at: nat,
    pub results: Seq<JsonView>,
}

impl View for WebAgent {
    type V = AgentView;

    closed spec fn view(&self) -> AgentView {
        AgentView {
            anthropic: self.anthropic,
            listening: self.events@.listening,
            max_rounds: self.max_rounds,
            transcript: views(self.transcript@),
            sources: views(self.sources@),
            allowed: texts(self.allowed_urls@),
            events: self.events@.history,
            round: self.round as nat,
            calls: call_views(self.calls@),
            at: self.at as nat,
            results: views(self.results@),
        }
    }
}

/// A system message.
pub open spec fn system_message(content: Seq<char>) -> JsonView {
    JsonView::object().with("role"@, JsonView::Str("system"@)).with(
        "content"@,
        JsonView::Str(content),
    )
}

/// A system message.
pub fn make_system_message(content: &str) -> (r: Json)
    ensures
        r@ == system_message(content@),
{
    Json::object().with("role", Json::text("system")).with("content", Json::text(content))
}

/// What a research run starts with.
pub open spec fn research_instruction() -> JsonView {
    system_message(
        "You are a web research agent. Before answering, use web_search with a concise, specific 3-12 word query derived from the user request. Never copy the full user message verbatim as the initial query. Refine the query when evidence is weak, and use open_web_page on important sources before relying on them. Do not invent tool results or citations. Give a direct answer only after gathering enough evidence, citing the supporting source URLs."@,
    )
}

/// What a run is told when it has to finish.
pub open spec fn finish_instruction() -> JsonView {
    system_message(
        "Finish now using the collected evidence. Clearly distinguish missing evidence from established facts, and do not call more tools."@,
    )
}

/// The answer in a reply: its visible text, and its reasoning followed by what the text hid.
pub open spec fn answer_of(reply: ReplyView, sources: Seq<JsonView>) -> AnswerView {
    let (answer, inline) = split_text(reply.text, false);
    AnswerView { answer, reasoning: reply.reasoning + inline, sources }
}

/// A result in the transcript of a Chat provider.
pub open spec fn chat_result(id: Seq<char>, text: Seq<char>) -> JsonView {
    JsonView::object().with("role"@, JsonView::Str("tool"@)).with(
        "tool_call_id"@,
        JsonView::Str(id),
    ).with("content"@, JsonView::Str(text))
}

/// A result for Anthropic, one of those that are sent together.
pub open spec fn anthropic_result(id: Seq<char>, text: Seq<char>) -> JsonView {
    JsonView::object().with("type"@, JsonView::Str("tool_result"@)).with(
        "tool_use_id"@,
        JsonView::Str(id),
    ).with("content"@, JsonView::Str(text))
}

/// The results of a turn as the message that Anthropic is sent.
pub open spec fn results_message(results: Seq<JsonView>) -> JsonView {
    JsonView::object().with("role"@, JsonView::Str("user"@)).with(
        "content"@,
        JsonView::Array(results),
    )
}

/// What is told to a call beyond the limit of its turn.
pub open spec fn over_limit() -> JsonView {
    error_result(
        "This tool-call batch exceeded the safety limit of sixteen calls. Continue using the results already returned."@,
    )
}

impl AgentView {
    /// The run as it is stored.
    pub open spec fn checkpoint(
        self,
        status: Seq<char>,
        round: nat,
        error: Option<Seq<char>>,
    ) -> CheckpointView {
        CheckpointView {
            status,
            transcript: self.transcript,
            sources: self.sources,
            events: self.events,
            round,
            error,
        }
    }

    /// The run after telling of one of its own stages.
    pub open spec fn told(
        self,
        id: Seq<char>,
        name: Seq<char>,
        status: Seq<char>,
        detail: Option<Seq<char>>,
    ) -> AgentView {
        AgentView {
            events: heard(
                self.events,
                self.listening,
                tool_event(id, name, status, JsonView::object(), self.round, None, detail),
            ),
            ..self
        }
    }

    /// The run after telling of the planning of a round.
    pub open spec fn told_plan(self, status: Seq<char>, detail: Option<Seq<char>>) -> AgentView {
        self.told("plan-"@ + digits(self.round), "planning"@, status, detail)
    }

    /// Whether no further round may start.
    pub open spec fn exhausted(self) -> bool {
        self.max_rounds matches Some(limit) && self.round >= limit
    }

    /// The run once it turns to writing the answer.
    pub open spec fn drafting(self) -> AgentView {
        let told = self.told(
            "draft"@,
            "drafting"@,
            "running"@,
            Some("Writing the answer from gathered evidence"@),
        );
        AgentView { transcript: seq![finish_instruction()] + told.transcript, ..told }
    }

    /// The run at the start of a round, or drafting where no round is left.
    pub open spec fn planning(self) -> AgentView {
        if self.exhausted() {
            self.drafting()
        } else {
            self.told_plan("running"@, Some("Choosing the next research step"@))
        }
    }

    /// What the run needs at the start of a round.
    pub open spec fn planning_action(self) -> ActionView {
        if self.exhausted() {
            ActionView::Draft
        } else {
            ActionView::AskWithTools
        }
    }

    /// The run after a turn came back.
    pub open spec fn after_turn(self, turn: ToolTurn) -> AgentView {
        let told = self.told_plan("completed"@, None);
        let heard = AgentView {
            events: heard_reasoning(told.events, told.listening, turn.reply.reasoning@, told.round),
            ..told
        };
        if turn.tool_calls@.len() > 0 {
            AgentView {
                transcript: heard.transcript.push(turn.assistant_message@),
                calls: call_views(turn.tool_calls@),
                at: 0,
                results: Seq::empty(),
                ..heard
            }
        } else if !is_blank(answer_of(turn.reply@, self.sources).answer) {
            heard
        } else {
            heard.drafting()
        }
    }

    /// What the run needs after a turn came back: an answer without tool calls ends it.
    pub open spec fn turn_action(self, turn: ToolTurn) -> ActionView {
        if turn.tool_calls@.len() > 0 {
            ActionView::Proceed
        } else {
            let answer = answer_of(turn.reply@, self.sources);
            if !is_blank(answer.answer) {
                ActionView::Answer(answer)
            } else {
                ActionView::Draft
            }
        }
    }

    /// The run once all calls of a turn are answered.
    pub open spec fn after_round(self) -> AgentView {
        if self.anthropic && self.results.len() > 0 {
            AgentView { transcript: self.transcript.push(results_message(self.results)), ..self }
        } else {
            self
        }
    }

    /// The run after telling that a call runs.
    pub open spec fn calling(self) -> AgentView {
        let call = self.calls[self.at as int];
        AgentView {
            events: heard(
                self.events,
                self.listening,
                tool_event(call.id, call.name, "running"@, call.input, self.round, None, None),
            ),
            ..self
        }
    }

    /// The run after a call was answered, `text` being the text form of its result.
    pub open spec fn recorded(self, result: JsonView, text: Seq<char>) -> AgentView {
        let call = self.calls[self.at as int];
        let error = result.at("error"@).text();
        let event = tool_event(
            call.id,
            call.name,
            if error is Some {
                "failed"@
            } else {
                "completed"@
            },
            call.input,
            self.round,
            match result.at("results"@).items() {
                Some(items) => Some(items.len()),
                None => None,
            },
            match error {
                Some(message) => Some(message),
                None => Some(clipped(text, 1200)),
            },
        );
        AgentView {
            events: heard(self.events, self.listening, event),
            transcript: if self.anthropic {
                self.transcript
            } else {
                self.transcript.push(chat_result(call.id, text))
            },
            results: if self.anthropic {
                self.results.push(anthropic_result(call.id, text))
            } else {
                self.results
            },
            at: self.at + 1,
            ..self
        }
    }

    /// What the run does with its next call.
    pub open spec fn next_step(self) -> ToolStepView {
        let call = self.calls[self.at as int];
        if self.at < MAX_CALLS_PER_TURN {
            tool_step(call.name, call.input)
        } else {
            ToolStepView::Done(over_limit())
        }
    }

    /// The run after `proceed`.
    pub open spec fn proceeded(self) -> AgentView {
        if self.at >= self.calls.len() {
            let done = self.after_round();
            AgentView { round: done.round + 1, ..done }.planning()
        } else {
            match self.next_step() {
                ToolStepView::Done(result) => self.calling().recorded(result, json_text(result)),
                _ => self.calling(),
            }
        }
    }

    /// What the run needs after `proceed`.
    pub open spec fn proceed_step(self) -> StepView {
        if self.at >= self.calls.len() {
            let done = self.after_round();
            StepView {
                checkpoint: Some(done.checkpoint("running"@, done.round + 1, None)),
                action: AgentView { round: done.round + 1, ..done }.planning_action(),
            }
        } else {
            StepView::only(
                match self.next_step() {
                    ToolStepView::Done(_) => ActionView::Proceed,
                    ToolStepView::Search(query) => ActionView::Search(query),
                    ToolStepView::Open(url) => ActionView::Open(url),
                },
            )
        }
    }

    /// The run after the results of a search came in.
    pub open spec fn searched(self, query: Seq<char>, results: Seq<ResultView>) -> AgentView {
        let sources = with_sources(self.sources, query, results);
        let told = search_told(sources, query);
        AgentView { sources, allowed: with_opened(self.allowed, sources, query), ..self }.recorded(
            told,
            json_text(told),
        )
    }
}

// ---------------------------------------------------------------- running

impl WebAgent {
    /// The transcript so far.
    pub fn transcript(&self) -> (r: &Vec<Json>)
        ensures
            views(r@) == self@.transcript,
    {
        &self.transcript
    }

    /// The addresses that the model may have opened.
    pub fn allowed_urls(&self) -> (r: &Vec<String>)
        ensures
            texts(r@) == self@.allowed,
    {
        &self.allowed_urls
    }

    /// The events that were told so far.
    pub fn events(&self) -> (r: &Vec<Json>)
        ensures
            views(r@) == self@.events,
    {
        self.events.history()
    }

    /// The round that the run is in.
    pub fn round(&self) -> (r: usize)
        ensures
            r == self@.round,
    {
        self.round
    }

    /// Whether a call of the model still waits for its result.
    pub fn awaits_result(&self) -> (r: bool)
        ensures
            r == (self@.at < self@.calls.len()),
    {
        self.at < self.calls.len()
    }

    fn checkpoint(&self, status: &'static str, round: usize, error: Option<&str>) -> (r: Checkpoint)
        ensures
            r@ == self@.checkpoint(status@, round as nat, opt_text(error)),
    {
        Checkpoint {
            status,
            transcript: copy_all(&self.transcript),
            sources: copy_all(&self.sources),
            events: copy_all(self.events.history()),
            round,
            error: match error {
                Some(message) => Some(message.to_owned()),
                None => None,
            },
        }
    }

    fn tell(&mut self, id: &str, name: &str, status: &str, detail: Option<&str>)
        ensures
            final(self)@ == old(self)@.told(id@, name@, status@, opt_text(detail)),
    {
        let round = self.round;
        self.events.emit(id, name, status, Json::object(), round, None, detail);
    }

    fn tell_plan(&mut self, status: &str, detail: Option<&str>)
        ensures
            final(self)@ == old(self)@.told_plan(status@, opt_text(detail)),
    {
        let number = write_u64(self.round as u64);
        let id = "plan-".to_owned().concat(number.as_str());
        self.tell(id.as_str(), "planning", status, detail);
    }

    fn start_draft(&mut self)
        ensures
            final(self)@ == old(self)@.drafting(),
    {
        self.tell(
            "draft",
            "drafting",
            "running",
            Some("Writing the answer from gathered evidence"),
        );
        let ghost before = self@.transcript;
        let message = make_system_message(
            "Finish now using the collected evidence. Clearly distinguish missing evidence from established facts, and do not call more tools.",
        );
        self.transcript.insert(0, message);
        assert(self@.transcript =~= seq![message@] + before);
    }

    fn plan(&mut self) -> (r: AgentAction)
        ensures
            final(self)@ == old(self)@.planning(),
            r@ == old(self)@.planning_action(),
    {
        let exhausted = match self.max_rounds {
            Some(limit) => self.round >= limit as usize,
            None => false,
        };
        if exhausted {
            self.start_draft();
            return AgentAction::Draft;
        }
        self.tell_plan("running", Some("Choosing the next research step"));
        AgentAction::AskWithTools
    }

    fn read_answer(&self, reply: &Reply) -> (r: WebAgentAnswer)
        ensures
            r@ == answer_of(reply@, self@.sources),
    {
        let (answer, inline) = split_thinking(reply.text.as_str());
        let reasoning = reply.reasoning.clone().concat(inline.as_str());
        WebAgentAnswer { answer, reasoning, sources: copy_all(&self.sources) }
    }
}

/// The state in which a run starts.
pub open spec fn started(
    kind: Seq<char>,
    transcript: Seq<JsonView>,
    listening: bool,
    tool_rounds: Option<u8>,
    initial_sources: Seq<JsonView>,
) -> AgentView {
    AgentView {
        anthropic: kind == "anthropic"@,
        listening,
        max_rounds: tool_rounds,
        transcript: seq![research_instruction()] + transcript,
        sources: initial_sources,
        allowed: Seq::empty(),
        events: Seq::empty(),
        round: 0,
        calls: Seq::empty(),
        at: 0,
        results: Seq::empty(),
    }
}

/// Starts a run of the agent, with the sources that an earlier attempt collected.
pub fn run_web_agent(
    kind: &str,
    transcript: Vec<Json>,
    listening: bool,
    tool_rounds: Option<u8>,
    initial_sources: Vec<Json>,
) -> (r: (WebAgent, AgentStep))
    ensures
        ({
            let start = started(
                kind@,
                views(transcript@),
                listening,
                tool_rounds,
                views(initial_sources@),
            );
            &&& r.0@ == start.planning()
            &&& r.1@ == (StepView {
                checkpoint: Some(start.checkpoint("running"@, 0, None)),
                action: start.planning_action(),
            })
        }),
{
    let ghost given = views(transcript@);
    let instruction = make_system_message(
        "You are a web research agent. Before answering, use web_search with a concise, specific 3-12 word query derived from the user request. Never copy the full user message verbatim as the initial query. Refine the query when evidence is weak, and use open_web_page on important sources before relying on them. Do not invent tool results or citations. Give a direct answer only after gathering enough evidence, citing the supporting source URLs.",
    );
    let mut lines = transcript;
    lines.insert(0, instruction);
    assert(views(lines@) =~= seq![instruction@] + given);
    let mut agent = WebAgent {
        anthropic: same(kind, "anthropic"),
        max_rounds: tool_rounds,
        transcript: lines,
        sources: initial_sources,
        allowed_urls: Vec::new(),
        events: AgentEventSink::new(listening),
        round: 0,
        calls: Vec::new(),
        at: 0,
        results: Vec::new(),
    };
    proof {
        assert(agent@.allowed =~= Seq::empty());
        assert(agent@.calls =~= Seq::empty());
        assert(agent@.results =~= Seq::empty());
    }
    let checkpoint = agent.checkpoint("running", 0, None);
    let action = agent.plan();
    (agent, AgentStep { checkpoint: Some(checkpoint), action })
}

impl WebAgent {
    /// Takes the reply to `AskWithTools`. A provider that does not take tools is asked plainly;
    /// any other failure ends the run.
    pub fn take_turn(&mut self, turn: Result<ToolTurn, ApiError>) -> (r: AgentStep)
        ensures
            match turn {
                Ok(turn) => {
                    &&& final(self)@ == old(self)@.after_turn(turn)
                    &&& r@ == StepView::only(old(self)@.turn_action(turn))
                },
                Err(error) => if error.code@ == "provider_tool_unsupported"@ {
                    &&& final(self)@ == old(self)@.told_plan(
                        "failed"@,
                        Some("This provider does not accept native tools"@),
                    )
                    &&& r@ == StepView::only(ActionView::AskPlainly)
                } else {
                    &&& final(self)@ == old(self)@.told_plan("failed"@, Some(error.message@))
                    &&& r@ == (StepView {
                        checkpoint: Some(
                            final(self)@.checkpoint(
                                "failed"@,
                                old(self)@.round,
                                Some(error.message@),
                            ),
                        ),
                        action: ActionView::Fail(error@),
                    })
                },
            },
    {
        match turn {
            Ok(turn) => {
                self.tell_plan("completed", None);
                let round = self.round;
                self.events.emit_reasoning(turn.reply.reasoning.as_str(), round);
                if turn.tool_calls.len() == 0 {
                    let answer = self.read_answer(&turn.reply);
                    if !blank(answer.answer.as_str()) {
                        return AgentStep { checkpoint: None, action: AgentAction::Answer(answer) };
                    }
                    self.start_draft();
                    return AgentStep { checkpoint: None, action: AgentAction::Draft };
                }
                proof {
                    views_push(self.transcript@, turn.assistant_message);
                }
                self.transcript.push(turn.assistant_message);
                self.calls = turn.tool_calls;
                self.at = 0;
                self.results = Vec::new();
                assert(self@.results =~= Seq::empty());
                AgentStep { checkpoint: None, action: AgentAction::Proceed }
            },
            Err(error) => {
                if same(error.code, "provider_tool_unsupported") {
                    self.tell_plan("failed", Some("This provider does not accept native tools"));
                    return AgentStep { checkpoint: None, action: AgentAction::AskPlainly };
                }
                self.tell_plan("failed", Some(error.message.as_str()));
                let round = self.round;
                let checkpoint = self.checkpoint("failed", round, Some(error.message.as_str()));
                AgentStep { checkpoint: Some(checkpoint), action: AgentAction::Fail(error) }
            },
        }
    }

    /// Takes the reply to `AskPlainly`, which ends the run.
    pub fn take_plain_reply(&self, reply: Result<Reply, ApiError>) -> (r: AgentStep)
        ensures
            match reply {
                Ok(reply) => r@ == StepView::only(
                    ActionView::Answer(answer_of(reply@, self@.sources)),
                ),
                Err(error) => r@ == StepView::only(ActionView::Fail(error@)),
            },
    {
        match reply {
            Ok(reply) => AgentStep {
                checkpoint: None,
                action: AgentAction::Answer(self.read_answer(&reply)),
            },
            Err(error) => AgentStep { checkpoint: None, action: AgentAction::Fail(error) },
        }
    }

    /// Answers the next call with a result, `text` being the text form of that result.
    pub fn record_result(&mut self, result: &Json, text: &str)
        requires
            old(self)@.at < old(self)@.calls.len(),
        ensures
            final(self)@ == old(self)@.recorded(result@, text@),
    {
        let ghost before = self@;
        let at = self.at;
        let round = self.round;
        assert(at < self.calls.len());
        assert(before.calls[at as int] == self.calls@[at as int]@);
        let input = self.calls[at].input.clone();
        let preview = clip(text, 1200);
        let source_count: Option<usize> = match result.at("results").as_array() {
            Some(items) => {
                assert(views(items@).len() == items@.len());
                Some(items.len())
            },
            None => None,
        };
        match result.at("error").as_str() {
            Some(message) => self.events.emit(
                self.calls[at].id.as_str(),
                self.calls[at].name.as_str(),
                "failed",
                input,
                round,
                source_count,
                Some(message),
            ),
            None => self.events.emit(
                self.calls[at].id.as_str(),
                self.calls[at].name.as_str(),
                "completed",
                input,
                round,
                source_count,
                Some(preview.as_str()),
            ),
        }
        if self.anthropic {
            let entry = Json::object().with("type", Json::text("tool_result")).with(
                "tool_use_id",
                Json::text(self.calls[at].id.as_str()),
            ).with("content", Json::text(text));
            proof {
                views_push(self.results@, entry);
            }
            self.results.push(entry);
        } else {
            let entry = Json::object().with("role", Json::text("tool")).with(
                "tool_call_id",
                Json::text(self.calls[at].id.as_str()),
            ).with("content", Json::text(text));
            proof {
                views_push(self.transcript@, entry);
            }
            self.transcript.push(entry);
        }
        assert(at < self.calls.len());
        self.at = at + 1;
    }

    /// Goes on with the calls of the turn; with none left, ends the round and starts the next.
    pub fn proceed(&mut self) -> (r: AgentStep)
        requires
            old(self)@.round < usize::MAX,
        ensures
            final(self)@ == old(self)@.proceeded(),
            r@ == old(self)@.proceed_step(),
    {
        let ghost before = self@;
        assert(before.calls.len() == self.calls@.len());
        assert(before.results.len() == self.results@.len());
        if self.at >= self.calls.len() {
            if self.anthropic && self.results.len() > 0 {
                let message = Json::object().with("role", Json::text("user")).with(
                    "content",
                    Json::Array(copy_all(&self.results)),
                );
                proof {
                    views_push(self.transcript@, message);
                }
                self.transcript.push(message);
            }
            let next = self.round + 1;
            let checkpoint = self.checkpoint("running", next, None);
            self.round = next;
            let action = self.plan();
            return AgentStep { checkpoint: Some(checkpoint), action };
        }
        let at = self.at;
        let round = self.round;
        assert(before.calls[at as int] == self.calls@[at as int]@);
        let input = self.calls[at].input.clone();
        self.events.emit(
            self.calls[at].id.as_str(),
            self.calls[at].name.as_str(),
            "running",
            input,
            round,
            None,
            None,
        );
        let step = if at < MAX_CALLS_PER_TURN {
            execute_web_tool(&self.calls[at])
        } else {
            ToolStep::Done(
                make_error_result(
                    "This tool-call batch exceeded the safety limit of sixteen calls. Continue using the results already returned.",
                ),
            )
        };
        match step {
            ToolStep::Done(result) => {
                let text = result.print();
                self.record_result(&result, text.as_str());
                AgentStep { checkpoint: None, action: AgentAction::Proceed }
            },
            ToolStep::Search(query) => AgentStep {
                checkpoint: None,
                action: AgentAction::Search(query),
            },
            ToolStep::Open(url) => AgentStep { checkpoint: None, action: AgentAction::Open(url) },
        }
    }

    /// Takes the outcome of a search.
    pub fn take_results(&mut self, query: &str, results: Result<Vec<SearchResult>, ApiError>) -> (r:
        AgentStep)
        requires
            old(self)@.at < old(self)@.calls.len(),
        ensures
            match results {
                Ok(results) => final(self)@ == old(self)@.searched(
                    query@,
                    result_views(results@),
                ),
                Err(error) => final(self)@ == old(self)@.recorded(
                    error_result(error.message@),
                    json_text(error_result(error.message@)),
                ),
            },
            r@ == StepView::only(ActionView::Proceed),
    {
        let told = finish_search(query, results, &mut self.sources, &mut self.allowed_urls);
        let text = told.print();
        self.record_result(&told, text.as_str());
        AgentStep { checkpoint: None, action: AgentAction::Proceed }
    }

    /// Takes a page that was opened, or what is told instead.
    pub fn take_page(&mut self, page: Result<Page, String>) -> (r: AgentStep)
        requires
            old(self)@.at < old(self)@.calls.len(),
        ensures
            match page_result(page) {
                Ok(page) => final(self)@ == (AgentView {
                    sources: with_page(old(self)@.sources, page),
                    ..old(self)@
                }).recorded(page_told(page), json_text(page_told(page))),
                Err(message) => final(self)@ == old(self)@.recorded(
                    error_result(message),
                    json_text(error_result(message)),
                ),
            },
            r@ == StepView::only(ActionView::Proceed),
    {
        let told = finish_open(page, &mut self.sources);
        let text = told.print();
        self.record_result(&told, text.as_str());
        AgentStep { checkpoint: None, action: AgentAction::Proceed }
    }

    /// Takes the reply to `Draft`, which ends the run.
    pub fn take_draft(&mut self, draft: Result<Reply, ApiError>) -> (r: AgentStep)
        ensures
            match draft {
                Ok(reply) => {
                    &&& final(self)@ == old(self)@.told("draft"@, "drafting"@, "completed"@, None)
                    &&& r@ == (StepView {
                        checkpoint: Some(
                            final(self)@.checkpoint("completed"@, old(self)@.round, None),
                        ),
                        action: ActionView::Answer(answer_of(reply@, old(self)@.sources)),
                    })
                },
                Err(error) => {
                    &&& final(self)@ == old(self)@.told(
                        "draft"@,
                        "drafting"@,
                        "failed"@,
                        Some(error.message@),
                    )
                    &&& r@ == (StepView {
                        checkpoint: Some(
                            final(self)@.checkpoint(
                                "failed"@,
                                old(self)@.round,
                                Some(error.message@),
                            ),
                        ),
                        action: ActionView::Fail(error@),
                    })
                },
            },
    {
        let round = self.round;
        match draft {
            Ok(reply) => {
                let answer = self.read_answer(&reply);
                self.tell("draft", "drafting", "completed", None);
                let checkpoint = self.checkpoint("completed", round, None);
                AgentStep { checkpoint: Some(checkpoint), action: AgentAction::Answer(answer) }
            },
            Err(error) => {
                self.tell("draft", "drafting", "failed", Some(error.message.as_str()));
                let checkpoint = self.checkpoint("failed", round, Some(error.message.as_str()));
                AgentStep { checkpoint: Some(checkpoint), action: AgentAction::Fail(error) }
            },
        }
    }
}

// ---------------------------------------------------------------- laws

/// With a limit, the model is offered tools in exactly the rounds before it; a round is never
/// counted twice nor skipped, and the limit never changes.
pub proof fn rounds_are_limited(agent: AgentView, limit: u8)
    requires
        agent.max_rounds == Some(limit),
    ensures
        agent.planning_action() is AskWithTools <==> agent.round < limit,
        agent.planning_action() is Draft <==> agent.round >= limit,
        agent.proceeded().max_rounds == Some(limit),
        agent.proceeded().round == if agent.at >= agent.calls.len() {
            agent.round + 1
        } else {
            agent.round
        },
{
}

/// No more than sixteen calls of a turn reach the web; the others are answered at once.
pub proof fn calls_are_limited(agent: AgentView)
    requires
        16 <= agent.at < agent.calls.len(),
    ensures
        agent.proceed_step() == StepView::only(ActionView::Proceed),
        agent.proceed_step().action == ActionView::Proceed,
        agent.proceed_step().checkpoint is None,
        agent.proceeded() == agent.calling().recorded(over_limit(), json_text(over_limit())),
        agent.proceeded().at == agent.at + 1,
        over_limit().at("error"@).text_or_empty().len() > 0,
{
    reveal_strlit(
        "This tool-call batch exceeded the safety limit of sixteen calls. Continue using the results already returned.",
    );
}

impl AgentView {
    /// Whether the calls of the turn that were run so far are answered, each by its own id and in
    /// their order: in the transcript, or among the results that Anthropic is sent together.
    pub open spec fn answered(self) -> bool {
        &&& self.at <= self.calls.len()
        &&& self.anthropic ==> self.results.len() == self.at && forall|i: int|
            0 <= i < self.at ==> (#[trigger] self.results[i]).at("tool_use_id"@).is_text(
                self.calls[i].id,
            )
        &&& !self.anthropic ==> self.transcript.len() >= self.at && forall|i: int|
            0 <= i < self.at ==> self.transcript[self.transcript.len() - self.at + i].at(
                "tool_call_id"@,
            ).is_text((#[trigger] self.calls[i]).id)
    }

    /// Whether every address that the model may have opened is public.
    pub open spec fn opens_public(self) -> bool {
        forall|i: int| 0 <= i < self.allowed.len() ==> public_url(#[trigger] self.allowed[i])
    }
}

/// Every call is answered once, by its own id and in its place, whatever its result.
pub proof fn answers_keep_step(agent: AgentView, result: JsonView, text: Seq<char>)
    requires
        agent.answered(),
        agent.at < agent.calls.len(),
    ensures
        agent.recorded(result, text).answered(),
        agent.recorded(result, text).at == agent.at + 1,
        agent.recorded(result, text).calls == agent.calls,
{
    reveal_strlit("role");
    reveal_strlit("type");
    reveal_strlit("tool_call_id");
    reveal_strlit("tool_use_id");
    reveal_strlit("content");
    let after = agent.recorded(result, text);
    let call = agent.calls[agent.at as int];
    assert("tool_call_id"@.len() == 12 && "tool_use_id"@.len() == 11 && "content"@.len() == 7);
    if agent.anthropic {
        assert(anthropic_result(call.id, text).at("tool_use_id"@).is_text(call.id));
        assert forall|i: int| 0 <= i < after.at implies (#[trigger] after.results[i]).at(
            "tool_use_id"@,
        ).is_text(after.calls[i].id) by {
            if i < agent.at {
                assert(after.results[i] == agent.results[i]);
            }
        }
    } else {
        assert(chat_result(call.id, text).at("tool_call_id"@).is_text(call.id));
        let n = agent.transcript.len() as int;
        assert forall|i: int| 0 <= i < after.at implies after.transcript[after.transcript.len()
            - after.at + i].at("tool_call_id"@).is_text((#[trigger] after.calls[i]).id) by {
            assert(after.transcript.len() - after.at + i == n - agent.at + i);
            assert(after.calls[i] == agent.calls[i]);
            if i < agent.at {
                assert(after.transcript[n - agent.at + i] == agent.transcript[n - agent.at + i]);
            } else {
                assert(after.transcript[n] == chat_result(call.id, text));
            }
        }
    }
}

proof fn lemma_drafting_keeps(agent: AgentView)
    requires
        agent.answered(),
    ensures
        agent.drafting().answered(),
{
    let after = agent.drafting();
    let n = agent.transcript.len() as int;
    assert(after.transcript.len() == n + 1);
    if !agent.anthropic {
        assert forall|i: int| 0 <= i < after.at implies after.transcript[after.transcript.len()
            - after.at + i].at("tool_call_id"@).is_text((#[trigger] after.calls[i]).id) by {
            assert(after.calls[i] == agent.calls[i]);
            assert(after.transcript[n + 1 - agent.at + i] == agent.transcript[n - agent.at + i]);
        }
    }
}

/// From its start on, whatever a run does next, the calls of its turn that were run so far are
/// answered.
pub proof fn calls_stay_answered(
    agent: AgentView,
    turn: ToolTurn,
    query: Seq<char>,
    results: Seq<ResultView>,
    page: PageView,
    message: Seq<char>,
)
    requires
        agent.answered(),
    ensures
        agent.after_turn(turn).answered(),
        agent.proceeded().answered(),
        agent.at < agent.calls.len() ==> {
            &&& agent.searched(query, results).answered()
            &&& (AgentView { sources: with_page(agent.sources, page), ..agent }).recorded(
                page_told(page),
                json_text(page_told(page)),
            ).answered()
            &&& agent.recorded(error_result(message), json_text(error_result(message))).answered()
        },
{
    let told = agent.told_plan("completed"@, None);
    let heard = AgentView {
        events: heard_reasoning(told.events, told.listening, turn.reply.reasoning@, told.round),
        ..told
    };
    assert(heard.answered());
    lemma_drafting_keeps(heard);
    if agent.at >= agent.calls.len() {
        let done = agent.after_round();
        let next = AgentView { round: done.round + 1, ..done };
        assert(next.answered());
        lemma_drafting_keeps(next);
    } else {
        assert(agent.calling().answered());
        if let ToolStepView::Done(result) = agent.next_step() {
            answers_keep_step(agent.calling(), result, json_text(result));
        }
        let sources = with_sources(agent.sources, query, results);
        let found = AgentView {
            sources,
            allowed: with_opened(agent.allowed, sources, query),
            ..agent
        };
        assert(found.answered());
        answers_keep_step(
            found,
            search_told(sources, query),
            json_text(search_told(sources, query)),
        );
        let read = AgentView { sources: with_page(agent.sources, page), ..agent };
        assert(read.answered());
        answers_keep_step(read, page_told(page), json_text(page_told(page)));
        answers_keep_step(agent, error_result(message), json_text(error_result(message)));
    }
}

/// A run starts with every call answered, as it has none, and with no address opened up.
pub proof fn runs_start_clean(
    kind: Seq<char>,
    transcript: Seq<JsonView>,
    listening: bool,
    tool_rounds: Option<u8>,
    sources: Seq<JsonView>,
)
    ensures
        started(kind, transcript, listening, tool_rounds, sources).planning().answered(),
        started(kind, transcript, listening, tool_rounds, sources).planning().opens_public(),
{
    let start = started(kind, transcript, listening, tool_rounds, sources);
    assert(start.answered());
    lemma_drafting_keeps(start);
}

/// A search opens up public addresses only, and nothing else opens up any.
pub proof fn opened_addresses_stay_public(
    agent: AgentView,
    query: Seq<char>,
    results: Seq<ResultView>,
    turn: ToolTurn,
    result: JsonView,
    text: Seq<char>,
)
    requires
        agent.opens_public(),
    ensures
        agent.searched(query, results).opens_public(),
        agent.after_turn(turn).allowed == agent.allowed,
        agent.proceeded().allowed == agent.allowed,
        agent.recorded(result, text).allowed == agent.allowed,
{
    let sources = with_sources(agent.sources, query, results);
    let after = agent.searched(query, results);
    assert forall|i: int| 0 <= i < after.allowed.len() implies public_url(
        #[trigger] after.allowed[i],
    ) by {
        let url = after.allowed[i];
        assert(with_opened(agent.allowed, sources, query).contains(url));
        if agent.allowed.contains(url) {
            let k = choose|k: int| 0 <= k < agent.allowed.len() && agent.allowed[k] == url;
            assert(public_url(agent.allowed[k]));
        } else {
            only_found_addresses_open(agent.allowed, sources, query, url);
        }
    }
}

impl AgentView {
    /// What answers the call that was answered last: the last message of the transcript, or the last
    /// of the results that Anthropic is sent together.
    pub open spec fn last_answer(self) -> JsonView {
        if self.anthropic {
            self.results.last()
        } else {
            self.transcript.last()
        }
    }
}

/// The answer to a call carries the call's own id and the whole text of its result, in both
/// dialects, and nothing that was there before changes.
pub proof fn results_reach_the_model(agent: AgentView, result: JsonView, text: Seq<char>)
    requires
        agent.at < agent.calls.len(),
    ensures
        ({
            let after = agent.recorded(result, text);
            let call = agent.calls[agent.at as int];
            &&& after.last_answer().at("content"@) == JsonView::Str(text)
            &&& agent.anthropic ==> {
                &&& after.last_answer().at("type"@) == JsonView::Str("tool_result"@)
                &&& after.last_answer().at("tool_use_id"@) == JsonView::Str(call.id)
                &&& after.results.drop_last() == agent.results
                &&& after.transcript == agent.transcript
            }
            &&& !agent.anthropic ==> {
                &&& after.last_answer().at("role"@) == JsonView::Str("tool"@)
                &&& after.last_answer().at("tool_call_id"@) == JsonView::Str(call.id)
                &&& after.transcript.drop_last() == agent.transcript
                &&& after.results == agent.results
            }
            &&& after.at == agent.at + 1
            &&& after.sources == agent.sources
            &&& after.allowed == agent.allowed
            &&& after.round == agent.round
            &&& after.calls == agent.calls
        }),
{
    names_are_told_apart();
    let after = agent.recorded(result, text);
    if agent.anthropic {
        assert(after.results.drop_last() =~= agent.results);
    } else {
        assert(after.transcript.drop_last() =~= agent.transcript);
    }
}

/// Who listens is told of a call when it starts and when it is answered: the call itself, its round,
/// whether it failed, and what came of it. Whoever does not listen is told nothing.
pub proof fn calls_are_told(agent: AgentView, result: JsonView, text: Seq<char>)
    requires
        agent.at < agent.calls.len(),
    ensures
        ({
            let call = agent.calls[agent.at as int];
            let started = agent.calling().events;
            let ended = agent.recorded(result, text).events;
            if agent.listening {
                &&& started.drop_last() == agent.events
                &&& started.last().at("id"@) == JsonView::Str(call.id)
                &&& started.last().at("name"@) == JsonView::Str(call.name)
                &&& started.last().at("input"@) == call.input
                &&& started.last().at("status"@) == JsonView::Str("running"@)
                &&& started.last().at("round"@).natural() == Some(agent.round as u64)
                &&& ended.drop_last() == agent.events
                &&& ended.last().at("id"@) == JsonView::Str(call.id)
                &&& ended.last().at("name"@) == JsonView::Str(call.name)
                &&& ended.last().at("input"@) == call.input
                &&& ended.last().at("round"@).natural() == Some(agent.round as u64)
                &&& ended.last().at("status"@) == JsonView::Str("failed"@) <==> result.at(
                    "error"@,
                ) is Str
                &&& ended.last().at("status"@) == JsonView::Str("completed"@) <==> !(result.at(
                    "error"@,
                ) is Str)
                &&& result.at("error"@) is Str ==> ended.last().at("detail"@) == result.at("error"@)
                &&& !(result.at("error"@) is Str) ==> ended.last().at(
                    "detail"@,
                ).text_or_empty().is_prefix_of(text) && (text.len() <= 1200 ==> ended.last().at(
                    "detail"@,
                ) == JsonView::Str(text))
                &&& result.at("results"@).items() matches Some(items) ==> ended.last().at(
                    "source_count"@,
                ).natural() == Some(items.len() as u64)
                &&& result.at("results"@).items() is None ==> ended.last().field(
                    "source_count"@,
                ) is None
            } else {
                started == agent.events && ended == agent.events
            }
        }),
{
    names_are_told_apart();
    let started = agent.calling().events;
    let ended = agent.recorded(result, text).events;
    if agent.listening {
        assert(started.drop_last() =~= agent.events);
        assert(ended.drop_last() =~= agent.events);
        let shown = clipped(text, 1200);
        assert(shown =~= text.subrange(0, shown.len() as int));
    }
}

/// Once all calls are answered, Anthropic is sent their answers in one message of the user, all of
/// them and in their order, and the round ends; a Chat provider has them in the transcript already.
pub proof fn rounds_send_their_results(agent: AgentView)
    requires
        agent.at >= agent.calls.len(),
        agent.transcript.len() > 0,
    ensures
        ({
            let after = agent.proceeded();
            &&& after.round == agent.round + 1
            &&& after.sources == agent.sources
            &&& agent.anthropic && agent.results.len() > 0 ==> {
                &&& after.transcript.last().at("role"@) == JsonView::Str("user"@)
                &&& after.transcript.last().at("content"@) == JsonView::Array(agent.results)
                &&& agent.transcript.is_suffix_of(after.transcript.drop_last())
            }
            &&& !(agent.anthropic && agent.results.len() > 0) ==> agent.transcript.is_suffix_of(
                after.transcript,
            )
        }),
{
    names_are_told_apart();
    let after = agent.proceeded().transcript;
    let done = agent.after_round().transcript;
    let n = agent.transcript.len() as int;
    assert(done.last() == after.last());
    if agent.anthropic && agent.results.len() > 0 {
        let head = after.drop_last();
        assert(agent.transcript =~= head.subrange(head.len() - n, head.len() as int));
    } else {
        assert(agent.transcript =~= after.subrange(after.len() - n, after.len() as int));
    }
}

/// What is stored at the end of a round is the run as the next round finds it.
pub proof fn checkpoints_resume_the_run(agent: AgentView)
    ensures
        agent.proceed_step().checkpoint is Some <==> agent.at >= agent.calls.len(),
        agent.proceed_step().checkpoint matches Some(stored) ==> {
            &&& stored.round == agent.proceeded().round
            &&& stored.sources == agent.proceeded().sources
            &&& stored.transcript.is_suffix_of(agent.proceeded().transcript)
            &&& stored.transcript.len() >= agent.transcript.len()
            &&& stored.events.is_prefix_of(agent.proceeded().events)
            &&& stored.events == agent.events
            &&& stored.status == "running"@
            &&& stored.error is None
        },
{
    if let Some(stored) = agent.proceed_step().checkpoint {
        let after = agent.proceeded().transcript;
        let told = agent.proceeded().events;
        let n = stored.transcript.len() as int;
        assert(stored.transcript =~= after.subrange(after.len() - n, after.len() as int));
        assert(stored.events =~= told.subrange(0, stored.events.len() as int));
    }
}

/// A turn that asks for tools joins the transcript as the model gave it, and its calls are run from
/// the first on; a turn that answers ends the run with its visible text and the sources so far.
pub proof fn turns_are_taken_as_they_are(agent: AgentView, turn: ToolTurn)
    ensures
        ({
            let after = agent.after_turn(turn);
            let action = agent.turn_action(turn);
            let answer = split_text(turn.reply.text@, false).0;
            &&& after.sources == agent.sources
            &&& after.round == agent.round
            &&& turn.tool_calls@.len() > 0 ==> {
                &&& after.transcript == agent.transcript.push(turn.assistant_message@)
                &&& after.calls.len() == turn.tool_calls@.len()
                &&& forall|i: int|
                    0 <= i < after.calls.len() ==> (#[trigger] after.calls[i]).id
                        == turn.tool_calls@[i].id@ && after.calls[i].name
                        == turn.tool_calls@[i].name@ && after.calls[i].input
                        == turn.tool_calls@[i].input@
                &&& after.at == 0
                &&& after.results.len() == 0
                &&& action == ActionView::Proceed
            }
            &&& turn.tool_calls@.len() == 0 && !is_blank(answer) ==> {
                &&& after.transcript == agent.transcript
                &&& action matches ActionView::Answer(told) && told.answer == answer && told.sources
                    == agent.sources && turn.reply.reasoning@.is_prefix_of(told.reasoning)
            }
            &&& turn.tool_calls@.len() == 0 && is_blank(answer) ==> {
                &&& action == ActionView::Draft
                &&& after.transcript.skip(1) == agent.transcript
            }
        }),
{
    let after = agent.after_turn(turn);
    let (answer, inline) = split_text(turn.reply.text@, false);
    let thought = turn.reply.reasoning@;
    assert(thought =~= (thought + inline).subrange(0, thought.len() as int));
    if turn.tool_calls@.len() == 0 && is_blank(answer) {
        assert(after.transcript.skip(1) =~= agent.transcript);
    }
}

/// A reply without thinking in it is the answer as it is, with its own reasoning and the sources.
pub proof fn clean_replies_are_the_answer(reply: ReplyView, sources: Seq<JsonView>)
    requires
        !holds(ascii_lowered(reply.text), "<think>"@),
        !holds(ascii_lowered(reply.text), "<thinking>"@),
    ensures
        answer_of(reply, sources).answer == reply.text,
        answer_of(reply, sources).reasoning == reply.reasoning,
        answer_of(reply, sources).sources == sources,
{
    unmarked_text_is_unchanged(reply.text);
    assert(reply.reasoning + Seq::<char>::empty() =~= reply.reasoning);
}

/// A run starts from the whole transcript behind its instruction and keeps what an earlier attempt
/// collected; before it writes the answer, it is told to in front of everything else.
pub proof fn runs_keep_the_transcript(
    kind: Seq<char>,
    transcript: Seq<JsonView>,
    listening: bool,
    tool_rounds: Option<u8>,
    sources: Seq<JsonView>,
    agent: AgentView,
)
    ensures
        ({
            let start = started(kind, transcript, listening, tool_rounds, sources);
            &&& start.transcript.skip(1) == transcript
            &&& start.transcript[0].at("role"@) == JsonView::Str("system"@)
            &&& start.sources == sources
            &&& start.round == 0
            &&& start.max_rounds == tool_rounds
            &&& start.listening == listening
            &&& start.anthropic <==> kind == "anthropic"@
        }),
        agent.drafting().transcript.skip(1) == agent.transcript,
        agent.drafting().transcript[0].at("role"@) == JsonView::Str("system"@),
        agent.drafting().sources == agent.sources,
{
    names_are_told_apart();
    let start = started(kind, transcript, listening, tool_rounds, sources);
    assert(start.transcript.skip(1) =~= transcript);
    assert(agent.drafting().transcript.skip(1) =~= agent.transcript);
}

/// What the model asked for is what is done next: a search for its query, or the page at its
/// address; anything else is answered with an error.
pub proof fn calls_are_carried_out(agent: AgentView)
    requires
        agent.at < agent.calls.len(),
        agent.at < 16,
    ensures
        ({
            let call = agent.calls[agent.at as int];
            let action = agent.proceed_step().action;
            let query = collapsed(call.input.at("query"@).text_or_empty());
            &&& action is Search <==> call.name == "web_search"@ && 2 <= trimmed(query).len() <= 180
            &&& action matches ActionView::Search(asked) ==> asked == query
            &&& action is Open <==> call.name == "open_web_page"@
            &&& action matches ActionView::Open(url) ==> url == call.input.at(
                "url"@,
            ).text_or_empty()
            &&& action is Proceed ==> agent.proceeded().at == agent.at + 1
            &&& !(action is Proceed) ==> agent.proceeded().at == agent.at
            &&& !(action is Proceed) ==> agent.proceeded() == agent.calling()
            &&& action is Proceed ==> agent.proceeded().last_answer().at("content"@) is Str
            &&& agent.proceed_step().checkpoint is None
            &&& action is Search || action is Open || action is Proceed
        }),
{
    names_are_told_apart();
}

/// Without a limit the model is offered tools in every round. Who listens is told when a round is
/// planned, under the round's own id, and when it has been; nothing else of the run changes.
pub proof fn rounds_are_planned_aloud(agent: AgentView)
    ensures
        agent.max_rounds is None ==> agent.planning_action() == ActionView::AskWithTools,
        agent.planning_action() == ActionView::AskWithTools && agent.listening ==> {
            let told = agent.planning().events;
            &&& told.drop_last() == agent.events
            &&& told.last().at("id"@) == JsonView::Str("plan-"@ + digits(agent.round))
            &&& told.last().at("name"@) == JsonView::Str("planning"@)
            &&& told.last().at("status"@) == JsonView::Str("running"@)
            &&& told.last().at("round"@).natural() == Some(agent.round as u64)
        },
        agent.planning_action() == ActionView::AskWithTools ==> agent.planning() == (AgentView {
            events: agent.planning().events,
            ..agent
        }),
        agent.planning_action() == ActionView::Draft ==> agent.planning() == agent.drafting(),
        agent.planning_action() == ActionView::AskWithTools || agent.planning_action()
            == ActionView::Draft,
{
    names_are_told_apart();
    if agent.listening && agent.planning_action() == ActionView::AskWithTools {
        assert(agent.planning().events.drop_last() =~= agent.events);
    }
}

/// A turn of the model ends the planning of its round, and what it thought is told behind that.
pub proof fn turns_end_the_planning(agent: AgentView, turn: ToolTurn)
    requires
        agent.listening,
        turn.tool_calls@.len() > 0,
    ensures
        ({
            let told = agent.after_turn(turn).events;
            let at = agent.events.len() as int;
            &&& told.take(at) == agent.events
            &&& told[at].at("id"@) == JsonView::Str("plan-"@ + digits(agent.round))
            &&& told[at].at("status"@) == JsonView::Str("completed"@)
            &&& is_blank(turn.reply.reasoning@) ==> told.len() == at + 1
            &&& !is_blank(turn.reply.reasoning@) ==> {
                &&& told.len() == at + 2
                &&& told[at + 1].at("type"@) == JsonView::Str("reasoning"@)
                &&& told[at + 1].at("delta"@) == JsonView::Str(turn.reply.reasoning@)
            }
        }),
{
    names_are_told_apart();
    let told = agent.after_turn(turn).events;
    assert(told.take(agent.events.len() as int) =~= agent.events);
}

/// Before the answer is written, who listens is told so, and the model is told to finish.
pub proof fn drafts_are_announced(agent: AgentView)
    ensures
        agent.listening ==> {
            let told = agent.drafting().events;
            &&& told.drop_last() == agent.events
            &&& told.last().at("id"@) == JsonView::Str("draft"@)
            &&& told.last().at("name"@) == JsonView::Str("drafting"@)
            &&& told.last().at("status"@) == JsonView::Str("running"@)
        },
        !agent.listening ==> agent.drafting().events == agent.events,
        "Finish now using the collected evidence."@.is_prefix_of(
            agent.drafting().transcript[0].at("content"@).text_or_empty(),
        ),
{
    names_are_told_apart();
    if agent.listening {
        assert(agent.drafting().events.drop_last() =~= agent.events);
    }
    reveal_strlit("Finish now using the collected evidence.");
    reveal_strlit(
        "Finish now using the collected evidence. Clearly distinguish missing evidence from established facts, and do not call more tools.",
    );
    let short = "Finish now using the collected evidence."@;
    let long = "Finish now using the collected evidence. Clearly distinguish missing evidence from established facts, and do not call more tools."@;
    assert(short =~= long.subrange(0, short.len() as int));
}

/// A message of the system is one, and says what it was given.
pub proof fn system_messages_say_their_content(content: Seq<char>)
    ensures
        system_message(content).at("role"@) == JsonView::Str("system"@),
        system_message(content).at("content"@) == JsonView::Str(content),
{
    names_are_told_apart();
}

/// The model is told that it researches the web before anything else.
pub proof fn runs_start_with_their_instruction(
    kind: Seq<char>,
    transcript: Seq<JsonView>,
    listening: bool,
    tool_rounds: Option<u8>,
    sources: Seq<JsonView>,
)
    ensures
        "You are a web research agent."@.is_prefix_of(
            started(kind, transcript, listening, tool_rounds, sources).transcript[0].at(
                "content"@,
            ).text_or_empty(),
        ),
{
    names_are_told_apart();
    reveal_strlit("You are a web research agent.");
    reveal_strlit(
        "You are a web research agent. Before answering, use web_search with a concise, specific 3-12 word query derived from the user request. Never copy the full user message verbatim as the initial query. Refine the query when evidence is weak, and use open_web_page on important sources before relying on them. Do not invent tool results or citations. Give a direct answer only after gathering enough evidence, citing the supporting source URLs.",
    );
    let short = "You are a web research agent."@;
    let long = "You are a web research agent. Before answering, use web_search with a concise, specific 3-12 word query derived from the user request. Never copy the full user message verbatim as the initial query. Refine the query when evidence is weak, and use open_web_page on important sources before relying on them. Do not invent tool results or citations. Give a direct answer only after gathering enough evidence, citing the supporting source URLs."@;
    assert(short =~= long.subrange(0, short.len() as int));
}

/// What a search found joins the sources, opens up addresses, and is what the model is told.
pub proof fn found_results_reach_the_model(
    agent: AgentView,
    query: Seq<char>,
    results: Seq<ResultView>,
)
    requires
        agent.at < agent.calls.len(),
    ensures
        ({
            let after = agent.searched(query, results);
            &&& agent.sources.is_prefix_of(after.sources)
            &&& agent.allowed.is_prefix_of(after.allowed)
            &&& after.sources == with_sources(agent.sources, query, results)
            &&& after.allowed == with_opened(agent.allowed, after.sources, query)
            &&& after.last_answer().at("content"@) == JsonView::Str(
                json_text(search_told(after.sources, query)),
            )
            &&& after.at == agent.at + 1
        }),
{
    let sources = with_sources(agent.sources, query, results);
    let found = AgentView { sources, allowed: with_opened(agent.allowed, sources, query), ..agent };
    let told = search_told(sources, query);
    results_reach_the_model(found, told, json_text(told));
    sources_are_bounded(agent.sources, query, results);
    opened_addresses_stay_open(agent.allowed, sources, query);
}

/// What is stored of a run is the run: what was said, found and told so far, under the status, the
/// round and the error that it is stored with.
pub proof fn checkpoints_hold_the_run(
    agent: AgentView,
    status: Seq<char>,
    round: nat,
    error: Option<Seq<char>>,
)
    ensures
        ({
            let stored = agent.checkpoint(status, round, error);
            &&& stored.status == status && stored.round == round && stored.error == error
            &&& stored.transcript == agent.transcript
            &&& stored.sources == agent.sources
            &&& stored.events == agent.events
        }),
{
}

} // verus!
