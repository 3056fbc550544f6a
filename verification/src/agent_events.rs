//! The events that tell of an agent run while it goes on.

use vstd::prelude::*;
use vstd::string::*;

use crate::json::{views, views_push, Json, JsonNumber, JsonView};
use crate::names::names_are_told_apart;
use crate::text::{blank, is_blank, opt_text};

verus! {

/// An event about a tool: what it is, how far it is, and what came of it.
pub open spec fn tool_event(
    id: Seq<char>,
    name: Seq<char>,
    status: Seq<char>,
    input: JsonView,
    round: nat,
    source_count: Option<nat>,
    detail: Option<Seq<char>>,
) -> JsonView {
    JsonView::object().with("type"@, JsonView::Str("tool"@)).with("id"@, JsonView::Str(id)).with(
        "name"@,
        JsonView::Str(name),
    ).with("status"@, JsonView::Str(status)).with("input"@, input).with(
        "round"@,
        JsonView::Number(JsonNumber::Natural(round as u64)),
    ).with_some(
        "source_count"@,
        match source_count {
            Some(n) => Some(JsonView::Number(JsonNumber::Natural(n as u64))),
            None => None,
        },
    ).with_some(
        "detail"@,
        match detail {
            Some(text) => Some(JsonView::Str(text)),
            None => None,
        },
    )
}

/// An event that carries reasoning.
pub open spec fn reasoning_event(text: Seq<char>, round: nat) -> JsonView {
    JsonView::object().with("type"@, JsonView::Str("reasoning"@)).with(
        "delta"@,
        JsonView::Str(text),
    ).with("round"@, JsonView::Number(JsonNumber::Natural(round as u64)))
}

/// The history of a run with one more event, where someone listens.
pub open spec fn heard(history: Seq<JsonView>, listening: bool, event: JsonView) -> Seq<JsonView> {
    if listening {
        history.push(event)
    } else {
        history
    }
}

/// The history of a run with reasoning added; blank reasoning is no event.
pub open spec fn heard_reasoning(
    history: Seq<JsonView>,
    listening: bool,
    text: Seq<char>,
    round: nat,
) -> Seq<JsonView> {
    if is_blank(text) {
        history
    } else {
        heard(history, listening, reasoning_event(text, round))
    }
}

/// Where the events of a run go: they are kept in order, where someone listens at all.
pub struct AgentEventSink {
    listening: bool,
    history: Vec<Json>,
}

/// What a sink has heard.
pub struct SinkView {
    pub listening: bool,
    pub history: Seq<JsonView>,
}

impl View for AgentEventSink {
    type V = SinkView;

    closed spec fn view(&self) -> SinkView {
        SinkView { listening: self.listening, history: views(self.history@) }
    }
}

impl AgentEventSink {
    /// A sink that has heard nothing.
    pub fn new(listening: bool) -> (r: Self)
        ensures
            r@ == (SinkView { listening, history: Seq::empty() }),
    {
        let r = AgentEventSink { listening, history: Vec::new() };
        assert(r@.history =~= Seq::empty());
        r
    }

    /// Takes an event.
    pub fn send(&mut self, event: Json)
        ensures
            final(self)@.listening == old(self)@.listening,
            final(self)@.history == heard(old(self)@.history, old(self)@.listening, event@),
    {
        if self.listening {
            proof {
                views_push(self.history@, event);
            }
            self.history.push(event);
        }
    }

    /// Everything that was heard, in order.
    pub fn history(&self) -> (r: &Vec<Json>)
        ensures
            views(r@) == self@.history,
    {
        &self.history
    }

    /// Tells of a tool.
    pub fn emit(
        &mut self,
        id: &str,
        name: &str,
        status: &str,
        input: Json,
        round: usize,
        source_count: Option<usize>,
        detail: Option<&str>,
    )
        ensures
            final(self)@.listening == old(self)@.listening,
            final(self)@.history == heard(
                old(self)@.history,
                old(self)@.listening,
                tool_event(
                    id@,
                    name@,
                    status@,
                    input@,
                    round as nat,
                    match source_count {
                        Some(n) => Some(n as nat),
                        None => None,
                    },
                    opt_text(detail),
                ),
            ),
    {
        let mut event = Json::object().with("type", Json::text("tool")).with(
            "id",
            Json::text(id),
        ).with("name", Json::text(name)).with("status", Json::text(status)).with("input", input).with(
            "round",
            Json::natural(round as u64),
        );
        if let Some(count) = source_count {
            event.set("source_count", Json::natural(count as u64));
        }
        if let Some(text) = detail {
            event.set("detail", Json::text(text));
        }
        self.send(event);
    }

    /// Passes reasoning on, unless it is blank.
    pub fn emit_reasoning(&mut self, text: &str, round: usize)
        ensures
            final(self)@.listening == old(self)@.listening,
            final(self)@.history == heard_reasoning(
                old(self)@.history,
                old(self)@.listening,
                text@,
                round as nat,
            ),
    {
        if blank(text) {
            return;
        }
        let event = Json::object().with("type", Json::text("reasoning")).with(
            "delta",
            Json::text(text),
        ).with("round", Json::natural(round as u64));
        self.send(event);
    }
}

// ---------------------------------------------------------------- laws

/// An event of a tool says which call it is about, in which state and round it is, and what was
/// found, where something was.
pub proof fn events_say_what_they_are_about(
    id: Seq<char>,
    name: Seq<char>,
    status: Seq<char>,
    input: JsonView,
    round: nat,
    source_count: Option<nat>,
    detail: Option<Seq<char>>,
)
    ensures
        ({
            let event = tool_event(id, name, status, input, round, source_count, detail);
            &&& event.at("type"@) == JsonView::Str("tool"@)
            &&& event.at("id"@) == JsonView::Str(id)
            &&& event.at("name"@) == JsonView::Str(name)
            &&& event.at("status"@) == JsonView::Str(status)
            &&& event.at("input"@) == input
            &&& event.at("round"@).natural() == Some(round as u64)
            &&& event.at("source_count"@).natural() == match source_count {
                Some(n) => Some(n as u64),
                None => None,
            }
            &&& event.at("detail"@).text() == detail
        }),
{
    names_are_told_apart();
}

/// What is thought is told whole and with its round, unless it is blank or nobody listens; what was
/// told before stays.
pub proof fn thoughts_are_told(history: Seq<JsonView>, listening: bool, text: Seq<char>, round: nat)
    ensures
        ({
            let after = heard_reasoning(history, listening, text, round);
            if listening && !is_blank(text) {
                &&& after.len() == history.len() + 1
                &&& after.drop_last() == history
                &&& after.last().at("type"@) == JsonView::Str("reasoning"@)
                &&& after.last().at("delta"@) == JsonView::Str(text)
                &&& after.last().at("round"@).natural() == Some(round as u64)
            } else {
                after == history
            }
        }),
{
    names_are_told_apart();
    assert(heard_reasoning(history, listening, text, round).len() > history.len()
        ==> heard_reasoning(history, listening, text, round).drop_last() =~= history);
}

} // verus!
