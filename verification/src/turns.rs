//! A turn from the client's request to the stored reply: what is loaded, what is sent, and what
//! follows when the provider refuses.

use vstd::prelude::*;
use vstd::string::*;

use crate::agent::json_items;
use crate::error::{ApiError, ErrorView};
use crate::json::{views, Json, JsonView};
use crate::letters::{ascii_lowered, lowercased};
use crate::names::names_are_told_apart;
use crate::providers::{kind_of, Tools};
use crate::replies::{Reply, ReplyView};
use crate::respond::{
    build_transcript, chain_transcript, chained_calls_send_the_message, chained_transcript,
    load_chain, messages_keep_their_roles, plan_turn, planned, read_reply, recover, stored_views,
    transcript_of, transcripts_start_with_their_head, usable_chain, Recovery, RespondRequest,
    StoredMessage, StoredView, TurnMode, TurnPlan,
};
use crate::search::holds;
use crate::text::{opt_string, opt_text};
use crate::thinking::{split_text, unmarked_text_is_unchanged};
use crate::web_tools::{asks_for_search, content_requests_web_search};

verus! {

// ---------------------------------------------------------------- turns

/// A turn under way.
pub struct Turn {
    kind: String,
    supports_images: bool,
    content: String,
    sequence: i64,
    summary: Option<String>,
    plan: TurnPlan,
    chain: Option<String>,
    transcript: Vec<Json>,
    sources: Vec<Json>,
    resent: bool,
}

/// How far a turn is: whom it is sent to, the message that is answered and where it stands, the
/// summary of what came before, the plan, the chain that is continued, what is sent, the sources
/// that an earlier run of the agent left, and whether it is sent for the second time.
pub struct TurnView {
    pub kind: Seq<char>,
    pub supports_images: bool,
    pub content: Seq<char>,
    pub sequence: i64,
    pub summary: Option<Seq<char>>,
    pub plan: TurnPlan,
    pub chain: Option<Seq<char>>,
    pub transcript: Seq<JsonView>,
    pub sources: Seq<JsonView>,
    pub resent: bool,
}

impl View for Turn {
    type V = TurnView;

    closed spec fn view(&self) -> TurnView {
        TurnView {
            kind: self.kind@,
            supports_images: self.supports_images,
            content: self.content@,
            sequence: self.sequence,
            summary: opt_string(self.summary),
            plan: self.plan,
            chain: opt_string(self.chain),
            transcript: views(self.transcript@),
            sources: views(self.sources@),
            resent: self.resent,
        }
    }
}

/// What a turn needs next.
pub enum TurnAction {
    /// Load the stored chain, and whether the model may continue one.
    LoadChain,
    /// Load the messages behind the summary, the newest first.
    LoadMessages,
    /// Load what a failed run of the agent for this message has left.
    LoadFailedRun,
    /// Let the agent answer.
    Research,
    /// Send the transcript to the provider.
    Send,
    /// Forget the stored chain, then load the messages.
    ForgetChain,
    /// Store the reply.
    Store { answer: String, reasoning: String, response_id: Option<String> },
    /// Tell the client.
    Fail(ApiError),
}

/// What a turn needs next.
pub enum TurnActionView {
    LoadChain,
    LoadMessages,
    LoadFailedRun,
    Research,
    Send,
    ForgetChain,
    Store { answer: Seq<char>, reasoning: Seq<char>, response_id: Option<Seq<char>> },
    Fail(ErrorView),
}

impl View for TurnAction {
    type V = TurnActionView;

    open spec fn view(&self) -> TurnActionView {
        match self {
            TurnAction::LoadChain => TurnActionView::LoadChain,
            TurnAction::LoadMessages => TurnActionView::LoadMessages,
            TurnAction::LoadFailedRun => TurnActionView::LoadFailedRun,
            TurnAction::Research => TurnActionView::Research,
            TurnAction::Send => TurnActionView::Send,
            TurnAction::ForgetChain => TurnActionView::ForgetChain,
            TurnAction::Store { answer, reasoning, response_id } => TurnActionView::Store {
                answer: answer@,
                reasoning: reasoning@,
                response_id: opt_string(*response_id),
            },
            TurnAction::Fail(error) => TurnActionView::Fail(error@),
        }
    }
}

impl TurnView {
    /// A turn of which nothing has been loaded.
    pub open spec fn begun(
        kind: Seq<char>,
        supports_images: bool,
        content: Seq<char>,
        sequence: i64,
        summary: Option<Seq<char>>,
        plan: TurnPlan,
    ) -> TurnView {
        TurnView {
            kind,
            supports_images,
            content,
            sequence,
            summary,
            plan,
            chain: None,
            transcript: Seq::empty(),
            sources: Seq::empty(),
            resent: false,
        }
    }

    /// What a turn needs first.
    pub open spec fn first_action(self) -> TurnActionView {
        if self.plan.may_chain {
            TurnActionView::LoadChain
        } else {
            TurnActionView::LoadMessages
        }
    }

    /// What a turn needs once nothing is left to load.
    pub open spec fn sending_action(self) -> TurnActionView {
        if self.plan.mode == TurnMode::Agent {
            TurnActionView::Research
        } else {
            TurnActionView::Send
        }
    }

    /// What a turn needs once its transcript is there: a search first resumes what failed before.
    pub open spec fn ready_action(self) -> TurnActionView {
        if self.plan.search_requested {
            TurnActionView::LoadFailedRun
        } else {
            self.sending_action()
        }
    }

    /// The chain that a turn continues.
    pub open spec fn continued(
        self,
        enabled: bool,
        stored: Option<(Option<Seq<char>>, i64)>,
    ) -> Option<Seq<char>> {
        if enabled {
            usable_chain(stored, self.sequence)
        } else {
            None
        }
    }

    /// The turn once the stored chain is known. A provider that holds the conversation itself is
    /// sent this turn alone.
    pub open spec fn with_chain(
        self,
        enabled: bool,
        stored: Option<(Option<Seq<char>>, i64)>,
    ) -> TurnView {
        match self.continued(enabled, stored) {
            Some(id) => TurnView {
                chain: Some(id),
                transcript: chained_transcript(
                    kind_of(self.kind),
                    self.supports_images,
                    self.content,
                    self.plan.enable_markdown,
                ),
                ..self
            },
            None => self,
        }
    }

    /// What a turn needs once the stored chain is known.
    pub open spec fn chain_action(
        self,
        enabled: bool,
        stored: Option<(Option<Seq<char>>, i64)>,
    ) -> TurnActionView {
        if self.continued(enabled, stored) is Some {
            self.ready_action()
        } else {
            TurnActionView::LoadMessages
        }
    }

    /// The turn once the messages are there: the conversation is sent as a whole, without a chain.
    pub open spec fn with_messages(self, rows: Seq<StoredView>) -> TurnView {
        TurnView {
            chain: None,
            transcript: transcript_of(
                kind_of(self.kind),
                self.supports_images,
                rows,
                self.summary,
                self.plan.context_rounds,
                self.plan.enable_markdown,
            ),
            ..self
        }
    }

    /// What a turn needs once the messages are there.
    pub open spec fn messages_action(self) -> TurnActionView {
        if self.resent {
            TurnActionView::Send
        } else {
            self.ready_action()
        }
    }

    /// The turn once it is known what a failed run has left: its transcript and its sources.
    pub open spec fn with_failed_run(self, run: Option<(JsonView, JsonView)>) -> TurnView {
        match run {
            Some((transcript, sources)) => TurnView {
                transcript: transcript.items_or_empty(),
                sources: sources.items_or_empty(),
                ..self
            },
            None => self,
        }
    }

    /// Whether a refusal is recovered from: once, where the chain is stale.
    pub open spec fn recovers(self, error: ErrorView) -> bool {
        !self.resent && error.code == "provider_chain_stale"@
    }

    /// The turn after the provider refused it.
    pub open spec fn refused(self, error: ErrorView) -> TurnView {
        if self.recovers(error) {
            TurnView { resent: true, ..self }
        } else {
            self
        }
    }

    /// What a turn needs after the provider refused it.
    pub open spec fn refused_action(self, error: ErrorView) -> TurnActionView {
        if self.recovers(error) {
            TurnActionView::ForgetChain
        } else {
            TurnActionView::Fail(error)
        }
    }
}

/// What is stored of a reply.
pub open spec fn stored_reply(reply: ReplyView) -> TurnActionView {
    let (answer, inline) = split_text(reply.text, false);
    TurnActionView::Store {
        answer,
        reasoning: reply.reasoning + inline,
        response_id: reply.response_id,
    }
}

/// The view of a stored chain.
pub open spec fn chain_view(stored: Option<(Option<String>, i64)>) -> Option<
    (Option<Seq<char>>, i64),
> {
    match stored {
        Some((id, sequence)) => Some((opt_string(id), sequence)),
        None => None,
    }
}

/// The view of what a failed run has left.
pub open spec fn run_view(run: Option<(Json, Json)>) -> Option<(JsonView, JsonView)> {
    match run {
        Some((transcript, sources)) => Some((transcript@, sources@)),
        None => None,
    }
}

// ---------------------------------------------------------------- steps

/// Begins a turn that is planned.
pub fn begin(
    kind: &str,
    supports_images: bool,
    content: &str,
    sequence: i64,
    summary: Option<&str>,
    plan: TurnPlan,
) -> (r: (Turn, TurnAction))
    ensures
        r.0@ == TurnView::begun(
            kind@,
            supports_images,
            content@,
            sequence,
            opt_text(summary),
            plan,
        ),
        r.1@ == r.0@.first_action(),
{
    let action = if plan.may_chain {
        TurnAction::LoadChain
    } else {
        TurnAction::LoadMessages
    };
    let turn = Turn {
        kind: kind.to_owned(),
        supports_images,
        content: content.to_owned(),
        sequence,
        summary: match summary {
            Some(text) => Some(text.to_owned()),
            None => None,
        },
        plan,
        chain: None,
        transcript: Vec::new(),
        sources: Vec::new(),
        resent: false,
    };
    proof {
        assert(turn@.transcript =~= Seq::empty());
        assert(turn@.sources =~= Seq::empty());
    }
    (turn, action)
}

/// Begins to answer a message.
pub fn respond(
    kind: &str,
    supports_images: bool,
    request: &RespondRequest,
    content: &str,
    images: &Json,
    sequence: i64,
    summary: Option<&str>,
) -> (r: (Turn, TurnAction))
    ensures
        r.0@ == TurnView::begun(
            kind@,
            supports_images,
            content@,
            sequence,
            opt_text(summary),
            planned(kind@, *request, content@, images@, asks_for_search(lowercased(content@))),
        ),
        r.1@ == r.0@.first_action(),
{
    let asks = content_requests_web_search(content);
    let plan = plan_turn(kind, request, content, images, asks);
    begin(kind, supports_images, content, sequence, summary, plan)
}

impl Turn {
    /// How the turn is answered.
    pub fn plan(&self) -> (r: &TurnPlan)
        ensures
            *r == self@.plan,
    {
        &self.plan
    }

    /// The chain that is continued.
    pub fn chain(&self) -> (r: Option<&str>)
        ensures
            opt_text(r) == self@.chain,
    {
        match &self.chain {
            Some(id) => Some(id.as_str()),
            None => None,
        }
    }

    /// What is sent.
    pub fn transcript(&self) -> (r: &Vec<Json>)
        ensures
            views(r@) == self@.transcript,
    {
        &self.transcript
    }

    /// What a run of the agent starts from: the transcript and the sources.
    pub fn into_run(self) -> (r: (Vec<Json>, Vec<Json>))
        ensures
            views(r.0@) == self@.transcript,
            views(r.1@) == self@.sources,
    {
        (self.transcript, self.sources)
    }

    fn send(&self) -> (r: TurnAction)
        ensures
            r@ == self@.sending_action(),
    {
        match self.plan.mode {
            TurnMode::Agent => TurnAction::Research,
            TurnMode::Relay => TurnAction::Send,
            TurnMode::Complete => TurnAction::Send,
        }
    }

    fn resume(&self) -> (r: TurnAction)
        ensures
            r@ == self@.ready_action(),
    {
        if self.plan.search_requested {
            TurnAction::LoadFailedRun
        } else {
            self.send()
        }
    }

    /// Takes the stored chain, and whether the model may continue one.
    pub fn take_chain(&mut self, enabled: bool, stored: Option<(Option<String>, i64)>) -> (r:
        TurnAction)
        ensures
            final(self)@ == old(self)@.with_chain(enabled, chain_view(stored)),
            r@ == old(self)@.chain_action(enabled, chain_view(stored)),
    {
        if enabled {
            if let Some(id) = load_chain(stored, self.sequence) {
                self.chain = Some(id);
                self.transcript =
                chain_transcript(
                    self.kind.as_str(),
                    self.supports_images,
                    self.content.as_str(),
                    self.plan.enable_markdown,
                );
                return self.resume();
            }
        }
        TurnAction::LoadMessages
    }

    /// Takes the messages behind the summary, the newest first.
    pub fn take_messages(&mut self, rows: &Vec<StoredMessage>) -> (r: TurnAction)
        ensures
            final(self)@ == old(self)@.with_messages(stored_views(rows@)),
            r@ == old(self)@.messages_action(),
    {
        self.chain = None;
        let summary = match &self.summary {
            Some(text) => Some(text.as_str()),
            None => None,
        };
        self.transcript =
        build_transcript(
            self.kind.as_str(),
            self.supports_images,
            rows,
            summary,
            self.plan.context_rounds,
            self.plan.enable_markdown,
        );
        if self.resent {
            TurnAction::Send
        } else {
            self.resume()
        }
    }

    /// Takes what a failed run of the agent has left: its transcript and its sources.
    pub fn take_failed_run(&mut self, run: Option<(Json, Json)>) -> (r: TurnAction)
        ensures
            final(self)@ == old(self)@.with_failed_run(run_view(run)),
            r@ == old(self)@.sending_action(),
    {
        if let Some((transcript, sources)) = run {
            self.transcript = json_items(&transcript);
            self.sources = json_items(&sources);
        }
        self.send()
    }

    /// Takes the refusal of the provider.
    pub fn take_refusal(&mut self, error: ApiError) -> (r: TurnAction)
        ensures
            final(self)@ == old(self)@.refused(error@),
            r@ == old(self)@.refused_action(error@),
    {
        if self.resent {
            return TurnAction::Fail(error);
        }
        match recover(error) {
            Recovery::ResendWhole => {
                self.resent = true;
                TurnAction::ForgetChain
            },
            Recovery::Fail(error) => TurnAction::Fail(error),
        }
    }

    /// Takes the complete reply of the provider.
    pub fn take_reply(&self, reply: Reply) -> (r: TurnAction)
        ensures
            r@ == stored_reply(reply@),
    {
        let (answer, reasoning) = read_reply(&reply);
        TurnAction::Store { answer, reasoning, response_id: reply.response_id }
    }
}

// ---------------------------------------------------------------- laws

/// A turn that is sent again is sent as a whole and without a chain, and no refusal makes it be
/// sent a third time.
pub proof fn turns_are_sent_twice_at_most(
    turn: TurnView,
    first: ErrorView,
    rows: Seq<StoredView>,
    second: ErrorView,
)
    requires
        turn.recovers(first),
    ensures
        ({
            let again = turn.refused(first).with_messages(rows);
            &&& turn.refused(first).messages_action() == TurnActionView::Send
            &&& again.chain is None
            &&& again.transcript == turn.with_messages(rows).transcript
            &&& again.refused_action(second) == TurnActionView::Fail(second)
        }),
{
}

/// A chained call sends the instruction and the message alone, whatever came before it; without a
/// usable chain the whole conversation is loaded.
pub proof fn chained_turns_send_one_message(
    turn: TurnView,
    enabled: bool,
    stored: Option<(Option<Seq<char>>, i64)>,
)
    requires
        turn.chain is None,
    ensures
        turn.with_chain(enabled, stored).chain is Some ==> turn.with_chain(
            enabled,
            stored,
        ).transcript.len() == 2,
        turn.with_chain(enabled, stored).chain is None ==> turn.chain_action(enabled, stored)
            == TurnActionView::LoadMessages,
{
}

/// The agent never answers a turn that continues a chain: a turn that may continue one is sent to
/// a provider that searches by itself.
pub proof fn researched_turns_are_not_chained(
    kind: Seq<char>,
    supports_images: bool,
    request: RespondRequest,
    content: Seq<char>,
    images: JsonView,
    asks: bool,
    sequence: i64,
    summary: Option<Seq<char>>,
)
    ensures
        ({
            let turn = TurnView::begun(
                kind,
                supports_images,
                content,
                sequence,
                summary,
                planned(kind, request, content, images, asks),
            );
            turn.first_action() == TurnActionView::LoadChain ==> {
                &&& turn.ready_action() == TurnActionView::Send
                &&& turn.plan.tools == Tools::Hosted
            }
        }),
{
}

/// A turn begins with what it was given and with nothing loaded; it asks for the stored chain first
/// where it may continue one, and for the messages otherwise.
pub proof fn turns_begin_as_given(
    kind: Seq<char>,
    supports_images: bool,
    content: Seq<char>,
    sequence: i64,
    summary: Option<Seq<char>>,
    plan: TurnPlan,
)
    ensures
        ({
            let turn = TurnView::begun(kind, supports_images, content, sequence, summary, plan);
            &&& turn.kind == kind && turn.supports_images == supports_images
            &&& turn.content == content && turn.sequence == sequence
            &&& turn.summary == summary && turn.plan == plan
            &&& turn.chain is None && turn.transcript.len() == 0 && turn.sources.len() == 0
            &&& !turn.resent
            &&& plan.may_chain ==> turn.first_action() == TurnActionView::LoadChain
            &&& !plan.may_chain ==> turn.first_action() == TurnActionView::LoadMessages
        }),
{
}

/// A turn that is ready is researched exactly where its plan says so, and otherwise sent; where a
/// search was asked for, what a failed run left is looked for before.
pub proof fn ready_turns_follow_their_plan(turn: TurnView)
    ensures
        turn.sending_action() == TurnActionView::Research <==> turn.plan.mode == TurnMode::Agent,
        turn.sending_action() == TurnActionView::Send <==> turn.plan.mode != TurnMode::Agent,
        turn.ready_action() == TurnActionView::LoadFailedRun <==> turn.plan.search_requested,
        !turn.plan.search_requested && turn.plan.mode == TurnMode::Agent ==> turn.ready_action()
            == TurnActionView::Research,
        !turn.plan.search_requested && turn.plan.mode != TurnMode::Agent ==> turn.ready_action()
            == TurnActionView::Send,
        turn.resent ==> turn.messages_action() == TurnActionView::Send,
        !turn.resent ==> turn.messages_action() == turn.ready_action(),
{
}

/// A stored chain that ends right before the message is continued, if the model may: the message
/// then goes out alone, and under the chain's id. Nothing else of the turn changes.
pub proof fn usable_chains_are_continued(
    turn: TurnView,
    enabled: bool,
    id: Seq<char>,
    sequence: i64,
)
    requires
        turn.chain is None,
    ensures
        ({
            let after = turn.with_chain(enabled, Some((Some(id), sequence)));
            let fits = enabled && sequence + 1 == turn.sequence;
            &&& fits ==> {
                &&& after.chain == Some(id)
                &&& after.transcript.len() == 2
                &&& after.transcript[0].at("role"@) == JsonView::Str("system"@)
                &&& after.transcript[1].at("role"@) == JsonView::Str("user"@)
                &&& after.transcript[1].at("content"@) == JsonView::Str(turn.content)
                &&& after == (TurnView {
                    chain: after.chain,
                    transcript: after.transcript,
                    ..turn
                })
                &&& turn.chain_action(enabled, Some((Some(id), sequence))) == turn.ready_action()
            }
            &&& !fits ==> after == turn && turn.chain_action(enabled, Some((Some(id), sequence)))
                == TurnActionView::LoadMessages
        }),
{
    names_are_told_apart();
    chained_calls_send_the_message(
        kind_of(turn.kind),
        turn.supports_images,
        turn.content,
        turn.plan.enable_markdown,
        Seq::empty(),
        None,
    );
    transcripts_start_with_their_head(
        kind_of(turn.kind),
        turn.supports_images,
        Seq::empty(),
        None,
        None,
        turn.plan.enable_markdown,
    );
}

/// Once the messages are there, each of the last rounds stands in what is sent, the newest at the
/// end and each in its own role; nothing but the transcript and the chain changes.
pub proof fn loaded_messages_are_sent(turn: TurnView, rows: Seq<StoredView>, i: int)
    requires
        0 <= i < rows.len(),
        turn.plan.context_rounds matches Some(n) ==> i < 2 * n,
    ensures
        ({
            let after = turn.with_messages(rows);
            let sent = after.transcript;
            &&& sent.len() > i + 1
            &&& sent[0].at("role"@) == JsonView::Str("system"@)
            &&& sent[sent.len() - 1 - i].at("role"@) == JsonView::Str(rows[i].role)
            &&& rows[i].images.items_or_empty().len() == 0 ==> sent[sent.len() - 1 - i].at(
                "content"@,
            ) == JsonView::Str(split_text(rows[i].content, false).0)
            &&& after == (TurnView { chain: None, transcript: sent, ..turn })
        }),
{
    messages_keep_their_roles(
        kind_of(turn.kind),
        turn.supports_images,
        rows,
        turn.summary,
        turn.plan.context_rounds,
        turn.plan.enable_markdown,
        i,
    );
    transcripts_start_with_their_head(
        kind_of(turn.kind),
        turn.supports_images,
        rows,
        turn.summary,
        turn.plan.context_rounds,
        turn.plan.enable_markdown,
    );
}

/// What a failed run has left is taken up as it is, its transcript as the transcript and its sources
/// as the sources; where it has left nothing, the turn stays as it was.
pub proof fn failed_runs_are_taken_up(
    turn: TurnView,
    transcript: Seq<JsonView>,
    sources: Seq<JsonView>,
)
    ensures
        ({
            let after = turn.with_failed_run(
                Some((JsonView::Array(transcript), JsonView::Array(sources))),
            );
            &&& after.transcript == transcript
            &&& after.sources == sources
            &&& after == (TurnView { transcript, sources, ..turn })
        }),
        turn.with_failed_run(None) == turn,
{
}

/// A refusal is recovered from exactly where it is of a stale chain and the first; any other is told
/// as it is, and changes nothing.
pub proof fn refusals_are_told_unless_stale(turn: TurnView, error: ErrorView)
    ensures
        !turn.resent && error.code == "provider_chain_stale"@ ==> {
            &&& turn.refused_action(error) == TurnActionView::ForgetChain
            &&& turn.refused(error) == (TurnView { resent: true, ..turn })
        },
        turn.resent || error.code != "provider_chain_stale"@ ==> {
            &&& turn.refused_action(error) == TurnActionView::Fail(error)
            &&& turn.refused(error) == turn
        },
{
}

/// A reply without thinking tags is stored as it is, its reasoning and its id with it; what a reply
/// hid as thinking is stored behind its reasoning.
pub proof fn clean_replies_are_stored_unchanged(reply: ReplyView)
    ensures
        stored_reply(reply) matches TurnActionView::Store { answer, reasoning, response_id } && {
            &&& response_id == reply.response_id
            &&& reply.reasoning.is_prefix_of(reasoning)
            &&& !holds(ascii_lowered(reply.text), "<think>"@) && !holds(
                ascii_lowered(reply.text),
                "<thinking>"@,
            ) ==> answer == reply.text && reasoning == reply.reasoning
        },
{
    let (answer, inline) = split_text(reply.text, false);
    let reasoning = reply.reasoning + inline;
    assert(reply.reasoning =~= reasoning.subrange(0, reply.reasoning.len() as int));
    if !holds(ascii_lowered(reply.text), "<think>"@) && !holds(
        ascii_lowered(reply.text),
        "<thinking>"@,
    ) {
        unmarked_text_is_unchanged(reply.text);
        assert(reasoning =~= reply.reasoning);
    }
}

} // verus!
