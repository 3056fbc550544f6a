//! Server-sent events for the two streaming modes: relaying a provider stream, and passing on the
//! events of the agent while it runs.

use vstd::prelude::*;
use vstd::string::*;
use vstd::utf8::encode_utf8;

use crate::agent::{AnswerView, WebAgentAnswer};
use crate::error::ApiError;
use crate::json::{json_text, views, views_push, Json, JsonNumber, JsonView};
use crate::names::names_are_told_apart;
use crate::pages::{decode_lossy, lossy_text};
use crate::provider_stream::{frame_fragment, provider_stream_delta, FragmentView, StreamFragment};
use crate::providers::{kind_of, RequestKind};
use crate::search::{
    find_from, found, found_from_is_least, found_iff_holds, holds, replace, replaced,
};
use crate::text::{blank, chars_of, is_blank, opt_string, same, slice};
use crate::thinking::{
    after_chunks, drained, gathered, gathered_adds_up, piece, pieces_of, split_text,
    streaming_agrees_with_splitting, text_without_brackets_passes, whole, ThinkingStream,
};

verus! {

// ---------------------------------------------------------------- events

/// A server-sent event that carries a value.
pub open spec fn sse_text(event: JsonView) -> Seq<char> {
    "data: "@ + json_text(event) + "\n\n"@
}

/// Frames a text as a server-sent event.
pub fn frame_data_text(text: &str) -> (r: String)
    ensures
        r@ == "data: "@ + text@ + "\n\n"@,
{
    "data: ".to_owned().concat(text).concat("\n\n")
}

/// Frames a value as a server-sent event.
pub fn sse_event(event: &Json) -> (r: String)
    ensures
        r@ == sse_text(event@),
{
    let text = event.print();
    frame_data_text(text.as_str())
}

/// An event with a type and one more entry.
pub open spec fn event_view(kind: Seq<char>, key: Seq<char>, value: JsonView) -> JsonView {
    JsonView::object().with("type"@, JsonView::Str(kind)).with(key, value)
}

/// An event with a type and one more entry.
fn make_event(kind: &str, key: &str, value: Json) -> (r: Json)
    ensures
        r@ == event_view(kind@, key@, value@),
        r@ is Object,
{
    Json::object().with("type", Json::text(kind)).with(key, value)
}

/// An event that tells of an error.
pub open spec fn error_event(message: Seq<char>) -> JsonView {
    event_view("error"@, "message"@, JsonView::Str(message))
}

/// An event that tells of an error.
pub fn make_error_event(message: &str) -> (r: Json)
    ensures
        r@ == error_event(message@),
{
    make_event("error", "message", Json::text(message))
}

/// The event for a provider stream that breaks off.
pub fn interrupted_event() -> (r: Json)
    ensures
        r@ == error_event("The provider stream was interrupted."@),
{
    make_error_event("The provider stream was interrupted.")
}

/// The event that ends a relayed stream: the message as it was stored, or that it could not be.
pub fn relay_saved_event(message: Option<Json>) -> (r: Json)
    ensures
        r@ == match message {
            Some(message) => event_view("done"@, "message"@, message@),
            None => error_event("The streamed response could not be saved."@),
        },
{
    match message {
        Some(message) => make_event("done", "message", message),
        None => make_error_event("The streamed response could not be saved."),
    }
}

/// The event that ends a run of the agent: the message as it was stored, or that it could not be.
pub fn run_saved_event(message: Option<Json>) -> (r: Json)
    ensures
        r@ == match message {
            Some(message) => event_view("done"@, "message"@, message@),
            None => error_event("The response could not be saved."@),
        },
{
    match message {
        Some(message) => make_event("done", "message", message),
        None => make_error_event("The response could not be saved."),
    }
}

// ---------------------------------------------------------------- relaying

/// How far a relayed stream is: the answer and the reasoning so far, the text that has not made up
/// a frame yet, the mode and the waiting text of the thinking filter, the summary part and its row
/// in the timeline, the id of the response, and whether the provider has failed the turn.
pub struct RelayView {
    pub answer: Seq<char>,
    pub reasoning: Seq<char>,
    pub buffer: Seq<char>,
    pub in_think: bool,
    pub waiting: Seq<char>,
    pub part: Option<Seq<char>>,
    pub row: nat,
    pub id: Option<Seq<char>>,
    pub failed: bool,
}

/// What is told of a hosted tool at work: a row of the timeline.
pub open spec fn activity_events(activity: Option<JsonView>) -> Seq<JsonView> {
    match activity {
        Some(row) => seq![event_view("tool"@, "tool"@, row)],
        None => Seq::empty(),
    }
}

impl RelayView {
    /// A relay that has read nothing.
    pub open spec fn fresh() -> RelayView {
        RelayView {
            answer: Seq::empty(),
            reasoning: Seq::empty(),
            buffer: Seq::empty(),
            in_think: false,
            waiting: Seq::empty(),
            part: None,
            row: 0,
            id: None,
            failed: false,
        }
    }

    /// Whether a piece belongs to another summary part than the one before.
    pub open spec fn turns_to(self, part: Option<Seq<char>>) -> bool {
        part is Some && self.part != part
    }

    /// The relay after one piece. A new summary part starts a new row and a new paragraph.
    pub open spec fn with_piece(
        self,
        part: Option<Seq<char>>,
        reasoning: bool,
        text: Seq<char>,
    ) -> RelayView {
        if text.len() == 0 {
            self
        } else if !reasoning {
            RelayView { answer: self.answer + text, ..self }
        } else if self.turns_to(part) {
            RelayView {
                reasoning: if self.reasoning.len() > 0 {
                    self.reasoning + "\n\n"@ + text
                } else {
                    self.reasoning + text
                },
                part,
                row: self.row + 1,
                ..self
            }
        } else {
            RelayView { reasoning: self.reasoning + text, ..self }
        }
    }

    /// What is told of one piece.
    pub open spec fn piece_events(
        self,
        part: Option<Seq<char>>,
        reasoning: bool,
        text: Seq<char>,
    ) -> Seq<JsonView> {
        if text.len() == 0 {
            Seq::empty()
        } else {
            let event = event_view(
                if reasoning {
                    "reasoning"@
                } else {
                    "delta"@
                },
                "delta"@,
                JsonView::Str(text),
            );
            if reasoning && part is Some {
                let row = self.with_piece(part, reasoning, text).row;
                seq![event.with("round"@, JsonView::Number(JsonNumber::Natural(row as u64)))]
            } else {
                seq![event]
            }
        }
    }

    /// The relay after several pieces, and what is told of them.
    pub open spec fn with_pieces(
        self,
        part: Option<Seq<char>>,
        pieces: Seq<(bool, Seq<char>)>,
    ) -> (RelayView, Seq<JsonView>)
        decreases pieces.len(),
    {
        if pieces.len() == 0 {
            (self, Seq::empty())
        } else {
            let before = self.with_pieces(part, pieces.drop_last());
            let (reasoning, text) = pieces.last();
            (
                before.0.with_piece(part, reasoning, text),
                before.1 + before.0.piece_events(part, reasoning, text),
            )
        }
    }

    /// The relay after the text of one frame, and what is told of it. Text passes the thinking
    /// filter; reasoning does not.
    pub open spec fn with_said(self, fragment: FragmentView) -> (RelayView, Seq<JsonView>) {
        let known = if fragment.response_id is Some {
            RelayView { id: fragment.response_id, ..self }
        } else {
            self
        };
        if fragment.reasoning {
            known.with_pieces(fragment.part, seq![(true, fragment.text)])
        } else {
            let (in_think, waiting, pieces) = drained(
                known.in_think,
                known.waiting + fragment.text,
            );
            RelayView { in_think, waiting, ..known }.with_pieces(fragment.part, pieces)
        }
    }

    /// The relay after one frame, and what is told of it. A failure that the provider reports is
    /// told in the provider's words, and nothing after it. A hosted tool at work is shown in the
    /// timeline, because the stream goes quiet while it runs.
    pub open spec fn with_fragment(self, fragment: FragmentView) -> (RelayView, Seq<JsonView>) {
        if self.failed {
            (self, Seq::empty())
        } else {
            match fragment.error {
                Some(message) => (
                    RelayView { failed: true, ..self },
                    seq![error_event(message)],
                ),
                None => {
                    let after = self.with_said(fragment);
                    (after.0, activity_events(fragment.activity) + after.1)
                },
            }
        }
    }

    /// The relay after more text of the stream, and what is told of it.
    pub open spec fn with_text(self, kind: RequestKind, text: Seq<char>) -> (
        RelayView,
        Seq<JsonView>,
    ) {
        drained_frames(
            RelayView { buffer: replaced(self.buffer + text, "\r\n"@, "\n"@), ..self },
            kind,
        )
    }

    /// The relay after several texts of the stream, and what is told of them.
    pub open spec fn with_texts(self, kind: RequestKind, texts: Seq<Seq<char>>) -> (
        RelayView,
        Seq<JsonView>,
    )
        decreases texts.len(),
    {
        if texts.len() == 0 {
            (self, Seq::empty())
        } else {
            let before = self.with_texts(kind, texts.drop_last());
            let step = before.0.with_text(kind, texts.last());
            (step.0, before.1 + step.1)
        }
    }

    /// The relay after several frames.
    pub open spec fn with_fragments(self, fragments: Seq<FragmentView>) -> RelayView
        decreases fragments.len(),
    {
        if fragments.len() == 0 {
            self
        } else {
            self.with_fragments(fragments.drop_last()).with_fragment(fragments.last()).0
        }
    }

    /// The relay at the end of the stream, and what is told of the text that still waited; nothing
    /// once the turn has failed.
    pub open spec fn ended(self) -> (RelayView, Seq<JsonView>) {
        if self.failed {
            (self, Seq::empty())
        } else {
            RelayView { waiting: Seq::empty(), ..self }.with_pieces(
                None,
                piece(self.in_think, self.waiting),
            )
        }
    }
}

proof fn lemma_pieces_keep(state: RelayView, part: Option<Seq<char>>, pieces: Seq<(bool, Seq<char>)>)
    ensures
        state.with_pieces(part, pieces).0.buffer == state.buffer,
        state.with_pieces(part, pieces).0.failed == state.failed,
    decreases pieces.len(),
{
    if pieces.len() > 0 {
        lemma_pieces_keep(state, part, pieces.drop_last());
    }
}

proof fn lemma_fragment_keeps(state: RelayView, fragment: FragmentView)
    ensures
        state.with_fragment(fragment).0.buffer == state.buffer,
{
    let known = if fragment.response_id is Some {
        RelayView { id: fragment.response_id, ..state }
    } else {
        state
    };
    let (in_think, waiting, pieces) = drained(known.in_think, known.waiting + fragment.text);
    lemma_pieces_keep(known, fragment.part, seq![(true, fragment.text)]);
    lemma_pieces_keep(RelayView { in_think, waiting, ..known }, fragment.part, pieces);
}

/// A relay after the frames that are complete in its buffer, and what is told of them.
pub open spec fn drained_frames(state: RelayView, kind: RequestKind) -> (RelayView, Seq<JsonView>)
    decreases state.buffer.len(),
    via drained_frames_decreases
{
    match found(state.buffer, "\n\n"@) {
        Some(i) => {
            let rest = RelayView { buffer: state.buffer.skip(i + "\n\n"@.len()), ..state };
            let step = match frame_fragment(kind, state.buffer.take(i)) {
                Some(fragment) => rest.with_fragment(fragment),
                None => (rest, Seq::empty()),
            };
            let more = drained_frames(step.0, kind);
            (more.0, step.1 + more.1)
        },
        None => (state, Seq::empty()),
    }
}

#[via_fn]
proof fn drained_frames_decreases(state: RelayView, kind: RequestKind) {
    reveal_strlit("\n\n");
    found_from_is_least(state.buffer, "\n\n"@, 0);
    match found(state.buffer, "\n\n"@) {
        Some(i) => {
            let rest = RelayView { buffer: state.buffer.skip(i + "\n\n"@.len()), ..state };
            match frame_fragment(kind, state.buffer.take(i)) {
                Some(fragment) => {
                    lemma_fragment_keeps(rest, fragment);
                },
                None => {},
            }
        },
        None => {},
    }
}

/// A provider stream on its way to the client.
pub struct StreamRelay {
    kind: String,
    answer: String,
    reasoning: String,
    buffer: String,
    thinking: ThinkingStream,
    part: Option<String>,
    row: u64,
    id: Option<String>,
    failed: bool,
}

impl View for StreamRelay {
    type V = RelayView;

    closed spec fn view(&self) -> RelayView {
        RelayView {
            answer: self.answer@,
            reasoning: self.reasoning@,
            buffer: self.buffer@,
            in_think: self.thinking@.0,
            waiting: self.thinking@.1,
            part: opt_string(self.part),
            row: self.row as nat,
            id: opt_string(self.id),
            failed: self.failed,
        }
    }
}

/// What is done at the end of a relayed stream.
pub enum RelayEnd {
    /// Store the answer; then tell with `relay_saved_event`.
    Store { answer: String, reasoning: String, response_id: Option<String> },
    /// Tell this; the stream ends.
    Tell(Json),
    /// The failure has been told; the stream ends.
    Stop,
}

impl StreamRelay {
    /// The dialect of the provider.
    pub closed spec fn dialect(&self) -> RequestKind {
        kind_of(self.kind@)
    }

    /// Whether the rows that were counted have reasoning to show.
    pub open spec fn wf(&self) -> bool {
        self@.row <= self@.reasoning.len()
    }

    /// A relay that has read nothing.
    pub fn new(kind: &str) -> (r: Self)
        ensures
            r.wf(),
            r.dialect() == kind_of(kind@),
            r@ == RelayView::fresh(),
    {
        StreamRelay {
            kind: kind.to_owned(),
            answer: String::new(),
            reasoning: String::new(),
            buffer: String::new(),
            thinking: ThinkingStream::new(),
            part: None,
            row: 0,
            id: None,
            failed: false,
        }
    }

    /// Whether the provider has failed the turn. Nothing more is told or stored then.
    pub fn has_failed(&self) -> (r: bool)
        ensures
            r == self@.failed,
    {
        self.failed
    }

    fn relay_piece(
        &mut self,
        part: &Option<String>,
        reasoning: bool,
        text: &str,
        out: &mut Vec<Json>,
    )
        requires
            old(self).wf(),
        ensures
            final(self).wf(),
            final(self).dialect() == old(self).dialect(),
            final(self)@ == old(self)@.with_piece(opt_string(*part), reasoning, text@),
            views(final(out)@) == views(old(out)@) + old(self)@.piece_events(
                opt_string(*part),
                reasoning,
                text@,
            ),
    {
        let ghost before = views(out@);
        if text.is_empty() {
            assert(before + Seq::<JsonView>::empty() =~= before);
            return;
        }
        if !reasoning {
            self.answer.append(text);
            let event = make_event("delta", "delta", Json::text(text));
            proof {
                views_push(out@, event);
            }
            out.push(event);
            assert(views(out@) =~= before + seq![event@]);
            return;
        }
        let mut event = make_event("reasoning", "delta", Json::text(text));
        let turned = match part {
            Some(name) => match &self.part {
                Some(own) => !same(own.as_str(), name.as_str()),
                None => true,
            },
            None => false,
        };
        if turned {
            if !self.reasoning.as_str().is_empty() {
                self.reasoning.append("\n\n");
            }
            self.reasoning.append(text);
            let shown: usize = self.reasoning.as_str().unicode_len();
            assert(self.row + 1 <= shown);
            self.row = self.row + 1;
            self.part = match part {
                Some(name) => Some(name.clone()),
                None => None,
            };
        } else {
            self.reasoning.append(text);
        }
        if part.is_some() {
            event.set("round", Json::natural(self.row));
        }
        proof {
            views_push(out@, event);
        }
        out.push(event);
        assert(views(out@) =~= before + seq![event@]);
    }

    fn relay_pieces(
        &mut self,
        part: &Option<String>,
        pieces: &Vec<(bool, String)>,
        out: &mut Vec<Json>,
    )
        requires
            old(self).wf(),
        ensures
            final(self).wf(),
            final(self).dialect() == old(self).dialect(),
            ({
                let after = old(self)@.with_pieces(opt_string(*part), pieces_of(pieces@));
                &&& final(self)@ == after.0
                &&& views(final(out)@) == views(old(out)@) + after.1
            }),
    {
        let ghost start = self@;
        let ghost before = views(out@);
        let ghost all = pieces_of(pieces@);
        let ghost named = opt_string(*part);
        assert(all.take(0) =~= Seq::empty());
        assert(before + Seq::<JsonView>::empty() =~= before);
        for i in 0..pieces.len()
            invariant
                all == pieces_of(pieces@),
                named == opt_string(*part),
                self.wf(),
                self.dialect() == old(self).dialect(),
                self@ == start.with_pieces(named, all.take(i as int)).0,
                views(out@) == before + start.with_pieces(named, all.take(i as int)).1,
        {
            proof {
                assert(all.take(i + 1).drop_last() =~= all.take(i as int));
                assert(all.take(i + 1).last() == (pieces@[i as int].0, pieces@[i as int].1@));
            }
            let ghost so_far = start.with_pieces(named, all.take(i as int));
            self.relay_piece(part, pieces[i].0, pieces[i].1.as_str(), out);
            proof {
                let told = so_far.0.piece_events(named, pieces@[i as int].0, pieces@[i as int].1@);
                assert(before + so_far.1 + told =~= before + (so_far.1 + told));
            }
        }
        assert(all.take(all.len() as int) =~= all);
    }

    /// Takes one decoded frame and adds what is told of it.
    pub fn relay_fragment(&mut self, fragment: StreamFragment, out: &mut Vec<Json>)
        requires
            old(self).wf(),
        ensures
            final(self).wf(),
            final(self).dialect() == old(self).dialect(),
            ({
                let after = old(self)@.with_fragment(fragment@);
                &&& final(self)@ == after.0
                &&& views(final(out)@) == views(old(out)@) + after.1
            }),
    {
        let ghost before = views(out@);
        let ghost start = self@;
        if self.failed {
            assert(before + Seq::<JsonView>::empty() =~= before);
            return;
        }
        if let Some(message) = &fragment.error {
            let event = make_error_event(message.as_str());
            proof {
                views_push(out@, event);
            }
            out.push(event);
            self.failed = true;
            assert(views(out@) =~= before + seq![event@]);
            return;
        }
        let ghost shown = activity_events(fragment@.activity);
        if let Some(row) = &fragment.activity {
            let event = make_event("tool", "tool", row.clone());
            proof {
                views_push(out@, event);
            }
            out.push(event);
        }
        assert(views(out@) =~= before + shown);
        let ghost said = start.with_said(fragment@);
        assert(before + shown + said.1 =~= before + (shown + said.1));
        if fragment.response_id.is_some() {
            self.id = fragment.response_id;
        }
        let pieces = if fragment.reasoning {
            let mut one: Vec<(bool, String)> = Vec::new();
            let ghost text = fragment.text@;
            one.push((true, fragment.text));
            assert(pieces_of(one@) =~= seq![(true, text)]);
            one
        } else {
            self.thinking.push(fragment.text.as_str())
        };
        self.relay_pieces(&fragment.part, &pieces, out);
    }

    /// Takes more text of the stream and gives what is told of it.
    pub fn relay_text(&mut self, text: &str) -> (r: Vec<Json>)
        requires
            old(self).wf(),
        ensures
            final(self).wf(),
            final(self).dialect() == old(self).dialect(),
            (final(self)@, views(r@)) == old(self)@.with_text(old(self).dialect(), text@),
    {
        let ghost dialect = self.dialect();
        let ghost whole = self@.with_text(dialect, text@);
        proof {
            reveal_strlit("\r\n");
            reveal_strlit("\n\n");
        }
        let joined = self.buffer.clone().concat(text);
        self.buffer = replace(joined.as_str(), "\r\n", "\n");
        let mut out: Vec<Json> = Vec::new();
        assert(views(out@) =~= Seq::empty());
        assert(views(out@) + drained_frames(self@, dialect).1 =~= whole.1);
        loop
            invariant
                self.wf(),
                self.dialect() == dialect,
                dialect == old(self).dialect(),
                whole == old(self)@.with_text(dialect, text@),
                "\n\n"@.len() == 2,
                ({
                    let rest = drained_frames(self@, dialect);
                    &&& rest.0 == whole.0
                    &&& views(out@) + rest.1 == whole.1
                }),
            decreases self@.buffer.len(),
        {
            let chars = chars_of(self.buffer.as_str());
            let pat = chars_of("\n\n");
            let ghost state = self@;
            let ghost told = views(out@);
            match find_from(&chars, &pat, 0) {
                Some(i) => {
                    assert(pat@.len() == 2);
                    assert(i + 2 <= chars.len());
                    let frame = slice(&chars, 0, i);
                    self.buffer = slice(&chars, i + 2, chars.len());
                    proof {
                        assert(frame@ =~= state.buffer.take(i as int));
                        assert(self.buffer@ =~= state.buffer.skip(i + 2));
                    }
                    let ghost rest = self@;
                    if let Some(fragment) = provider_stream_delta(
                        self.kind.as_str(),
                        frame.as_str(),
                    ) {
                        let ghost step = rest.with_fragment(fragment@);
                        proof {
                            lemma_fragment_keeps(rest, fragment@);
                        }
                        self.relay_fragment(fragment, &mut out);
                        assert(told + (step.1 + drained_frames(step.0, dialect).1) =~= views(out@)
                            + drained_frames(step.0, dialect).1);
                    } else {
                        assert(Seq::<JsonView>::empty() + drained_frames(rest, dialect).1
                            =~= drained_frames(rest, dialect).1);
                    }
                },
                None => {
                    assert(views(out@) + Seq::<JsonView>::empty() =~= views(out@));
                    return out;
                },
            }
        }
    }

    /// Takes more bytes of the stream and gives what is told of them.
    pub fn stream_response(&mut self, chunk: &Vec<u8>) -> (r: Vec<Json>)
        requires
            old(self).wf(),
        ensures
            final(self).wf(),
            final(self).dialect() == old(self).dialect(),
            (final(self)@, views(r@)) == old(self)@.with_text(
                old(self).dialect(),
                lossy_text(chunk@),
            ),
    {
        let text = decode_lossy(chunk);
        self.relay_text(text.as_str())
    }

    /// Ends the stream: gives what is told of the text that still waited, and what is done then. A
    /// stream that failed or that has no answer is not stored.
    pub fn finish(self) -> (r: (Vec<Json>, RelayEnd))
        requires
            self.wf(),
        ensures
            views(r.0@) == self@.ended().1,
            ({
                let end = self@.ended().0;
                match r.1 {
                    RelayEnd::Store { answer, reasoning, response_id } => {
                        &&& !end.failed
                        &&& !is_blank(end.answer)
                        &&& answer@ == end.answer
                        &&& reasoning@ == end.reasoning
                        &&& opt_string(response_id) == end.id
                    },
                    RelayEnd::Stop => end.failed,
                    RelayEnd::Tell(event) => {
                        &&& !end.failed
                        &&& is_blank(end.answer)
                        &&& event@ == error_event("The provider returned no final answer."@)
                    },
                }
            }),
    {
        let mut relay = self;
        let mut out: Vec<Json> = Vec::new();
        assert(views(out@) =~= Seq::empty());
        if relay.failed {
            return (out, RelayEnd::Stop);
        }
        let pieces = relay.thinking.finish();
        proof {
            lemma_pieces_keep(relay@, None, pieces_of(pieces@));
        }
        relay.relay_pieces(&None, &pieces, &mut out);
        assert(Seq::<JsonView>::empty() + self@.ended().1 =~= self@.ended().1);
        if blank(relay.answer.as_str()) {
            return (
                out,
                RelayEnd::Tell(make_error_event("The provider returned no final answer.")),
            );
        }
        (
            out,
            RelayEnd::Store {
                answer: relay.answer,
                reasoning: relay.reasoning,
                response_id: relay.id,
            },
        )
    }
}

// ---------------------------------------------------------------- passing events on

/// What a client is sent for an event of the agent, and whether it is the last.
pub open spec fn passed_on(event: JsonView) -> (JsonView, bool) {
    let kind = event.at("type"@).text();
    if kind == Some("done"@) || kind == Some("error"@) {
        (event, true)
    } else if kind == Some("reasoning"@) {
        (event, false)
    } else {
        (event_view("tool"@, "tool"@, event), false)
    }
}

/// What a client is sent for an event of the agent, and whether it is the last.
pub fn pass_on(event: &Json) -> (r: (Json, bool))
    ensures
        (r.0@, r.1) == passed_on(event@),
{
    let kind = event.at("type");
    if kind.is_str("done") || kind.is_str("error") {
        (event.clone(), true)
    } else if kind.is_str("reasoning") {
        (event.clone(), false)
    } else {
        (make_event("tool", "tool", event.clone()), false)
    }
}

/// The events that carry an answer: its bytes in runs of 1200, each decoded by itself.
pub open spec fn answer_events(bytes: Seq<u8>) -> Seq<JsonView>
    decreases bytes.len(),
{
    if bytes.len() == 0 {
        Seq::empty()
    } else {
        let n = if bytes.len() <= 1200 {
            bytes.len() as int
        } else {
            1200
        };
        seq![event_view("delta"@, "delta"@, JsonView::Str(lossy_text(bytes.take(n))))]
            + answer_events(bytes.skip(n))
    }
}

/// What is told of a run before its answer is stored: its reasoning, unless that is blank, and its
/// answer.
pub open spec fn closing_events(answer: AnswerView) -> Seq<JsonView> {
    let head = if is_blank(answer.reasoning) {
        Seq::empty()
    } else {
        seq![event_view("reasoning"@, "delta"@, JsonView::Str(answer.reasoning))]
    };
    head + answer_events(encode_utf8(answer.answer))
}

/// What is done at the end of a run.
pub enum RunEnd {
    /// Tell these, store the answer, then tell with `run_saved_event`.
    Store(Vec<Json>, WebAgentAnswer),
    /// Tell this; the stream ends.
    Tell(Json),
}

fn take_run(bytes: &[u8], from: usize, to: usize) -> (r: Vec<u8>)
    requires
        from <= to <= bytes@.len(),
    ensures
        r@ == bytes@.subrange(from as int, to as int),
{
    let mut out: Vec<u8> = Vec::new();
    for i in from..to
        invariant
            from <= i <= to <= bytes@.len(),
            out@ == bytes@.subrange(from as int, i as int),
    {
        out.push(bytes[i]);
        assert(bytes@.subrange(from as int, i + 1) =~= bytes@.subrange(from as int, i as int).push(
            bytes@[i as int],
        ));
    }
    out
}

fn tell_answer(answer: &str, out: &mut Vec<Json>)
    ensures
        views(final(out)@) == views(old(out)@) + answer_events(encode_utf8(answer@)),
{
    let ghost before = views(out@);
    let bytes = answer.as_bytes();
    let n = bytes.len();
    let mut at: usize = 0;
    assert(bytes@.skip(0) =~= bytes@);
    assert(views(out@) + answer_events(bytes@) =~= before + answer_events(bytes@));
    while at < n
        invariant
            at <= n == bytes@.len(),
            views(out@) + answer_events(bytes@.skip(at as int)) == before + answer_events(bytes@),
        decreases n - at,
    {
        let to: usize = if n - at <= 1200 {
            n
        } else {
            at + 1200
        };
        let run = take_run(bytes, at, to);
        let text = decode_lossy(&run);
        let event = make_event("delta", "delta", Json::Str(text));
        proof {
            let rest = bytes@.skip(at as int);
            let so_far = views(out@);
            views_push(out@, event);
            assert(rest.take(to - at) =~= run@);
            assert(rest.skip(to - at) =~= bytes@.skip(to as int));
            let tail = answer_events(bytes@.skip(to as int));
            assert(so_far + (seq![event@] + tail) =~= so_far.push(event@) + tail);
        }
        out.push(event);
        at = to;
    }
    assert(bytes@.skip(n as int) =~= Seq::empty());
    assert(views(out@) + answer_events(bytes@.skip(n as int)) =~= views(out@));
}

/// What is done at the end of a run of the agent. A blank answer is not stored.
pub fn stream_web_agent_response(result: Result<WebAgentAnswer, ApiError>) -> (r: RunEnd)
    ensures
        match result {
            Ok(answer) => if is_blank(answer@.answer) {
                r matches RunEnd::Tell(event) && event@ == error_event(
                    "The provider returned no final answer."@,
                )
            } else {
                r matches RunEnd::Store(events, stored) && views(events@) == closing_events(answer@)
                    && stored == answer
            },
            Err(error) => r matches RunEnd::Tell(event) && event@ == error_event(error.message@),
        },
{
    match result {
        Ok(answer) => {
            if blank(answer.answer.as_str()) {
                return RunEnd::Tell(make_error_event("The provider returned no final answer."));
            }
            let mut out: Vec<Json> = Vec::new();
            assert(views(out@) =~= Seq::empty());
            if !blank(answer.reasoning.as_str()) {
                let event = make_event(
                    "reasoning",
                    "delta",
                    Json::text(answer.reasoning.as_str()),
                );
                proof {
                    views_push(out@, event);
                }
                out.push(event);
                assert(views(out@) =~= seq![event@]);
            }
            tell_answer(answer.answer.as_str(), &mut out);
            RunEnd::Store(out, answer)
        },
        Err(error) => RunEnd::Tell(make_error_event(error.message.as_str())),
    }
}

// ---------------------------------------------------------------- laws

/// The texts of the answer's events, in order.
pub open spec fn told_answer(events: Seq<JsonView>) -> Seq<char>
    decreases events.len(),
{
    if events.len() == 0 {
        Seq::empty()
    } else if events.last().at("type"@).is_text("delta"@) {
        told_answer(events.drop_last()) + events.last().at("delta"@).text_or_empty()
    } else {
        told_answer(events.drop_last())
    }
}

proof fn lemma_told_answer_splits(a: Seq<JsonView>, b: Seq<JsonView>)
    ensures
        told_answer(a + b) == told_answer(a) + told_answer(b),
    decreases b.len(),
{
    if b.len() == 0 {
        assert(a + b =~= a);
        assert(told_answer(a) + Seq::<char>::empty() =~= told_answer(a));
    } else {
        assert((a + b).drop_last() =~= a + b.drop_last());
        lemma_told_answer_splits(a, b.drop_last());
        let text = b.last().at("delta"@).text_or_empty();
        assert(told_answer(a) + told_answer(b.drop_last()) + text =~= told_answer(a) + (
        told_answer(b.drop_last()) + text));
    }
}

proof fn lemma_piece_told(
    state: RelayView,
    part: Option<Seq<char>>,
    reasoning: bool,
    text: Seq<char>,
)
    ensures
        state.with_piece(part, reasoning, text).answer == state.answer + told_answer(
            state.piece_events(part, reasoning, text),
        ),
{
    reveal_strlit("type");
    reveal_strlit("delta");
    reveal_strlit("reasoning");
    reveal_strlit("round");
    assert("type"@.len() == 4 && "delta"@.len() == 5 && "reasoning"@.len() == 9);
    assert("delta"@[0] != "round"@[0]);
    let events = state.piece_events(part, reasoning, text);
    if text.len() > 0 {
        let event = events[0];
        assert(events.len() == 1);
        assert(events.last() == event);
        assert(events.drop_last() =~= Seq::empty());
        assert(told_answer(events.drop_last()) == Seq::<char>::empty());
        assert(event.at("type"@) == JsonView::Str(
            if reasoning {
                "reasoning"@
            } else {
                "delta"@
            },
        ));
        if !reasoning {
            assert(event.at("delta"@) == JsonView::Str(text));
            assert(told_answer(events) =~= text);
        } else {
            assert(!event.at("type"@).is_text("delta"@));
            assert(told_answer(events) == Seq::<char>::empty());
            assert(state.answer + Seq::<char>::empty() =~= state.answer);
        }
    } else {
        assert(state.answer + Seq::<char>::empty() =~= state.answer);
    }
}

proof fn lemma_pieces_told(
    state: RelayView,
    part: Option<Seq<char>>,
    pieces: Seq<(bool, Seq<char>)>,
)
    ensures
        ({
            let after = state.with_pieces(part, pieces);
            after.0.answer == state.answer + told_answer(after.1)
        }),
    decreases pieces.len(),
{
    if pieces.len() == 0 {
        assert(state.answer + Seq::<char>::empty() =~= state.answer);
    } else {
        lemma_pieces_told(state, part, pieces.drop_last());
        let before = state.with_pieces(part, pieces.drop_last());
        let (reasoning, text) = pieces.last();
        let events = before.0.piece_events(part, reasoning, text);
        lemma_piece_told(before.0, part, reasoning, text);
        lemma_told_answer_splits(before.1, events);
        assert(state.answer + told_answer(before.1) + told_answer(events) =~= state.answer + (
        told_answer(before.1) + told_answer(events)));
    }
}

/// Events of other kinds are no part of the answer.
proof fn lemma_aside_told(event: JsonView)
    requires
        !event.at("type"@).is_text("delta"@),
    ensures
        told_answer(seq![event]) == Seq::<char>::empty(),
{
    assert(seq![event].drop_last() =~= Seq::empty());
    assert(told_answer(seq![event].drop_last()) == Seq::<char>::empty());
}

proof fn lemma_fragment_told(state: RelayView, fragment: FragmentView)
    ensures
        ({
            let after = state.with_fragment(fragment);
            after.0.answer == state.answer + told_answer(after.1)
        }),
{
    lemma_said_told(state, fragment);
    let said = state.with_said(fragment);
    let shown = activity_events(fragment.activity);
    reveal_strlit("type");
    reveal_strlit("delta");
    reveal_strlit("error");
    reveal_strlit("message");
    reveal_strlit("tool");
    assert("type"@[1] == 'y' && "tool"@[1] == 'o' && "message"@[1] == 'e');
    assert("delta"@[0] == 'd' && "error"@[0] == 'e' && "tool"@[0] == 't');
    assert(state.answer + Seq::<char>::empty() =~= state.answer);
    if let Some(message) = fragment.error {
        let event = error_event(message);
        assert(event.at("type"@) == JsonView::Str("error"@));
        lemma_aside_told(event);
    }
    if let Some(row) = fragment.activity {
        let event = event_view("tool"@, "tool"@, row);
        assert(event.at("type"@) == JsonView::Str("tool"@));
        lemma_aside_told(event);
    }
    assert(told_answer(shown) == Seq::<char>::empty());
    lemma_told_answer_splits(shown, said.1);
    assert(Seq::<char>::empty() + told_answer(said.1) =~= told_answer(said.1));
}

proof fn lemma_said_told(state: RelayView, fragment: FragmentView)
    ensures
        ({
            let after = state.with_said(fragment);
            after.0.answer == state.answer + told_answer(after.1)
        }),
{
    let known = if fragment.response_id is Some {
        RelayView { id: fragment.response_id, ..state }
    } else {
        state
    };
    let (in_think, waiting, pieces) = drained(known.in_think, known.waiting + fragment.text);
    lemma_pieces_told(known, fragment.part, seq![(true, fragment.text)]);
    lemma_pieces_told(RelayView { in_think, waiting, ..known }, fragment.part, pieces);
}

proof fn lemma_frames_told(state: RelayView, kind: RequestKind)
    ensures
        ({
            let after = drained_frames(state, kind);
            after.0.answer == state.answer + told_answer(after.1)
        }),
    decreases state.buffer.len(),
{
    reveal_strlit("\n\n");
    found_from_is_least(state.buffer, "\n\n"@, 0);
    assert(state.answer + Seq::<char>::empty() =~= state.answer);
    match found(state.buffer, "\n\n"@) {
        Some(i) => {
            let rest = RelayView { buffer: state.buffer.skip(i + "\n\n"@.len()), ..state };
            let step = match frame_fragment(kind, state.buffer.take(i)) {
                Some(fragment) => {
                    lemma_fragment_keeps(rest, fragment);
                    lemma_fragment_told(rest, fragment);
                    rest.with_fragment(fragment)
                },
                None => (rest, Seq::empty()),
            };
            let more = drained_frames(step.0, kind);
            lemma_frames_told(step.0, kind);
            lemma_told_answer_splits(step.1, more.1);
            assert(state.answer + told_answer(step.1) + told_answer(more.1) =~= state.answer + (
            told_answer(step.1) + told_answer(more.1)));
        },
        None => {},
    }
}

proof fn lemma_texts_told(kind: RequestKind, texts: Seq<Seq<char>>)
    ensures
        ({
            let after = RelayView::fresh().with_texts(kind, texts);
            after.0.answer == told_answer(after.1)
        }),
    decreases texts.len(),
{
    if texts.len() > 0 {
        lemma_texts_told(kind, texts.drop_last());
        let before = RelayView::fresh().with_texts(kind, texts.drop_last());
        let step = before.0.with_text(kind, texts.last());
        lemma_frames_told(
            RelayView {
                buffer: replaced(before.0.buffer + texts.last(), "\r\n"@, "\n"@),
                ..before.0
            },
            kind,
        );
        lemma_told_answer_splits(before.1, step.1);
    }
}

/// However a stream is cut, the deltas that the client was sent make up the answer that is stored.
pub proof fn clients_see_the_stored_answer(kind: RequestKind, texts: Seq<Seq<char>>)
    ensures
        ({
            let relayed = RelayView::fresh().with_texts(kind, texts);
            let end = relayed.0.ended();
            end.0.answer == told_answer(relayed.1 + end.1)
        }),
{
    let relayed = RelayView::fresh().with_texts(kind, texts);
    let state = relayed.0;
    lemma_texts_told(kind, texts);
    assert(relayed.1 + Seq::<JsonView>::empty() =~= relayed.1);
    lemma_pieces_told(
        RelayView { waiting: Seq::empty(), ..state },
        None,
        piece(state.in_think, state.waiting),
    );
    lemma_told_answer_splits(relayed.1, state.ended().1);
}

proof fn lemma_pieces_gather(state: RelayView, pieces: Seq<(bool, Seq<char>)>)
    ensures
        ({
            let after = state.with_pieces(None, pieces).0;
            &&& after.answer == state.answer + gathered(pieces, false)
            &&& after.reasoning == state.reasoning + gathered(pieces, true)
            &&& after.in_think == state.in_think
            &&& after.waiting == state.waiting
            &&& after.failed == state.failed
        }),
    decreases pieces.len(),
{
    if pieces.len() == 0 {
        assert(state.answer + Seq::<char>::empty() =~= state.answer);
        assert(state.reasoning + Seq::<char>::empty() =~= state.reasoning);
    } else {
        lemma_pieces_gather(state, pieces.drop_last());
        let (reasoning, text) = pieces.last();
        let so_far = gathered(pieces.drop_last(), reasoning);
        assert(state.answer + so_far + text =~= state.answer + (so_far + text));
        assert(state.reasoning + so_far + text =~= state.reasoning + (so_far + text));
        if text.len() == 0 {
            assert(so_far + text =~= so_far);
        }
    }
}

/// Whether a frame holds text of the reply: it is no reasoning and no failure.
pub open spec fn is_plain(fragment: FragmentView) -> bool {
    !fragment.reasoning && fragment.part is None && fragment.error is None
}

/// The texts of frames.
pub open spec fn fragment_texts(fragments: Seq<FragmentView>) -> Seq<Seq<char>> {
    fragments.map_values(|f: FragmentView| f.text)
}

proof fn lemma_fragments_gather(fragments: Seq<FragmentView>)
    requires
        forall|i: int| 0 <= i < fragments.len() ==> is_plain(#[trigger] fragments[i]),
    ensures
        ({
            let state = RelayView::fresh().with_fragments(fragments);
            let read = after_chunks(fragment_texts(fragments));
            &&& !state.failed
            &&& state.in_think == read.0
            &&& state.waiting == read.1
            &&& state.answer == gathered(read.2, false)
            &&& state.reasoning == gathered(read.2, true)
        }),
    decreases fragments.len(),
{
    if fragments.len() > 0 {
        let rest = fragments.drop_last();
        let texts = fragment_texts(fragments);
        assert forall|i: int| 0 <= i < rest.len() implies is_plain(#[trigger] rest[i]) by {
            assert(rest[i] == fragments[i]);
        }
        lemma_fragments_gather(rest);
        assert(texts.drop_last() =~= fragment_texts(rest));
        let fragment = fragments.last();
        assert(is_plain(fragments[fragments.len() - 1]));
        let state = RelayView::fresh().with_fragments(rest);
        let known = if fragment.response_id is Some {
            RelayView { id: fragment.response_id, ..state }
        } else {
            state
        };
        let before = after_chunks(fragment_texts(rest));
        let (in_think, waiting, pieces) = drained(known.in_think, known.waiting + fragment.text);
        lemma_pieces_gather(RelayView { in_think, waiting, ..known }, pieces);
        gathered_adds_up(before.2, pieces, false);
        gathered_adds_up(before.2, pieces, true);
    }
}

/// A reply that arrives in pieces of text is stored as it would be had it come whole: with the same
/// answer and the same reasoning.
pub proof fn streamed_replies_are_split_alike(fragments: Seq<FragmentView>)
    requires
        forall|i: int| 0 <= i < fragments.len() ==> is_plain(#[trigger] fragments[i]),
    ensures
        ({
            let end = RelayView::fresh().with_fragments(fragments).ended().0;
            (end.answer, end.reasoning) == split_text(whole(fragment_texts(fragments)), false)
        }),
{
    let state = RelayView::fresh().with_fragments(fragments);
    let texts = fragment_texts(fragments);
    let read = after_chunks(texts);
    lemma_fragments_gather(fragments);
    lemma_pieces_gather(
        RelayView { waiting: Seq::empty(), ..state },
        piece(state.in_think, state.waiting),
    );
    gathered_adds_up(read.2, piece(read.0, read.1), false);
    gathered_adds_up(read.2, piece(read.0, read.1), true);
    streaming_agrees_with_splitting(texts);
}

proof fn lemma_nothing_after_failure(state: RelayView, kind: RequestKind)
    requires
        state.failed,
    ensures
        drained_frames(state, kind).0.failed,
        drained_frames(state, kind).0.answer == state.answer,
        drained_frames(state, kind).1 == Seq::<JsonView>::empty(),
    decreases state.buffer.len(),
{
    reveal_strlit("\n\n");
    found_from_is_least(state.buffer, "\n\n"@, 0);
    match found(state.buffer, "\n\n"@) {
        Some(i) => {
            let rest = RelayView { buffer: state.buffer.skip(i + "\n\n"@.len()), ..state };
            lemma_nothing_after_failure(rest, kind);
            assert(Seq::<JsonView>::empty() + drained_frames(rest, kind).1 =~= Seq::empty());
        },
        None => {},
    }
}

/// A failure that the provider reports inside the stream is told, and it is the last that is told:
/// whatever follows, nothing more is sent.
pub proof fn failures_end_the_stream(
    state: RelayView,
    fragment: FragmentView,
    kind: RequestKind,
    text: Seq<char>,
)
    requires
        !state.failed,
        fragment.error is Some,
    ensures
        ({
            let failed = state.with_fragment(fragment);
            let later = failed.0.with_text(kind, text);
            &&& failed.1 == seq![error_event(fragment.error->0)]
            &&& later.0.failed
            &&& later.1 == Seq::<JsonView>::empty()
            &&& later.0.ended().1 == Seq::<JsonView>::empty()
        }),
{
    let failed = state.with_fragment(fragment).0;
    lemma_nothing_after_failure(
        RelayView { buffer: replaced(failed.buffer + text, "\r\n"@, "\n"@), ..failed },
        kind,
    );
}

/// An event says what it is and holds what it was given; an event of an error holds the message.
pub proof fn events_hold_what_they_tell(kind: Seq<char>, key: Seq<char>, value: JsonView)
    requires
        key != "type"@,
    ensures
        event_view(kind, key, value).at("type"@) == JsonView::Str(kind),
        event_view(kind, key, value).at(key) == value,
{
}

/// An error is told as one, in its own words.
pub proof fn errors_are_told_in_their_words(message: Seq<char>)
    ensures
        error_event(message).at("type"@) == JsonView::Str("error"@),
        error_event(message).at("message"@) == JsonView::Str(message),
{
    names_are_told_apart();
}

/// What is sent to a client is the event's text, framed as the protocol asks.
pub proof fn sent_events_are_framed(event: JsonView)
    ensures
        "data: "@.is_prefix_of(sse_text(event)),
        "\n\n"@.is_suffix_of(sse_text(event)),
        sse_text(event).len() == json_text(event).len() + 8,
        sse_text(event).subrange(6, sse_text(event).len() - 2) == json_text(event),
{
    reveal_strlit("data: ");
    reveal_strlit("\n\n");
    let sent = sse_text(event);
    assert("data: "@ =~= sent.subrange(0, 6));
    assert("\n\n"@ =~= sent.subrange(sent.len() - 2, sent.len() as int));
    assert(sent.subrange(6, sent.len() - 2) =~= json_text(event));
}

proof fn lemma_one_piece(
    state: RelayView,
    part: Option<Seq<char>>,
    reasoning: bool,
    text: Seq<char>,
)
    ensures
        state.with_pieces(part, seq![(reasoning, text)]) == (
            state.with_piece(part, reasoning, text),
            state.piece_events(part, reasoning, text),
        ),
{
    let one = seq![(reasoning, text)];
    assert(one.drop_last() =~= Seq::empty());
    assert(state.with_pieces(part, one.drop_last()) == (state, Seq::<JsonView>::empty()));
    assert(Seq::<JsonView>::empty() + state.piece_events(part, reasoning, text)
        =~= state.piece_events(part, reasoning, text));
}

/// Reasoning is told as reasoning and joins the reasoning, never the answer. A new summary part
/// starts a row of its own and a paragraph of its own.
pub proof fn reasoning_is_relayed_as_reasoning(state: RelayView, fragment: FragmentView)
    requires
        !state.failed,
        fragment.reasoning,
        fragment.error is None,
        fragment.activity is None,
        fragment.text.len() > 0,
        state.row < u64::MAX,
    ensures
        ({
            let after = state.with_fragment(fragment);
            let event = after.1[0];
            let turned = fragment.part is Some && fragment.part != state.part;
            &&& after.1.len() == 1
            &&& event.at("type"@) == JsonView::Str("reasoning"@)
            &&& event.at("delta"@) == JsonView::Str(fragment.text)
            &&& fragment.part is None ==> event.field("round"@) is None
            &&& fragment.part is Some ==> event.at("round"@) == JsonView::Number(
                JsonNumber::Natural(after.0.row as u64),
            )
            &&& after.0.answer == state.answer
            &&& turned && state.reasoning.len() > 0 ==> after.0.reasoning == state.reasoning
                + "\n\n"@ + fragment.text
            &&& !turned || state.reasoning.len() == 0 ==> after.0.reasoning == state.reasoning
                + fragment.text
            &&& after.0.row == state.row + if turned {
                1int
            } else {
                0int
            }
            &&& after.0.part == if fragment.part is Some {
                fragment.part
            } else {
                state.part
            }
        }),
{
    names_are_told_apart();
    let known = if fragment.response_id is Some {
        RelayView { id: fragment.response_id, ..state }
    } else {
        state
    };
    lemma_one_piece(known, fragment.part, true, fragment.text);
    let after = state.with_fragment(fragment);
    let told = known.piece_events(fragment.part, true, fragment.text);
    assert(Seq::<JsonView>::empty() + told =~= told);
}

/// Text of the answer that cannot be part of a marker is passed on at once: it is told as a delta
/// and joins the answer, never the reasoning.
pub proof fn text_is_relayed_as_answer(state: RelayView, fragment: FragmentView)
    requires
        !state.failed,
        !state.in_think,
        state.waiting.len() == 0,
        !fragment.reasoning,
        fragment.error is None,
        fragment.activity is None,
        fragment.text.len() > 0,
        !fragment.text.contains('<'),
    ensures
        ({
            let after = state.with_fragment(fragment);
            &&& after.1.len() == 1
            &&& after.1[0].at("type"@) == JsonView::Str("delta"@)
            &&& after.1[0].at("delta"@) == JsonView::Str(fragment.text)
            &&& after.0.answer == state.answer + fragment.text
            &&& after.0.reasoning == state.reasoning
            &&& after.0.row == state.row
        }),
{
    names_are_told_apart();
    let known = if fragment.response_id is Some {
        RelayView { id: fragment.response_id, ..state }
    } else {
        state
    };
    assert(known.waiting + fragment.text =~= fragment.text);
    text_without_brackets_passes(fragment.text, false);
    let read = RelayView { in_think: false, waiting: Seq::empty(), ..known };
    lemma_one_piece(read, fragment.part, false, fragment.text);
    let told = read.piece_events(fragment.part, false, fragment.text);
    assert(Seq::<JsonView>::empty() + told =~= told);
}

proof fn lemma_pieces_keep_id(
    state: RelayView,
    part: Option<Seq<char>>,
    pieces: Seq<(bool, Seq<char>)>,
)
    ensures
        state.with_pieces(part, pieces).0.id == state.id,
    decreases pieces.len(),
{
    if pieces.len() > 0 {
        lemma_pieces_keep_id(state, part, pieces.drop_last());
    }
}

/// The id that a response was last given is the one that is kept, and a hosted tool at work is shown
/// before anything else that its frame says.
pub proof fn frames_leave_their_marks(state: RelayView, fragment: FragmentView)
    requires
        !state.failed,
        fragment.error is None,
    ensures
        ({
            let after = state.with_fragment(fragment);
            &&& fragment.response_id is Some ==> after.0.id == fragment.response_id
            &&& fragment.response_id is None ==> after.0.id == state.id
            &&& !after.0.failed
            &&& fragment.activity matches Some(row) ==> {
                &&& after.1.len() > 0
                &&& after.1[0].at("type"@) == JsonView::Str("tool"@)
                &&& after.1[0].at("tool"@) == row
            }
        }),
{
    names_are_told_apart();
    let known = if fragment.response_id is Some {
        RelayView { id: fragment.response_id, ..state }
    } else {
        state
    };
    let (in_think, waiting, pieces) = drained(known.in_think, known.waiting + fragment.text);
    let read = RelayView { in_think, waiting, ..known };
    lemma_pieces_keep_id(known, fragment.part, seq![(true, fragment.text)]);
    lemma_pieces_keep_id(read, fragment.part, pieces);
    lemma_pieces_keep(known, fragment.part, seq![(true, fragment.text)]);
    lemma_pieces_keep(read, fragment.part, pieces);
}

/// A frame that has arrived whole is read at once, and what has not made up a frame yet waits.
pub proof fn whole_frames_are_read(
    state: RelayView,
    kind: RequestKind,
    frame: Seq<char>,
    rest: Seq<char>,
)
    requires
        state.buffer.len() == 0,
        !holds(frame + "\n\n"@ + rest, "\r\n"@),
        found(frame + "\n\n"@ + rest, "\n\n"@) == Some(frame.len() as int),
        !holds(rest, "\n\n"@),
    ensures
        ({
            let after = state.with_text(kind, frame + "\n\n"@ + rest);
            &&& after.0.buffer == rest
            &&& frame_fragment(kind, frame) matches Some(fragment) ==> {
                &&& after.1 == state.with_fragment(fragment).1
                &&& after.0.answer == state.with_fragment(fragment).0.answer
                &&& after.0.reasoning == state.with_fragment(fragment).0.reasoning
            }
            &&& frame_fragment(kind, frame) is None ==> {
                &&& after.1.len() == 0
                &&& after.0 == (RelayView { buffer: rest, ..state })
            }
        }),
{
    reveal_strlit("\n\n");
    reveal_strlit("\r\n");
    let text = frame + "\n\n"@ + rest;
    assert(state.buffer + text =~= text);
    found_iff_holds(text, "\r\n"@);
    found_iff_holds(rest, "\n\n"@);
    let full = RelayView { buffer: text, ..state };
    let left = RelayView { buffer: rest, ..state };
    assert(text.skip(frame.len() + "\n\n"@.len() as int) =~= rest);
    assert(text.take(frame.len() as int) =~= frame);
    match frame_fragment(kind, frame) {
        Some(fragment) => {
            lemma_fragment_keeps(left, fragment);
            lemma_fragment_ignores_buffer(state, rest, fragment);
            let step = left.with_fragment(fragment);
            assert(drained_frames(step.0, kind) == (step.0, Seq::<JsonView>::empty()));
            assert(step.1 + Seq::<JsonView>::empty() =~= step.1);
        },
        None => {
            assert(drained_frames(left, kind) == (left, Seq::<JsonView>::empty()));
        },
    }
}

proof fn lemma_pieces_ignore_buffer(
    state: RelayView,
    buffer: Seq<char>,
    part: Option<Seq<char>>,
    pieces: Seq<(bool, Seq<char>)>,
)
    ensures
        ({
            let after = state.with_pieces(part, pieces);
            let other = RelayView { buffer, ..state }.with_pieces(part, pieces);
            other == (RelayView { buffer, ..after.0 }, after.1)
        }),
    decreases pieces.len(),
{
    if pieces.len() > 0 {
        lemma_pieces_ignore_buffer(state, buffer, part, pieces.drop_last());
        lemma_pieces_keep(state, part, pieces.drop_last());
    }
}

proof fn lemma_fragment_ignores_buffer(state: RelayView, buffer: Seq<char>, fragment: FragmentView)
    ensures
        ({
            let after = state.with_fragment(fragment);
            let other = RelayView { buffer, ..state }.with_fragment(fragment);
            other == (RelayView { buffer, ..after.0 }, after.1)
        }),
{
    let known = if fragment.response_id is Some {
        RelayView { id: fragment.response_id, ..state }
    } else {
        state
    };
    let (in_think, waiting, pieces) = drained(known.in_think, known.waiting + fragment.text);
    let read = RelayView { in_think, waiting, ..known };
    lemma_pieces_ignore_buffer(known, buffer, fragment.part, seq![(true, fragment.text)]);
    lemma_pieces_ignore_buffer(read, buffer, fragment.part, pieces);
}

/// The last event of a run is one that says it is done or that it failed, and is sent as it is; any
/// other is not the last, and what is no reasoning is sent inside a row of the timeline.
pub proof fn runs_end_with_done_or_error(event: JsonView)
    ensures
        passed_on(event).1 <==> event.at("type"@) == JsonView::Str("done"@) || event.at("type"@)
            == JsonView::Str("error"@),
        passed_on(event).1 || event.at("type"@) == JsonView::Str("reasoning"@) ==> passed_on(
            event,
        ).0 == event,
        !passed_on(event).1 && event.at("type"@) != JsonView::Str("reasoning"@) ==> {
            &&& passed_on(event).0.at("type"@) == JsonView::Str("tool"@)
            &&& passed_on(event).0.at("tool"@) == event
        },
{
    names_are_told_apart();
}

/// An answer is told in runs of 1200 bytes, none left out and none told twice: the run at each place
/// is the one that stands there.
pub proof fn answers_are_told_in_runs(bytes: Seq<u8>, i: int)
    requires
        0 <= 1200 * i < bytes.len(),
    ensures
        ({
            let events = answer_events(bytes);
            let to = if bytes.len() <= 1200 * i + 1200 {
                bytes.len() as int
            } else {
                1200 * i + 1200
            };
            &&& 1200 * events.len() >= bytes.len() > 1200 * (events.len() - 1)
            &&& events[i].at("type"@) == JsonView::Str("delta"@)
            &&& events[i].at("delta"@) == JsonView::Str(lossy_text(bytes.subrange(1200 * i, to)))
        }),
    decreases bytes.len(),
{
    names_are_told_apart();
    let n = if bytes.len() <= 1200 {
        bytes.len() as int
    } else {
        1200
    };
    let rest = bytes.skip(n);
    if rest.len() > 0 {
        answers_are_told_in_runs(rest, 0);
    } else {
        assert(answer_events(rest).len() == 0);
    }
    if i > 0 {
        answers_are_told_in_runs(rest, i - 1);
        let to = if bytes.len() <= 1200 * i + 1200 {
            bytes.len() as int
        } else {
            1200 * i + 1200
        };
        assert(rest.subrange(1200 * (i - 1), to - 1200) =~= bytes.subrange(1200 * i, to));
        assert(answer_events(bytes)[i] == answer_events(rest)[i - 1]);
    } else {
        assert(bytes.take(n) =~= bytes.subrange(0, n));
    }
}

/// What is told at the end of a run is its reasoning, unless that is blank, and then its answer, whole.
pub proof fn runs_close_with_their_answer(answer: AnswerView)
    ensures
        ({
            let events = closing_events(answer);
            let told = answer_events(encode_utf8(answer.answer));
            &&& is_blank(answer.reasoning) ==> events == told
            &&& !is_blank(answer.reasoning) ==> {
                &&& events.len() == told.len() + 1
                &&& events[0].at("type"@) == JsonView::Str("reasoning"@)
                &&& events[0].at("delta"@) == JsonView::Str(answer.reasoning)
                &&& events.skip(1) == told
            }
        }),
{
    names_are_told_apart();
    let told = answer_events(encode_utf8(answer.answer));
    assert(Seq::<JsonView>::empty() + told =~= told);
    if !is_blank(answer.reasoning) {
        assert(closing_events(answer).skip(1) =~= told);
    }
}

} // verus!
