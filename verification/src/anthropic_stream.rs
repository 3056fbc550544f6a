//! Decoding an Anthropic Messages stream.
//!
//! Anthropic runs its own tools partway through a single reply, so one answer interleaves text
//! with `server_tool_use` calls and complete result blocks, and it can stop with `pause_turn`,
//! which is not a failure but a turn that is still open.

use vstd::prelude::*;
use vstd::string::*;

use crate::json::{parsed_json, views, views_push, Json, JsonNumber, JsonView};
use crate::names::names_are_told_apart;
use crate::picking::{picked, picked_ends, picked_push, picked_step};
use crate::provider_stream::{frame_data, opt_fragment, read_frame, FragmentView, StreamFragment};
use crate::providers::opt_view;
use crate::search::ends_with;
use crate::text::{chars_of, joined, opt_string, same, slice, texts};

verus! {

/// How often a caller that continues paused turns should do so for one answer: a continued turn can
/// pause again. The relay itself does not continue turns; it stores what has arrived.
pub const MAX_CONTINUATIONS: usize = 6;

// ---------------------------------------------------------------- hosted tools

/// A timeline row for a tool.
pub open spec fn tool_row(
    id: JsonView,
    name: Seq<char>,
    status: Seq<char>,
    input: JsonView,
) -> JsonView {
    JsonView::object().with("type"@, JsonView::Str("tool"@)).with("id"@, id).with(
        "name"@,
        JsonView::Str(name),
    ).with("status"@, JsonView::Str(status)).with("input"@, input)
}

/// What a content block shows in the timeline: a hosted call opens a row, and its result closes
/// the row with the same id.
pub open spec fn hosted_activity(block: JsonView) -> Option<JsonView> {
    match block.at("type"@).text() {
        Some(kind) => if kind == "server_tool_use"@ {
            Some(
                tool_row(
                    block.at("id"@),
                    block.at("name"@).text_or_empty(),
                    "running"@,
                    block.at("input"@),
                ),
            )
        } else if "_tool_result"@.is_suffix_of(kind) {
            Some(
                tool_row(
                    block.at("tool_use_id"@),
                    kind.take(kind.len() - "_tool_result"@.len()),
                    "completed"@,
                    JsonView::object(),
                ),
            )
        } else {
            None
        },
        None => None,
    }
}

/// What a content block shows in the timeline.
pub fn host_tool_activity(block: &Json) -> (r: Option<Json>)
    ensures
        opt_view(r) == hosted_activity(block@),
{
    let kind = match block.at("type").as_str() {
        Some(kind) => kind,
        None => return None,
    };
    if same(kind, "server_tool_use") {
        Some(
            Json::object().with("type", Json::text("tool")).with("id", block.at("id").clone()).with(
                "name",
                Json::text(block.at("name").str_or_empty()),
            ).with("status", Json::text("running")).with("input", block.at("input").clone()),
        )
    } else if ends_with(kind, "_tool_result") {
        let chars = chars_of(kind);
        proof {
            reveal_strlit("_tool_result");
        }
        let name = slice(&chars, 0, chars.len() - 12);
        assert(name@ =~= kind@.take(kind@.len() - 12));
        Some(
            Json::object().with("type", Json::text("tool")).with(
                "id",
                block.at("tool_use_id").clone(),
            ).with("name", Json::text(name.as_str())).with("status", Json::text("completed")).with(
                "input",
                Json::object(),
            ),
        )
    } else {
        None
    }
}

/// A result of a hosted search as a source, where it names an address.
pub open spec fn hosted_source(item: JsonView) -> Option<JsonView> {
    if item.at("type"@).is_text("web_search_result"@) {
        match item.at("url"@).text() {
            Some(url) => Some(
                JsonView::object().with("title"@, JsonView::Str(item.at("title"@).text_or_empty())).with(
                    "url"@,
                    JsonView::Str(url),
                ),
            ),
            None => None,
        }
    } else {
        None
    }
}

/// The sources in a content block: those of a hosted search's result.
pub open spec fn block_sources(block: JsonView) -> Seq<JsonView> {
    if block.at("type"@).is_text("web_search_tool_result"@) {
        picked(block.at("content"@).items_or_empty(), |i: JsonView| hosted_source(i))
    } else {
        Seq::empty()
    }
}

/// The sources in a content block.
pub fn hosted_sources(block: &Json) -> (r: Vec<Json>)
    ensures
        views(r@) == block_sources(block@),
{
    let mut out: Vec<Json> = Vec::new();
    assert(views(out@) =~= Seq::empty());
    if !block.at("type").is_str("web_search_tool_result") {
        return out;
    }
    let ghost pick = |i: JsonView| hosted_source(i);
    match block.at("content").as_array() {
        Some(items) => {
            proof {
                picked_ends(views(items@), pick);
            }
            for i in 0..items.len()
                invariant
                    pick == (|i: JsonView| hosted_source(i)),
                    views(out@) == picked(views(items@).take(i as int), pick),
            {
                let item = &items[i];
                proof {
                    picked_step(views(items@), pick, i as int);
                }
                if item.at("type").is_str("web_search_result") {
                    if let Some(url) = item.at("url").as_str() {
                        let source = Json::object().with(
                            "title",
                            Json::text(item.at("title").str_or_empty()),
                        ).with("url", Json::text(url));
                        proof {
                            views_push(out@, source);
                        }
                        out.push(source);
                    }
                }
            }
            proof {
                picked_ends(views(items@), pick);
            }
        },
        None => {},
    }
    out
}

// ---------------------------------------------------------------- frames

/// What one frame of the stream says, as far as the relay cares.
pub open spec fn relayed_frame(value: JsonView) -> Option<FragmentView> {
    match value.at("delta"@).at("text"@).text() {
        Some(text) => Some(FragmentView::said(false, text)),
        None => match value.at("delta"@).at("thinking"@).text() {
            Some(text) => Some(FragmentView::said(true, text)),
            None => if value.at("type"@).is_text("content_block_start"@) {
                let block = value.at("content_block"@);
                Some(
                    FragmentView {
                        activity: hosted_activity(block),
                        sources: block_sources(block),
                        ..FragmentView::silent()
                    },
                )
            } else if value.at("type"@).is_text("message_delta"@) && value.at("delta"@).at(
                "stop_reason"@,
            ).is_text("pause_turn"@) {
                Some(FragmentView { paused: true, ..FragmentView::silent() })
            } else {
                None
            },
        },
    }
}

/// One frame of the stream, as far as the relay cares. The text and thinking deltas are the
/// answer; everything else is a hosted tool doing its work, which the caller shows in the timeline
/// because the stream goes quiet while a search runs and quiet reads as a stall.
pub fn fragment(value: &Json) -> (r: Option<StreamFragment>)
    ensures
        opt_fragment(r) == relayed_frame(value@),
{
    if let Some(text) = value.at("delta").at("text").as_str() {
        return Some(StreamFragment::said(false, text));
    }
    if let Some(thinking) = value.at("delta").at("thinking").as_str() {
        return Some(StreamFragment::said(true, thinking));
    }
    if value.at("type").is_str("content_block_start") {
        let block = value.at("content_block");
        let mut out = StreamFragment::default();
        out.activity = host_tool_activity(block);
        out.sources = hosted_sources(block);
        return Some(out);
    }
    // Only a pause is news; `end_turn` and `tool_use` frames carry nothing the relay does not
    // already know from the blocks it has seen.
    if value.at("type").is_str("message_delta") && value.at("delta").at("stop_reason").is_str(
        "pause_turn",
    ) {
        let mut out = StreamFragment::default();
        out.paused = true;
        return Some(out);
    }
    None
}

// ---------------------------------------------------------------- the message so far

/// Rebuilds an assistant message from the frames that are relayed, because continuing a paused
/// turn means sending the paused content back unchanged and the stream is the only copy of it.
/// Blocks keep the fields Anthropic gave them; the input of a `server_tool_use` is the exception,
/// assembled from its `input_json_delta` frames.
pub struct AnthropicMessage {
    blocks: Vec<Json>,
    inputs: Vec<String>,
    stop_reason: Option<String>,
}

/// What has arrived of a message: its blocks, the pieces of input for each, and why it stopped.
pub struct MessageView {
    pub blocks: Seq<JsonView>,
    pub inputs: Seq<Seq<char>>,
    pub stop_reason: Option<Seq<char>>,
}

impl View for AnthropicMessage {
    type V = MessageView;

    closed spec fn view(&self) -> MessageView {
        MessageView {
            blocks: views(self.blocks@),
            inputs: texts(self.inputs@),
            stop_reason: opt_string(self.stop_reason),
        }
    }
}

impl MessageView {
    /// Nothing has arrived.
    pub open spec fn nothing() -> MessageView {
        MessageView { blocks: Seq::empty(), inputs: Seq::empty(), stop_reason: None }
    }

    /// The number of slots that are missing up to `index`.
    pub open spec fn missing(self, index: nat) -> nat {
        if self.blocks.len() <= index {
            (index + 1 - self.blocks.len()) as nat
        } else {
            0
        }
    }

    /// The message with empty slots up to `index`.
    pub open spec fn grown(self, index: nat) -> MessageView {
        MessageView {
            blocks: self.blocks + Seq::new(self.missing(index), |i: int| JsonView::Null),
            inputs: self.inputs + Seq::new(self.missing(index), |i: int| Seq::<char>::empty()),
            stop_reason: self.stop_reason,
        }
    }

    /// The message with a piece of text added to a field of a block; unchanged where there is no
    /// such block or no text.
    pub open spec fn appended(self, index: nat, field: Seq<char>, value: JsonView) -> MessageView {
        match value.text() {
            Some(more) => if index < self.blocks.len() && self.blocks[index as int] is Object {
                let block = self.blocks[index as int];
                let merged = JsonView::Str(block.at(field).text_or_empty() + more);
                MessageView {
                    blocks: self.blocks.update(index as int, block.with(field, merged)),
                    inputs: self.inputs,
                    stop_reason: self.stop_reason,
                }
            } else {
                self
            },
            None => self,
        }
    }

    /// The message after one more frame.
    pub open spec fn applied(self, value: JsonView) -> MessageView {
        let index = frame_index(value) as nat;
        let delta = value.at("delta"@);
        if value.at("type"@).is_text("content_block_start"@) {
            let grown = self.grown(index);
            MessageView {
                blocks: grown.blocks.update(index as int, value.at("content_block"@)),
                inputs: grown.inputs,
                stop_reason: grown.stop_reason,
            }
        } else if value.at("type"@).is_text("content_block_delta"@) {
            if delta.at("type"@).is_text("text_delta"@) {
                self.appended(index, "text"@, delta.at("text"@))
            } else if delta.at("type"@).is_text("thinking_delta"@) {
                self.appended(index, "thinking"@, delta.at("thinking"@))
            } else if delta.at("type"@).is_text("signature_delta"@) {
                self.appended(index, "signature"@, delta.at("signature"@))
            } else if carries_input(value) {
                let grown = self.grown(index);
                let partial = delta.at("partial_json"@).text_or_empty();
                MessageView {
                    blocks: grown.blocks,
                    inputs: grown.inputs.update(
                        index as int,
                        grown.inputs[index as int] + partial,
                    ),
                    stop_reason: grown.stop_reason,
                }
            } else {
                self
            }
        } else if value.at("type"@).is_text("message_delta"@) {
            MessageView {
                blocks: self.blocks,
                inputs: self.inputs,
                stop_reason: delta.at("stop_reason"@).text(),
            }
        } else {
            self
        }
    }

    /// The message after several frames.
    pub open spec fn applied_all(self, values: Seq<JsonView>) -> MessageView
        decreases values.len(),
    {
        if values.len() == 0 {
            self
        } else {
            self.applied_all(values.drop_last()).applied(values.last())
        }
    }

    /// Whether a frame finds the slot it speaks of: an index within what memory can count, and a
    /// piece of input only while inputs are being collected.
    pub open spec fn takes(self, value: JsonView) -> bool {
        let index = frame_index(value) as nat;
        &&& value.at("type"@).is_text("content_block_start"@) || value.at("type"@).is_text(
            "content_block_delta"@,
        ) ==> index < usize::MAX
        &&& carries_input(value) ==> index < self.grown(index).inputs.len()
    }

    /// The blocks once the inputs are put in their places.
    pub open spec fn finished_blocks(self) -> Seq<JsonView> {
        Seq::new(
            self.blocks.len(),
            |i: int|
                if i < self.inputs.len() {
                    finished_block(self.blocks[i], self.inputs[i], parsed_json(self.inputs[i]))
                } else {
                    self.blocks[i]
                },
        )
    }
}

/// The block that a frame speaks of.
pub open spec fn frame_index(value: JsonView) -> u64 {
    match value.at("index"@).natural() {
        Some(index) => index,
        None => 0,
    }
}

/// Whether a frame carries a piece of input.
pub open spec fn carries_input(value: JsonView) -> bool {
    &&& value.at("type"@).is_text("content_block_delta"@)
    &&& value.at("delta"@).at("type"@).is_text("input_json_delta"@)
    &&& value.at("delta"@).at("partial_json"@) is Str
}

/// A block with its collected input in place, where it is a hosted call and the input parsed.
pub open spec fn finished_block(
    block: JsonView,
    input: Seq<char>,
    parsed: Option<JsonView>,
) -> JsonView {
    if input.len() > 0 && block.at("type"@).is_text("server_tool_use"@) {
        match parsed {
            Some(value) => block.with("input"@, value),
            None => block,
        }
    } else {
        block
    }
}

/// A value other than null.
pub open spec fn present(value: JsonView) -> Option<JsonView> {
    if value is Null {
        None
    } else {
        Some(value)
    }
}

/// Puts the collected input of a hosted call in its place, given what it parsed as.
pub fn finish_block(block: &Json, input: &str, parsed: Option<Json>) -> (r: Json)
    ensures
        r@ == finished_block(block@, input@, opt_view(parsed)),
{
    if !input.is_empty() && block.at("type").is_str("server_tool_use") {
        if let Some(value) = parsed {
            return block.clone().with("input", value);
        }
    }
    block.clone()
}

/// The value that a frame carries.
pub open spec fn frame_value(frame: Seq<char>) -> Option<JsonView> {
    match frame_data(frame) {
        Some(data) => parsed_json(data),
        None => None,
    }
}

impl Default for AnthropicMessage {
    fn default() -> (r: Self)
        ensures
            r@ == MessageView::nothing(),
    {
        let r = AnthropicMessage { blocks: Vec::new(), inputs: Vec::new(), stop_reason: None };
        assert(r@.blocks =~= Seq::empty());
        assert(r@.inputs =~= Seq::empty());
        r
    }
}

impl AnthropicMessage {
    /// Makes room for the block at `index`.
    pub fn grow(&mut self, index: usize)
        requires
            index < usize::MAX,
        ensures
            final(self)@ == old(self)@.grown(index as nat),
    {
        let ghost before = self@;
        let ghost mut added: nat = 0;
        assert(before.blocks + Seq::new(0, |i: int| JsonView::Null) =~= before.blocks);
        assert(before.inputs + Seq::new(0, |i: int| Seq::<char>::empty()) =~= before.inputs);
        while self.blocks.len() <= index
            invariant
                index < usize::MAX,
                added <= before.missing(index as nat),
                self.blocks@.len() == before.blocks.len() + added,
                self@.blocks == before.blocks + Seq::new(added, |i: int| JsonView::Null),
                self@.inputs == before.inputs + Seq::new(added, |i: int| Seq::<char>::empty()),
                self@.stop_reason == before.stop_reason,
            decreases index + 1 - self.blocks.len(),
        {
            let ghost at = self@;
            self.blocks.push(Json::Null);
            self.inputs.push(String::new());
            proof {
                assert(self@.blocks =~= at.blocks.push(JsonView::Null));
                assert(self@.inputs =~= at.inputs.push(Seq::<char>::empty()));
                added = added + 1;
                assert(self@.blocks =~= before.blocks + Seq::new(added, |i: int| JsonView::Null));
                assert(self@.inputs =~= before.inputs + Seq::new(
                    added,
                    |i: int| Seq::<char>::empty(),
                ));
            }
        }
        assert(added == before.missing(index as nat));
    }

    /// Adds a piece of text to a field of a block. Deltas arrive as pieces of one string, and
    /// `content_block_start` already carries the empty block, so this only ever extends a block
    /// that exists.
    pub fn append(&mut self, index: usize, field: &str, value: &Json)
        ensures
            final(self)@ == old(self)@.appended(index as nat, field@, value@),
    {
        if let Some(more) = value.as_str() {
            if index < self.blocks.len() && self.blocks[index].is_object() {
                let ghost before = self@;
                let mut merged = self.blocks[index].at(field).str_or_empty().to_owned();
                merged.append(more);
                let block = self.blocks[index].clone().with(field, Json::Str(merged));
                self.blocks.set(index, block);
                assert(self@.blocks =~= before.blocks.update(index as int, block@));
            }
        }
    }

    /// Takes in what a frame carries.
    pub fn apply_value(&mut self, value: &Json)
        requires
            old(self)@.takes(value@),
        ensures
            final(self)@ == old(self)@.applied(value@),
    {
        let index: u64 = match value.at("index").as_u64() {
            Some(index) => index,
            None => 0,
        };
        let delta = value.at("delta");
        if value.at("type").is_str("content_block_start") {
            let at = index as usize;
            self.grow(at);
            let ghost grown = self@;
            assert(grown.blocks.len() == self.blocks@.len());
            assert(at < self.blocks@.len());
            let block = value.at("content_block").clone();
            self.blocks.set(at, block);
            assert(self@.blocks =~= grown.blocks.update(at as int, block@));
        } else if value.at("type").is_str("content_block_delta") {
            let at = index as usize;
            if delta.at("type").is_str("text_delta") {
                self.append(at, "text", delta.at("text"));
            } else if delta.at("type").is_str("thinking_delta") {
                self.append(at, "thinking", delta.at("thinking"));
            } else if delta.at("type").is_str("signature_delta") {
                self.append(at, "signature", delta.at("signature"));
            } else if delta.at("type").is_str("input_json_delta") {
                if let Some(partial) = delta.at("partial_json").as_str() {
                    self.grow(at);
                    let ghost grown = self@;
                    assert(grown.inputs.len() == self.inputs@.len());
                    let mut input = self.inputs[at].clone();
                    input.append(partial);
                    self.inputs.set(at, input);
                    assert(self@.inputs =~= grown.inputs.update(at as int, input@));
                }
            }
        } else if value.at("type").is_str("message_delta") {
            self.stop_reason = match delta.at("stop_reason").as_str() {
                Some(reason) => Some(reason.to_owned()),
                None => None,
            };
        }
    }

    fn accepts(&self, value: &Json) -> (r: bool)
        ensures
            r == self@.takes(value@),
    {
        let index: u64 = match value.at("index").as_u64() {
            Some(index) => index,
            None => 0,
        };
        let start = value.at("type").is_str("content_block_start");
        let delta = value.at("type").is_str("content_block_delta");
        if !start && !delta {
            return true;
        }
        if index >= usize::MAX as u64 {
            return false;
        }
        let at = index as usize;
        if delta && value.at("delta").at("type").is_str("input_json_delta") {
            if let Some(_) = value.at("delta").at("partial_json").as_str() {
                let blocks = self.blocks.len();
                let inputs = self.inputs.len();
                return if blocks <= at {
                    inputs >= blocks
                } else {
                    at < inputs
                };
            }
        }
        true
    }

    /// Takes in one frame. A frame that carries no value, or whose slot cannot be found, changes
    /// nothing.
    pub fn apply(&mut self, frame: &str)
        ensures
            match frame_value(frame@) {
                Some(value) => if old(self)@.takes(value) {
                    final(self)@ == old(self)@.applied(value)
                } else {
                    final(self)@ == old(self)@
                },
                None => final(self)@ == old(self)@,
            },
    {
        if let Some(data) = read_frame(frame) {
            if let Some(value) = Json::parse(data.as_str()) {
                if self.accepts(&value) {
                    self.apply_value(&value);
                }
            }
        }
    }

    /// The message as it arrived, ready to append to the transcript. `message_start` and
    /// `message_delta` never reserve a block, so slots left empty by a frame that was ignored are
    /// dropped instead of sent back as nulls. The collected inputs move into their blocks.
    pub fn content(&mut self) -> (r: Vec<Json>)
        ensures
            views(r@) == picked(old(self)@.finished_blocks(), |b: JsonView| present(b)),
            final(self)@ == (MessageView {
                blocks: old(self)@.finished_blocks(),
                inputs: Seq::empty(),
                stop_reason: old(self)@.stop_reason,
            }),
    {
        let ghost whole = self@;
        let ghost finished = whole.finished_blocks();
        let ghost pick = |b: JsonView| present(b);
        let mut blocks: Vec<Json> = Vec::new();
        let mut out: Vec<Json> = Vec::new();
        proof {
            picked_ends(finished, pick);
            assert(views(out@) =~= Seq::empty());
            assert(views(blocks@) =~= finished.take(0));
        }
        for i in 0..self.blocks.len()
            invariant
                whole == self@,
                finished == whole.finished_blocks(),
                pick == (|b: JsonView| present(b)),
                views(blocks@) == finished.take(i as int),
                views(out@) == picked(finished.take(i as int), pick),
        {
            let block = if i < self.inputs.len() {
                let input = self.inputs[i].as_str();
                finish_block(&self.blocks[i], input, Json::parse(input))
            } else {
                self.blocks[i].clone()
            };
            proof {
                picked_step(finished, pick, i as int);
                assert(block@ == finished[i as int]);
                views_push(blocks@, block);
                assert(finished.take(i + 1) =~= finished.take(i as int).push(block@));
            }
            if !block.is_null() {
                let copy = block.clone();
                proof {
                    views_push(out@, copy);
                }
                out.push(copy);
            }
            blocks.push(block);
        }
        proof {
            picked_ends(finished, pick);
            assert(finished.take(finished.len() as int) =~= finished);
        }
        self.blocks = blocks;
        self.inputs = Vec::new();
        assert(self@.inputs =~= Seq::empty());
        out
    }

    /// Whether Anthropic stopped mid-turn: the tool loop it runs is still open.
    pub fn paused(&self) -> (r: bool)
        ensures
            r == (self@.stop_reason == Some("pause_turn"@)),
    {
        match &self.stop_reason {
            Some(reason) => same(reason.as_str(), "pause_turn"),
            None => false,
        }
    }
}

// ---------------------------------------------------------------- laws

/// The fields of a block that arrive in pieces.
pub enum Piece {
    Text,
    Thinking,
    Signature,
}

impl Piece {
    /// The field that the pieces make up.
    pub open spec fn field(self) -> Seq<char> {
        match self {
            Piece::Text => "text"@,
            Piece::Thinking => "thinking"@,
            Piece::Signature => "signature"@,
        }
    }

    /// What a frame with such a piece calls itself.
    pub open spec fn delta(self) -> Seq<char> {
        match self {
            Piece::Text => "text_delta"@,
            Piece::Thinking => "thinking_delta"@,
            Piece::Signature => "signature_delta"@,
        }
    }
}

/// A frame that adds a piece to a block.
pub open spec fn delta_frame(
    index: u64,
    delta: Seq<char>,
    field: Seq<char>,
    more: Seq<char>,
) -> JsonView {
    JsonView::object().with("type"@, JsonView::Str("content_block_delta"@)).with(
        "index"@,
        JsonView::Number(JsonNumber::Natural(index)),
    ).with(
        "delta"@,
        JsonView::object().with("type"@, JsonView::Str(delta)).with(field, JsonView::Str(more)),
    )
}

/// The frames that add several pieces to a block, in the order in which they arrive.
pub open spec fn delta_frames(
    index: u64,
    delta: Seq<char>,
    field: Seq<char>,
    pieces: Seq<Seq<char>>,
) -> Seq<JsonView> {
    pieces.map_values(|more: Seq<char>| delta_frame(index, delta, field, more))
}

proof fn lemma_delta_frame(index: u64, delta: Seq<char>, field: Seq<char>, more: Seq<char>)
    requires
        field != "type"@,
    ensures
        ({
            let frame = delta_frame(index, delta, field, more);
            &&& frame.at("type"@) == JsonView::Str("content_block_delta"@)
            &&& !frame.at("type"@).is_text("content_block_start"@)
            &&& frame_index(frame) == index
            &&& frame.at("delta"@).at("type"@) == JsonView::Str(delta)
            &&& frame.at("delta"@).at(field) == JsonView::Str(more)
        }),
{
    reveal_strlit("type");
    reveal_strlit("index");
    reveal_strlit("delta");
    reveal_strlit("content_block_delta");
    reveal_strlit("content_block_start");
    assert("type"@.len() == 4 && "index"@.len() == 5 && "delta"@.len() == 5);
    assert("index"@[0] != "delta"@[0]);
    assert("content_block_delta"@[14] != "content_block_start"@[14]);
}

proof fn lemma_deltas_differ()
    ensures
        "text_delta"@ != "thinking_delta"@,
        "text_delta"@ != "signature_delta"@,
        "text_delta"@ != "input_json_delta"@,
        "thinking_delta"@ != "signature_delta"@,
        "thinking_delta"@ != "input_json_delta"@,
        "signature_delta"@ != "input_json_delta"@,
        "text"@ != "type"@,
        "thinking"@ != "type"@,
        "signature"@ != "type"@,
        "partial_json"@ != "type"@,
{
    reveal_strlit("text_delta");
    reveal_strlit("thinking_delta");
    reveal_strlit("signature_delta");
    reveal_strlit("input_json_delta");
    reveal_strlit("text");
    reveal_strlit("thinking");
    reveal_strlit("signature");
    reveal_strlit("partial_json");
    reveal_strlit("type");
    assert("text"@[1] != "type"@[1]);
    assert("text_delta"@.len() == 10 && "thinking_delta"@.len() == 14);
    assert("signature_delta"@.len() == 15 && "input_json_delta"@.len() == 16);
    assert("thinking"@.len() == 8 && "signature"@.len() == 9 && "partial_json"@.len() == 12);
}

/// The pieces of a text, of a thought or of a signature end up as what they are pieces of: the
/// block keeps its other fields and every other block is as it was.
pub proof fn pieces_add_up(
    message: MessageView,
    index: u64,
    piece: Piece,
    pieces: Seq<Seq<char>>,
)
    requires
        index < message.blocks.len(),
        message.blocks[index as int] is Object,
        pieces.len() > 0,
    ensures
        message.applied_all(delta_frames(index, piece.delta(), piece.field(), pieces)) == (
        MessageView {
            blocks: message.blocks.update(
                index as int,
                message.blocks[index as int].with(
                    piece.field(),
                    JsonView::Str(
                        message.blocks[index as int].at(piece.field()).text_or_empty() + joined(
                            pieces,
                            Seq::empty(),
                        ),
                    ),
                ),
            ),
            inputs: message.inputs,
            stop_reason: message.stop_reason,
        }),
    decreases pieces.len(),
{
    let field = piece.field();
    let frames = delta_frames(index, piece.delta(), field, pieces);
    let last = frames.last();
    lemma_deltas_differ();
    lemma_delta_frame(index, piece.delta(), field, pieces.last());
    assert(last == delta_frame(index, piece.delta(), field, pieces.last()));
    let i = index as int;
    let block = message.blocks[i];
    let start = block.at(field).text_or_empty();
    let rest = pieces.drop_last();
    assert(frames.drop_last() =~= delta_frames(index, piece.delta(), field, rest));
    if pieces.len() == 1 {
        assert(frames.drop_last() =~= Seq::empty());
        assert(message.applied_all(frames.drop_last()) == message);
        assert(joined(pieces, Seq::empty()) =~= pieces.last());
    } else {
        pieces_add_up(message, index, piece, rest);
        let so_far = message.applied_all(frames.drop_last());
        let text = start + joined(rest, Seq::empty());
        assert(so_far.blocks[i] == block.with(field, JsonView::Str(text)));
        assert(joined(pieces, Seq::empty()) =~= joined(rest, Seq::empty()) + pieces.last());
        assert(text + pieces.last() =~= start + joined(pieces, Seq::empty()));
        let whole = JsonView::Str(start + joined(pieces, Seq::empty()));
        let fields = block->Object_0;
        assert(fields.insert(field, JsonView::Str(text)).insert(field, whole) =~= fields.insert(
            field,
            whole,
        ));
        assert(so_far.blocks[i].with(field, whole) == block.with(field, whole));
        assert(so_far.applied(last).blocks =~= message.blocks.update(i, block.with(field, whole)));
    }
}

/// The pieces of the input of a hosted call are collected in their order, and touch no block.
pub proof fn input_pieces_add_up(message: MessageView, index: u64, pieces: Seq<Seq<char>>)
    requires
        index < message.blocks.len() == message.inputs.len(),
    ensures
        message.applied_all(
            delta_frames(index, "input_json_delta"@, "partial_json"@, pieces),
        ) == (MessageView {
            blocks: message.blocks,
            inputs: message.inputs.update(
                index as int,
                message.inputs[index as int] + joined(pieces, Seq::empty()),
            ),
            stop_reason: message.stop_reason,
        }),
    decreases pieces.len(),
{
    let frames = delta_frames(index, "input_json_delta"@, "partial_json"@, pieces);
    let i = index as int;
    let start = message.inputs[i];
    if pieces.len() == 0 {
        assert(start + joined(pieces, Seq::empty()) =~= start);
        assert(message.inputs.update(i, start) =~= message.inputs);
    } else {
        let last = frames.last();
        let rest = pieces.drop_last();
        lemma_deltas_differ();
        lemma_delta_frame(index, "input_json_delta"@, "partial_json"@, pieces.last());
        assert(last == delta_frame(index, "input_json_delta"@, "partial_json"@, pieces.last()));
        assert(frames.drop_last() =~= delta_frames(
            index,
            "input_json_delta"@,
            "partial_json"@,
            rest,
        ));
        input_pieces_add_up(message, index, rest);
        let so_far = message.applied_all(frames.drop_last());
        assert(so_far.grown(index as nat).blocks =~= so_far.blocks);
        assert(so_far.grown(index as nat).inputs =~= so_far.inputs);
        if pieces.len() == 1 {
            assert(joined(pieces, Seq::empty()) =~= pieces.last());
            assert(joined(rest, Seq::empty()) =~= Seq::empty());
        } else {
            assert(joined(pieces, Seq::empty()) =~= joined(rest, Seq::empty()) + pieces.last());
        }
        assert(start + joined(rest, Seq::empty()) + pieces.last() =~= start + joined(
            pieces,
            Seq::empty(),
        ));
        assert(so_far.applied(last).inputs =~= message.inputs.update(
            i,
            start + joined(pieces, Seq::empty()),
        ));
    }
}

/// A message that is sent back differs from what arrived at most in the input of its hosted calls:
/// every other block comes back as it is, and a hosted call keeps its other fields.
pub proof fn blocks_come_back_unchanged(message: MessageView, i: int, field: Seq<char>)
    requires
        0 <= i < message.blocks.len(),
    ensures
        message.finished_blocks().len() == message.blocks.len(),
        !message.blocks[i].at("type"@).is_text("server_tool_use"@)
            ==> message.finished_blocks()[i] == message.blocks[i],
        field != "input"@ ==> message.finished_blocks()[i].field(field) == message.blocks[i].field(
            field,
        ),
{
}

/// Frames about the envelope of a message never become blocks, nor do they touch the blocks that
/// have arrived.
pub proof fn envelopes_are_not_blocks(message: MessageView, value: JsonView)
    requires
        !value.at("type"@).is_text("content_block_start"@),
        !value.at("type"@).is_text("content_block_delta"@),
    ensures
        message.applied(value).blocks == message.blocks,
        message.applied(value).inputs == message.inputs,
{
}

/// A hosted call opens a row of the timeline, and its result closes the row with the same id.
pub proof fn hosted_rows_are_closed(call: JsonView, result: JsonView, kind: Seq<char>, name: Seq<char>)
    requires
        call.at("type"@) == JsonView::Str("server_tool_use"@),
        call.at("name"@) == JsonView::Str(name),
        result.at("type"@) == JsonView::Str(kind),
        kind == name + "_tool_result"@,
        kind != "server_tool_use"@,
        result.at("tool_use_id"@) == call.at("id"@),
    ensures
        hosted_activity(call) matches Some(opened) && hosted_activity(result) matches Some(closed)
            && {
            &&& opened.at("id"@) == call.at("id"@)
            &&& closed.at("id"@) == call.at("id"@)
            &&& opened.at("name"@) == JsonView::Str(name)
            &&& closed.at("name"@) == JsonView::Str(name)
            &&& opened.at("input"@) == call.at("input"@)
            &&& opened.at("status"@) == JsonView::Str("running"@)
            &&& closed.at("status"@) == JsonView::Str("completed"@)
            &&& opened.at("type"@) == JsonView::Str("tool"@)
            &&& closed.at("type"@) == JsonView::Str("tool"@)
        },
{
    names_are_told_apart();
    reveal_strlit("_tool_result");
    assert("_tool_result"@ =~= kind.subrange(
        kind.len() - "_tool_result"@.len(),
        kind.len() as int,
    ));
    assert(kind.take(kind.len() - "_tool_result"@.len()) =~= name);
}

/// Only hosted calls and their results are shown, and only the start of a block shows anything.
pub proof fn only_hosted_tools_are_shown(value: JsonView, block: JsonView)
    ensures
        hosted_activity(block) is Some ==> block.at("type"@) == JsonView::Str("server_tool_use"@)
            || "_tool_result"@.is_suffix_of(block.at("type"@).text_or_empty()),
        relayed_frame(value) matches Some(f) ==> (f.activity is Some ==> value.at("type"@)
            == JsonView::Str("content_block_start"@) && f.activity == hosted_activity(
            value.at("content_block"@),
        )),
        value.at("type"@) == JsonView::Str("content_block_start"@) && !(value.at("delta"@).at(
            "text"@,
        ) is Str) && !(value.at("delta"@).at("thinking"@) is Str) ==> (relayed_frame(
            value,
        ) matches Some(f) && f.activity == hosted_activity(value.at("content_block"@))),
{
    names_are_told_apart();
}

/// One more result of a hosted search is one more source, with its own address and title.
pub proof fn hosted_results_are_sources(
    block: JsonView,
    longer: JsonView,
    item: JsonView,
    url: Seq<char>,
    title: Seq<char>,
)
    requires
        block.at("type"@) == JsonView::Str("web_search_tool_result"@),
        longer.at("type"@) == JsonView::Str("web_search_tool_result"@),
        longer.at("content"@) == JsonView::Array(block.at("content"@).items_or_empty().push(item)),
        item.at("type"@) == JsonView::Str("web_search_result"@),
        item.at("url"@) == JsonView::Str(url),
        item.at("title"@) == JsonView::Str(title),
    ensures
        ({
            let after = block_sources(longer);
            &&& after.drop_last() == block_sources(block)
            &&& after.last().at("url"@) == JsonView::Str(url)
            &&& after.last().at("title"@) == JsonView::Str(title)
        }),
{
    names_are_told_apart();
    let items = block.at("content"@).items_or_empty();
    picked_push(items, item, |i: JsonView| hosted_source(i));
    assert(block_sources(longer).drop_last() =~= block_sources(block));
}

/// The start of a block puts it in its place and leaves every other block as it is.
pub proof fn blocks_start_in_their_place(message: MessageView, value: JsonView, index: u64, other: int)
    requires
        value.at("type"@) == JsonView::Str("content_block_start"@),
        value.at("index"@).natural() == Some(index),
        0 <= other < message.blocks.len(),
        other != index,
    ensures
        message.applied(value).blocks[index as int] == value.at("content_block"@),
        message.applied(value).blocks[other] == message.blocks[other],
        message.applied(value).stop_reason == message.stop_reason,
{
}

/// A message is paused exactly where the last frame that named a reason to stop named a pause.
pub proof fn pauses_are_noticed(message: MessageView, value: JsonView)
    requires
        value.at("type"@) == JsonView::Str("message_delta"@),
    ensures
        message.applied(value).stop_reason == Some("pause_turn"@) <==> value.at("delta"@).at(
            "stop_reason"@,
        ) == JsonView::Str("pause_turn"@),
{
    names_are_told_apart();
}

/// A hosted call is sent back with the input that its pieces make up.
pub proof fn hosted_inputs_are_sent_back(message: MessageView, i: int, input: JsonView)
    requires
        0 <= i < message.blocks.len(),
        i < message.inputs.len(),
        message.blocks[i].at("type"@) == JsonView::Str("server_tool_use"@),
        message.inputs[i].len() > 0,
        parsed_json(message.inputs[i]) == Some(input),
    ensures
        message.finished_blocks()[i].at("input"@) == input,
{
}

/// A piece of a block joins the field that it is of, at its end; no other field and no other block
/// changes.
pub proof fn deltas_join_their_field(
    message: MessageView,
    value: JsonView,
    index: u64,
    more: Seq<char>,
    other: int,
    key: Seq<char>,
)
    requires
        value.at("type"@) == JsonView::Str("content_block_delta"@),
        value.at("index"@).natural() == Some(index),
        index < message.blocks.len(),
        message.blocks[index as int] is Object,
        0 <= other < message.blocks.len(),
    ensures
        ({
            let after = message.applied(value);
            let block = message.blocks[index as int];
            let delta = value.at("delta"@);
            let joins = |kind: Seq<char>, field: Seq<char>|
                delta.at("type"@) == JsonView::Str(kind) && delta.at(field) == JsonView::Str(more)
                    ==> {
                    &&& after.blocks[index as int].at(field) == JsonView::Str(
                        block.at(field).text_or_empty() + more,
                    )
                    &&& key != field ==> after.blocks[index as int].field(key) == block.field(key)
                };
            &&& joins("text_delta"@, "text"@)
            &&& joins("thinking_delta"@, "thinking"@)
            &&& joins("signature_delta"@, "signature"@)
            &&& other != index ==> after.blocks[other] == message.blocks[other]
            &&& after.blocks.len() == message.blocks.len()
            &&& after.stop_reason == message.stop_reason
        }),
{
    names_are_told_apart();
    reveal_strlit("text_delta");
    reveal_strlit("thinking_delta");
    reveal_strlit("signature_delta");
    reveal_strlit("signature");
    reveal_strlit("input_json_delta");
    assert("text_delta"@.len() == 10 && "thinking_delta"@.len() == 14);
    assert("signature_delta"@.len() == 15 && "input_json_delta"@.len() == 16);
    assert("signature"@.len() == 9);
}

/// Why a turn stopped is what its envelope last said, and a frame of another kind says nothing of it.
pub proof fn stops_are_kept_as_told(message: MessageView, value: JsonView)
    ensures
        value.at("type"@) == JsonView::Str("message_delta"@) ==> message.applied(value).stop_reason
            == value.at("delta"@).at("stop_reason"@).text(),
        value.at("type"@) != JsonView::Str("message_delta"@) ==> message.applied(value).stop_reason
            == message.stop_reason,
{
    names_are_told_apart();
}

/// Only the results of a search are sources, and of its items only those with an address; one without
/// a title has an empty one.
pub proof fn other_results_are_no_sources(
    block: JsonView,
    longer: JsonView,
    item: JsonView,
)
    requires
        block.at("type"@) == JsonView::Str("web_search_tool_result"@),
        longer.at("type"@) == JsonView::Str("web_search_tool_result"@),
        longer.at("content"@) == JsonView::Array(block.at("content"@).items_or_empty().push(item)),
    ensures
        item.at("type"@) != JsonView::Str("web_search_result"@) || !(item.at("url"@) is Str)
            ==> block_sources(longer) == block_sources(block),
        item.at("type"@) == JsonView::Str("web_search_result"@) && item.at("url"@) is Str && !(
        item.at("title"@) is Str) ==> block_sources(longer).last().at("title"@) == JsonView::Str(
            Seq::empty(),
        ),
        forall|other: JsonView|
            (#[trigger] other.at("type"@)) != JsonView::Str("web_search_tool_result"@)
                ==> block_sources(other).len() == 0,
{
    names_are_told_apart();
    picked_push(
        block.at("content"@).items_or_empty(),
        item,
        |i: JsonView| hosted_source(i),
    );
}

/// A block whose input came in no pieces, or in pieces that do not parse, comes back as it was.
pub proof fn broken_inputs_change_nothing(message: MessageView, i: int)
    requires
        0 <= i < message.blocks.len(),
    ensures
        i < message.inputs.len() && (message.inputs[i].len() == 0 || parsed_json(
            message.inputs[i],
        ) is None) ==> message.finished_blocks()[i] == message.blocks[i],
        i >= message.inputs.len() ==> message.finished_blocks()[i] == message.blocks[i],
{
}

/// Making room for a block keeps every block and every input that is there; the places in between
/// stay empty.
pub proof fn growing_keeps_what_is_there(message: MessageView, index: nat, i: int)
    requires
        message.blocks.len() == message.inputs.len(),
    ensures
        ({
            let after = message.grown(index);
            &&& after.blocks.len() == after.inputs.len()
            &&& after.blocks.len() == if message.blocks.len() <= index {
                index + 1
            } else {
                message.blocks.len()
            }
            &&& 0 <= i < message.blocks.len() ==> after.blocks[i] == message.blocks[i]
                && after.inputs[i] == message.inputs[i]
            &&& message.blocks.len() <= i <= index ==> after.blocks[i] is Null
                && after.inputs[i].len() == 0
            &&& after.stop_reason == message.stop_reason
        }),
{
}

/// What comes back of a message is its blocks, in their order; a place that no block took is left
/// out.
pub proof fn empty_places_are_left_out(blocks: Seq<JsonView>, block: JsonView)
    ensures
        block is Null ==> picked(blocks.push(block), |b: JsonView| present(b)) == picked(
            blocks,
            |b: JsonView| present(b),
        ),
        !(block is Null) ==> picked(blocks.push(block), |b: JsonView| present(b)) == picked(
            blocks,
            |b: JsonView| present(b),
        ).push(block),
{
    picked_push(blocks, block, |b: JsonView| present(b));
}

/// Any frame that is of no block is taken; one of a block is where its place can be counted, and one
/// that carries input where there is room for it.
pub proof fn frames_are_taken_where_they_fit(message: MessageView, value: JsonView, index: u64)
    requires
        message.blocks.len() == message.inputs.len(),
    ensures
        value.at("type"@) != JsonView::Str("content_block_start"@) && value.at("type"@)
            != JsonView::Str("content_block_delta"@) ==> message.takes(value),
        (value.at("type"@) == JsonView::Str("content_block_start"@) || value.at("type"@)
            == JsonView::Str("content_block_delta"@)) && value.at("index"@).natural() == Some(index)
            ==> (message.takes(value) <==> index < usize::MAX),
{
    names_are_told_apart();
    growing_keeps_what_is_there(message, frame_index(value) as nat, 0);
}

} // verus!
