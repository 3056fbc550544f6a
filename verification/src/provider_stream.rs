//! Decoding the frames of a provider's stream.

use vstd::prelude::*;
use vstd::string::*;

use crate::anthropic_stream::{fragment, relayed_frame};
use crate::decimal::{digits, numbers_are_told_apart, write_u64};
use crate::json::{json_text, parsed_json, views, Json, JsonView};
use crate::names::names_are_told_apart;
use crate::picking::{first_picked, first_picked_ends, first_picked_step};
use crate::provider_errors::{detail_in, upstream_detail};
use crate::providers::{kind_of, opt_view, RequestKind};
use crate::search::{lines, lines_end_at_breaks, lines_of, strip_prefix};
use crate::text::{opt_string, same, texts, trim, trimmed};

verus! {

// ---------------------------------------------------------------- fragments

/// One decoded frame from a provider stream.
#[derive(Debug, PartialEq)]
pub struct StreamFragment {
    pub reasoning: bool,
    pub text: String,
    /// Responses returns reasoning as summary parts, so each part can be rendered as its own
    /// timeline row instead of being glued to its neighbours.
    pub part: Option<String>,
    /// Responses ids arrive on the lifecycle frames, not the text deltas.
    pub response_id: Option<String>,
    /// Gateways report failures inside the stream body while still answering 200.
    pub error: Option<String>,
    /// Why a response ended without producing text: token limit, filtering, and so on.
    pub incomplete: Option<String>,
    /// A hosted tool at work, to be shown in the timeline.
    pub activity: Option<Json>,
    /// What a hosted search found.
    pub sources: Vec<Json>,
    /// The turn is still open: the provider will go on when asked to.
    pub paused: bool,
}

/// What a decoded frame says.
pub struct FragmentView {
    pub reasoning: bool,
    pub text: Seq<char>,
    pub part: Option<Seq<char>>,
    pub response_id: Option<Seq<char>>,
    pub error: Option<Seq<char>>,
    pub incomplete: Option<Seq<char>>,
    pub activity: Option<JsonView>,
    pub sources: Seq<JsonView>,
    pub paused: bool,
}

impl View for StreamFragment {
    type V = FragmentView;

    open spec fn view(&self) -> FragmentView {
        FragmentView {
            reasoning: self.reasoning,
            text: self.text@,
            part: opt_string(self.part),
            response_id: opt_string(self.response_id),
            error: opt_string(self.error),
            incomplete: opt_string(self.incomplete),
            activity: opt_view(self.activity),
            sources: views(self.sources@),
            paused: self.paused,
        }
    }
}

impl FragmentView {
    /// A frame that says nothing.
    pub open spec fn silent() -> FragmentView {
        FragmentView {
            reasoning: false,
            text: Seq::empty(),
            part: None,
            response_id: None,
            error: None,
            incomplete: None,
            activity: None,
            sources: Seq::empty(),
            paused: false,
        }
    }

    /// A frame that carries a piece of the answer or of the reasoning.
    pub open spec fn said(reasoning: bool, text: Seq<char>) -> FragmentView {
        FragmentView { reasoning, text, ..FragmentView::silent() }
    }
}

impl Default for StreamFragment {
    fn default() -> (r: Self)
        ensures
            r@ == FragmentView::silent(),
    {
        let sources: Vec<Json> = Vec::new();
        assert(views(sources@) =~= Seq::empty());
        StreamFragment {
            reasoning: false,
            text: String::new(),
            part: None,
            response_id: None,
            error: None,
            incomplete: None,
            activity: None,
            sources,
            paused: false,
        }
    }
}

impl StreamFragment {
    /// A frame that carries a piece of the answer or of the reasoning.
    pub fn said(reasoning: bool, text: &str) -> (r: Self)
        ensures
            r@ == FragmentView::said(reasoning, text@),
    {
        let mut out = StreamFragment::default();
        out.reasoning = reasoning;
        out.text = text.to_owned();
        out
    }
}

/// The view of an optional fragment.
pub open spec fn opt_fragment(f: Option<StreamFragment>) -> Option<FragmentView> {
    match f {
        Some(f) => Some(f@),
        None => None,
    }
}

// ---------------------------------------------------------------- frames

/// What follows `data:` in a line that starts with it.
pub open spec fn data_of_line(line: Seq<char>) -> Option<Seq<char>> {
    if "data:"@.is_prefix_of(line) {
        Some(line.skip("data:"@.len() as int))
    } else {
        None
    }
}

/// The data of a frame: what its first data line carries, trimmed.
pub open spec fn frame_data(frame: Seq<char>) -> Option<Seq<char>> {
    match first_picked(lines_of(frame), |l: Seq<char>| data_of_line(l)) {
        Some(data) => Some(trimmed(data)),
        None => None,
    }
}

/// The data of a frame.
pub fn read_frame(frame: &str) -> (r: Option<String>)
    ensures
        opt_string(r) == frame_data(frame@),
{
    let all = lines(frame);
    let ghost pick = |l: Seq<char>| data_of_line(l);
    let ghost seen = lines_of(frame@);
    proof {
        first_picked_ends(seen, pick);
    }
    for i in 0..all.len()
        invariant
            pick == (|l: Seq<char>| data_of_line(l)),
            seen == lines_of(frame@),
            texts(all@) == seen,
            first_picked(seen, pick) == first_picked(seen.skip(i as int), pick),
    {
        proof {
            first_picked_step(seen, pick, i as int);
            assert(seen[i as int] == all@[i as int]@);
        }
        if let Some(data) = strip_prefix(all[i].as_str(), "data:") {
            return Some(trim(data).to_owned());
        }
    }
    proof {
        first_picked_ends(seen, pick);
        assert(seen.len() == all@.len());
    }
    None
}

/// The error that a frame reports: a bare `error`, else one nested in `response`. A null counts
/// as absent, because every lifecycle frame carries `"error": null`.
pub open spec fn frame_error(value: JsonView) -> Option<JsonView> {
    if !(value.at("error"@) is Null) {
        Some(value.at("error"@))
    } else if !(value.at("response"@).at("error"@) is Null) {
        Some(value.at("response"@).at("error"@))
    } else {
        None
    }
}

/// Whether a frame reports that the turn failed.
pub open spec fn frame_failed(value: JsonView) -> bool {
    frame_error(value) is Some || value.at("response"@).at("status"@).is_text("failed"@)
}

/// The words of an error in a frame.
pub open spec fn error_words(error: JsonView) -> Seq<char> {
    match error.text() {
        Some(text) => text,
        None => detail_in(json_text(error)),
    }
}

/// What is told of a failed turn.
pub open spec fn failure_words(value: JsonView) -> Seq<char> {
    match frame_error(value) {
        Some(error) => if error_words(error).len() > 0 {
            error_words(error)
        } else {
            "the provider marked the response as failed"@
        },
        None => "the provider marked the response as failed"@,
    }
}

/// Why a frame says that the response ended early.
pub open spec fn incomplete_reason(value: JsonView) -> Option<Seq<char>> {
    match value.at("response"@).at("incomplete_details"@).at("reason"@).text() {
        Some(reason) => Some(reason),
        None => value.at("incomplete_details"@).at("reason"@).text(),
    }
}

/// The id of the response that a Responses frame belongs to, where it names one.
pub open spec fn frame_response_id(value: JsonView) -> Option<Seq<char>> {
    match value.at("response"@).at("id"@).text() {
        Some(id) => Some(id),
        None => if value.at("type"@).is_text("response.created"@) {
            value.at("id"@).text()
        } else {
            None
        },
    }
}

/// The summary part that a reasoning delta belongs to. `summary_index` restarts at zero for every
/// reasoning item, so the item's own index stands before it.
pub open spec fn summary_part(value: JsonView) -> Option<Seq<char>> {
    match value.at("output_index"@).natural() {
        Some(item) => Some(digits(item as nat) + seq![':'] + digits(part_index(value) as nat)),
        None => None,
    }
}

/// The place of a summary part within its reasoning item.
pub open spec fn part_index(value: JsonView) -> u64 {
    match value.at("summary_index"@).natural() {
        Some(n) => n,
        None => match value.at("content_index"@).natural() {
            Some(n) => n,
            None => 0,
        },
    }
}

/// Two deltas belong to the same summary part only where they belong to the same place of the same
/// reasoning item: parts of different items never collide.
pub proof fn summary_parts_are_kept_apart(one: JsonView, other: JsonView)
    requires
        summary_part(one) is Some,
        summary_part(one) == summary_part(other),
    ensures
        one.at("output_index"@).natural() == other.at("output_index"@).natural(),
        part_index(one) == part_index(other),
{
    numbers_are_told_apart(
        one.at("output_index"@).natural()->0 as nat,
        part_index(one) as nat,
        other.at("output_index"@).natural()->0 as nat,
        part_index(other) as nat,
    );
}

/// What a Responses frame says: a piece of the answer, a piece of the reasoning, or an id.
pub open spec fn responses_frame(value: JsonView) -> Option<FragmentView> {
    match value.at("type"@).text() {
        Some(event) => {
            let id = frame_response_id(value);
            if event == "response.output_text.delta"@ {
                match value.at("delta"@).text() {
                    Some(text) => unless_silent(
                        FragmentView { response_id: id, ..FragmentView::said(false, text) },
                    ),
                    None => None,
                }
            } else if event == "response.reasoning_summary_text.delta"@ || event
                == "response.reasoning_text.delta"@ {
                match value.at("delta"@).text() {
                    Some(text) => unless_silent(
                        FragmentView {
                            response_id: id,
                            part: summary_part(value),
                            ..FragmentView::said(true, text)
                        },
                    ),
                    None => None,
                }
            } else {
                unless_silent(FragmentView { response_id: id, ..FragmentView::silent() })
            }
        },
        None => None,
    }
}

/// A fragment that carries text or an id.
pub open spec fn unless_silent(f: FragmentView) -> Option<FragmentView> {
    if f.text.len() == 0 && f.response_id is None {
        None
    } else {
        Some(f)
    }
}

/// What a Chat frame says.
pub open spec fn chat_frame(value: JsonView) -> Option<FragmentView> {
    match value.at("choices"@).items() {
        Some(choices) => if choices.len() > 0 {
            let delta = choices[0].at("delta"@);
            match delta.at("content"@).text() {
                Some(text) => Some(FragmentView::said(false, text)),
                None => match delta.at("reasoning_content"@).text() {
                    Some(text) => Some(FragmentView::said(true, text)),
                    None => match delta.at("reasoning"@).text() {
                        Some(text) => Some(FragmentView::said(true, text)),
                        None => None,
                    },
                },
            }
        } else {
            None
        },
        None => None,
    }
}

/// What a frame says, where `failure` is what would be told of a failed turn.
pub open spec fn decoded(kind: RequestKind, value: JsonView, failure: Seq<char>) -> Option<
    FragmentView,
> {
    if frame_failed(value) {
        Some(FragmentView { error: Some(failure), ..FragmentView::silent() })
    } else if incomplete_reason(value) is Some {
        Some(FragmentView { incomplete: incomplete_reason(value), ..FragmentView::silent() })
    } else {
        match kind {
            RequestKind::OpenAiResponses => responses_frame(value),
            RequestKind::Anthropic => relayed_frame(value),
            RequestKind::OpenAiChat => chat_frame(value),
        }
    }
}

/// What the stream of a provider says in one frame; nothing where the frame has no data, marks the
/// end or is not JSON.
pub open spec fn frame_fragment(kind: RequestKind, frame: Seq<char>) -> Option<FragmentView> {
    match frame_data(frame) {
        Some(data) => if data == "[DONE]"@ {
            None
        } else {
            match parsed_json(data) {
                Some(value) => decoded(kind, value, failure_words(value)),
                None => None,
            }
        },
        None => None,
    }
}

// ---------------------------------------------------------------- decoding

fn find_frame_error(value: &Json) -> (r: Option<&Json>)
    ensures
        match r {
            Some(error) => frame_error(value@) == Some(error@),
            None => frame_error(value@) is None,
        },
{
    let bare = value.at("error");
    if !bare.is_null() {
        return Some(bare);
    }
    let nested = value.at("response").at("error");
    if !nested.is_null() {
        Some(nested)
    } else {
        None
    }
}

/// What is told of a failed turn.
pub fn failure_detail(value: &Json) -> (r: String)
    ensures
        r@ == failure_words(value@),
{
    if let Some(error) = find_frame_error(value) {
        let detail = match error.as_str() {
            Some(text) => text.to_owned(),
            None => upstream_detail(error.print().as_str()),
        };
        if !detail.as_str().is_empty() {
            return detail;
        }
    }
    "the provider marked the response as failed".to_owned()
}

fn read_responses_frame(value: &Json) -> (r: Option<StreamFragment>)
    ensures
        opt_fragment(r) == responses_frame(value@),
{
    let response_id = match value.at("response").at("id").as_str() {
        Some(id) => Some(id.to_owned()),
        None => if value.at("type").is_str("response.created") {
            match value.at("id").as_str() {
                Some(id) => Some(id.to_owned()),
                None => None,
            }
        } else {
            None
        },
    };
    let event = match value.at("type").as_str() {
        Some(event) => event,
        None => return None,
    };
    let mut out = StreamFragment::default();
    if same(event, "response.output_text.delta") {
        match value.at("delta").as_str() {
            Some(text) => {
                out = StreamFragment::said(false, text);
            },
            None => return None,
        }
    } else if same(event, "response.reasoning_summary_text.delta") || same(
        event,
        "response.reasoning_text.delta",
    ) {
        match value.at("delta").as_str() {
            Some(text) => {
                out = StreamFragment::said(true, text);
                if let Some(item) = value.at("output_index").as_u64() {
                    let index: u64 = match value.at("summary_index").as_u64() {
                        Some(n) => n,
                        None => match value.at("content_index").as_u64() {
                            Some(n) => n,
                            None => 0,
                        },
                    };
                    let mut part = write_u64(item);
                    part.push(':');
                    let tail = write_u64(index);
                    part.append(tail.as_str());
                    assert(part@ =~= digits(item as nat) + seq![':'] + digits(index as nat));
                    out.part = Some(part);
                }
            },
            None => return None,
        }
    }
    out.response_id = response_id;
    if out.text.as_str().is_empty() && out.response_id.is_none() {
        return None;
    }
    Some(out)
}

fn read_chat_frame(value: &Json) -> (r: Option<StreamFragment>)
    ensures
        opt_fragment(r) == chat_frame(value@),
{
    match value.at("choices").as_array() {
        Some(choices) => if choices.len() > 0 {
            let delta = choices[0].at("delta");
            if let Some(text) = delta.at("content").as_str() {
                return Some(StreamFragment::said(false, text));
            }
            if let Some(text) = delta.at("reasoning_content").as_str() {
                return Some(StreamFragment::said(true, text));
            }
            match delta.at("reasoning").as_str() {
                Some(text) => Some(StreamFragment::said(true, text)),
                None => None,
            }
        } else {
            None
        },
        None => None,
    }
}

/// What a frame says, where `failure` is what to tell of a failed turn.
pub fn decode_frame(kind: &str, value: &Json, failure: &str) -> (r: Option<StreamFragment>)
    ensures
        opt_fragment(r) == decoded(kind_of(kind@), value@, failure@),
{
    if find_frame_error(value).is_some() || value.at("response").at("status").is_str("failed") {
        let mut out = StreamFragment::default();
        out.error = Some(failure.to_owned());
        return Some(out);
    }
    if let Some(reason) = value.at("response").at("incomplete_details").at("reason").as_str() {
        let mut out = StreamFragment::default();
        out.incomplete = Some(reason.to_owned());
        return Some(out);
    }
    if let Some(reason) = value.at("incomplete_details").at("reason").as_str() {
        let mut out = StreamFragment::default();
        out.incomplete = Some(reason.to_owned());
        return Some(out);
    }
    match RequestKind::parse(kind) {
        RequestKind::OpenAiResponses => read_responses_frame(value),
        RequestKind::Anthropic => fragment(value),
        RequestKind::OpenAiChat => read_chat_frame(value),
    }
}

/// Decodes one frame of a provider's stream.
///
/// A gateway can fail the turn inside the stream while still answering 200: a bare `error`, a
/// nested `response.error`, or a `response` whose status is `failed`.
pub fn provider_stream_delta(kind: &str, frame: &str) -> (r: Option<StreamFragment>)
    ensures
        opt_fragment(r) == frame_fragment(kind_of(kind@), frame@),
{
    let data = match read_frame(frame) {
        Some(data) => data,
        None => return None,
    };
    if same(data.as_str(), "[DONE]") {
        return None;
    }
    match Json::parse(data.as_str()) {
        Some(value) => {
            let failure = failure_detail(&value);
            decode_frame(kind, &value, failure.as_str())
        },
        None => None,
    }
}

// ---------------------------------------------------------------- laws

/// Whether a frame reports a failure: an error of its own, one of its response, or a response that
/// failed.
pub open spec fn reports_failure(value: JsonView) -> bool {
    ||| !(value.at("error"@) is Null)
    ||| !(value.at("response"@).at("error"@) is Null)
    ||| value.at("response"@).at("status"@) == JsonView::Str("failed"@)
}

/// Whether a frame says why its response ended early.
pub open spec fn reports_end(value: JsonView) -> bool {
    ||| value.at("response"@).at("incomplete_details"@).at("reason"@) is Str
    ||| value.at("incomplete_details"@).at("reason"@) is Str
}

/// Whether a decoded frame carries nothing but text and what belongs to it.
pub open spec fn is_spoken(f: FragmentView) -> bool {
    &&& f.error is None
    &&& f.incomplete is None
    &&& f.activity is None
    &&& f.sources.len() == 0
    &&& !f.paused
}

/// In every dialect a frame tells of a failure exactly where it reports one, with the words of the
/// failure and nothing else; a response that ended early is told of next.
pub proof fn failures_are_told(kind: RequestKind, value: JsonView, failure: Seq<char>)
    ensures
        ({
            let told = decoded(kind, value, failure);
            &&& reports_failure(value) <==> (told matches Some(f) && f.error is Some)
            &&& reports_failure(value) ==> (told matches Some(f) && f.error == Some(failure)
                && f.text.len() == 0 && f.incomplete is None && f.response_id is None)
            &&& !reports_failure(value) && reports_end(value) <==> (told matches Some(f)
                && f.incomplete is Some)
            &&& told matches Some(f) ==> (f.incomplete is Some ==> f.text.len() == 0)
        }),
{
}

/// What is told of a failure is never empty; an error that is a text is told in its own words, the
/// frame's own error before that of its response.
pub proof fn failures_have_words(value: JsonView, words: Seq<char>)
    requires
        words.len() > 0,
    ensures
        failure_words(value).len() > 0,
        value.at("error"@) == JsonView::Str(words) ==> failure_words(value) == words,
        value.at("error"@) is Null && value.at("response"@).at("error"@) == JsonView::Str(words)
            ==> failure_words(value) == words,
{
    reveal_strlit("the provider marked the response as failed");
}

/// A Chat frame gives a piece of the answer only where its content is a string, and then that
/// string; what comes from its reasoning fields is reasoning.
pub proof fn chat_frames_keep_reasoning_apart(value: JsonView, failure: Seq<char>)
    requires
        !reports_failure(value),
        !reports_end(value),
    ensures
        ({
            let choices = value.at("choices"@).items_or_empty();
            let delta = choices[0].at("delta"@);
            match decoded(RequestKind::OpenAiChat, value, failure) {
                Some(f) => {
                    &&& choices.len() > 0
                    &&& is_spoken(f) && f.part is None && f.response_id is None
                    &&& f.reasoning <==> !(delta.at("content"@) is Str)
                    &&& !f.reasoning ==> delta.at("content"@) == JsonView::Str(f.text)
                    &&& f.reasoning && delta.at("reasoning_content"@) is Str ==> delta.at(
                        "reasoning_content"@,
                    ) == JsonView::Str(f.text)
                    &&& f.reasoning && !(delta.at("reasoning_content"@) is Str) ==> delta.at(
                        "reasoning"@,
                    ) == JsonView::Str(f.text)
                },
                None => choices.len() == 0 || (!(delta.at("content"@) is Str) && !(delta.at(
                    "reasoning_content"@,
                ) is Str) && !(delta.at("reasoning"@) is Str)),
            }
        }),
{
}

/// A Responses frame gives a piece of the answer or of the reasoning by its type, and always the id
/// that it names; parts are counted for reasoning only.
pub proof fn responses_frames_keep_reasoning_apart(value: JsonView, failure: Seq<char>)
    requires
        !reports_failure(value),
        !reports_end(value),
    ensures
        ({
            let kind = value.at("type"@);
            let thinks = kind == JsonView::Str("response.reasoning_summary_text.delta"@) || kind
                == JsonView::Str("response.reasoning_text.delta"@);
            let answers = kind == JsonView::Str("response.output_text.delta"@);
            match decoded(RequestKind::OpenAiResponses, value, failure) {
                Some(f) => {
                    &&& is_spoken(f)
                    &&& f.reasoning <==> thinks
                    &&& thinks || answers ==> value.at("delta"@) == JsonView::Str(f.text)
                    &&& !thinks && !answers ==> f.text.len() == 0
                    &&& f.part is Some <==> thinks && value.at("output_index"@).natural() is Some
                    &&& value.at("response"@).at("id"@) is Str ==> value.at("response"@).at("id"@)
                        == JsonView::Str(f.response_id->0) && f.response_id is Some
                    &&& f.response_id is Some && !(value.at("response"@).at("id"@) is Str)
                        ==> value.at("id"@) == JsonView::Str(f.response_id->0) && kind
                        == JsonView::Str("response.created"@)
                },
                None => {
                    &&& (thinks || answers) && value.at("delta"@).text_or_empty().len() > 0 ==> false
                    &&& kind is Str && !thinks && !answers ==> !(value.at("response"@).at(
                        "id"@,
                    ) is Str)
                },
            }
        }),
{
    reveal_strlit("response.reasoning_summary_text.delta");
    reveal_strlit("response.reasoning_text.delta");
    reveal_strlit("response.output_text.delta");
    reveal_strlit("response.created");
    assert("response.reasoning_summary_text.delta"@.len() == 37);
    assert("response.reasoning_text.delta"@.len() == 29);
    assert("response.output_text.delta"@.len() == 26);
}

/// An Anthropic frame gives a piece of the answer where its delta has text, and a piece of the
/// reasoning where it has thinking instead.
pub proof fn anthropic_frames_keep_reasoning_apart(value: JsonView, failure: Seq<char>)
    requires
        !reports_failure(value),
        !reports_end(value),
    ensures
        ({
            let delta = value.at("delta"@);
            let told = decoded(RequestKind::Anthropic, value, failure);
            &&& delta.at("text"@) is Str ==> (told matches Some(f) && is_spoken(f) && !f.reasoning
                && delta.at("text"@) == JsonView::Str(f.text))
            &&& !(delta.at("text"@) is Str) && delta.at("thinking"@) is Str ==> (told matches Some(f)
                && is_spoken(f) && f.reasoning && delta.at("thinking"@) == JsonView::Str(f.text))
            &&& told matches Some(f) ==> {
                &&& f.reasoning ==> delta.at("thinking"@) is Str
                &&& f.text.len() > 0 ==> delta.at("text"@) is Str || delta.at("thinking"@) is Str
                &&& f.paused <==> !(delta.at("text"@) is Str) && !(delta.at("thinking"@) is Str)
                    && value.at("type"@) == JsonView::Str("message_delta"@) && delta.at(
                    "stop_reason"@,
                ) == JsonView::Str("pause_turn"@)
                &&& f.part is None && f.response_id is None
            }
        }),
{
    names_are_told_apart();
}

/// Why a response ended early is told in the provider's word for it: the one of the response, else
/// the one of the frame.
pub proof fn early_ends_are_told(kind: RequestKind, value: JsonView, failure: Seq<char>)
    requires
        !reports_failure(value),
        reports_end(value),
    ensures
        decoded(kind, value, failure) matches Some(f) && {
            let inner = value.at("response"@).at("incomplete_details"@).at("reason"@);
            let outer = value.at("incomplete_details"@).at("reason"@);
            &&& inner is Str ==> inner == JsonView::Str(f.incomplete->0)
            &&& !(inner is Str) ==> outer == JsonView::Str(f.incomplete->0)
            &&& f.incomplete is Some && f.error is None && !f.reasoning && f.text.len() == 0
        },
{
}

/// A failure without words of its own is told in ours; one with an error that is no text, in the
/// words that its body explains it with.
pub proof fn wordless_failures_are_told(value: JsonView)
    ensures
        value.at("error"@) is Null && value.at("response"@).at("error"@) is Null ==> failure_words(
            value,
        ) == "the provider marked the response as failed"@,
        !(value.at("error"@) is Null) && !(value.at("error"@) is Str) ==> {
            let words = detail_in(json_text(value.at("error"@)));
            failure_words(value) == if words.len() > 0 {
                words
            } else {
                "the provider marked the response as failed"@
            }
        },
{
}

/// The id of a response that is created is known from then on, and a thought is told under the place
/// of its item and of its part.
pub proof fn responses_are_known_by_their_id(
    value: JsonView,
    failure: Seq<char>,
    item: u64,
    part: u64,
)
    requires
        !reports_failure(value),
        !reports_end(value),
    ensures
        value.at("type"@) == JsonView::Str("response.created"@) && value.at("id"@) is Str && !(
        value.at("response"@).at("id"@) is Str) ==> (decoded(
            RequestKind::OpenAiResponses,
            value,
            failure,
        ) matches Some(f) && f.response_id == value.at("id"@).text()),
        value.at("type"@) == JsonView::Str("response.reasoning_summary_text.delta"@) && value.at(
            "output_index"@,
        ).natural() == Some(item) && value.at("summary_index"@).natural() == Some(part) && value.at(
            "delta"@,
        ).text_or_empty().len() > 0 ==> (decoded(
            RequestKind::OpenAiResponses,
            value,
            failure,
        ) matches Some(f) && f.part == Some(
            digits(item as nat) + seq![':'] + digits(part as nat),
        )),
{
    names_are_told_apart();
    reveal_strlit("response.created");
    reveal_strlit("response.output_text.delta");
    reveal_strlit("response.reasoning_summary_text.delta");
    reveal_strlit("response.reasoning_text.delta");
    assert("response.created"@.len() == 16);
    assert("response.output_text.delta"@.len() == 26);
    assert("response.reasoning_summary_text.delta"@.len() == 37);
    assert("response.reasoning_text.delta"@.len() == 29);
}

/// The data of a frame is what its first line of data says, without white space around it; the lines
/// before that are passed over, and a frame without such a line has none.
pub proof fn frames_say_their_first_data(line: Seq<char>, rest: Seq<char>)
    requires
        !line.contains('\n'),
        line.len() > 0,
        line.last() != '\r',
    ensures
        "data:"@.is_prefix_of(line) ==> frame_data(line) == Some(trimmed(line.skip(5))) && frame_data(
            line + seq!['\n'] + rest,
        ) == Some(trimmed(line.skip(5))),
        !"data:"@.is_prefix_of(line) ==> frame_data(line) is None && frame_data(
            line + seq!['\n'] + rest,
        ) == frame_data(rest),
{
    reveal_strlit("data:");
    lines_end_at_breaks(line, rest);
    let pick = |l: Seq<char>| data_of_line(l);
    let one = seq![line];
    assert(one.skip(1) =~= Seq::empty());
    assert(first_picked(one.skip(1), pick) is None);
    let more = seq![line] + lines_of(rest);
    assert(more.skip(1) =~= lines_of(rest));
    assert(more[0] == line);
}

/// A frame that parses is told as its value is decoded; the one that ends the stream, and one that
/// does not parse or has no data, tell nothing.
pub proof fn frames_are_decoded(kind: RequestKind, frame: Seq<char>, data: Seq<char>)
    requires
        frame_data(frame) == Some(data),
    ensures
        data == "[DONE]"@ ==> frame_fragment(kind, frame) is None,
        parsed_json(data) is None ==> frame_fragment(kind, frame) is None,
        data != "[DONE]"@ ==> (parsed_json(data) matches Some(value) ==> frame_fragment(kind, frame)
            == decoded(kind, value, failure_words(value))),
{
}

} // verus!
