//! What a provider's refusal means to the caller, in the provider's own words.

use vstd::prelude::*;
use vstd::string::*;

use crate::error::{
    provider_access_denied, provider_chain_stale, provider_rate_limited, provider_rejected,
    provider_tool_unsupported, provider_unavailable, ApiError, ErrorView,
};
use crate::json::{parsed_json, Json, JsonView};
use crate::letters::{
    ascii_lowered, drop_controls, is_control, to_ascii_lowercase, without_controls,
};
use crate::search::{contains, holds};
use crate::text::{
    chars_of, clip, clipped, is_blank, slice, trim, trimmed, trimmed_is_empty_iff_blank,
};

verus! {

// ---------------------------------------------------------------- the provider's words

/// The part of an error body that explains it: what stands under `error.message`, else under
/// `error.err_msg`, else `error` itself where it is a string, else what stands under `message`.
pub open spec fn explanation(body: JsonView) -> Option<JsonView> {
    let error = body.at("error"@);
    if error.field("message"@) is Some {
        error.field("message"@)
    } else if error.field("err_msg"@) is Some {
        error.field("err_msg"@)
    } else if error is Str {
        Some(error)
    } else {
        body.field("message"@)
    }
}

/// The words in which an error body explains itself, where it does so in a string.
pub open spec fn explaining_text(body: JsonView) -> Option<Seq<char>> {
    match explanation(body) {
        Some(value) => value.text(),
        None => None,
    }
}

/// `s` with a comma at its end turned into a colon.
pub open spec fn closed_off(s: Seq<char>) -> Seq<char> {
    if s.len() > 0 && s.last() == ',' {
        s.drop_last().push(':')
    } else {
        s
    }
}

/// The provider's words in an error body: its explanation where the body parses and has one, else
/// the body itself; without control characters, trimmed, and at most 240 characters of it.
pub open spec fn provider_words(body: Seq<char>, parsed: Option<JsonView>) -> Seq<char> {
    let own = trimmed(body);
    if own.len() == 0 {
        Seq::empty()
    } else {
        let said = match parsed {
            Some(value) => match explaining_text(value) {
                Some(text) => text,
                None => own,
            },
            None => own,
        };
        closed_off(clipped(trimmed(without_controls(said)), 240))
    }
}

fn find_explanation(body: &Json) -> (r: Option<&Json>)
    ensures
        match r {
            Some(value) => explanation(body@) == Some(value@),
            None => explanation(body@) is None,
        },
{
    let error = body.at("error");
    match error.field("message") {
        Some(message) => Some(message),
        None => match error.field("err_msg") {
            Some(message) => Some(message),
            None => match error.as_str() {
                Some(_) => Some(error),
                None => body.field("message"),
            },
        },
    }
}

fn close_off(s: String) -> (r: String)
    ensures
        r@ == closed_off(s@),
{
    let chars = chars_of(s.as_str());
    let n = chars.len();
    if n > 0 && chars[n - 1] == ',' {
        let mut out = slice(&chars, 0, n - 1);
        out.push(':');
        assert(out@ =~= s@.drop_last().push(':'));
        out
    } else {
        s
    }
}

/// The view of an optional value that is borrowed.
pub open spec fn opt_ref(v: Option<&Json>) -> Option<JsonView> {
    match v {
        Some(v) => Some(v@),
        None => None,
    }
}

/// The provider's words in an error body, given what the body parsed as.
pub fn explain(body: &str, parsed: Option<&Json>) -> (r: String)
    ensures
        r@ == provider_words(body@, opt_ref(parsed)),
{
    let own = trim(body);
    if own.is_empty() {
        return String::new();
    }
    let said = match parsed {
        Some(value) => match find_explanation(value) {
            Some(explanation) => match explanation.as_str() {
                Some(text) => text,
                None => own,
            },
            None => own,
        },
        None => own,
    };
    let flattened = drop_controls(said);
    let detail = clip(trim(flattened.as_str()), 240);
    close_off(detail)
}

/// The provider's words in an error body.
pub open spec fn detail_in(body: Seq<char>) -> Seq<char> {
    provider_words(body, parsed_json(trimmed(body)))
}

/// The provider's own words, so a failure says what actually happened instead of "could not be
/// reached". OpenAI-compatible gateways all report under `error.message`.
pub fn upstream_detail(body: &str) -> (r: String)
    ensures
        r@ == detail_in(body@),
{
    let own = trim(body);
    let parsed = Json::parse(own);
    match &parsed {
        Some(value) => explain(body, Some(value)),
        None => explain(body, None),
    }
}

// ---------------------------------------------------------------- kinds of refusal

/// What providers say that do not take tools.
pub open spec fn tool_hints() -> Seq<Seq<char>> {
    seq![
        "tool_choice"@,
        "tool calling"@,
        "function calling"@,
        "function_call"@,
        "functions are not supported"@,
        "tools are not supported"@,
        "does not support tools"@,
        "does not support function"@,
    ]
}

/// Whether a refusal speaks of tools, in letters of either case.
pub open spec fn mentions_tools(body: Seq<char>) -> bool {
    exists|i: int|
        0 <= i < tool_hints().len() && holds(ascii_lowered(body), #[trigger] tool_hints()[i])
}

fn speaks_of_tools(body: &str) -> (r: bool)
    ensures
        r == mentions_tools(body@),
{
    let normalized = to_ascii_lowercase(body);
    let s = normalized.as_str();
    let ghost hints = tool_hints();
    let found = contains(s, "tool_choice") || contains(s, "tool calling") || contains(
        s,
        "function calling",
    ) || contains(s, "function_call") || contains(s, "functions are not supported") || contains(
        s,
        "tools are not supported",
    ) || contains(s, "does not support tools") || contains(s, "does not support function");
    proof {
        assert(hints[0] == "tool_choice"@);
        assert(hints[1] == "tool calling"@);
        assert(hints[2] == "function calling"@);
        assert(hints[3] == "function_call"@);
        assert(hints[4] == "functions are not supported"@);
        assert(hints[5] == "tools are not supported"@);
        assert(hints[6] == "does not support tools"@);
        assert(hints[7] == "does not support function"@);
        if mentions_tools(body@) {
            let i = choose|i: int|
                0 <= i < tool_hints().len() && holds(
                    ascii_lowered(body@),
                    #[trigger] tool_hints()[i],
                );
            assert(i == 0 || i == 1 || i == 2 || i == 3 || i == 4 || i == 5 || i == 6 || i == 7);
        }
    }
    found
}

/// Whether a status blames the request.
pub open spec fn is_client_error(status: u16) -> bool {
    400 <= status < 500
}

/// What a refusal means. Any other client error on a chained request is treated as a broken
/// chain, because providers word that differently and the caller can recover from it.
pub open spec fn refusal(
    status: u16,
    body: Seq<char>,
    tool_request: bool,
    chained: bool,
) -> ErrorView {
    if status == 401 || status == 403 {
        provider_access_denied()
    } else if status == 429 {
        provider_rate_limited()
    } else if tool_request && mentions_tools(body) {
        provider_tool_unsupported()
    } else if is_client_error(status) {
        if chained {
            provider_chain_stale()
        } else {
            provider_rejected()
        }
    } else {
        provider_unavailable()
    }
}

/// What a refusal means, before the provider's words are added.
pub fn provider_error_kind(status: u16, body: &str, tool_request: bool, chained: bool) -> (r:
    ApiError)
    ensures
        r@ == refusal(status, body@, tool_request, chained),
{
    if status == 401 || status == 403 {
        return ApiError::provider_access_denied();
    }
    if status == 429 {
        return ApiError::provider_rate_limited();
    }
    if tool_request && speaks_of_tools(body) {
        return ApiError::provider_tool_unsupported();
    }
    // A rejected `previous_response_id` is recoverable: the caller rebuilds the context from the
    // transcript and starts a new chain.
    if chained && 400 <= status && status < 500 {
        return ApiError::provider_chain_stale();
    }
    if 400 <= status && status < 500 {
        return ApiError::provider_rejected();
    }
    ApiError::provider_unavailable()
}

/// The error for a refusal, with the provider's words behind the message where there are any.
pub open spec fn refusal_with_detail(
    status: u16,
    detail: Seq<char>,
    tool_request: bool,
    chained: bool,
) -> ErrorView {
    let error = refusal(status, detail, tool_request, chained);
    if detail.len() == 0 {
        error
    } else {
        ErrorView {
            status: error.status,
            code: error.code,
            message: error.message + seq![' '] + detail,
        }
    }
}

/// The error for a refusal, given the provider's words.
pub fn provider_error_with_detail(
    status: u16,
    detail: &str,
    tool_request: bool,
    chained: bool,
) -> (r: ApiError)
    ensures
        r@ == refusal_with_detail(status, detail@, tool_request, chained),
{
    let error = provider_error_kind(status, detail, tool_request, chained);
    if detail.is_empty() {
        return error;
    }
    let mut message = error.message;
    message.push(' ');
    message.append(detail);
    assert(message@ =~= error@.message + seq![' '] + detail@);
    ApiError { status: error.status, code: error.code, message }
}

/// The error for a provider that answered with an error status.
pub fn provider_error_from_response(
    status: u16,
    body: &str,
    tool_request: bool,
    chained: bool,
) -> (r: ApiError)
    ensures
        r@ == refusal_with_detail(status, detail_in(body@), tool_request, chained),
{
    let detail = upstream_detail(body);
    provider_error_with_detail(status, detail.as_str(), tool_request, chained)
}

/// Accepts an answer with a success status. Of a refusal, the first 400 characters are read.
pub fn ensure_provider_success(
    status: u16,
    body: &str,
    tool_request: bool,
    chained: bool,
) -> (r: Result<(), ApiError>)
    ensures
        match r {
            Ok(_) => 200 <= status < 300,
            Err(error) => !(200 <= status < 300) && error@ == refusal_with_detail(
                status,
                detail_in(clipped(body@, 400)),
                tool_request,
                chained,
            ),
        },
{
    if 200 <= status && status < 300 {
        return Ok(());
    }
    let hint = clip(body, 400);
    Err(provider_error_from_response(status, hint.as_str(), tool_request, chained))
}

// ---------------------------------------------------------------- laws

/// The code of a refusal never depends on the provider's words unless tools were asked for.
pub proof fn words_decide_only_about_tools(
    status: u16,
    one: Seq<char>,
    other: Seq<char>,
    chained: bool,
)
    ensures
        refusal_with_detail(status, one, false, chained).code == refusal_with_detail(
            status,
            other,
            false,
            chained,
        ).code,
{
}

/// A request that named a stored chain is told that the chain is stale whenever the provider calls
/// it the client's fault, unless it is about access, the rate or tools. No other request is, so one
/// that is sent again without the chain is not sent a third time.
pub proof fn chained_requests_may_be_stale(
    status: u16,
    detail: Seq<char>,
    tool_request: bool,
    chained: bool,
)
    ensures
        refusal_with_detail(status, detail, tool_request, chained).code == "provider_chain_stale"@
            <==> {
            &&& chained
            &&& is_client_error(status)
            &&& status != 401 && status != 403 && status != 429
            &&& !(tool_request && mentions_tools(detail))
        },
{
    reveal_strlit("provider_chain_stale");
    reveal_strlit("provider_access_denied");
    reveal_strlit("provider_rate_limited");
    reveal_strlit("provider_tool_unsupported");
    reveal_strlit("provider_rejected_request");
    reveal_strlit("provider_unavailable");
    assert("provider_rate_limited"@.len() == 21);
    assert("provider_chain_stale"@.len() == 20);
    assert("provider_unavailable"@[9] != "provider_chain_stale"@[9]);
}

/// Whatever a provider says, its words are at most 240 characters.
pub proof fn provider_words_are_short(body: Seq<char>, parsed: Option<JsonView>)
    ensures
        provider_words(body, parsed).len() <= 240,
{
}

/// What a refusal means follows from its status: access, the rate, the request or the provider.
pub proof fn statuses_decide_what_a_refusal_means(
    status: u16,
    detail: Seq<char>,
    tool_request: bool,
    chained: bool,
)
    ensures
        ({
            let error = refusal_with_detail(status, detail, tool_request, chained);
            let tools = tool_request && mentions_tools(detail);
            &&& status == 401 || status == 403 ==> error.code == "provider_access_denied"@
                && error.status == 502
            &&& status == 429 ==> error.code == "provider_rate_limited"@ && error.status == 503
            &&& status != 401 && status != 403 && status != 429 && tools ==> error.code
                == "provider_tool_unsupported"@
            &&& 400 <= status < 500 && status != 401 && status != 403 && status != 429 && !tools
                ==> error.code == if chained {
                "provider_chain_stale"@
            } else {
                "provider_rejected_request"@
            }
            &&& !(400 <= status < 500) && !tools ==> error.code == "provider_unavailable"@
        }),
{
}

/// The provider's words stand at the end of the message, behind a space, and the message without
/// them in front.
pub proof fn refusals_quote_the_provider(
    status: u16,
    detail: Seq<char>,
    tool_request: bool,
    chained: bool,
)
    ensures
        ({
            let error = refusal_with_detail(status, detail, tool_request, chained);
            let plain = refusal(status, detail, tool_request, chained);
            &&& detail.is_suffix_of(error.message)
            &&& plain.message.is_prefix_of(error.message)
            &&& detail.len() > 0 ==> error.message.len() == plain.message.len() + 1 + detail.len()
                && error.message[plain.message.len() as int] == ' '
            &&& detail.len() == 0 ==> error.message == plain.message
            &&& error.status == plain.status && error.code == plain.code
        }),
{
    let error = refusal_with_detail(status, detail, tool_request, chained);
    let plain = refusal(status, detail, tool_request, chained);
    let all = error.message;
    assert(detail =~= all.subrange(all.len() - detail.len(), all.len() as int));
    assert(plain.message =~= all.subrange(0, plain.message.len() as int));
}

/// A provider that says in any of the usual ways, and in letters of either case, that it does not
/// take tools is understood.
pub proof fn talk_of_tools_is_understood(body: Seq<char>)
    ensures
        mentions_tools(body) <==> {
            let low = ascii_lowered(body);
            ||| holds(low, "tool_choice"@)
            ||| holds(low, "tool calling"@)
            ||| holds(low, "function calling"@)
            ||| holds(low, "function_call"@)
            ||| holds(low, "functions are not supported"@)
            ||| holds(low, "tools are not supported"@)
            ||| holds(low, "does not support tools"@)
            ||| holds(low, "does not support function"@)
        },
{
    let hints = tool_hints();
    assert(hints[0] == "tool_choice"@);
    assert(hints[1] == "tool calling"@);
    assert(hints[2] == "function calling"@);
    assert(hints[3] == "function_call"@);
    assert(hints[4] == "functions are not supported"@);
    assert(hints[5] == "tools are not supported"@);
    assert(hints[6] == "does not support tools"@);
    assert(hints[7] == "does not support function"@);
}

/// An error body is explained by the message of its error, else by that of a gateway, else by the
/// error itself, else by its own message: the first of these that it has.
pub proof fn explanations_are_looked_for_in_order(body: JsonView)
    ensures
        ({
            let error = body.at("error"@);
            let first = error.field("message"@);
            let second = error.field("err_msg"@);
            &&& first is Some ==> explanation(body) == first
            &&& first is None && second is Some ==> explanation(body) == second
            &&& error is Str ==> explanation(body) == Some(error)
            &&& first is None && second is None && !(error is Str) ==> explanation(body)
                == body.field("message"@)
        }),
{
}

/// Words that are short and clean are quoted as they are: the explanation of a body that has one,
/// else the body.
pub proof fn clean_words_are_quoted_unchanged(
    body: Seq<char>,
    parsed: Option<JsonView>,
    said: Seq<char>,
)
    requires
        !is_blank(body),
        parsed matches Some(value) && explaining_text(value) is Some ==> explaining_text(parsed->0)
            == Some(said),
        !(parsed matches Some(value) && explaining_text(value) is Some) ==> said == trimmed(body),
        trimmed(said) == said,
        said.len() <= 240,
        forall|i: int| 0 <= i < said.len() ==> !is_control(#[trigger] said[i]),
    ensures
        said.len() == 0 || said.last() != ',' ==> provider_words(body, parsed) == said,
        said.len() > 0 && said.last() == ',' ==> provider_words(body, parsed)
            == said.drop_last().push(':'),
        provider_words(Seq::empty(), parsed).len() == 0,
{
    trimmed_is_empty_iff_blank(body);
    trimmed_is_empty_iff_blank(Seq::<char>::empty());
    lemma_nothing_to_drop(said);
}

proof fn lemma_nothing_to_drop(s: Seq<char>)
    requires
        forall|i: int| 0 <= i < s.len() ==> !is_control(#[trigger] s[i]),
    ensures
        without_controls(s) == s,
    decreases s.len(),
{
    reveal(Seq::filter);
    if s.len() > 0 {
        let rest = s.drop_last();
        assert forall|i: int| 0 <= i < rest.len() implies !is_control(#[trigger] rest[i]) by {
            assert(!is_control(s[i]));
        }
        lemma_nothing_to_drop(rest);
        assert(!is_control(s[s.len() - 1]));
        assert(rest.push(s.last()) =~= s);
    } else {
        assert(without_controls(s) =~= s);
    }
}

} // verus!
