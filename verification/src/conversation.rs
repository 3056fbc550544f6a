//! Conversations and their messages: pages, the checks on what clients write, titles and the
//! token bookkeeping the context meter reads.

use vstd::prelude::*;
use vstd::string::*;
use vstd::utf8::encode_utf8;

use crate::content::{
    data_url, estimate_image_tokens, estimate_tokens, images_count, images_tokens, parse_data_url,
    text_tokens,
};
use crate::decimal::{parse_i64, parsed_i64, parsing_inverts_writing, signed, write_i64};
use crate::error::{bad, not_found, ApiError, ErrorView};
use crate::json::Json;
use crate::models::{settings_error, settings_view, validate_generation_settings, GenerationSettings};
use crate::search::starts_with;
use crate::text::{byte_len, clip, clipped, collapse, collapsed, opt_string, same, trim, trimmed};
use crate::timestamps::{
    is_moment, parse_timestamp, parsed_timestamp, rfc3339_text, write_timestamp, Timestamp,
};

verus! {

/// The page size where a client does not say.
pub const DEFAULT_PAGE_SIZE: i64 = 50;

/// The largest page.
pub const MAX_PAGE_SIZE: i64 = 100;

/// The context window of a conversation without a configured model.
pub const DEFAULT_CONTEXT_WINDOW: i32 = 128_000;

// ---------------------------------------------------------------- pages

/// A page of a list, and the cursor behind which the next page starts.
pub struct Page<T> {
    pub items: Vec<T>,
    pub next_cursor: Option<String>,
}

/// The page size for what a client asks: between 1 and 100.
pub open spec fn page_size(limit: Option<i64>) -> int {
    match limit {
        Some(n) => if n < 1 {
            1
        } else if n > MAX_PAGE_SIZE {
            MAX_PAGE_SIZE as int
        } else {
            n as int
        },
        None => DEFAULT_PAGE_SIZE as int,
    }
}

/// The page size for what a client asks.
pub fn page_limit(limit: Option<i64>) -> (r: usize)
    ensures
        r == page_size(limit),
        1 <= r <= 100,
{
    let asked: i64 = match limit {
        Some(n) => n,
        None => DEFAULT_PAGE_SIZE,
    };
    if asked < 1 {
        1
    } else if asked > MAX_PAGE_SIZE {
        100
    } else {
        asked as usize
    }
}

/// The rows of a list without their keys.
pub open spec fn without_keys<K, T>(rows: Seq<(K, T)>) -> Seq<T> {
    rows.map_values(|row: (K, T)| row.1)
}

/// The first `n` rows.
pub open spec fn first_rows<T>(rows: Seq<T>, n: int) -> Seq<T> {
    if rows.len() <= n {
        rows
    } else {
        rows.take(n)
    }
}

/// The moment that a conversation cursor names; a cursor that names none is ignored.
pub fn conversation_cursor(cursor: Option<&str>) -> (r: Option<Timestamp>)
    ensures
        r == match cursor {
            Some(text) => parsed_timestamp(text@),
            None => None,
        },
{
    match cursor {
        Some(text) => parse_timestamp(text),
        None => None,
    }
}

/// The key of the last row that is shown of `rows`, where there are more of them than fit a page.
pub open spec fn next_key<K, T>(rows: Seq<(K, T)>, limit: int) -> Option<K> {
    if limit < rows.len() {
        Some(rows[limit - 1].0)
    } else {
        None
    }
}

/// A page of conversations. The rows come newest first, each with the moment of its last change,
/// one more of them than fit the page where there are more. The cursor names the moment of the
/// last conversation on the page.
pub fn list_conversations<T>(rows: Vec<(Timestamp, T)>, limit: usize) -> (r: Page<T>)
    requires
        limit >= 1,
    ensures
        r.items@ == without_keys(first_rows(rows@, limit as int)),
        opt_string(r.next_cursor) == match next_key(rows@, limit as int) {
            Some(moment) => rfc3339_text(moment),
            None => None,
        },
        next_key(rows@, limit as int) matches Some(moment) ==> (r.next_cursor is Some <==> is_moment(
            moment,
        )),
        r.next_cursor matches Some(cursor) ==> next_key(rows@, limit as int) == parsed_timestamp(
            cursor@,
        ),
{
    let ghost given = rows@;
    let next_cursor = if limit < rows.len() {
        write_timestamp(rows[limit - 1].0)
    } else {
        None
    };
    let mut kept = rows;
    kept.truncate(limit);
    assert(kept@ =~= first_rows(given, limit as int));
    let backwards = pop_all(kept);
    let items = reverse_all(backwards);
    assert(items@ =~= without_keys(first_rows(given, limit as int)));
    Page { items, next_cursor }
}

fn pop_all<K, T>(rows: Vec<(K, T)>) -> (r: Vec<T>)
    ensures
        r@ == without_keys(rows@).reverse(),
{
    let ghost given = rows@;
    let mut rest = rows;
    let mut out: Vec<T> = Vec::new();
    assert(given.take(given.len() as int) =~= given);
    while rest.len() > 0
        invariant
            rest@.len() <= given.len(),
            rest@ == given.take(rest@.len() as int),
            out@ == without_keys(given.skip(rest@.len() as int)).reverse(),
        decreases rest@.len(),
    {
        let ghost n = rest@.len() as int;
        match rest.pop() {
            Some(row) => {
                proof {
                    assert(given.take(n).drop_last() =~= given.take(n - 1));
                    assert(row == given[n - 1]);
                }
                out.push(row.1);
                assert(out@ =~= without_keys(given.skip(n - 1)).reverse());
            },
            None => {},
        }
    }
    assert(given.skip(0) =~= given);
    out
}

fn reverse_all<T>(items: Vec<T>) -> (r: Vec<T>)
    ensures
        r@ == items@.reverse(),
{
    let ghost given = items@;
    let mut rest = items;
    let mut out: Vec<T> = Vec::new();
    assert(given.take(given.len() as int) =~= given);
    while rest.len() > 0
        invariant
            rest@.len() <= given.len(),
            rest@ == given.take(rest@.len() as int),
            out@ == given.skip(rest@.len() as int).reverse(),
        decreases rest@.len(),
    {
        let ghost n = rest@.len() as int;
        match rest.pop() {
            Some(item) => {
                assert(given.take(n).drop_last() =~= given.take(n - 1));
                out.push(item);
                assert(out@ =~= given.skip(n - 1).reverse());
            },
            None => {},
        }
    }
    assert(given.skip(0) =~= given);
    out
}

/// The sequence number that a message cursor names; a cursor that names none is ignored.
pub fn message_cursor(cursor: Option<&str>) -> (r: Option<i64>)
    ensures
        match cursor {
            Some(text) => match r {
                Some(n) => parsed_i64(text@) == Some(n as int),
                None => parsed_i64(text@) is None,
            },
            None => r is None,
        },
{
    match cursor {
        Some(text) => parse_i64(text),
        None => None,
    }
}

/// The cursor behind a page of messages: the sequence number of the oldest message on it.
pub open spec fn message_cursor_text<T>(rows: Seq<(i64, T)>, limit: int) -> Option<Seq<char>> {
    match next_key(rows, limit) {
        Some(sequence) => Some(signed(sequence as int)),
        None => None,
    }
}

/// A page of messages, oldest first. The rows come newest first, each with its sequence number,
/// one more of them than fit the page where there are more. The cursor names the sequence number
/// of the oldest message on the page.
pub fn list_messages<T>(rows: Vec<(i64, T)>, limit: usize) -> (r: Page<T>)
    requires
        limit >= 1,
    ensures
        r.items@ == without_keys(first_rows(rows@, limit as int)).reverse(),
        opt_string(r.next_cursor) == message_cursor_text(rows@, limit as int),
{
    let ghost given = rows@;
    let next_cursor = if limit < rows.len() {
        Some(write_i64(rows[limit - 1].0))
    } else {
        None
    };
    let mut kept = rows;
    kept.truncate(limit);
    assert(kept@ =~= first_rows(given, limit as int));
    let items = pop_all(kept);
    Page { items, next_cursor }
}

// ---------------------------------------------------------------- walking through pages

/// Whether a moment is not before another.
pub open spec fn not_before(a: Timestamp, b: Timestamp) -> bool {
    a.seconds > b.seconds || (a.seconds == b.seconds && a.nanos >= b.nanos)
}

/// The messages behind a cursor, newest first: those with lower sequence numbers, and all of them
/// where there is no cursor or it names no number.
pub open spec fn messages_behind<T>(all: Seq<(i64, T)>, cursor: Option<Seq<char>>) -> Seq<(i64, T)> {
    match cursor {
        Some(text) => match parsed_i64(text) {
            Some(sequence) => all.filter(|row: (i64, T)| row.0 < sequence),
            None => all,
        },
        None => all,
    }
}

/// What a client has of a history that fetches up to `fetches` pages from a cursor on, each with
/// the cursor of the page before, and puts each page in front of what it has.
pub open spec fn history<T>(
    all: Seq<(i64, T)>,
    cursor: Option<Seq<char>>,
    limit: int,
    fetches: nat,
) -> Seq<T>
    decreases fetches,
{
    if fetches == 0 {
        Seq::empty()
    } else {
        let rows = first_rows(messages_behind(all, cursor), limit + 1);
        let items = without_keys(first_rows(rows, limit)).reverse();
        match message_cursor_text(rows, limit) {
            Some(next) => history(all, Some(next), limit, (fetches - 1) as nat) + items,
            None => items,
        }
    }
}

/// The conversations behind a cursor, newest first: those last changed before the moment that it
/// names, and all of them where there is none.
pub open spec fn conversations_behind<T>(
    all: Seq<(Timestamp, T)>,
    cursor: Option<Timestamp>,
) -> Seq<(Timestamp, T)> {
    match cursor {
        Some(moment) => all.filter(|row: (Timestamp, T)| !not_before(row.0, moment)),
        None => all,
    }
}

/// What a client has of a list that fetches up to `fetches` pages from a cursor on, each with the
/// moment that the cursor of the page before names.
pub open spec fn listing<T>(
    all: Seq<(Timestamp, T)>,
    cursor: Option<Timestamp>,
    limit: int,
    fetches: nat,
) -> Seq<T>
    decreases fetches,
{
    if fetches == 0 {
        Seq::empty()
    } else {
        let rows = first_rows(conversations_behind(all, cursor), limit + 1);
        let items = without_keys(first_rows(rows, limit));
        match next_key(rows, limit) {
            Some(next) => items + listing(all, Some(next), limit, (fetches - 1) as nat),
            None => items,
        }
    }
}

/// Keeping the rows from a place on.
proof fn lemma_rows_behind<R>(all: Seq<R>, shows: spec_fn(R) -> bool, at: int)
    requires
        0 <= at <= all.len(),
        forall|i: int| 0 <= i < at ==> !shows(#[trigger] all[i]),
        forall|i: int| at <= i < all.len() ==> shows(#[trigger] all[i]),
    ensures
        all.filter(shows) == all.skip(at),
    decreases all.len(),
{
    reveal_with_fuel(Seq::filter, 1);
    if all.len() == 0 {
        assert(all.skip(at) =~= Seq::empty());
    } else {
        let rest = all.drop_last();
        assert forall|i: int| 0 <= i < rest.len() implies #[trigger] rest[i] == all[i] by {}
        if at == all.len() {
            lemma_rows_behind(rest, shows, at - 1);
            assert(rest.skip(at - 1) =~= all.skip(at));
            assert(!shows(all[all.len() - 1]));
        } else {
            lemma_rows_behind(rest, shows, at);
            assert(rest.skip(at).push(all.last()) =~= all.skip(at));
            assert(shows(all[all.len() - 1]));
        }
    }
}

/// The cursor of a page of messages reads back as a sequence number, and of all messages exactly
/// those lie below it that the pages so far have not shown: the next page shows none of them again
/// and leaves none out.
pub proof fn pages_leave_nothing_out<T>(all: Seq<(i64, T)>, shown: int, i: int)
    requires
        forall|a: int, b: int| 0 <= a < b < all.len() ==> (#[trigger] all[a]).0 > (
        #[trigger] all[b]).0,
        0 < shown <= all.len(),
        0 <= i < all.len(),
    ensures
        parsed_i64(signed(all[shown - 1].0 as int)) == Some(all[shown - 1].0 as int),
        all[i].0 < all[shown - 1].0 <==> shown <= i,
{
    parsing_inverts_writing(all[shown - 1].0 as int);
    if i < shown - 1 {
        assert(all[i].0 > all[shown - 1].0);
    }
}

/// Where conversations were last changed at different moments, exactly those were changed before
/// the moment of a page's cursor that the pages so far have not shown.
pub proof fn conversation_pages_leave_nothing_out<T>(all: Seq<(Timestamp, T)>, shown: int, i: int)
    requires
        forall|a: int, b: int|
            0 <= a < b < all.len() ==> !not_before((#[trigger] all[b]).0, (#[trigger] all[a]).0),
        0 < shown <= all.len(),
        0 <= i < all.len(),
    ensures
        !not_before(all[i].0, all[shown - 1].0) <==> shown <= i,
{
    if i < shown - 1 {
        assert(!not_before(all[shown - 1].0, all[i].0));
    }
}

/// Every conversation on a page was last changed at the moment of its cursor or later, also where
/// several were changed at one moment: the next page shows none of them again.
pub proof fn conversation_pages_do_not_overlap<T>(rows: Seq<(Timestamp, T)>, limit: int, i: int)
    requires
        forall|a: int, b: int|
            0 <= a < b < rows.len() ==> not_before((#[trigger] rows[a]).0, (#[trigger] rows[b]).0),
        1 <= limit < rows.len(),
        0 <= i < first_rows(rows, limit).len(),
    ensures
        next_key(rows, limit) matches Some(moment) && not_before(
            first_rows(rows, limit)[i].0,
            moment,
        ),
{
    assert(first_rows(rows, limit)[i] == rows[i]);
}

proof fn lemma_history<T>(
    all: Seq<(i64, T)>,
    cursor: Option<Seq<char>>,
    limit: int,
    fetches: nat,
    shown: int,
)
    requires
        forall|a: int, b: int| 0 <= a < b < all.len() ==> (#[trigger] all[a]).0 > (
        #[trigger] all[b]).0,
        limit >= 1,
        0 <= shown <= all.len(),
        messages_behind(all, cursor) == all.skip(shown),
        fetches >= all.len() - shown,
    ensures
        history(all, cursor, limit, fetches) == without_keys(all.skip(shown)).reverse(),
    decreases fetches,
{
    let rest = all.skip(shown);
    if fetches == 0 {
        assert(without_keys(rest).reverse() =~= Seq::empty());
    } else {
        let rows = first_rows(rest, limit + 1);
        if rest.len() <= limit {
            assert(first_rows(rows, limit) =~= rest);
        } else {
            let last = shown + limit;
            let sequence = all[last - 1].0 as int;
            let next = signed(sequence);
            assert(rows[limit - 1] == all[last - 1]);
            assert(message_cursor_text(rows, limit) == Some(next));
            parsing_inverts_writing(sequence);
            let below = |row: (i64, T)| row.0 < sequence;
            assert forall|i: int| 0 <= i < all.len() implies below(#[trigger] all[i]) == (last <= i) by {
                pages_leave_nothing_out(all, last, i);
            }
            lemma_rows_behind(all, below, last);
            lemma_history(all, Some(next), limit, (fetches - 1) as nat, last);
            assert(first_rows(rows, limit) =~= rest.take(limit));
            assert(without_keys(all.skip(last)).reverse() + without_keys(rest.take(limit)).reverse()
                =~= without_keys(rest).reverse());
        }
    }
}

/// A client that fetches pages until there is no further cursor has the whole history, oldest
/// first: every message is on exactly one page.
pub proof fn message_pages_make_up_the_history<T>(all: Seq<(i64, T)>, limit: int, fetches: nat)
    requires
        forall|a: int, b: int| 0 <= a < b < all.len() ==> (#[trigger] all[a]).0 > (
        #[trigger] all[b]).0,
        limit >= 1,
        fetches >= all.len(),
    ensures
        history(all, None, limit, fetches) == without_keys(all).reverse(),
{
    assert(all.skip(0) =~= all);
    lemma_history(all, None, limit, fetches, 0);
}

proof fn lemma_listing<T>(
    all: Seq<(Timestamp, T)>,
    cursor: Option<Timestamp>,
    limit: int,
    fetches: nat,
    shown: int,
)
    requires
        forall|a: int, b: int|
            0 <= a < b < all.len() ==> !not_before((#[trigger] all[b]).0, (#[trigger] all[a]).0),
        limit >= 1,
        0 <= shown <= all.len(),
        conversations_behind(all, cursor) == all.skip(shown),
        fetches >= all.len() - shown,
    ensures
        listing(all, cursor, limit, fetches) == without_keys(all.skip(shown)),
    decreases fetches,
{
    let rest = all.skip(shown);
    if fetches == 0 {
        assert(without_keys(rest) =~= Seq::empty());
    } else {
        let rows = first_rows(rest, limit + 1);
        if rest.len() <= limit {
            assert(first_rows(rows, limit) =~= rest);
        } else {
            let last = shown + limit;
            let moment = all[last - 1].0;
            assert(rows[limit - 1] == all[last - 1]);
            assert(next_key(rows, limit) == Some(moment));
            let below = |row: (Timestamp, T)| !not_before(row.0, moment);
            assert forall|i: int| 0 <= i < all.len() implies below(#[trigger] all[i]) == (last <= i) by {
                conversation_pages_leave_nothing_out(all, last, i);
            }
            lemma_rows_behind(all, below, last);
            lemma_listing(all, Some(moment), limit, (fetches - 1) as nat, last);
            assert(first_rows(rows, limit) =~= rest.take(limit));
            assert(without_keys(rest.take(limit)) + without_keys(all.skip(last)) =~= without_keys(
                rest,
            ));
        }
    }
}

/// A client that fetches pages until there is no further cursor has every conversation exactly
/// once, the one that was changed last first, where no two were changed at one moment.
pub proof fn conversation_pages_make_up_the_list<T>(
    all: Seq<(Timestamp, T)>,
    limit: int,
    fetches: nat,
)
    requires
        forall|a: int, b: int|
            0 <= a < b < all.len() ==> !not_before((#[trigger] all[b]).0, (#[trigger] all[a]).0),
        limit >= 1,
        fetches >= all.len(),
    ensures
        listing(all, None, limit, fetches) == without_keys(all),
{
    assert(all.skip(0) =~= all);
    lemma_listing(all, None, limit, fetches, 0);
}

/// No page holds more than a hundred items, whatever is asked for.
pub proof fn pages_are_bounded<T>(rows: Seq<T>, limit: Option<i64>)
    ensures
        first_rows(rows, page_size(limit)).len() <= 100,
        1 <= page_size(limit) <= 100,
{
}

// ---------------------------------------------------------------- new conversations

/// The title of a new conversation.
pub fn conversation_title(title: Option<&str>) -> (r: String)
    ensures
        r@ == match title {
            Some(text) => trimmed(text@),
            None => trimmed("New chat"@),
        },
{
    match title {
        Some(text) => trim(text).to_owned(),
        None => trim("New chat").to_owned(),
    }
}

/// What is known of the provider that a client selected.
pub struct SelectedProvider {
    /// Whether it belongs to the account.
    pub owned: bool,
    /// Its first configured model.
    pub first_model: Option<String>,
}

/// The error for a provider of someone else.
pub open spec fn foreign_provider() -> ErrorView {
    bad("Selected provider does not belong to this account."@)
}

/// The error for a model that is not configured.
pub open spec fn unconfigured_model() -> ErrorView {
    bad("Choose a configured model for this provider."@)
}

/// The model of a new conversation: the one asked for, else the provider's first. Without a
/// provider none is needed.
pub open spec fn new_model(provider: Option<SelectedProvider>, model: Option<Seq<char>>) -> Result<
    Option<Seq<char>>,
    ErrorView,
> {
    match provider {
        Some(provider) => if !provider.owned {
            Err(foreign_provider())
        } else {
            match model {
                Some(model) => Ok(Some(model)),
                None => match provider.first_model {
                    Some(first) => Ok(Some(first@)),
                    None => Err(
                        bad(
                            "Add a configured model to this provider before creating a chat."@,
                        ),
                    ),
                },
            }
        },
        None => Ok(model),
    }
}

/// The model of a new conversation. With a provider, `configured_window` decides next.
pub fn create_conversation(provider: Option<SelectedProvider>, model: Option<String>) -> (r: Result<
    Option<String>,
    ApiError,
>)
    ensures
        match r {
            Ok(chosen) => new_model(provider, opt_string(model)) == Ok::<_, ErrorView>(
                opt_string(chosen),
            ),
            Err(error) => new_model(provider, opt_string(model)) == Err::<
                Option<Seq<char>>,
                ErrorView,
            >(error@),
        },
{
    match provider {
        Some(provider) => {
            if !provider.owned {
                return Err(ApiError::bad("Selected provider does not belong to this account."));
            }
            match model {
                Some(model) => Ok(Some(model)),
                None => match provider.first_model {
                    Some(first) => Ok(Some(first)),
                    None => Err(
                        ApiError::bad(
                            "Add a configured model to this provider before creating a chat.",
                        ),
                    ),
                },
            }
        },
        None => Ok(model),
    }
}

/// The context window of a model at a provider, where it is configured there.
pub fn configured_window(window: Option<i32>) -> (r: Result<i32, ApiError>)
    ensures
        match r {
            Ok(n) => window == Some(n),
            Err(error) => window is None && error@ == unconfigured_model(),
        },
{
    match window {
        Some(n) => Ok(n),
        None => Err(ApiError::bad("Choose a configured model for this provider.")),
    }
}

// ---------------------------------------------------------------- changes to conversations

/// What a client changes about a conversation.
pub struct UpdateConversation {
    pub title: Option<String>,
    pub provider_id: Option<u128>,
    pub model: Option<String>,
    pub generation_settings: Option<GenerationSettings>,
}

/// What a conversation says of its model now.
pub struct CurrentModel {
    pub provider_id: Option<u128>,
    pub model: Option<String>,
}

/// A change that has been checked, and the model that still has to be looked up for it.
pub struct ConversationChange {
    pub title: Option<String>,
    pub model: Option<String>,
    pub generation_settings: Option<Json>,
    /// The provider and the model in force after the change, where there are both. The provider
    /// must belong to the account, and the model must be configured there.
    pub selection: Option<(u128, String)>,
    /// Whether the context window follows the selected model.
    pub takes_window: bool,
}

/// The trimmed form of an optional string.
pub open spec fn opt_trimmed(s: Option<String>) -> Option<Seq<char>> {
    match s {
        Some(s) => Some(trimmed(s@)),
        None => None,
    }
}

/// What is wrong with a change, where something is.
pub open spec fn change_error(request: UpdateConversation) -> Option<ErrorView> {
    if request.generation_settings matches Some(settings) && settings_error(settings) is Some {
        settings_error(request.generation_settings->0)
    } else if opt_trimmed(request.model) == Some(Seq::<char>::empty()) {
        Some(bad("Model name cannot be empty."@))
    } else {
        None
    }
}

/// The provider and the model in force after a change.
pub open spec fn selection_after(
    provider: Option<u128>,
    model: Option<Seq<char>>,
    current: CurrentModel,
) -> Option<(u128, Seq<char>)> {
    let provider = match provider {
        Some(id) => Some(id),
        None => current.provider_id,
    };
    let model = match model {
        Some(name) => Some(name),
        None => opt_string(current.model),
    };
    match (provider, model) {
        (Some(id), Some(name)) => Some((id, name)),
        _ => None,
    }
}

/// Checks a change to a conversation.
pub fn update_conversation(request: UpdateConversation, current: &CurrentModel) -> (r: Result<
    ConversationChange,
    ApiError,
>)
    ensures
        match r {
            Ok(change) => {
                &&& change_error(request) is None
                &&& opt_string(change.title) == opt_trimmed(request.title)
                &&& opt_string(change.model) == opt_trimmed(request.model)
                &&& match (change.generation_settings, request.generation_settings) {
                    (Some(stored), Some(settings)) => stored@ == settings_view(settings),
                    (None, None) => true,
                    _ => false,
                }
                &&& match change.selection {
                    Some((id, name)) => selection_after(
                        request.provider_id,
                        opt_trimmed(request.model),
                        *current,
                    ) == Some((id, name@)),
                    None => selection_after(
                        request.provider_id,
                        opt_trimmed(request.model),
                        *current,
                    ) is None,
                }
                &&& change.takes_window == (change.selection is Some && (request.provider_id is Some
                    || request.model is Some))
            },
            Err(error) => change_error(request) == Some(error@),
        },
{
    let settings = match request.generation_settings {
        Some(settings) => match validate_generation_settings(settings) {
            Ok(stored) => Some(stored),
            Err(error) => return Err(error),
        },
        None => None,
    };
    let chooses = request.provider_id.is_some() || request.model.is_some();
    let model = match &request.model {
        Some(name) => Some(trim(name.as_str()).to_owned()),
        None => None,
    };
    if let Some(name) = &model {
        if name.as_str().is_empty() {
            assert(name@ =~= Seq::empty());
            return Err(ApiError::bad("Model name cannot be empty."));
        }
    }
    let provider = match request.provider_id {
        Some(id) => Some(id),
        None => current.provider_id,
    };
    let selected = match &model {
        Some(name) => Some(name.clone()),
        None => match &current.model {
            Some(name) => Some(name.clone()),
            None => None,
        },
    };
    let selection = match (provider, selected) {
        (Some(id), Some(name)) => Some((id, name)),
        _ => None,
    };
    let takes_window = selection.is_some() && chooses;
    let title = match &request.title {
        Some(text) => Some(trim(text.as_str()).to_owned()),
        None => None,
    };
    Ok(
        ConversationChange {
            title,
            model,
            generation_settings: settings,
            selection,
            takes_window,
        },
    )
}

/// Checks the provider and the model of a change: whether the provider belongs to the account, and
/// the window of the model there.
pub fn check_selection(owned: bool, window: Option<i32>) -> (r: Result<i32, ApiError>)
    ensures
        match r {
            Ok(n) => owned && window == Some(n),
            Err(error) => if !owned {
                error@ == foreign_provider()
            } else {
                window is None && error@ == unconfigured_model()
            },
        },
{
    if !owned {
        return Err(ApiError::bad("Selected provider does not belong to this account."));
    }
    configured_window(window)
}

/// Whether something was there to change or to delete.
pub fn affected(rows: u64) -> (r: Result<(), ApiError>)
    ensures
        match r {
            Ok(_) => rows > 0,
            Err(error) => rows == 0 && error@ == not_found(),
        },
{
    if rows == 0 {
        Err(ApiError::not_found())
    } else {
        Ok(())
    }
}

// ---------------------------------------------------------------- messages

/// A message that may carry at most this many images.
pub const MAX_IMAGES: usize = 8;

/// What is wrong with an image, where something is.
pub open spec fn image_error(image: Seq<char>) -> Option<ErrorView> {
    if !"data:image/"@.is_prefix_of(image) || encode_utf8(image).len() > 7_000_000 {
        Some(bad("Each image must be a data URL of at most 5 MB."@))
    } else if data_url(image) is None {
        Some(bad("Each image must be a valid base64 image data URL."@))
    } else {
        None
    }
}

/// What is wrong with the first image that something is wrong with.
pub open spec fn images_error(images: Seq<String>) -> Option<ErrorView>
    decreases images.len(),
{
    if images.len() == 0 {
        None
    } else if image_error(images[0]@) is Some {
        image_error(images[0]@)
    } else {
        images_error(images.skip(1))
    }
}

/// What is wrong with a message, where something is; `content` is already trimmed.
pub open spec fn message_error(content: Seq<char>, images: Seq<String>) -> Option<ErrorView> {
    if images.len() > MAX_IMAGES {
        Some(bad("A message may contain at most 8 images."@))
    } else if images_error(images) is Some {
        images_error(images)
    } else if content.len() == 0 && images.len() == 0 {
        Some(bad("Message must contain text or at least one image."@))
    } else if encode_utf8(content).len() > 200_000 {
        Some(bad("Message text must be at most 200,000 characters."@))
    } else {
        None
    }
}

/// A message that has been checked.
pub struct CheckedMessage {
    pub content: String,
    pub images: Vec<String>,
    pub tokens: i32,
}

fn check_image(image: &str) -> (r: Result<(), ApiError>)
    ensures
        match r {
            Ok(_) => image_error(image@) is None,
            Err(error) => image_error(image@) == Some(error@),
        },
{
    if !starts_with(image, "data:image/") || byte_len(image) > 7_000_000 {
        return Err(ApiError::bad("Each image must be a data URL of at most 5 MB."));
    }
    match parse_data_url(image) {
        Some(_) => Ok(()),
        None => Err(ApiError::bad("Each image must be a valid base64 image data URL.")),
    }
}

fn check_images(images: &Vec<String>) -> (r: Result<(), ApiError>)
    ensures
        match r {
            Ok(_) => images_error(images@) is None,
            Err(error) => images_error(images@) == Some(error@),
        },
{
    assert(images@.skip(0) =~= images@);
    for i in 0..images.len()
        invariant
            images_error(images@) == images_error(images@.skip(i as int)),
    {
        assert(images@.skip(i as int).skip(1) =~= images@.skip(i + 1));
        assert(images@.skip(i as int)[0] == images@[i as int]);
        if let Err(error) = check_image(images[i].as_str()) {
            return Err(error);
        }
    }
    Ok(())
}

/// A text has at least as many bytes as characters.
proof fn lemma_bytes_at_least_chars(s: Seq<char>)
    ensures
        s.len() <= encode_utf8(s).len(),
    decreases s.len(),
{
    if s.len() > 0 {
        lemma_bytes_at_least_chars(s.drop_first());
    }
}

/// Checks a message and counts its tokens.
pub fn create_message(content: &str, images: Vec<String>) -> (r: Result<CheckedMessage, ApiError>)
    ensures
        match r {
            Ok(message) => {
                &&& message_error(trimmed(content@), images@) is None
                &&& message.content@ == trimmed(content@)
                &&& message.images == images
                &&& message.tokens == text_tokens(trimmed(content@).len()) + images_tokens(images@)
            },
            Err(error) => message_error(trimmed(content@), images@) == Some(error@),
        },
{
    let text = trim(content);
    if images.len() > MAX_IMAGES {
        return Err(ApiError::bad("A message may contain at most 8 images."));
    }
    if let Err(error) = check_images(&images) {
        return Err(error);
    }
    if text.is_empty() && images.len() == 0 {
        return Err(ApiError::bad("Message must contain text or at least one image."));
    }
    if byte_len(text) > 200_000 {
        return Err(ApiError::bad("Message text must be at most 200,000 characters."));
    }
    proof {
        images_count(images@);
        lemma_bytes_at_least_chars(text@);
    }
    let tokens = estimate_tokens(text) + estimate_image_tokens(&images);
    Ok(CheckedMessage { content: text.to_owned(), images, tokens })
}

/// What becomes of a checked message.
pub enum Placement<T> {
    /// It was sent before under the same mutation id: the stored message is the answer.
    Stored(T),
    /// It is to be stored.
    New(CheckedMessage),
}

/// What becomes of a checked message, given what is stored under its mutation id.
pub open spec fn placement<T>(message: CheckedMessage, existing: Option<T>) -> Placement<T> {
    match existing {
        Some(stored) => Placement::Stored(stored),
        None => Placement::New(message),
    }
}

/// What becomes of a checked message, given what is stored under its mutation id.
pub fn place_message<T>(message: CheckedMessage, existing: Option<T>) -> (r: Placement<T>)
    ensures
        r == placement(message, existing),
{
    match existing {
        Some(stored) => Placement::Stored(stored),
        None => Placement::New(message),
    }
}

/// The title that the first message gives a conversation that was not named: its first forty
/// characters, with white space collapsed. A message without text is an image.
pub open spec fn title_from(is_first: bool, title: Seq<char>, content: Seq<char>) -> Option<
    Seq<char>,
> {
    if is_first && title == "New chat"@ {
        let source = if content.len() == 0 {
            "[Image]"@
        } else {
            content
        };
        let short = clipped(collapsed(source), 40);
        if short.len() > 0 {
            Some(short)
        } else {
            None
        }
    } else {
        None
    }
}

/// The title that a message gives its conversation, where it gives one.
pub fn derive_title(is_first_user_message: bool, title: &str, content: &str) -> (r: Option<String>)
    ensures
        opt_string(r) == title_from(is_first_user_message, title@, content@),
{
    if is_first_user_message && same(title, "New chat") {
        let source = if content.is_empty() {
            "[Image]"
        } else {
            content
        };
        let flat = collapse(source);
        let short = clip(flat.as_str(), 40);
        if !short.as_str().is_empty() {
            return Some(short);
        }
    }
    None
}

/// Checks the new text of a message and counts its tokens.
pub fn update_message(content: &str) -> (r: Result<(String, i32), ApiError>)
    ensures
        match r {
            Ok((text, tokens)) => {
                &&& trimmed(content@).len() > 0
                &&& text@ == trimmed(content@)
                &&& tokens == text_tokens(text@.len())
            },
            Err(error) => trimmed(content@).len() == 0 && error@ == bad("Message cannot be empty."@),
        },
{
    let text = trim(content);
    if text.is_empty() {
        return Err(ApiError::bad("Message cannot be empty."));
    }
    let tokens = estimate_tokens(text);
    Ok((text.to_owned(), tokens))
}

/// What is stored of a conversation: its messages by mutation id, the sequence number of the next
/// one, what they count to, how often the conversation was written, and its title.
pub struct ConversationLog<T> {
    pub messages: Map<u128, T>,
    pub next_sequence: int,
    pub context_tokens: int,
    pub revision: int,
    pub title: Seq<char>,
}

impl<T> ConversationLog<T> {
    /// What is stored under a mutation id.
    pub open spec fn found(self, mutation: u128) -> Option<T> {
        if self.messages.contains_key(mutation) {
            Some(self.messages[mutation])
        } else {
            None
        }
    }

    /// The log once a message has been placed: a new one is stored as `stored` and counted, and may
    /// give the conversation its title.
    pub open spec fn placed(
        self,
        mutation: u128,
        placement: Placement<T>,
        stored: T,
        is_first: bool,
    ) -> ConversationLog<T> {
        match placement {
            Placement::Stored(_) => self,
            Placement::New(message) => {
                let title = title_from(is_first, self.title, message.content@);
                ConversationLog {
                    messages: self.messages.insert(mutation, stored),
                    next_sequence: self.next_sequence + 1,
                    context_tokens: self.context_tokens + message.tokens,
                    revision: self.revision + if title is Some {
                        2int
                    } else {
                        1int
                    },
                    title: match title {
                        Some(title) => title,
                        None => self.title,
                    },
                }
            },
        }
    }
}

/// A message that is sent again under its mutation id is answered with the message that was stored
/// the first time, and nothing of the conversation changes.
pub proof fn repeated_messages_change_nothing<T>(
    log: ConversationLog<T>,
    mutation: u128,
    message: CheckedMessage,
    stored: T,
    is_first: bool,
    again: CheckedMessage,
    stored_again: T,
    is_first_again: bool,
)
    ensures
        ({
            let once = log.placed(mutation, placement(message, log.found(mutation)), stored, is_first);
            let answer = placement(again, once.found(mutation));
            &&& answer == Placement::Stored(
                match log.found(mutation) {
                    Some(earlier) => earlier,
                    None => stored,
                },
            )
            &&& once.placed(mutation, answer, stored_again, is_first_again) == once
        }),
{
}

/// Titles that are derived from a message are short, and a name that was given is never replaced.
pub proof fn derived_titles_are_short(is_first: bool, title: Seq<char>, content: Seq<char>)
    ensures
        title_from(is_first, title, content) matches Some(short) ==> 0 < short.len() <= 40 && title
            == "New chat"@,
{
}

// ---------------------------------------------------------------- laws

/// A page is as long as was asked for, within 1 and 100; where nothing was asked for it is 50.
pub proof fn pages_are_as_long_as_asked(limit: i64)
    ensures
        1 <= limit <= 100 ==> page_size(Some(limit)) == limit,
        limit < 1 ==> page_size(Some(limit)) == 1,
        limit > 100 ==> page_size(Some(limit)) == 100,
        page_size(None) == 50,
{
}

/// A page shows the first rows and no other; there is another page exactly where there are more rows,
/// and it goes on behind the last row that is shown.
pub proof fn pages_go_on_behind_their_last_row<K, T>(rows: Seq<(K, T)>, limit: int)
    requires
        limit >= 1,
    ensures
        first_rows(rows, limit).is_prefix_of(rows),
        rows.len() <= limit ==> first_rows(rows, limit) == rows,
        rows.len() > limit ==> first_rows(rows, limit).len() == limit,
        next_key(rows, limit) is Some <==> rows.len() > limit,
        next_key(rows, limit) matches Some(key) ==> key == first_rows(rows, limit).last().0,
{
    let shown = first_rows(rows, limit);
    assert(shown =~= rows.subrange(0, shown.len() as int));
}

/// A new chat takes the model that was asked for, else the first of its provider; a provider of
/// someone else is refused, and so is one without a model where none was asked for.
pub proof fn new_chats_take_the_model_asked_for(provider: SelectedProvider, model: Seq<char>)
    ensures
        provider.owned ==> new_model(Some(provider), Some(model)) == Ok::<_, ErrorView>(Some(model)),
        provider.owned && provider.first_model is Some ==> new_model(Some(provider), None) == Ok::<
            _,
            ErrorView,
        >(Some(provider.first_model->0@)),
        provider.owned && provider.first_model is None ==> new_model(Some(provider), None) is Err,
        !provider.owned ==> new_model(Some(provider), Some(model)) == Err::<Option<Seq<char>>, _>(
            bad("Selected provider does not belong to this account."@),
        ) && new_model(Some(provider), None) is Err,
        new_model(None, Some(model)) == Ok::<_, ErrorView>(Some(model)),
        new_model(None, None) == Ok::<Option<Seq<char>>, ErrorView>(None),
{
}

/// After a change a chat is answered by what the change gives, and by what was in force for the rest.
pub proof fn changes_keep_the_other_half(
    provider: Option<u128>,
    model: Option<Seq<char>>,
    current: CurrentModel,
)
    ensures
        ({
            let after = selection_after(provider, model, current);
            &&& after matches Some((id, name)) ==> {
                &&& provider is Some ==> provider == Some(id)
                &&& provider is None ==> current.provider_id == Some(id)
                &&& model is Some ==> model == Some(name)
                &&& model is None ==> opt_string(current.model) == Some(name)
            }
            &&& after is None <==> (provider is None && current.provider_id is None) || (
            model is None && current.model is None)
        }),
{
}

/// A change is refused for its settings first, and then for a model without a name.
pub proof fn changes_are_refused_for_their_settings(request: UpdateConversation)
    ensures
        ({
            let unset = request.generation_settings matches Some(settings) ==> settings_error(
                settings,
            ) is None;
            let named = request.model matches Some(model) ==> trimmed(model@).len() > 0;
            &&& change_error(request) is None <==> unset && named
            &&& !unset ==> change_error(request) == settings_error(request.generation_settings->0)
            &&& unset && !named ==> change_error(request) == Some(
                bad("Model name cannot be empty."@),
            )
        }),
{
    if let Some(model) = request.model {
        if trimmed(model@).len() == 0 {
            assert(trimmed(model@) =~= Seq::empty());
        }
    }
}

/// Images are accepted exactly where each of them is, and otherwise the first that is not is told of.
pub proof fn images_are_refused_for_the_first_that_is(images: Seq<String>, i: int)
    requires
        0 <= i < images.len(),
    ensures
        images_error(images) is None ==> image_error(images[i]@) is None,
        image_error(images[i]@) is Some && (forall|j: int|
            0 <= j < i ==> image_error((#[trigger] images[j])@) is None) ==> images_error(images)
            == image_error(images[i]@),
        (forall|j: int| 0 <= j < images.len() ==> image_error((#[trigger] images[j])@) is None)
            ==> images_error(images) is None,
    decreases images.len(),
{
    let rest = images.skip(1);
    assert forall|j: int| 0 <= j < rest.len() implies rest[j] == images[j + 1] by {}
    if i > 0 {
        images_are_refused_for_the_first_that_is(rest, i - 1);
        assert(rest[i - 1] == images[i]);
        if forall|j: int| 0 <= j < i ==> image_error((#[trigger] images[j])@) is None {
            assert(image_error(images[0]@) is None);
            assert forall|j: int| 0 <= j < i - 1 implies image_error(
                (#[trigger] rest[j])@,
            ) is None by {
                assert(image_error(images[j + 1]@) is None);
            }
        }
    }
    if rest.len() > 0 {
        images_are_refused_for_the_first_that_is(rest, 0);
        if forall|j: int| 0 <= j < images.len() ==> image_error((#[trigger] images[j])@) is None {
            assert(image_error(images[0]@) is None);
            assert forall|j: int| 0 <= j < rest.len() implies image_error(
                (#[trigger] rest[j])@,
            ) is None by {
                assert(image_error(images[j + 1]@) is None);
            }
        }
    } else {
        assert(images_error(rest) is None);
    }
}

/// An image is accepted exactly where it is a data URL of an image, not too large and well formed.
pub proof fn images_are_data_urls(image: Seq<char>)
    ensures
        ({
            let fits = "data:image/"@.is_prefix_of(image) && encode_utf8(image).len() <= 7_000_000;
            &&& image_error(image) is None <==> fits && data_url(image) is Some
            &&& !fits ==> image_error(image) == Some(
                bad("Each image must be a data URL of at most 5 MB."@),
            )
            &&& fits && data_url(image) is None ==> image_error(image) == Some(
                bad("Each image must be a valid base64 image data URL."@),
            )
        }),
{
}

/// A message is accepted exactly where it says or shows something, has at most eight images, all of
/// them acceptable, and at most 200,000 bytes of text.
pub proof fn messages_are_refused_in_order(content: Seq<char>, images: Seq<String>)
    ensures
        ({
            let error = message_error(content, images);
            let few = images.len() <= 8;
            let fine = images_error(images) is None;
            let full = content.len() > 0 || images.len() > 0;
            let short = encode_utf8(content).len() <= 200_000;
            &&& error is None <==> few && fine && full && short
            &&& !few ==> error == Some(bad("A message may contain at most 8 images."@))
            &&& few && !fine ==> error == images_error(images)
            &&& few && fine && !full ==> error == Some(
                bad("Message must contain text or at least one image."@),
            )
            &&& few && fine && full && !short ==> error == Some(
                bad("Message text must be at most 200,000 characters."@),
            )
        }),
{
}

/// Only the first message names a chat, and only one that has not been named: by the start of its
/// text, with single spaces; a message of images alone names it so.
pub proof fn first_messages_name_the_chat(title: Seq<char>, content: Seq<char>)
    ensures
        title_from(false, title, content) is None,
        title != "New chat"@ ==> title_from(true, title, content) is None,
        content.len() > 0 ==> (title_from(true, "New chat"@, content) matches Some(name)
            ==> name.is_prefix_of(collapsed(content)) && (collapsed(content).len() <= 40 ==> name
            == collapsed(content)) && (collapsed(content).len() > 40 ==> name.len() == 40)),
        content.len() > 0 && collapsed(content).len() > 0 ==> title_from(
            true,
            "New chat"@,
            content,
        ) is Some,
        content.len() == 0 ==> title_from(true, "New chat"@, content) == title_from(
            true,
            "New chat"@,
            "[Image]"@,
        ),
{
    reveal_strlit("[Image]");
    let whole = collapsed(content);
    assert(clipped(whole, 40) =~= whole.subrange(0, clipped(whole, 40).len() as int));
}

/// A new message takes the next place in its chat and counts for its tokens; the chat's revision goes
/// up by one, and by one more where the message names the chat.
pub proof fn new_messages_take_the_next_place<T>(
    log: ConversationLog<T>,
    mutation: u128,
    message: CheckedMessage,
    stored: T,
    is_first: bool,
)
    requires
        log.found(mutation) is None,
    ensures
        ({
            let after = log.placed(
                mutation,
                placement(message, log.found(mutation)),
                stored,
                is_first,
            );
            let name = title_from(is_first, log.title, message.content@);
            &&& after.found(mutation) == Some(stored)
            &&& after.next_sequence == log.next_sequence + 1
            &&& after.context_tokens == log.context_tokens + message.tokens
            &&& name is None ==> after.revision == log.revision + 1 && after.title == log.title
            &&& name matches Some(title) ==> after.revision == log.revision + 2 && after.title
                == title
        }),
        forall|other: u128|
            other != mutation ==> #[trigger] log.placed(
                mutation,
                placement(message, log.found(mutation)),
                stored,
                is_first,
            ).found(other) == log.found(other),
{
}

} // verus!
