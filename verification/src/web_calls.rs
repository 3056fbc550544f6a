//! Running the web tools that the model calls: what is collected as sources, which pages a search
//! opens up, and what the model is told.

use vstd::prelude::*;
use vstd::string::*;

use crate::addresses::{is_safe_public_url, public_url};
use crate::error::ApiError;
use crate::json::{views, views_push, Json, JsonView};
use crate::names::names_are_told_apart;
use crate::pages::{find_allowed, page_result, Page, PageView};
use crate::picking::{picked, picked_ends, picked_push, picked_step};
use crate::replies::ToolCall;
use crate::text::{clip, clipped, collapse, collapsed, same, texts, trimmed};
use crate::web_search::{result_views, ResultView, SearchResult};
use crate::web_tools::{is_valid_search_query, valid_query};

verus! {

/// A run stops collecting sources here.
pub const MAX_WEB_SOURCES: usize = 12;

// ---------------------------------------------------------------- sources

/// A source as it is kept: a result with the query that found it.
pub open spec fn source_view(query: Seq<char>, result: ResultView) -> JsonView {
    JsonView::object().with("title"@, JsonView::Str(result.title)).with(
        "url"@,
        JsonView::Str(result.url),
    ).with("content"@, JsonView::Str(result.content)).with(
        "engine"@,
        JsonView::Str(result.engine),
    ).with("query"@, JsonView::Str(query))
}

/// Whether some source has this address.
pub open spec fn has_source(sources: Seq<JsonView>, url: Seq<char>) -> bool {
    exists|i: int| 0 <= i < sources.len() && (#[trigger] sources[i]).at("url"@).is_text(url)
}

/// `sources` with one more result, where its address is new.
pub open spec fn with_source(sources: Seq<JsonView>, query: Seq<char>, result: ResultView) -> Seq<
    JsonView,
> {
    if has_source(sources, result.url) {
        sources
    } else {
        sources.push(source_view(query, result))
    }
}

/// `sources` with the results of a search, up to the limit.
pub open spec fn with_sources(
    sources: Seq<JsonView>,
    query: Seq<char>,
    results: Seq<ResultView>,
) -> Seq<JsonView>
    decreases results.len(),
{
    if results.len() == 0 {
        sources
    } else {
        let more = with_source(sources, query, results[0]);
        if more.len() >= MAX_WEB_SOURCES {
            more
        } else {
            with_sources(more, query, results.skip(1))
        }
    }
}

fn find_source(sources: &Vec<Json>, url: &str) -> (r: Option<usize>)
    ensures
        match r {
            Some(i) => {
                &&& i < sources@.len()
                &&& views(sources@)[i as int].at("url"@).is_text(url@)
                &&& forall|j: int|
                    0 <= j < i ==> !(#[trigger] views(sources@)[j]).at("url"@).is_text(url@)
                &&& has_source(views(sources@), url@)
            },
            None => !has_source(views(sources@), url@),
        },
{
    for i in 0..sources.len()
        invariant
            forall|j: int|
                0 <= j < i ==> !(#[trigger] views(sources@)[j]).at("url"@).is_text(url@),
    {
        if sources[i].at("url").is_str(url) {
            assert(views(sources@)[i as int].at("url"@).is_text(url@));
            return Some(i);
        }
    }
    None
}

fn make_source(query: &str, result: &SearchResult) -> (r: Json)
    ensures
        r@ == source_view(query@, result@),
{
    Json::object().with("title", Json::text(result.title.as_str())).with(
        "url",
        Json::text(result.url.as_str()),
    ).with("content", Json::text(result.content.as_str())).with(
        "engine",
        Json::text(result.engine.as_str()),
    ).with("query", Json::text(query))
}

/// Adds the results of a search to the sources: each new address, up to the limit.
pub fn add_search_sources(sources: &mut Vec<Json>, query: &str, results: &Vec<SearchResult>)
    ensures
        views(final(sources)@) == with_sources(views(old(sources)@), query@, result_views(results@)),
{
    let ghost start = views(sources@);
    let ghost all = result_views(results@);
    assert(all.skip(0) =~= all);
    for i in 0..results.len()
        invariant
            start == views(old(sources)@),
            all == result_views(results@),
            with_sources(start, query@, all) == with_sources(
                views(sources@),
                query@,
                all.skip(i as int),
            ),
    {
        let result = &results[i];
        let ghost before = views(sources@);
        assert(all.skip(i as int)[0] == result@);
        assert(all.skip(i as int).skip(1) =~= all.skip(i + 1));
        if find_source(sources, result.url.as_str()).is_none() {
            let source = make_source(query, result);
            proof {
                views_push(sources@, source);
            }
            sources.push(source);
        }
        assert(views(sources@) == with_source(before, query@, result@));
        assert(views(sources@).len() == sources@.len());
        if sources.len() >= MAX_WEB_SOURCES {
            return;
        }
    }
    assert(all.skip(all.len() as int) =~= Seq::empty());
}

/// The sources of a run never grow past the limit, except that a run which starts beyond it takes
/// one more from each search; what was collected stays as it is.
pub proof fn sources_are_bounded(
    sources: Seq<JsonView>,
    query: Seq<char>,
    results: Seq<ResultView>,
)
    ensures
        sources.is_prefix_of(with_sources(sources, query, results)),
        sources.len() < MAX_WEB_SOURCES ==> with_sources(sources, query, results).len()
            <= MAX_WEB_SOURCES,
        with_sources(sources, query, results).len() <= sources.len() + MAX_WEB_SOURCES,
        sources.len() >= MAX_WEB_SOURCES ==> with_sources(sources, query, results).len()
            <= sources.len() + 1,
    decreases results.len(),
{
    assert(sources =~= sources.subrange(0, sources.len() as int));
    if results.len() > 0 {
        let more = with_source(sources, query, results[0]);
        assert(sources =~= more.subrange(0, sources.len() as int));
        if more.len() < MAX_WEB_SOURCES {
            sources_are_bounded(more, query, results.skip(1));
            let all = with_sources(more, query, results.skip(1));
            assert(more =~= all.subrange(0, more.len() as int));
            assert(sources =~= all.subrange(0, sources.len() as int));
        }
    }
}

// ---------------------------------------------------------------- results for the model

/// A source with its content cut to what the model is shown of it.
pub open spec fn shortened(result: JsonView) -> JsonView {
    match result.at("content"@).text() {
        Some(content) => result.with("content"@, JsonView::Str(clipped(content, 900))),
        None => result,
    }
}

/// The first five results, each cut to what the model is shown of it.
pub open spec fn shown_results(results: Seq<JsonView>) -> Seq<JsonView> {
    let first = if results.len() <= 5 {
        results
    } else {
        results.take(5)
    };
    first.map_values(|r: JsonView| shortened(r))
}

fn shorten(result: &Json) -> (r: Json)
    ensures
        r@ == shortened(result@),
{
    match result.at("content").as_str() {
        Some(content) => {
            let text = clip(content, 900);
            result.clone().with("content", Json::Str(text))
        },
        None => result.clone(),
    }
}

/// The results that the model is shown: five at most, 900 characters of each.
pub fn tool_search_results(results: &Vec<Json>) -> (r: Json)
    ensures
        r@ == JsonView::Array(shown_results(views(results@))),
{
    let n: usize = if results.len() <= 5 {
        results.len()
    } else {
        5
    };
    let ghost shown = shown_results(views(results@));
    let mut out: Vec<Json> = Vec::new();
    assert(views(out@) =~= shown.take(0));
    for i in 0..n
        invariant
            n <= results@.len(),
            n == shown.len(),
            shown == shown_results(views(results@)),
            views(out@) == shown.take(i as int),
    {
        let item = shorten(&results[i]);
        proof {
            views_push(out@, item);
            assert(item@ == shown[i as int]);
            assert(shown.take(i + 1) =~= shown.take(i as int).push(item@));
        }
        out.push(item);
    }
    assert(shown.take(n as int) =~= shown);
    Json::Array(out)
}

// ---------------------------------------------------------------- opened addresses

/// A source that a query found.
pub open spec fn found_by(source: JsonView, query: Seq<char>) -> Option<JsonView> {
    if source.at("query"@).is_text(query) {
        Some(source)
    } else {
        None
    }
}

/// The address that a source lets the model open, where the query found it.
pub open spec fn opened_by(source: JsonView, query: Seq<char>) -> Option<Seq<char>> {
    if source.at("query"@).is_text(query) {
        match source.at("url"@).text() {
            Some(url) => if public_url(url) {
                Some(url)
            } else {
                None
            },
            None => None,
        }
    } else {
        None
    }
}

/// `allowed` with the public addresses that a query found, each once.
pub open spec fn with_opened(
    allowed: Seq<Seq<char>>,
    sources: Seq<JsonView>,
    query: Seq<char>,
) -> Seq<Seq<char>>
    decreases sources.len(),
{
    if sources.len() == 0 {
        allowed
    } else {
        let before = with_opened(allowed, sources.drop_last(), query);
        match opened_by(sources.last(), query) {
            Some(url) => if before.contains(url) {
                before
            } else {
                before.push(url)
            },
            None => before,
        }
    }
}

fn open_found(allowed: &mut Vec<String>, sources: &Vec<Json>, query: &str)
    ensures
        texts(final(allowed)@) == with_opened(texts(old(allowed)@), views(sources@), query@),
{
    let ghost start = texts(allowed@);
    let ghost all = views(sources@);
    assert(all.take(0) =~= Seq::empty());
    for i in 0..sources.len()
        invariant
            all == views(sources@),
            texts(allowed@) == with_opened(start, all.take(i as int), query@),
    {
        let source = &sources[i];
        let ghost before = texts(allowed@);
        proof {
            assert(all.take(i + 1).drop_last() =~= all.take(i as int));
            assert(all.take(i + 1).last() == source@);
        }
        if source.at("query").is_str(query) {
            if let Some(url) = source.at("url").as_str() {
                if is_safe_public_url(url) && !find_allowed(allowed, url) {
                    allowed.push(url.to_owned());
                    assert(texts(allowed@) =~= before.push(url@));
                }
            }
        }
    }
    assert(all.take(all.len() as int) =~= all);
}

/// Only public addresses that a search found are ever opened up, and none is opened up twice.
pub proof fn only_found_addresses_open(
    allowed: Seq<Seq<char>>,
    sources: Seq<JsonView>,
    query: Seq<char>,
    url: Seq<char>,
)
    requires
        with_opened(allowed, sources, query).contains(url),
        !allowed.contains(url),
    ensures
        public_url(url),
        has_source(sources, url),
    decreases sources.len(),
{
    if sources.len() > 0 {
        let rest = sources.drop_last();
        let before = with_opened(allowed, rest, query);
        let all = with_opened(allowed, sources, query);
        if before.contains(url) {
            only_found_addresses_open(allowed, rest, query, url);
            let i = choose|i: int|
                0 <= i < rest.len() && (#[trigger] rest[i]).at("url"@).is_text(url);
            assert(sources[i].at("url"@).is_text(url));
        } else {
            let k = choose|k: int| 0 <= k < all.len() && all[k] == url;
            assert(k == before.len());
            assert(sources[sources.len() - 1].at("url"@).is_text(url));
        }
    }
}

// ---------------------------------------------------------------- calls

/// What running a tool takes.
pub enum ToolStep {
    /// Nothing more: this is the result.
    Done(Json),
    /// Search the web for this.
    Search(String),
    /// Open this address.
    Open(String),
}

/// What running a tool takes.
pub enum ToolStepView {
    Done(JsonView),
    Search(Seq<char>),
    Open(Seq<char>),
}

impl View for ToolStep {
    type V = ToolStepView;

    open spec fn view(&self) -> ToolStepView {
        match self {
            ToolStep::Done(result) => ToolStepView::Done(result@),
            ToolStep::Search(query) => ToolStepView::Search(query@),
            ToolStep::Open(url) => ToolStepView::Open(url@),
        }
    }
}

/// A result that tells of an error.
pub open spec fn error_result(message: Seq<char>) -> JsonView {
    JsonView::object().with("error"@, JsonView::Str(message))
}

/// A result that tells of an error.
pub fn make_error_result(message: &str) -> (r: Json)
    ensures
        r@ == error_result(message@),
{
    Json::object().with("error", Json::text(message))
}

/// What running a tool takes, by its name and input.
pub open spec fn tool_step(name: Seq<char>, input: JsonView) -> ToolStepView {
    if name == "web_search"@ {
        let query = collapsed(input.at("query"@).text_or_empty());
        if valid_query(query) {
            ToolStepView::Search(query)
        } else {
            ToolStepView::Done(
                error_result(
                    "web_search requires a focused query between 2 and 180 characters."@,
                ),
            )
        }
    } else if name == "open_web_page"@ {
        ToolStepView::Open(input.at("url"@).text_or_empty())
    } else {
        ToolStepView::Done(
            error_result("Unknown tool. Only web_search and open_web_page are available."@),
        )
    }
}

/// What running a tool takes.
pub fn execute_web_tool(call: &ToolCall) -> (r: ToolStep)
    ensures
        r@ == tool_step(call.name@, call.input@),
{
    if same(call.name.as_str(), "web_search") {
        let query = collapse(call.input.at("query").str_or_empty());
        if !is_valid_search_query(query.as_str()) {
            return ToolStep::Done(
                make_error_result(
                    "web_search requires a focused query between 2 and 180 characters.",
                ),
            );
        }
        ToolStep::Search(query)
    } else if same(call.name.as_str(), "open_web_page") {
        ToolStep::Open(call.input.at("url").str_or_empty().to_owned())
    } else {
        ToolStep::Done(
            make_error_result("Unknown tool. Only web_search and open_web_page are available."),
        )
    }
}

/// What the model is told of a search.
pub open spec fn search_told(sources: Seq<JsonView>, query: Seq<char>) -> JsonView {
    JsonView::object().with("query"@, JsonView::Str(query)).with(
        "results"@,
        JsonView::Array(
            shown_results(picked(sources, |s: JsonView| found_by(s, query))),
        ),
    )
}

fn keep_found(sources: &Vec<Json>, query: &str) -> (r: Vec<Json>)
    ensures
        views(r@) == picked(views(sources@), |s: JsonView| found_by(s, query@)),
{
    let ghost pick = |s: JsonView| found_by(s, query@);
    let mut out: Vec<Json> = Vec::new();
    proof {
        picked_ends(views(sources@), pick);
        assert(views(out@) =~= Seq::empty());
    }
    for i in 0..sources.len()
        invariant
            pick == (|s: JsonView| found_by(s, query@)),
            views(out@) == picked(views(sources@).take(i as int), pick),
    {
        proof {
            picked_step(views(sources@), pick, i as int);
        }
        if sources[i].at("query").is_str(query) {
            let copy = sources[i].clone();
            proof {
                views_push(out@, copy);
            }
            out.push(copy);
        }
    }
    proof {
        picked_ends(views(sources@), pick);
    }
    out
}

/// Takes the results of a search, or its error: the sources grow, the addresses found are opened
/// up, and the model is told.
pub fn finish_search(
    query: &str,
    results: Result<Vec<SearchResult>, ApiError>,
    sources: &mut Vec<Json>,
    allowed_urls: &mut Vec<String>,
) -> (r: Json)
    ensures
        match results {
            Ok(results) => {
                let grown = with_sources(views(old(sources)@), query@, result_views(results@));
                &&& views(final(sources)@) == grown
                &&& texts(final(allowed_urls)@) == with_opened(
                    texts(old(allowed_urls)@),
                    grown,
                    query@,
                )
                &&& r@ == search_told(grown, query@)
            },
            Err(error) => {
                &&& final(sources)@ == old(sources)@
                &&& final(allowed_urls)@ == old(allowed_urls)@
                &&& r@ == error_result(error@.message)
            },
        },
{
    match results {
        Ok(results) => {
            add_search_sources(sources, query, &results);
            open_found(allowed_urls, sources, query);
            let matching = keep_found(sources, query);
            Json::object().with("query", Json::text(query)).with(
                "results",
                tool_search_results(&matching),
            )
        },
        Err(error) => make_error_result(error.message.as_str()),
    }
}

/// `sources` with the text of a page put into the first source that has its address.
pub open spec fn with_page(sources: Seq<JsonView>, page: PageView) -> Seq<JsonView>
    decreases sources.len(),
{
    if sources.len() == 0 {
        sources
    } else if sources[0].at("url"@).is_text(page.url) {
        seq![sources[0].with("content"@, JsonView::Str(page.content))] + sources.skip(1)
    } else {
        seq![sources[0]] + with_page(sources.skip(1), page)
    }
}

proof fn lemma_with_page_at(sources: Seq<JsonView>, page: PageView, i: int)
    requires
        0 <= i < sources.len(),
        sources[i].at("url"@).is_text(page.url),
        forall|j: int| 0 <= j < i ==> !(#[trigger] sources[j]).at("url"@).is_text(page.url),
    ensures
        with_page(sources, page) == sources.update(
            i,
            sources[i].with("content"@, JsonView::Str(page.content)),
        ),
    decreases sources.len(),
{
    let rest = sources.skip(1);
    if i > 0 {
        assert(!sources[0].at("url"@).is_text(page.url));
        assert forall|j: int| 0 <= j < i - 1 implies !(#[trigger] rest[j]).at("url"@).is_text(
            page.url,
        ) by {
            assert(rest[j] == sources[j + 1]);
        }
        lemma_with_page_at(rest, page, i - 1);
    }
    assert(with_page(sources, page) =~= sources.update(
        i,
        sources[i].with("content"@, JsonView::Str(page.content)),
    ));
}

proof fn lemma_with_page_nowhere(sources: Seq<JsonView>, page: PageView)
    requires
        !has_source(sources, page.url),
    ensures
        with_page(sources, page) == sources,
    decreases sources.len(),
{
    if sources.len() > 0 {
        let rest = sources.skip(1);
        assert(!sources[0].at("url"@).is_text(page.url));
        assert forall|j: int| 0 <= j < rest.len() implies !(#[trigger] rest[j]).at("url"@).is_text(
            page.url,
        ) by {
            assert(rest[j] == sources[j + 1]);
        }
        lemma_with_page_nowhere(rest, page);
        assert(seq![sources[0]] + rest =~= sources);
    }
}

/// A page as the model is told of it.
pub open spec fn page_told(page: PageView) -> JsonView {
    JsonView::object().with("url"@, JsonView::Str(page.url)).with(
        "content"@,
        JsonView::Str(page.content),
    )
}

/// Takes a page that was opened, or what is told instead: the source that has its address keeps
/// its text.
pub fn finish_open(page: Result<Page, String>, sources: &mut Vec<Json>) -> (r: Json)
    ensures
        match page_result(page) {
            Ok(page) => r@ == page_told(page) && views(final(sources)@) == with_page(
                views(old(sources)@),
                page,
            ),
            Err(message) => r@ == error_result(message) && final(sources)@ == old(sources)@,
        },
{
    match page {
        Ok(page) => {
            let ghost before = views(sources@);
            match find_source(sources, page.url.as_str()) {
                Some(i) => {
                    let source = sources[i].clone().with(
                        "content",
                        Json::text(page.content.as_str()),
                    );
                    proof {
                        lemma_with_page_at(before, page@, i as int);
                    }
                    sources.set(i, source);
                    assert(views(sources@) =~= before.update(i as int, source@));
                },
                None => {
                    proof {
                        lemma_with_page_nowhere(before, page@);
                    }
                },
            }
            Json::object().with("url", Json::text(page.url.as_str())).with(
                "content",
                Json::text(page.content.as_str()),
            )
        },
        Err(message) => make_error_result(message.as_str()),
    }
}

// ---------------------------------------------------------------- laws

/// A result whose address is new becomes one more source, with its own title, address, content and
/// engine and the query that found it; another changes nothing.
pub proof fn sources_say_what_was_found(
    sources: Seq<JsonView>,
    query: Seq<char>,
    result: ResultView,
)
    ensures
        ({
            let after = with_source(sources, query, result);
            if has_source(sources, result.url) {
                after == sources
            } else {
                &&& after.len() == sources.len() + 1
                &&& after.drop_last() == sources
                &&& after.last().at("title"@) == JsonView::Str(result.title)
                &&& after.last().at("url"@) == JsonView::Str(result.url)
                &&& after.last().at("content"@) == JsonView::Str(result.content)
                &&& after.last().at("engine"@) == JsonView::Str(result.engine)
                &&& after.last().at("query"@) == JsonView::Str(query)
            }
        }),
{
    names_are_told_apart();
    if !has_source(sources, result.url) {
        assert(with_source(sources, query, result).drop_last() =~= sources);
    }
}

/// Where the limit leaves room, every result of a search is among the sources afterwards.
pub proof fn searches_leave_nothing_out(
    sources: Seq<JsonView>,
    query: Seq<char>,
    results: Seq<ResultView>,
    i: int,
)
    requires
        with_sources(sources, query, results).len() < 12,
        0 <= i < results.len(),
    ensures
        has_source(with_sources(sources, query, results), results[i].url),
    decreases results.len(),
{
    names_are_told_apart();
    let more = with_source(sources, query, results[0]);
    let rest = results.skip(1);
    sources_say_what_was_found(sources, query, results[0]);
    if i > 0 {
        searches_leave_nothing_out(more, query, rest, i - 1);
    } else {
        let after = with_sources(more, query, rest);
        sources_are_bounded(more, query, rest);
        let k = if has_source(sources, results[0].url) {
            choose|k: int|
                0 <= k < sources.len() && (#[trigger] sources[k]).at("url"@).is_text(results[0].url)
        } else {
            sources.len() as int
        };
        assert(more[k].at("url"@).is_text(results[0].url));
        assert(after.subrange(0, more.len() as int) == more);
        assert(after[k] == after.subrange(0, more.len() as int)[k]);
        assert(after[k].at("url"@).is_text(results[0].url));
    }
}

/// The model is shown the first five results as they are, but for contents that are cut.
pub proof fn shown_results_are_the_first(results: Seq<JsonView>, i: int, key: Seq<char>)
    requires
        0 <= i < shown_results(results).len(),
        key != "content"@,
    ensures
        shown_results(results).len() == if results.len() <= 5 {
            results.len()
        } else {
            5
        },
        shown_results(results)[i].field(key) == results[i].field(key),
        results[i].at("content"@).text() matches Some(content) ==> {
            let shown = shown_results(results)[i].at("content"@).text_or_empty();
            &&& results[i] is Object ==> shown.is_prefix_of(content)
            &&& results[i] is Object && content.len() <= 900 ==> shown == content
            &&& results[i] is Object && content.len() > 900 ==> shown.len() == 900
        },
{
    let whole = results[i].at("content"@).text_or_empty();
    let cut = clipped(whole, 900);
    assert(cut =~= whole.subrange(0, cut.len() as int));
}

/// What the model is told of a search names the query, and one more source that the query found is
/// one more result, while fewer than five are shown; other sources are not told of.
pub proof fn searches_are_told(sources: Seq<JsonView>, query: Seq<char>, source: JsonView)
    ensures
        ({
            let before = search_told(sources, query).at("results"@).items_or_empty();
            let told = search_told(sources.push(source), query);
            let after = told.at("results"@).items_or_empty();
            &&& told.at("query"@) == JsonView::Str(query)
            &&& told.at("results"@) is Array
            &&& told.field("error"@) is None
            &&& before.len() <= 5
            &&& source.at("query"@) != JsonView::Str(query) || before.len() == 5 ==> after == before
            &&& source.at("query"@) == JsonView::Str(query) && before.len() < 5 ==> {
                &&& after.len() == before.len() + 1
                &&& after.drop_last() == before
                &&& after.last().at("url"@) == source.at("url"@)
                &&& after.last().at("title"@) == source.at("title"@)
                &&& after.last().at("content"@).text_or_empty().is_prefix_of(
                    source.at("content"@).text_or_empty(),
                )
            }
        }),
{
    names_are_told_apart();
    let pick = |s: JsonView| found_by(s, query);
    picked_push(sources, source, pick);
    let found = picked(sources, pick);
    let before = shown_results(found);
    let after = shown_results(picked(sources.push(source), pick));
    let whole = source.at("content"@).text_or_empty();
    let cut = clipped(whole, 900);
    assert(cut =~= whole.subrange(0, cut.len() as int));
    if source.at("query"@) == JsonView::Str(query) {
        if found.len() < 5 {
            assert(after.drop_last() =~= before);
            assert(after.last() == shortened(source));
            assert(whole.is_prefix_of(whole)) by {
                assert(whole =~= whole.subrange(0, whole.len() as int));
            }
        } else {
            assert(after =~= before);
        }
    }
}

/// A page that was read replaces the content of its source; nothing else of the sources changes.
pub proof fn pages_replace_contents(sources: Seq<JsonView>, page: PageView, i: int)
    requires
        0 <= i < sources.len(),
    ensures
        with_page(sources, page).len() == sources.len(),
        sources[i].at("url"@) != JsonView::Str(page.url) ==> with_page(sources, page)[i] == sources[i],
        sources[i].at("url"@) == JsonView::Str(page.url) && (forall|j: int|
            0 <= j < i ==> (#[trigger] sources[j]).at("url"@) != JsonView::Str(page.url)) ==> {
            &&& with_page(sources, page)[i].at("content"@) == JsonView::Str(page.content)
            &&& with_page(sources, page)[i].at("url"@) == sources[i].at("url"@)
            &&& with_page(sources, page)[i].at("title"@) == sources[i].at("title"@)
            &&& with_page(sources, page)[i].at("query"@) == sources[i].at("query"@)
        },
    decreases sources.len(),
{
    names_are_told_apart();
    let rest = sources.skip(1);
    if i > 0 {
        pages_replace_contents(rest, page, i - 1);
        assert(rest[i - 1] == sources[i]);
        assert(!(sources[0].at("url"@).is_text(page.url)) ==> with_page(sources, page)[i] == with_page(
            rest,
            page,
        )[i - 1]);
        if forall|j: int|
            0 <= j < i ==> (#[trigger] sources[j]).at("url"@) != JsonView::Str(page.url) {
            assert(sources[0].at("url"@) != JsonView::Str(page.url));
            assert forall|j: int| 0 <= j < i - 1 implies (#[trigger] rest[j]).at("url"@)
                != JsonView::Str(page.url) by {
                assert(sources[j + 1].at("url"@) != JsonView::Str(page.url));
            }
        }
    } else if rest.len() > 0 {
        pages_replace_contents(rest, page, 0);
    }
    assert(rest.len() == 0 ==> with_page(rest, page).len() == 0);
    assert(with_page(rest, page).len() == rest.len());
    assert(with_page(sources, page).len() == 1 + rest.len());
}

/// The model may open every public address that its search found, and keeps what it could open
/// before.
pub proof fn found_addresses_open(
    allowed: Seq<Seq<char>>,
    sources: Seq<JsonView>,
    query: Seq<char>,
    url: Seq<char>,
    i: int,
)
    requires
        0 <= i < sources.len(),
        sources[i].at("query"@) == JsonView::Str(query),
        sources[i].at("url"@) == JsonView::Str(url),
        public_url(url),
    ensures
        with_opened(allowed, sources, query).contains(url),
    decreases sources.len(),
{
    let rest = sources.drop_last();
    let before = with_opened(allowed, rest, query);
    if i < sources.len() - 1 {
        found_addresses_open(allowed, rest, query, url, i);
        let k = choose|k: int| 0 <= k < before.len() && before[k] == url;
        assert(with_opened(allowed, sources, query)[k] == url);
    } else if !before.contains(url) {
        assert(before.push(url)[before.len() as int] == url);
    }
}

/// What could be opened before a search can still be opened after it.
pub proof fn opened_addresses_stay_open(
    allowed: Seq<Seq<char>>,
    sources: Seq<JsonView>,
    query: Seq<char>,
)
    ensures
        allowed.is_prefix_of(with_opened(allowed, sources, query)),
    decreases sources.len(),
{
    if sources.len() > 0 {
        opened_addresses_stay_open(allowed, sources.drop_last(), query);
        let before = with_opened(allowed, sources.drop_last(), query);
        let after = with_opened(allowed, sources, query);
        assert(allowed =~= after.subrange(0, allowed.len() as int)) by {
            assert(allowed == before.subrange(0, allowed.len() as int));
            assert forall|k: int| 0 <= k < allowed.len() implies allowed[k] == after[k] by {
                assert(before.subrange(0, allowed.len() as int)[k] == before[k]);
            }
        }
    } else {
        assert(allowed =~= allowed.subrange(0, allowed.len() as int));
    }
}

/// The model is told of a page with its address and its whole text, and of a failure in its words.
pub proof fn outcomes_are_told(page: PageView, message: Seq<char>)
    ensures
        page_told(page).at("url"@) == JsonView::Str(page.url),
        page_told(page).at("content"@) == JsonView::Str(page.content),
        page_told(page).field("error"@) is None,
        error_result(message).at("error"@) == JsonView::Str(message),
{
    names_are_told_apart();
}

/// A run collects no more than twelve sources.
pub proof fn twelve_sources_are_enough(
    sources: Seq<JsonView>,
    query: Seq<char>,
    results: Seq<ResultView>,
)
    requires
        sources.len() < 12,
    ensures
        with_sources(sources, query, results).len() <= 12,
{
    sources_are_bounded(sources, query, results);
}

/// A search without a usable query, and a tool that does not exist, are answered with an error that
/// says so; a search is made with single spaces, and a page is opened at the address as it is.
pub proof fn unusable_calls_are_told_of(name: Seq<char>, input: JsonView)
    ensures
        ({
            let query = collapsed(input.at("query"@).text_or_empty());
            let step = tool_step(name, input);
            &&& name == "web_search"@ && 2 <= trimmed(query).len() <= 180 ==> step
                == ToolStepView::Search(query)
            &&& name == "web_search"@ && !(2 <= trimmed(query).len() <= 180) ==> (
            step matches ToolStepView::Done(told) && told.at("error"@) == JsonView::Str(
                "web_search requires a focused query between 2 and 180 characters."@,
            ))
            &&& name == "open_web_page"@ ==> step == ToolStepView::Open(
                input.at("url"@).text_or_empty(),
            )
            &&& name != "web_search"@ && name != "open_web_page"@ ==> (
            step matches ToolStepView::Done(told) && told.at("error"@) == JsonView::Str(
                "Unknown tool. Only web_search and open_web_page are available."@,
            ))
        }),
{
    names_are_told_apart();
}

} // verus!
