//! Searching the web: what is asked of the search service, and what its results become.

use vstd::prelude::*;
use vstd::string::*;

use crate::error::{bad, provider_unavailable, ApiError, ErrorView};
use crate::json::{views, Json, JsonView};
use crate::picking::{picked, picked_ends, picked_push, picked_step};
use crate::providers::opt_view;
use crate::search::{starts_with, trim_end_of, trimmed_end_of};
use crate::text::{blank, chars_of, is_blank, opt_string, opt_text, same, trim, trimmed};

verus! {

/// A search is asked again of all engines where the preferred ones give fewer results than this.
pub const MIN_PREFERRED_SEARCH_RESULTS: usize = 3;

/// No search gives more results than this.
pub const MAX_SEARCH_RESULTS: usize = 8;

// ---------------------------------------------------------------- results

/// One result of a search.
pub struct SearchResult {
    pub title: String,
    pub url: String,
    pub content: String,
    pub engine: String,
}

/// What a result says.
pub struct ResultView {
    pub title: Seq<char>,
    pub url: Seq<char>,
    pub content: Seq<char>,
    pub engine: Seq<char>,
}

impl View for SearchResult {
    type V = ResultView;

    open spec fn view(&self) -> ResultView {
        ResultView {
            title: self.title@,
            url: self.url@,
            content: self.content@,
            engine: self.engine@,
        }
    }
}

/// The views of a list of results.
pub open spec fn result_views(results: Seq<SearchResult>) -> Seq<ResultView> {
    results.map_values(|r: SearchResult| r@)
}

/// An item of the service's answer as a result: it needs a title that is not blank and a web
/// address.
pub open spec fn usable_result(item: JsonView) -> Option<ResultView> {
    match (item.at("title"@).text(), item.at("url"@).text()) {
        (Some(title), Some(url)) => if !is_blank(title) && "http"@.is_prefix_of(url) {
            Some(
                ResultView {
                    title,
                    url,
                    content: item.at("content"@).text_or_empty(),
                    engine: match item.at("engine"@).text() {
                        Some(engine) => engine,
                        None => "SearXNG"@,
                    },
                },
            )
        } else {
            None
        },
        _ => None,
    }
}

/// The results in the service's answer.
pub open spec fn usable_results(response: JsonView) -> Seq<ResultView> {
    picked(response.at("results"@).items_or_empty(), |i: JsonView| usable_result(i))
}

fn read_result(item: &Json) -> (r: Option<SearchResult>)
    ensures
        match r {
            Some(result) => usable_result(item@) == Some(result@),
            None => usable_result(item@) is None,
        },
{
    match (item.at("title").as_str(), item.at("url").as_str()) {
        (Some(title), Some(url)) => {
            if blank(title) || !starts_with(url, "http") {
                return None;
            }
            let engine = match item.at("engine").as_str() {
                Some(engine) => engine,
                None => "SearXNG",
            };
            Some(
                SearchResult {
                    title: title.to_owned(),
                    url: url.to_owned(),
                    content: item.at("content").str_or_empty().to_owned(),
                    engine: engine.to_owned(),
                },
            )
        },
        _ => None,
    }
}

/// The results in the service's answer.
pub fn search_results(response: &Json) -> (r: Vec<SearchResult>)
    ensures
        result_views(r@) == usable_results(response@),
{
    let ghost pick = |i: JsonView| usable_result(i);
    let mut out: Vec<SearchResult> = Vec::new();
    assert(result_views(out@) =~= Seq::empty());
    match response.at("results").as_array() {
        Some(items) => {
            proof {
                picked_ends(views(items@), pick);
            }
            for i in 0..items.len()
                invariant
                    pick == (|i: JsonView| usable_result(i)),
                    result_views(out@) == picked(views(items@).take(i as int), pick),
            {
                let ghost before = result_views(out@);
                proof {
                    picked_step(views(items@), pick, i as int);
                }
                if let Some(result) = read_result(&items[i]) {
                    let ghost seen = result@;
                    out.push(result);
                    assert(result_views(out@) =~= before.push(seen));
                }
            }
            proof {
                picked_ends(views(items@), pick);
            }
        },
        None => {},
    }
    out
}

// ---------------------------------------------------------------- merging

/// Whether some result has this address.
pub open spec fn has_address(results: Seq<ResultView>, url: Seq<char>) -> bool {
    exists|i: int| 0 <= i < results.len() && (#[trigger] results[i]).url == url
}

/// `first` followed by those of `more` whose address has not been listed yet.
pub open spec fn merged(first: Seq<ResultView>, more: Seq<ResultView>) -> Seq<ResultView>
    decreases more.len(),
{
    if more.len() == 0 {
        first
    } else {
        let so_far = merged(first, more.drop_last());
        if has_address(so_far, more.last().url) {
            so_far
        } else {
            so_far.push(more.last())
        }
    }
}

fn find_address(results: &Vec<SearchResult>, url: &str) -> (r: bool)
    ensures
        r == has_address(result_views(results@), url@),
{
    for i in 0..results.len()
        invariant
            forall|j: int| 0 <= j < i ==> (#[trigger] result_views(results@)[j]).url != url@,
    {
        if same(results[i].url.as_str(), url) {
            assert(result_views(results@)[i as int].url == url@);
            return true;
        }
    }
    false
}

fn copy_result(result: &SearchResult) -> (r: SearchResult)
    ensures
        r@ == result@,
{
    SearchResult {
        title: result.title.clone(),
        url: result.url.clone(),
        content: result.content.clone(),
        engine: result.engine.clone(),
    }
}

/// Adds the results whose address has not been listed yet.
pub fn merge_results(first: Vec<SearchResult>, more: &Vec<SearchResult>) -> (r: Vec<SearchResult>)
    ensures
        result_views(r@) == merged(result_views(first@), result_views(more@)),
{
    let ghost start = result_views(first@);
    let ghost all = result_views(more@);
    let mut out = first;
    assert(all.take(0) =~= Seq::empty());
    for i in 0..more.len()
        invariant
            all == result_views(more@),
            result_views(out@) == merged(start, all.take(i as int)),
    {
        let ghost before = result_views(out@);
        proof {
            assert(all.take(i + 1).drop_last() =~= all.take(i as int));
            assert(all.take(i + 1).last() == more@[i as int]@);
        }
        if !find_address(&out, more[i].url.as_str()) {
            let copy = copy_result(&more[i]);
            let ghost seen = copy@;
            out.push(copy);
            assert(result_views(out@) =~= before.push(seen));
        }
    }
    assert(all.take(all.len() as int) =~= all);
    out
}

/// Whether no two results have the same address.
pub open spec fn addresses_differ(results: Seq<ResultView>) -> bool {
    forall|i: int, j: int|
        0 <= i < j < results.len() ==> (#[trigger] results[i]).url != (#[trigger] results[j]).url
}

/// Merging keeps the first results in their places and lists no address twice that was not listed
/// twice before.
pub proof fn merging_adds_new_addresses(first: Seq<ResultView>, more: Seq<ResultView>)
    requires
        addresses_differ(first),
    ensures
        first.is_prefix_of(merged(first, more)),
        addresses_differ(merged(first, more)),
    decreases more.len(),
{
    if more.len() > 0 {
        merging_adds_new_addresses(first, more.drop_last());
        let so_far = merged(first, more.drop_last());
        let all = merged(first, more);
        assert(first =~= all.subrange(0, first.len() as int));
        if !has_address(so_far, more.last().url) {
            assert forall|i: int, j: int| 0 <= i < j < all.len() implies (#[trigger] all[i]).url
                != (#[trigger] all[j]).url by {
                if j == all.len() - 1 {
                    assert(so_far[i].url != more.last().url);
                }
            }
        }
    } else {
        assert(first =~= first.subrange(0, first.len() as int));
    }
}

// ---------------------------------------------------------------- asking

/// Whether a text holds a Chinese character.
pub open spec fn has_han(s: Seq<char>) -> bool {
    exists|i: int| 0 <= i < s.len() && '\u{4e00}' <= #[trigger] s[i] <= '\u{9fff}'
}

/// The language in which a query is asked.
pub open spec fn language_of(query: Seq<char>) -> Seq<char> {
    if has_han(query) {
        "zh-CN"@
    } else {
        "en-US"@
    }
}

fn search_language(query: &str) -> (r: &'static str)
    ensures
        r@ == language_of(query@),
{
    let chars = chars_of(query);
    for i in 0..chars.len()
        invariant
            chars@ == query@,
            forall|j: int| 0 <= j < i ==> !('\u{4e00}' <= #[trigger] query@[j] <= '\u{9fff}'),
    {
        if '\u{4e00}' <= chars[i] && chars[i] <= '\u{9fff}' {
            assert('\u{4e00}' <= query@[i as int] <= '\u{9fff}');
            return "zh-CN";
        }
    }
    "en-US"
}

/// What is asked of the search service.
pub struct SearchRequest {
    pub url: String,
    pub query: String,
    pub language: &'static str,
    pub engines: Option<String>,
}

/// A search under way: first the preferred engines are asked, where there are any, then all.
pub struct SearchRun {
    base: String,
    query: String,
    preferred: Option<String>,
    results: Vec<SearchResult>,
}

/// How far a search is: the engines that are asked now, none meaning all of them, and the results
/// so far.
pub struct SearchRunView {
    pub base: Seq<char>,
    pub query: Seq<char>,
    pub preferred: Option<Seq<char>>,
    pub results: Seq<ResultView>,
}

impl View for SearchRun {
    type V = SearchRunView;

    closed spec fn view(&self) -> SearchRunView {
        SearchRunView {
            base: self.base@,
            query: self.query@,
            preferred: opt_string(self.preferred),
            results: result_views(self.results@),
        }
    }
}

/// What a search does next.
pub enum SearchStep {
    /// Ask what the run says now.
    Ask(SearchRun),
    /// These are the results.
    Found(Vec<SearchResult>),
    /// The search failed.
    Failed(ApiError),
}

/// What a search does next.
pub enum SearchStepView {
    Ask(SearchRunView),
    Found(Seq<ResultView>),
    Failed(ErrorView),
}

impl View for SearchStep {
    type V = SearchStepView;

    open spec fn view(&self) -> SearchStepView {
        match self {
            SearchStep::Ask(run) => SearchStepView::Ask(run@),
            SearchStep::Found(results) => SearchStepView::Found(result_views(results@)),
            SearchStep::Failed(error) => SearchStepView::Failed(error@),
        }
    }
}

/// The first eight results.
pub open spec fn first_results(results: Seq<ResultView>) -> Seq<ResultView> {
    if results.len() <= MAX_SEARCH_RESULTS {
        results
    } else {
        results.take(MAX_SEARCH_RESULTS as int)
    }
}

impl SearchRunView {
    /// What follows the service's answer; `None` where the request failed. A failure of the
    /// preferred engines is not fatal.
    pub open spec fn next(self, reply: Option<JsonView>) -> SearchStepView {
        match self.preferred {
            Some(_) => {
                let got = match reply {
                    Some(response) => usable_results(response),
                    None => Seq::empty(),
                };
                if got.len() < MIN_PREFERRED_SEARCH_RESULTS {
                    SearchStepView::Ask(
                        SearchRunView {
                            base: self.base,
                            query: self.query,
                            preferred: None,
                            results: got,
                        },
                    )
                } else {
                    SearchStepView::Found(first_results(got))
                }
            },
            None => match reply {
                Some(response) => SearchStepView::Found(
                    first_results(merged(self.results, usable_results(response))),
                ),
                None => SearchStepView::Failed(provider_unavailable()),
            },
        }
    }
}

/// Starts a search, where a search service is configured.
pub fn fetch_search(
    searxng_url: Option<&str>,
    query: &str,
    preferred_engines: Option<&str>,
) -> (r: Result<SearchRun, ApiError>)
    ensures
        match (r, searxng_url) {
            (Ok(run), Some(base)) => run@ == (SearchRunView {
                base: base@,
                query: trimmed(query@),
                preferred: opt_text(preferred_engines),
                results: Seq::empty(),
            }),
            (Err(error), None) => error@ == bad("Online search is not configured."@),
            _ => false,
        },
{
    match searxng_url {
        Some(base) => {
            let run = SearchRun {
                base: base.to_owned(),
                query: trim(query).to_owned(),
                preferred: match preferred_engines {
                    Some(engines) => Some(engines.to_owned()),
                    None => None,
                },
                results: Vec::new(),
            };
            assert(run@.results =~= Seq::empty());
            Ok(run)
        },
        None => Err(ApiError::bad("Online search is not configured.")),
    }
}

impl SearchRun {
    /// What to ask of the search service now.
    pub fn request(&self) -> (r: SearchRequest)
        ensures
            r.url@ == trimmed_end_of(self@.base, '/') + "/search"@,
            r.query@ == self@.query,
            r.language@ == language_of(self@.query),
            opt_string(r.engines) == self@.preferred,
    {
        SearchRequest {
            url: trim_end_of(self.base.as_str(), '/').to_owned().concat("/search"),
            query: self.query.clone(),
            language: search_language(self.query.as_str()),
            engines: match &self.preferred {
                Some(engines) => Some(engines.clone()),
                None => None,
            },
        }
    }

    /// Takes the service's answer; `None` where the request failed.
    pub fn answer(self, reply: Option<Json>) -> (r: SearchStep)
        ensures
            r@ == self@.next(opt_view(reply)),
    {
        match self.preferred {
            Some(_) => {
                let got = match &reply {
                    Some(response) => search_results(response),
                    None => {
                        let none: Vec<SearchResult> = Vec::new();
                        assert(result_views(none@) =~= Seq::empty());
                        none
                    },
                };
                assert(result_views(got@).len() == got@.len());
                if got.len() < MIN_PREFERRED_SEARCH_RESULTS {
                    SearchStep::Ask(
                        SearchRun {
                            base: self.base,
                            query: self.query,
                            preferred: None,
                            results: got,
                        },
                    )
                } else {
                    SearchStep::Found(keep_first(got))
                }
            },
            None => match &reply {
                Some(response) => {
                    let more = search_results(response);
                    SearchStep::Found(keep_first(merge_results(self.results, &more)))
                },
                None => SearchStep::Failed(ApiError::provider_unavailable()),
            },
        }
    }
}

fn keep_first(results: Vec<SearchResult>) -> (r: Vec<SearchResult>)
    ensures
        result_views(r@) == first_results(result_views(results@)),
{
    let ghost before = results@;
    let mut out = results;
    out.truncate(MAX_SEARCH_RESULTS);
    assert(result_views(out@) =~= first_results(result_views(before)));
    out
}

/// A search asks twice at most: once the preferred engines have answered, the next answer ends it
/// with results or an error.
pub proof fn searches_end(run: SearchRunView, first: Option<JsonView>, second: Option<JsonView>)
    ensures
        run.next(first) matches SearchStepView::Ask(again) ==> !(again.next(second) is Ask),
        run.next(first) matches SearchStepView::Found(results) ==> results.len()
            <= MAX_SEARCH_RESULTS,
{
}

// ---------------------------------------------------------------- laws

/// A result that is used is the item that was found: with its title, its address and its content,
/// and the engine that found it. An item is used where it has a title and a web address.
pub proof fn results_are_taken_as_found(item: JsonView)
    ensures
        usable_result(item) is Some <==> item.at("title"@) is Str && !is_blank(
            item.at("title"@).text_or_empty(),
        ) && item.at("url"@) is Str && "http"@.is_prefix_of(item.at("url"@).text_or_empty()),
        usable_result(item) matches Some(result) ==> {
            &&& item.at("title"@) == JsonView::Str(result.title)
            &&& item.at("url"@) == JsonView::Str(result.url)
            &&& item.at("content"@).text_or_empty() == result.content
            &&& item.at("engine"@) is Str ==> item.at("engine"@) == JsonView::Str(result.engine)
        },
{
}

/// The results of a response come in its order: one more usable item is one more result, the last.
pub proof fn results_keep_their_order(items: Seq<JsonView>, item: JsonView)
    ensures
        ({
            let before = usable_results(JsonView::object().with("results"@, JsonView::Array(items)));
            let after = usable_results(
                JsonView::object().with("results"@, JsonView::Array(items.push(item))),
            );
            match usable_result(item) {
                Some(result) => after == before.push(result),
                None => after == before,
            }
        }),
{
    picked_push(items, item, |i: JsonView| usable_result(i));
}

/// Merging keeps every address of both lists.
pub proof fn merging_leaves_nothing_out(first: Seq<ResultView>, more: Seq<ResultView>, i: int)
    requires
        0 <= i < more.len(),
    ensures
        has_address(merged(first, more), more[i].url),
    decreases more.len(),
{
    let so_far = merged(first, more.drop_last());
    if i < more.len() - 1 {
        merging_leaves_nothing_out(first, more.drop_last(), i);
        let k = choose|k: int| 0 <= k < so_far.len() && (#[trigger] so_far[k]).url == more[i].url;
        assert(merged(first, more)[k] == so_far[k]);
    } else if !has_address(so_far, more.last().url) {
        let n = so_far.len() as int;
        assert(merged(first, more)[n] == more.last());
    }
}

/// The preferred engines are asked first; where they give fewer than three results, all engines are
/// asked the same question, and what was found before stays in front.
pub proof fn searches_fall_back(run: SearchRunView, first: Option<JsonView>, response: JsonView)
    requires
        run.preferred is Some,
    ensures
        ({
            let got = match first {
                Some(reply) => usable_results(reply),
                None => Seq::empty(),
            };
            match run.next(first) {
                SearchStepView::Ask(again) => {
                    &&& got.len() < 3
                    &&& again.query == run.query
                    &&& again.base == run.base
                    &&& again.preferred is None
                    &&& again.next(Some(response)) matches SearchStepView::Found(found)
                        && got.is_prefix_of(found)
                    &&& again.next(None) matches SearchStepView::Failed(error) && error.code
                        == "provider_unavailable"@
                },
                SearchStepView::Found(found) => {
                    &&& got.len() >= 3
                    &&& found.is_prefix_of(got)
                    &&& got.len() <= 8 ==> found == got
                    &&& found.len() >= 3
                },
                SearchStepView::Failed(_) => false,
            }
        }),
{
    let got = match first {
        Some(reply) => usable_results(reply),
        None => Seq::empty(),
    };
    if let SearchStepView::Ask(again) = run.next(first) {
        let more = usable_results(response);
        lemma_merged_keeps(got, more);
        let all = merged(got, more);
        let found = first_results(all);
        assert(got =~= found.subrange(0, got.len() as int)) by {
            assert forall|k: int| 0 <= k < got.len() implies got[k] == found[k] by {
                assert(all.subrange(0, got.len() as int)[k] == all[k]);
            }
        }
    } else {
        let found = first_results(got);
        assert(found =~= got.subrange(0, found.len() as int));
    }
}

proof fn lemma_merged_keeps(first: Seq<ResultView>, more: Seq<ResultView>)
    ensures
        first.is_prefix_of(merged(first, more)),
    decreases more.len(),
{
    if more.len() > 0 {
        lemma_merged_keeps(first, more.drop_last());
        let so_far = merged(first, more.drop_last());
        let all = merged(first, more);
        assert(first =~= all.subrange(0, first.len() as int)) by {
            assert forall|k: int| 0 <= k < first.len() implies first[k] == all[k] by {
                assert(so_far.subrange(0, first.len() as int)[k] == so_far[k]);
            }
        }
    } else {
        assert(first =~= first.subrange(0, first.len() as int));
    }
}

/// A query with a Chinese character is asked in Chinese, any other in English.
pub proof fn queries_are_asked_in_their_language(query: Seq<char>, i: int)
    requires
        0 <= i < query.len(),
    ensures
        '\u{4e00}' <= query[i] <= '\u{9fff}' ==> language_of(query) == "zh-CN"@,
        (forall|k: int| 0 <= k < query.len() ==> (#[trigger] query[k]) < '\u{4e00}') ==> language_of(
            query,
        ) == "en-US"@,
{
}

/// A result without an engine is one of the search service itself. Of what was found, the first eight
/// are kept, those of the preferred engines before all others.
pub proof fn eight_results_are_kept(run: SearchRunView, response: JsonView, item: JsonView)
    requires
        run.preferred is None,
    ensures
        ({
            let all = merged(run.results, usable_results(response));
            &&& run.next(Some(response)) matches SearchStepView::Found(found) && {
                &&& found.is_prefix_of(all)
                &&& all.len() <= 8 ==> found == all
                &&& all.len() > 8 ==> found.len() == 8
            }
            &&& run.next(None) == SearchStepView::Failed(provider_unavailable())
        }),
        usable_result(item) matches Some(result) ==> (!(item.at("engine"@) is Str) ==> result.engine
            == "SearXNG"@),
{
    let all = merged(run.results, usable_results(response));
    let found = first_results(all);
    assert(found =~= all.subrange(0, found.len() as int));
}

/// A query is asked in Chinese exactly where it holds a Chinese character.
pub proof fn chinese_is_told_by_its_characters(query: Seq<char>)
    ensures
        language_of(query) == "zh-CN"@ <==> exists|i: int|
            0 <= i < query.len() && '\u{4e00}' <= #[trigger] query[i] <= '\u{9fff}',
        language_of(query) == "zh-CN"@ || language_of(query) == "en-US"@,
{
    reveal_strlit("zh-CN");
    reveal_strlit("en-US");
    assert("zh-CN"@[0] == 'z' && "en-US"@[0] == 'e');
}

} // verus!
