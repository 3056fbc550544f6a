//! The two web tools: search the public web, and read a page that a search returned.

use vstd::prelude::*;
use vstd::string::*;

use crate::json::{Json, JsonView};
use crate::letters::{lowercased, to_lowercase};
use crate::names::names_are_told_apart;
use crate::search::{contains, holds};
use crate::text::{same, trim, trimmed, trimming_is_idempotent};

verus! {

// ---------------------------------------------------------------- queries

/// Whether a search query is neither too short nor too long once it is trimmed.
pub open spec fn valid_query(query: Seq<char>) -> bool {
    2 <= trimmed(query).len() <= 180
}

/// Whether a search query has between 2 and 180 characters.
pub fn is_valid_search_query(query: &str) -> (r: bool)
    ensures
        r == valid_query(query@),
{
    let count = trim(query).unicode_len();
    2 <= count && count <= 180
}

/// The phrases that ask for a web search.
pub open spec fn search_phrases() -> Seq<Seq<char>> {
    seq![
        "web search"@,
        "online search"@,
        "search the internet"@,
        "联网搜索"@,
        "网络搜索"@,
        "使用网络搜索"@,
        "上网搜索"@,
        "可以上网"@,
        "帮我搜索"@,
        "搜索一下"@,
    ]
}

/// Whether a text in lower case holds one of the phrases that ask for a web search.
pub open spec fn asks_for_search(lower: Seq<char>) -> bool {
    exists|i: int| 0 <= i < search_phrases().len() && holds(lower, #[trigger] search_phrases()[i])
}

/// Whether a text that is already in lower case asks for a web search.
pub fn lowercase_requests_web_search(lower: &str) -> (r: bool)
    ensures
        r == asks_for_search(lower@),
{
    let phrases: [&str; 10] = [
        "web search",
        "online search",
        "search the internet",
        "联网搜索",
        "网络搜索",
        "使用网络搜索",
        "上网搜索",
        "可以上网",
        "帮我搜索",
        "搜索一下",
    ];
    for i in 0..10
        invariant
            phrases@.len() == 10,
            forall|j: int| 0 <= j < 10 ==> (#[trigger] phrases@[j])@ == search_phrases()[j],
            forall|j: int| 0 <= j < i ==> !holds(lower@, #[trigger] search_phrases()[j]),
    {
        if contains(lower, phrases[i]) {
            assert(holds(lower@, search_phrases()[i as int]));
            return true;
        }
    }
    false
}

/// Whether a question asks for a web search in so many words.
pub fn content_requests_web_search(question: &str) -> (r: bool)
    ensures
        r == asks_for_search(lowercased(question@)),
{
    let normalized = to_lowercase(question);
    lowercase_requests_web_search(normalized.as_str())
}

// ---------------------------------------------------------------- tool definitions

/// The schema of an object with one required string property.
pub open spec fn one_string_schema(name: Seq<char>, description: Seq<char>) -> JsonView {
    JsonView::object().with("type"@, JsonView::Str("object"@)).with(
        "properties"@,
        JsonView::object().with(
            name,
            JsonView::object().with("type"@, JsonView::Str("string"@)).with(
                "description"@,
                JsonView::Str(description),
            ),
        ),
    ).with("required"@, JsonView::Array(seq![JsonView::Str(name)])).with(
        "additionalProperties"@,
        JsonView::Bool(false),
    )
}

fn make_one_string_schema(name: &str, description: &str) -> (r: Json)
    ensures
        r@ == one_string_schema(name@, description@),
{
    let property = Json::object().with("type", Json::text("string")).with(
        "description",
        Json::text(description),
    );
    Json::object().with("type", Json::text("object")).with(
        "properties",
        Json::object().with(name, property),
    ).with("required", Json::list1(Json::text(name))).with("additionalProperties", Json::Bool(false))
}

/// One tool as a dialect describes it: Anthropic names the schema at the top, the others put a
/// function around it.
pub open spec fn tool_definition(
    anthropic: bool,
    name: Seq<char>,
    description: Seq<char>,
    schema: JsonView,
) -> JsonView {
    if anthropic {
        JsonView::object().with("name"@, JsonView::Str(name)).with(
            "description"@,
            JsonView::Str(description),
        ).with("input_schema"@, schema)
    } else {
        JsonView::object().with("type"@, JsonView::Str("function"@)).with(
            "function"@,
            JsonView::object().with("name"@, JsonView::Str(name)).with(
                "description"@,
                JsonView::Str(description),
            ).with("parameters"@, schema),
        )
    }
}

fn make_tool_definition(anthropic: bool, name: &str, description: &str, schema: Json) -> (r: Json)
    ensures
        r@ == tool_definition(anthropic, name@, description@, schema@),
{
    let head = Json::object();
    if anthropic {
        head.with("name", Json::text(name)).with("description", Json::text(description)).with(
            "input_schema",
            schema,
        )
    } else {
        let function = Json::object().with("name", Json::text(name)).with(
            "description",
            Json::text(description),
        ).with("parameters", schema);
        head.with("type", Json::text("function")).with("function", function)
    }
}

/// The definitions of both web tools in the spelling of a dialect.
pub open spec fn tool_definitions(kind: Seq<char>) -> JsonView {
    let anthropic = kind == "anthropic"@;
    JsonView::Array(
        seq![
            tool_definition(
                anthropic,
                "web_search"@,
                "Search the public web for current, factual information. Use focused queries and refine them when the initial evidence is weak."@,
                one_string_schema("query"@, "A concise, specific search-engine query."@),
            ),
            tool_definition(
                anthropic,
                "open_web_page"@,
                "Read the text of an exact result URL returned by web_search. Use this to verify details before making consequential claims."@,
                one_string_schema("url"@, "An exact http(s) URL returned by web_search."@),
            ),
        ],
    )
}

/// The definitions of both web tools in the spelling of a dialect.
pub fn web_tool_definitions(kind: &str) -> (r: Json)
    ensures
        r@ == tool_definitions(kind@),
{
    let anthropic = same(kind, "anthropic");
    let search_schema = make_one_string_schema("query", "A concise, specific search-engine query.");
    let open_schema = make_one_string_schema("url", "An exact http(s) URL returned by web_search.");
    Json::list2(
        make_tool_definition(
            anthropic,
            "web_search",
            "Search the public web for current, factual information. Use focused queries and refine them when the initial evidence is weak.",
            search_schema,
        ),
        make_tool_definition(
            anthropic,
            "open_web_page",
            "Read the text of an exact result URL returned by web_search. Use this to verify details before making consequential claims.",
            open_schema,
        ),
    )
}

// ---------------------------------------------------------------- laws

/// A tool takes one string under its own name, must be given it, and takes nothing else.
pub proof fn tools_take_one_string(name: Seq<char>, description: Seq<char>)
    ensures
        ({
            let schema = one_string_schema(name, description);
            &&& schema.at("type"@) == JsonView::Str("object"@)
            &&& schema.at("properties"@).at(name).at("type"@) == JsonView::Str("string"@)
            &&& schema.at("properties"@).at(name).at("description"@) == JsonView::Str(description)
            &&& schema.at("required"@) == JsonView::Array(seq![JsonView::Str(name)])
            &&& schema.at("additionalProperties"@) == JsonView::Bool(false)
        }),
{
    names_are_told_apart();
}

/// A definition is the same tool in both dialects: its name, its description and its argument stand
/// there, under the names of the dialect.
pub proof fn definitions_agree(name: Seq<char>, description: Seq<char>, schema: JsonView)
    ensures
        ({
            let own = tool_definition(true, name, description, schema);
            let chat = tool_definition(false, name, description, schema);
            &&& chat.at("type"@) == JsonView::Str("function"@)
            &&& own.at("name"@) == JsonView::Str(name)
            &&& chat.at("function"@).at("name"@) == JsonView::Str(name)
            &&& own.at("description"@) == JsonView::Str(description)
            &&& chat.at("function"@).at("description"@) == JsonView::Str(description)
            &&& own.at("input_schema"@) == schema
            &&& chat.at("function"@).at("parameters"@) == schema
        }),
{
    names_are_told_apart();
}

/// In both dialects the model is offered a search that must be given a query, and pages that must be
/// given an address.
pub proof fn tools_ask_for_their_argument(kind: Seq<char>)
    ensures
        ({
            let tools = tool_definitions(kind).items_or_empty();
            let search = if kind == "anthropic"@ {
                tools[0].at("input_schema"@)
            } else {
                tools[0].at("function"@).at("parameters"@)
            };
            let page = if kind == "anthropic"@ {
                tools[1].at("input_schema"@)
            } else {
                tools[1].at("function"@).at("parameters"@)
            };
            &&& tools.len() == 2
            &&& search.at("required"@) == JsonView::Array(seq![JsonView::Str("query"@)])
            &&& page.at("required"@) == JsonView::Array(seq![JsonView::Str("url"@)])
        }),
{
    names_are_told_apart();
}

/// White space around a query does not count.
pub proof fn queries_count_without_margins(query: Seq<char>)
    ensures
        valid_query(query) <==> valid_query(trimmed(query)),
        valid_query(query) ==> query.len() >= 2,
        query.len() < 2 ==> !valid_query(query),
{
    trimming_is_idempotent(query);
    lemma_trimmed_is_shorter(query);
}

proof fn lemma_trimmed_is_shorter(s: Seq<char>)
    ensures
        trimmed(s).len() <= s.len(),
{
    lemma_start_is_shorter(s);
    lemma_end_is_shorter(crate::text::trimmed_start(s));
}

proof fn lemma_start_is_shorter(s: Seq<char>)
    ensures
        crate::text::trimmed_start(s).len() <= s.len(),
    decreases s.len(),
{
    if s.len() > 0 {
        lemma_start_is_shorter(s.skip(1));
    }
}

proof fn lemma_end_is_shorter(s: Seq<char>)
    ensures
        crate::text::trimmed_end(s).len() <= s.len(),
    decreases s.len(),
{
    if s.len() > 0 {
        lemma_end_is_shorter(s.drop_last());
    }
}

/// A message asks for a search exactly where it holds one of the usual phrases for it.
pub proof fn searches_are_asked_for_in_words(lower: Seq<char>)
    ensures
        asks_for_search(lower) <==> {
            ||| holds(lower, "web search"@)
            ||| holds(lower, "online search"@)
            ||| holds(lower, "search the internet"@)
            ||| holds(lower, "联网搜索"@)
            ||| holds(lower, "网络搜索"@)
            ||| holds(lower, "使用网络搜索"@)
            ||| holds(lower, "上网搜索"@)
            ||| holds(lower, "可以上网"@)
            ||| holds(lower, "帮我搜索"@)
            ||| holds(lower, "搜索一下"@)
        },
{
    let phrases = search_phrases();
    assert(phrases[0] == "web search"@);
    assert(phrases[1] == "online search"@);
    assert(phrases[2] == "search the internet"@);
    assert(phrases[3] == "联网搜索"@);
    assert(phrases[4] == "网络搜索"@);
    assert(phrases[5] == "使用网络搜索"@);
    assert(phrases[6] == "上网搜索"@);
    assert(phrases[7] == "可以上网"@);
    assert(phrases[8] == "帮我搜索"@);
    assert(phrases[9] == "搜索一下"@);
}

/// A query counts by what is left of it without white space around: from 2 to 180 characters.
pub proof fn queries_have_2_to_180_characters(query: Seq<char>)
    ensures
        valid_query(query) <==> 2 <= trimmed(query).len() && trimmed(query).len() <= 180,
{
}

/// The model is told of a search and of opening a page, by the names that it calls them by, what each
/// is for and what its argument is.
pub proof fn tools_are_described_to_the_model(kind: Seq<char>)
    ensures
        ({
            let tools = tool_definitions(kind).items_or_empty();
            let search = if kind == "anthropic"@ {
                tools[0]
            } else {
                tools[0].at("function"@)
            };
            let page = if kind == "anthropic"@ {
                tools[1]
            } else {
                tools[1].at("function"@)
            };
            let shape = |tool: JsonView|
                if kind == "anthropic"@ {
                    tool.at("input_schema"@)
                } else {
                    tool.at("parameters"@)
                };
            &&& search.at("name"@) == JsonView::Str("web_search"@)
            &&& search.at("description"@) == JsonView::Str(
                "Search the public web for current, factual information. Use focused queries and refine them when the initial evidence is weak."@,
            )
            &&& shape(search).at("properties"@).at("query"@).at("description"@) == JsonView::Str(
                "A concise, specific search-engine query."@,
            )
            &&& page.at("name"@) == JsonView::Str("open_web_page"@)
            &&& page.at("description"@) == JsonView::Str(
                "Read the text of an exact result URL returned by web_search. Use this to verify details before making consequential claims."@,
            )
            &&& shape(page).at("properties"@).at("url"@).at("description"@) == JsonView::Str(
                "An exact http(s) URL returned by web_search."@,
            )
        }),
{
    names_are_told_apart();
}

} // verus!
