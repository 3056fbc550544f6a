use malim_chat::addresses::{
    are_safe_public_parts, is_safe_public_ip, is_safe_public_url, lookup_for, lookup_for_parts,
    resolves_to_public_addresses, IpAddr, Lookup, UrlHost, UrlParts,
};
use malim_chat::error::ApiError;
use malim_chat::json::Json;
use malim_chat::pages::{
    broken_page, check_head, html_to_text, open_search_result, read_page, read_text_page,
    refused_page, take_chunk, Page, PageHead, MAX_PAGE_BYTES,
};
use malim_chat::replies::ToolCall;
use malim_chat::web_calls::{
    add_search_sources, execute_web_tool, finish_open, finish_search, tool_search_results, ToolStep,
};
use malim_chat::web_search::{
    fetch_search, merge_results, search_results, SearchResult, SearchRun, SearchStep,
};
use malim_chat::web_tools::{
    content_requests_web_search, is_valid_search_query, lowercase_requests_web_search,
};

fn parse(text: &str) -> Json {
    Json::parse(text).unwrap()
}

fn result(url: &str) -> SearchResult {
    SearchResult {
        title: "T".to_string(),
        url: url.to_string(),
        content: "C".to_string(),
        engine: "E".to_string(),
    }
}

fn results(urls: &[&str]) -> Vec<SearchResult> {
    urls.iter().map(|url| result(url)).collect()
}

fn response(urls: &[&str]) -> Json {
    Json::object().with(
        "results",
        Json::Array(
            urls.iter()
                .map(|url| Json::object().with("title", Json::text("T")).with("url", Json::text(url)))
                .collect(),
        ),
    )
}

fn addresses(results: &[SearchResult]) -> Vec<&str> {
    results.iter().map(|r| r.url.as_str()).collect()
}

fn v4(a: u32, b: u32, c: u32, d: u32) -> IpAddr {
    IpAddr::V4(a << 24 | b << 16 | c << 8 | d)
}

#[test]
fn queries_are_counted_in_characters() {
    assert!(is_valid_search_query(&"字".repeat(180)));
    assert!(!is_valid_search_query(&"字".repeat(181)));
    assert!(!is_valid_search_query("  x  "));
}

#[test]
fn some_phrases_ask_for_a_search() {
    assert!(content_requests_web_search("Please do a WEB Search for me"));
    assert!(content_requests_web_search("请联网搜索一下"));
    assert!(!content_requests_web_search("search nothing"));
    assert!(lowercase_requests_web_search("an online search"));
    assert!(!lowercase_requests_web_search("An ONLINE SEARCH"));
}

#[test]
fn results_need_a_title_and_a_web_address() {
    let found = search_results(&parse("{\"results\":[{\"title\":\"a\",\"url\":\"https://a\"},{\"title\":\" \",\"url\":\"https://b\"},{\"title\":\"c\",\"url\":\"ftp://c\"},{\"title\":\"d\",\"url\":\"http://d\",\"content\":\"x\",\"engine\":\"bing\"},{\"url\":\"https://e\"}]}"));
    assert_eq!(addresses(&found), ["https://a", "http://d"]);
    assert_eq!((found[0].content.as_str(), found[0].engine.as_str()), ("", "SearXNG"));
    assert_eq!((found[1].content.as_str(), found[1].engine.as_str()), ("x", "bing"));
    assert!(search_results(&parse("{}")).is_empty());
}

#[test]
fn merging_lists_each_address_once() {
    let merged = merge_results(results(&["a", "b"]), &results(&["b", "c", "c", "d"]));
    assert_eq!(addresses(&merged), ["a", "b", "c", "d"]);
}

fn run(engines: Option<&str>) -> SearchRun {
    match fetch_search(Some("http://s/"), " q ", engines) {
        Ok(run) => run,
        Err(_) => panic!("search is configured"),
    }
}

#[test]
fn the_preferred_engines_are_asked_first() {
    let asked = run(Some("yandex")).request();
    assert_eq!((asked.url.as_str(), asked.query.as_str()), ("http://s/search", "q"));
    assert_eq!((asked.language, asked.engines.as_deref()), ("en-US", Some("yandex")));
    match run(Some("yandex")).answer(Some(response(&["http://1", "http://2", "http://3"]))) {
        SearchStep::Found(found) => assert_eq!(found.len(), 3),
        _ => panic!("three results are enough"),
    }
    for reply in [Some(response(&["http://1", "http://2"])), None] {
        let first = reply.is_some();
        match run(Some("yandex")).answer(reply) {
            SearchStep::Ask(again) => {
                assert_eq!(again.request().engines, None);
                match again.answer(Some(response(&["http://2", "http://9"]))) {
                    SearchStep::Found(found) => {
                        let expected: &[&str] = if first {
                            &["http://1", "http://2", "http://9"]
                        } else {
                            &["http://2", "http://9"]
                        };
                        assert_eq!(addresses(&found), expected);
                    }
                    _ => panic!("the second answer ends the search"),
                }
            }
            _ => panic!("two results are not enough"),
        }
    }
}

#[test]
fn a_search_gives_eight_results_or_an_error() {
    let many: Vec<String> = (0..12).map(|i| format!("http://{i}")).collect();
    let many: Vec<&str> = many.iter().map(String::as_str).collect();
    match run(None).answer(Some(response(&many))) {
        SearchStep::Found(found) => assert_eq!(addresses(&found), &many[..8]),
        _ => panic!("there are results"),
    }
    match run(None).answer(None) {
        SearchStep::Failed(error) => assert_eq!(error.code, "provider_unavailable"),
        _ => panic!("the request failed"),
    }
    match fetch_search(None, "q", None) {
        Err(error) => assert_eq!(error.message, "Online search is not configured."),
        Ok(_) => panic!("search is not configured"),
    }
    match fetch_search(Some("http://s"), "一下", None) {
        Ok(run) => assert_eq!(run.request().language, "zh-CN"),
        Err(_) => panic!("search is configured"),
    }
}

#[test]
fn sources_are_collected_up_to_twelve() {
    let mut sources = vec![parse("{\"url\":\"http://0\",\"query\":\"old\"}"), Json::Null];
    let urls: Vec<String> = (0..20).map(|i| format!("http://{i}")).collect();
    let urls: Vec<&str> = urls.iter().map(String::as_str).collect();
    add_search_sources(&mut sources, "q", &results(&urls));
    assert_eq!(sources.len(), 12);
    assert_eq!(sources[0].at("query").as_str(), Some("old"));
    assert_eq!(
        sources[2].print(),
        "{\"content\":\"C\",\"engine\":\"E\",\"query\":\"q\",\"title\":\"T\",\"url\":\"http://1\"}"
    );
    add_search_sources(&mut sources, "r", &results(&["http://new", "http://newer"]));
    assert_eq!(sources.len(), 13);
}

#[test]
fn the_model_is_shown_five_short_results() {
    let long = Json::object().with("content", Json::text(&"é".repeat(1000)));
    let shown = tool_search_results(&vec![
        long, Json::Null, parse("{\"content\":7}"), Json::Null, Json::Null, Json::Null,
    ]);
    let shown = shown.as_array().unwrap();
    assert_eq!(shown.len(), 5);
    assert_eq!(shown[0].at("content").as_str().unwrap().chars().count(), 900);
    assert_eq!(shown[2].at("content").as_u64(), Some(7));
}

#[test]
fn a_search_opens_up_the_public_addresses_it_found() {
    let mut sources = vec![];
    let mut allowed = vec!["https://known.example/".to_string()];
    let told = finish_search(
        "q",
        Ok(results(&["https://known.example/", "http://10.0.0.1/", "https://new.example/"])),
        &mut sources,
        &mut allowed,
    );
    assert_eq!(allowed, ["https://known.example/", "https://new.example/"]);
    assert_eq!(told.at("results").as_array().unwrap().len(), 3);
    let failed = finish_search("q", Err(ApiError::bad("offline")), &mut sources, &mut allowed);
    assert_eq!(failed.print(), "{\"error\":\"offline\"}");
    assert_eq!((sources.len(), allowed.len()), (3, 2));
}

#[test]
fn an_opened_page_is_kept_with_its_source() {
    let mut sources = vec![parse("{\"url\":\"u\",\"content\":\"old\"}"), parse("{\"url\":\"u\",\"content\":\"same\"}")];
    let page = Page { url: "u".to_string(), content: "new".to_string() };
    assert_eq!(finish_open(Ok(page), &mut sources).print(), "{\"content\":\"new\",\"url\":\"u\"}");
    assert_eq!(sources[0].at("content").as_str(), Some("new"));
    assert_eq!(sources[1].at("content").as_str(), Some("same"));
    let other = Page { url: "v".to_string(), content: "x".to_string() };
    finish_open(Ok(other), &mut sources);
    assert_eq!(sources.len(), 2);
    assert_eq!(finish_open(Err("no".to_string()), &mut sources).print(), "{\"error\":\"no\"}");
}

#[test]
fn tools_are_told_apart() {
    let step = |name: &str, input: &str| {
        execute_web_tool(&ToolCall { id: "1".to_string(), name: name.to_string(), input: parse(input) })
    };
    assert!(matches!(step("web_search", "{\"query\":\" a  b \"}"), ToolStep::Search(q) if q == "a b"));
    assert!(matches!(step("open_web_page", "{\"url\":\"u\"}"), ToolStep::Open(u) if u == "u"));
    assert!(matches!(step("web_search", "{}"), ToolStep::Done(_)));
    assert!(matches!(step("other", "{}"), ToolStep::Done(_)));
}

#[test]
fn special_addresses_are_not_public() {
    for ip in [
        v4(10, 0, 0, 0), v4(10, 255, 255, 255), v4(172, 16, 0, 0), v4(172, 31, 255, 255),
        v4(192, 168, 0, 0), v4(192, 168, 255, 255), v4(127, 0, 0, 1), v4(169, 254, 7, 7),
        v4(0, 0, 0, 0), v4(255, 255, 255, 255), IpAddr::V6(0), IpAddr::V6(1),
        IpAddr::V6(0xfc << 120), IpAddr::V6((0xfe << 120) - 1), IpAddr::V6(0xfe80 << 112),
        IpAddr::V6((0xfec0 << 112) - 1),
    ] {
        assert!(!is_safe_public_ip(ip), "{:?}", ip);
    }
    for ip in [
        v4(9, 255, 255, 255), v4(11, 0, 0, 0), v4(172, 15, 255, 255), v4(172, 32, 0, 0),
        v4(192, 167, 255, 255), v4(192, 169, 0, 0), v4(126, 0, 0, 1), v4(128, 0, 0, 0),
        v4(169, 253, 0, 0), v4(0, 0, 0, 1), v4(255, 255, 255, 254), IpAddr::V6(2),
        IpAddr::V6((0xfc << 120) - 1), IpAddr::V6(0xfe << 120), IpAddr::V6((0xfe80 << 112) - 1),
        IpAddr::V6(0xfec0 << 112), IpAddr::V6(0x2606 << 112),
    ] {
        assert!(is_safe_public_ip(ip), "{:?}", ip);
    }
}

#[test]
fn only_public_web_addresses_are_safe() {
    for url in [
        "ftp://example.com/", "https://localhost/", "https://LocalHost:8080/", "http://a.localhost/",
        "http://0x7f.1/", "http://2130706433/", "http://[fe80::1]/", "http://192.168.1.1/", "not a url",
        "file:///etc/hosts", "data:text/plain,x", "",
    ] {
        assert!(!is_safe_public_url(url), "{}", url);
    }
    for url in ["http://example.com", "https://8.8.8.8/dns", "https://[2606:4700::1]/", "http://localhost.example/"] {
        assert!(is_safe_public_url(url), "{}", url);
    }
    let parts = |scheme: &str, host: Option<UrlHost>| UrlParts { scheme: scheme.to_string(), host, port: None };
    assert!(are_safe_public_parts(&parts("https", Some(UrlHost::Domain("example.com".to_string())))));
    assert!(!are_safe_public_parts(&parts("https", None)));
    assert!(!are_safe_public_parts(&parts("ws", Some(UrlHost::Domain("example.com".to_string())))));
}

#[test]
fn names_are_looked_up_with_their_port() {
    match lookup_for("https://example.com/x") {
        Lookup::Name { host, port } => assert_eq!((host.as_str(), port), ("example.com", 443)),
        Lookup::Known(_) => panic!("a name must be looked up"),
    }
    match lookup_for("http://example.com:8080/") {
        Lookup::Name { port, .. } => assert_eq!(port, 8080),
        Lookup::Known(_) => panic!("a name must be looked up"),
    }
    assert!(matches!(lookup_for("https://8.8.8.8/"), Lookup::Known(true)));
    assert!(matches!(lookup_for("nonsense"), Lookup::Known(false)));
    let unknown = UrlParts {
        scheme: "x".to_string(),
        host: Some(UrlHost::Domain("h".to_string())),
        port: None,
    };
    assert!(matches!(lookup_for_parts(Some(unknown)), Lookup::Name { port: 443, .. }));
    for url in ["foo://127.0.0.1", "foo://255.255.255.255:9/x", "foo://[::1]/", "ftp://10.0.0.1/"] {
        assert!(matches!(lookup_for(url), Lookup::Known(true)), "{}", url);
    }
    for url in ["foo://127.0.0.01", "foo://127.0.0", "foo://1.2.3.256", "foo://1.2.3.4.5", "foo://1.2.+3.4", "foo://1..3.4"] {
        assert!(matches!(lookup_for(url), Lookup::Name { .. }), "{}", url);
    }
    assert!(resolves_to_public_addresses(Some(vec![v4(8, 8, 8, 8), IpAddr::V6(2)])));
    assert!(!resolves_to_public_addresses(Some(vec![v4(8, 8, 8, 8), v4(10, 0, 0, 1)])));
    assert!(!resolves_to_public_addresses(Some(vec![])));
    assert!(!resolves_to_public_addresses(None));
}

#[test]
fn only_addresses_that_a_search_found_are_opened() {
    let allowed = vec!["https://example.com/a".to_string(), "http://127.0.0.1/".to_string()];
    assert!(open_search_result("https://example.com/a", &allowed).is_some());
    assert!(open_search_result("https://example.com/b", &allowed).is_none());
    assert!(open_search_result("http://127.0.0.1/", &allowed).is_none());
    assert_eq!(refused_page(), "The URL must be an exact public result returned by web_search.");
    assert_eq!(broken_page(), "The page could not be read.");
}

#[test]
fn pages_of_other_types_are_not_read() {
    let head = |status: u16, kind: &str| {
        check_head(&PageHead::Answered { status, content_type: kind.to_string() })
    };
    assert_eq!(check_head(&PageHead::Unreachable).as_deref(), Some("The page could not be retrieved."));
    assert_eq!(head(404, "text/html").as_deref(), Some("The page returned an error response."));
    assert_eq!(head(503, "").as_deref(), Some("The page returned an error response."));
    assert_eq!(head(200, "image/png").as_deref(), Some("The result is not a readable text page."));
    for kind in ["", "Text/Plain; charset=utf-8", "application/xhtml+xml", "APPLICATION/XML"] {
        assert_eq!(head(200, kind), None);
    }
    assert_eq!(head(302, "text/html"), None);
}

#[test]
fn a_page_is_read_up_to_the_limit() {
    let mut bytes = vec![1u8; MAX_PAGE_BYTES - 2];
    assert!(take_chunk(&mut bytes, &vec![2, 3, 4]));
    assert_eq!(bytes.len(), MAX_PAGE_BYTES);
    assert_eq!(bytes[MAX_PAGE_BYTES - 1], 3);
    assert!(!take_chunk(&mut bytes, &vec![5]));
    assert_eq!(bytes.len(), MAX_PAGE_BYTES);
    let mut small = vec![];
    assert!(take_chunk(&mut small, &vec![7, 8]));
    assert_eq!(small, [7, 8]);
}

#[test]
fn markup_becomes_text() {
    assert_eq!(
        html_to_text("<html><HEAD><style>p{}</style></HEAD><p>Hello&nbsp;<b>w</b>orld</p><SCRIPT>let x = '<p>';</SCRIPT> &lt;3 &amp; &quot;q&quot; &#39;s&#39;"),
        "Hello w orld <3 & \"q\" 's'"
    );
    assert_eq!(html_to_text("a<svg><path/></svg>b<noscript>c</noscript>d"), "a b d");
    assert_eq!(html_to_text("kept<script>never ends"), "kept");
    assert_eq!(html_to_text("a > b < c"), "a b");
    assert_eq!(html_to_text("<p>žluť</p><STYLE>é</STYLE>x"), "žluť x");
    assert_eq!(html_to_text(&"word ".repeat(5000)).chars().count(), 12_000);
}

#[test]
fn pages_are_read_by_their_type() {
    let read = |kind: &str, raw: &str| read_text_page("u", kind, raw).map(|page| page.content);
    assert_eq!(read("text/html", "<p>x</p>").unwrap(), "x");
    assert_eq!(read("text/plain", "a  <b>\n c").unwrap(), "a <b> c");
    assert_eq!(read("text/plain", "<html><p>y").unwrap(), "y");
    assert_eq!(read("TEXT/HTML", "<br>").unwrap_err(), "The page did not contain readable text.");
    let page = match read_page("u", "text/plain", &vec![0x61, 0xff, 0x62]) {
        Ok(page) => page,
        Err(message) => panic!("{}", message),
    };
    assert_eq!((page.url.as_str(), page.content.as_str()), ("u", "a\u{fffd}b"));
}
