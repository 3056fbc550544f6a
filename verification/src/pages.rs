//! Reading a web page: what may be opened, how much of it is read, and the text in it.

use vstd::prelude::*;
use vstd::string::*;

use crate::addresses::{is_safe_public_url, lookup_for, lookup_of, parsed_url, public_url, Lookup, LookupView};
use crate::letters::{ascii_lower, ascii_lowered, lower_ascii, to_ascii_lowercase};
use crate::search::{
    contains, find_from, found, found_from, found_from_is_least, found_iff_holds, found_in_suffix,
    holds, matches_at, replace, replaced,
};
use crate::text::{
    blank, chars_of, clip, clipped, clipping_keeps_the_start, collapse, collapsed, is_blank,
    opt_string, same, slice, texts,
};

verus! {

/// No more characters of a page than this are kept.
pub const MAX_PAGE_CHARACTERS: usize = 12_000;

/// No more bytes of a page than this are read.
pub const MAX_PAGE_BYTES: usize = 1_000_000;

// ---------------------------------------------------------------- HTML

/// `s` with each element that starts with `open` and ends with `close`, in letters of either case,
/// replaced by a space; an element that does not end reaches to the end of the page.
pub open spec fn without_element(s: Seq<char>, open: Seq<char>, close: Seq<char>) -> Seq<char>
    decreases s.len(),
    via without_element_decreases
{
    match found(ascii_lowered(s), open) {
        Some(a) => match found_from(ascii_lowered(s), close, a) {
            Some(b) => if close.len() == 0 {
                s
            } else {
                s.take(a) + seq![' '] + without_element(s.skip(b + close.len()), open, close)
            },
            None => s.take(a) + seq![' '],
        },
        None => s,
    }
}

#[via_fn]
proof fn without_element_decreases(s: Seq<char>, open: Seq<char>, close: Seq<char>) {
    match found(ascii_lowered(s), open) {
        Some(a) => {
            found_from_is_least(ascii_lowered(s), open, 0);
            found_from_is_least(ascii_lowered(s), close, a);
        },
        None => {},
    }
}

/// `s` without tags: each `<` becomes a space, what follows up to the next `>` is dropped, and so
/// is every `>`. `inside` says whether `s` starts within a tag.
pub open spec fn without_tags(s: Seq<char>, inside: bool) -> Seq<char>
    decreases s.len(),
{
    if s.len() == 0 {
        Seq::empty()
    } else if s[0] == '<' {
        seq![' '] + without_tags(s.skip(1), true)
    } else if s[0] == '>' {
        without_tags(s.skip(1), false)
    } else if inside {
        without_tags(s.skip(1), true)
    } else {
        seq![s[0]] + without_tags(s.skip(1), false)
    }
}

/// `s` with the common entities replaced, one kind after the other.
pub open spec fn without_entities(s: Seq<char>) -> Seq<char> {
    let s = replaced(s, "&nbsp;"@, " "@);
    let s = replaced(s, "&amp;"@, "&"@);
    let s = replaced(s, "&lt;"@, "<"@);
    let s = replaced(s, "&gt;"@, ">"@);
    let s = replaced(s, "&quot;"@, "\""@);
    replaced(s, "&#39;"@, "'"@)
}

/// `s` without the elements whose content is not for reading.
pub open spec fn without_hidden(s: Seq<char>) -> Seq<char> {
    let s = without_element(s, "<script"@, "</script>"@);
    let s = without_element(s, "<style"@, "</style>"@);
    let s = without_element(s, "<noscript"@, "</noscript>"@);
    without_element(s, "<svg"@, "</svg>"@)
}

/// The text of an HTML page, with white space collapsed.
pub open spec fn html_text(html: Seq<char>) -> Seq<char> {
    clipped(
        collapsed(without_entities(without_tags(without_hidden(html), false))),
        MAX_PAGE_CHARACTERS as nat,
    )
}

fn lower_all(chars: &Vec<char>) -> (r: Vec<char>)
    ensures
        r@ == ascii_lowered(chars@),
{
    let mut out: Vec<char> = Vec::new();
    for i in 0..chars.len()
        invariant
            out@ == ascii_lowered(chars@).take(i as int),
    {
        out.push(lower_ascii(chars[i]));
        assert(ascii_lowered(chars@).take(i + 1) =~= ascii_lowered(chars@).take(i as int).push(
            ascii_lower(chars@[i as int]),
        ));
    }
    assert(ascii_lowered(chars@).take(chars@.len() as int) =~= ascii_lowered(chars@));
    out
}

fn drop_element(s: &str, open: &str, close: &str) -> (r: String)
    requires
        close@.len() > 0,
    ensures
        r@ == without_element(s@, open@, close@),
{
    let chars = chars_of(s);
    let lower = lower_all(&chars);
    let o = chars_of(open);
    let c = chars_of(close);
    let n = chars.len();
    let mut out = String::new();
    let mut at: usize = 0;
    assert(s@.skip(0) =~= s@);
    assert(out@ + without_element(s@, open@, close@) =~= without_element(s@, open@, close@));
    loop
        invariant
            at <= n == chars@.len(),
            chars@ == s@,
            lower@ == ascii_lowered(s@),
            lower@.len() == n,
            o@ == open@,
            c@ == close@,
            close@.len() > 0,
            out@ + without_element(s@.skip(at as int), open@, close@) == without_element(
                s@,
                open@,
                close@,
            ),
        decreases n - at,
    {
        let ghost rest = s@.skip(at as int);
        let ghost before = out@;
        proof {
            assert(ascii_lowered(rest) =~= lower@.skip(at as int));
            found_in_suffix(lower@, open@, at as int, 0);
            found_from_is_least(lower@, open@, at as int);
        }
        match find_from(&lower, &o, at) {
            Some(a) => {
                proof {
                    assert(found(ascii_lowered(rest), open@) == Some(a - at));
                    assert(rest.take(a - at) =~= s@.subrange(at as int, a as int));
                    found_in_suffix(lower@, close@, at as int, a - at);
                    found_from_is_least(lower@, close@, a as int);
                }
                out.append(slice(&chars, at, a).as_str());
                out.push(' ');
                match find_from(&lower, &c, a) {
                    Some(b) => {
                        proof {
                            assert(found_from(ascii_lowered(rest), close@, a - at) == Some(b - at));
                            assert(rest.skip(b - at + close@.len()) =~= s@.skip(b + close@.len()));
                            let tail = without_element(s@.skip(b + close@.len()), open@, close@);
                            assert(before + (rest.take(a - at) + seq![' '] + tail) =~= out@ + tail);
                        }
                        at = b + c.len();
                    },
                    None => {
                        proof {
                            assert(found_from(ascii_lowered(rest), close@, a - at) is None);
                            assert(before + (rest.take(a - at) + seq![' ']) =~= out@);
                        }
                        return out;
                    },
                }
            },
            None => {
                out.append(slice(&chars, at, n).as_str());
                proof {
                    assert(found(ascii_lowered(rest), open@) is None);
                    assert(rest =~= s@.subrange(at as int, n as int));
                }
                return out;
            },
        }
    }
}

fn drop_tags(s: &str) -> (r: String)
    ensures
        r@ == without_tags(s@, false),
{
    let chars = chars_of(s);
    let mut out = String::new();
    let mut inside = false;
    assert(s@.skip(0) =~= s@);
    assert(out@ + without_tags(s@, false) =~= without_tags(s@, false));
    for i in 0..chars.len()
        invariant
            chars@ == s@,
            out@ + without_tags(s@.skip(i as int), inside) == without_tags(s@, false),
    {
        let c = chars[i];
        let ghost before = out@;
        let ghost rest = s@.skip(i as int);
        let ghost tail = s@.skip(i + 1);
        assert(rest.skip(1) =~= tail);
        if c == '<' {
            inside = true;
            out.push(' ');
            assert(before + (seq![' '] + without_tags(tail, true)) =~= out@ + without_tags(
                tail,
                true,
            ));
        } else if c == '>' {
            inside = false;
        } else if !inside {
            out.push(c);
            assert(before + (seq![c] + without_tags(tail, false)) =~= out@ + without_tags(
                tail,
                false,
            ));
        }
    }
    assert(out@ + without_tags(s@.skip(s@.len() as int), inside) =~= out@);
    out
}

fn replace_entities(s: &str) -> (r: String)
    ensures
        r@ == without_entities(s@),
{
    proof {
        reveal_strlit("&nbsp;");
        reveal_strlit("&amp;");
        reveal_strlit("&lt;");
        reveal_strlit("&gt;");
        reveal_strlit("&quot;");
        reveal_strlit("&#39;");
    }
    let s = replace(s, "&nbsp;", " ");
    let s = replace(s.as_str(), "&amp;", "&");
    let s = replace(s.as_str(), "&lt;", "<");
    let s = replace(s.as_str(), "&gt;", ">");
    let s = replace(s.as_str(), "&quot;", "\"");
    replace(s.as_str(), "&#39;", "'")
}

/// The text of an HTML page, with white space collapsed and at most 12,000 characters of it.
pub fn html_to_text(html: &str) -> (r: String)
    ensures
        r@ == html_text(html@),
        r@.len() <= MAX_PAGE_CHARACTERS,
{
    proof {
        reveal_strlit("</script>");
        reveal_strlit("</style>");
        reveal_strlit("</noscript>");
        reveal_strlit("</svg>");
    }
    let compact = drop_element(html, "<script", "</script>");
    let compact = drop_element(compact.as_str(), "<style", "</style>");
    let compact = drop_element(compact.as_str(), "<noscript", "</noscript>");
    let compact = drop_element(compact.as_str(), "<svg", "</svg>");
    let text = drop_tags(compact.as_str());
    let text = replace_entities(text.as_str());
    let text = collapse(text.as_str());
    clip(text.as_str(), MAX_PAGE_CHARACTERS)
}

proof fn lemma_without_tags_has_none(s: Seq<char>, inside: bool)
    ensures
        !without_tags(s, inside).contains('<'),
        !without_tags(s, inside).contains('>'),
    decreases s.len(),
{
    if s.len() > 0 {
        let rest = s.skip(1);
        lemma_without_tags_has_none(rest, true);
        lemma_without_tags_has_none(rest, false);
        let all = without_tags(s, inside);
        if s[0] == '<' {
            assert forall|i: int| 0 <= i < all.len() implies all[i] != '<' && all[i] != '>' by {
                if i > 0 {
                    assert(all[i] == without_tags(rest, true)[i - 1]);
                    assert(without_tags(rest, true).contains(all[i]));
                }
            }
        } else if s[0] != '>' && !inside {
            assert forall|i: int| 0 <= i < all.len() implies all[i] != '<' && all[i] != '>' by {
                if i > 0 {
                    assert(all[i] == without_tags(rest, false)[i - 1]);
                    assert(without_tags(rest, false).contains(all[i]));
                }
            }
        }
    }
}

/// Whatever the page, no angle bracket of its markup gets into the text: before the entities are
/// replaced there is none left.
pub proof fn markup_is_removed(html: Seq<char>)
    ensures
        !without_tags(without_hidden(html), false).contains('<'),
        !without_tags(without_hidden(html), false).contains('>'),
{
    lemma_without_tags_has_none(without_hidden(html), false);
}

// ---------------------------------------------------------------- opening

/// Whether an address is among those that may be opened.
pub open spec fn is_allowed(allowed: Seq<String>, url: Seq<char>) -> bool {
    texts(allowed).contains(url)
}

/// What opening an address takes: none, where it may not be opened whatever it resolves to.
pub open spec fn opening(url: Seq<char>, allowed: Seq<String>) -> Option<LookupView> {
    if is_allowed(allowed, url) && public_url(url) {
        Some(lookup_of(parsed_url(url)))
    } else {
        None
    }
}

/// Whether an address is among those that may be opened.
pub fn find_allowed(allowed: &Vec<String>, url: &str) -> (r: bool)
    ensures
        r == is_allowed(allowed@, url@),
{
    for i in 0..allowed.len()
        invariant
            forall|j: int| 0 <= j < i ==> (#[trigger] texts(allowed@)[j]) != url@,
    {
        if same(allowed[i].as_str(), url) {
            assert(texts(allowed@)[i as int] == url@);
            return true;
        }
    }
    false
}

/// What must be looked up before an address is opened; none where it may not be opened at all.
pub fn open_search_result(url: &str, allowed_urls: &Vec<String>) -> (r: Option<Lookup>)
    ensures
        match r {
            Some(lookup) => opening(url@, allowed_urls@) == Some(lookup@),
            None => opening(url@, allowed_urls@) is None,
        },
{
    if find_allowed(allowed_urls, url) && is_safe_public_url(url) {
        Some(lookup_for(url))
    } else {
        None
    }
}

/// Whether a page with this content type can be read; an empty type is given the benefit of the
/// doubt.
pub open spec fn readable_type(content_type: Seq<char>) -> bool {
    content_type.len() == 0 || holds(content_type, "text/"@) || holds(content_type, "html"@)
        || holds(content_type, "xml"@)
}

/// What is told of an address that may not be opened.
pub fn refused_page() -> (r: String)
    ensures
        r@ == "The URL must be an exact public result returned by web_search."@,
{
    "The URL must be an exact public result returned by web_search.".to_owned()
}

/// What is told of a page whose body breaks off.
pub fn broken_page() -> (r: String)
    ensures
        r@ == "The page could not be read."@,
{
    "The page could not be read.".to_owned()
}

/// How a page answered, before its body is read.
pub enum PageHead {
    /// No answer came.
    Unreachable,
    /// The status and the content type, empty where none was sent.
    Answered { status: u16, content_type: String },
}

/// What is told of a page that cannot be read.
pub open spec fn head_error(head: PageHead) -> Option<Seq<char>> {
    match head {
        PageHead::Unreachable => Some("The page could not be retrieved."@),
        PageHead::Answered { status, content_type } => if 400 <= status < 600 {
            Some("The page returned an error response."@)
        } else if !readable_type(ascii_lowered(content_type@)) {
            Some("The result is not a readable text page."@)
        } else {
            None
        },
    }
}

/// Checks how a page answered.
pub fn check_head(head: &PageHead) -> (r: Option<String>)
    ensures
        opt_string(r) == head_error(*head),
{
    match head {
        PageHead::Unreachable => Some("The page could not be retrieved.".to_owned()),
        PageHead::Answered { status, content_type } => {
            if 400 <= *status && *status < 600 {
                return Some("The page returned an error response.".to_owned());
            }
            let kind = to_ascii_lowercase(content_type.as_str());
            let k = kind.as_str();
            if !k.is_empty() && !contains(k, "text/") && !contains(k, "html") && !contains(
                k,
                "xml",
            ) {
                return Some("The result is not a readable text page.".to_owned());
            }
            None
        },
    }
}

/// Adds a piece of a page to what has been read, up to the limit. Says whether reading goes on.
pub fn take_chunk(bytes: &mut Vec<u8>, chunk: &Vec<u8>) -> (r: bool)
    requires
        old(bytes)@.len() <= MAX_PAGE_BYTES,
    ensures
        r == (old(bytes)@.len() < MAX_PAGE_BYTES),
        final(bytes)@ == if old(bytes)@.len() + chunk@.len() <= MAX_PAGE_BYTES {
            old(bytes)@ + chunk@
        } else {
            (old(bytes)@ + chunk@).take(MAX_PAGE_BYTES as int)
        },
        final(bytes)@.len() <= MAX_PAGE_BYTES,
        r == (old(bytes)@.len() < 1_000_000),
        old(bytes)@.is_prefix_of(final(bytes)@),
        final(bytes)@.is_prefix_of(old(bytes)@ + chunk@),
        old(bytes)@.len() + chunk@.len() <= 1_000_000 ==> final(bytes)@ == old(bytes)@ + chunk@,
{
    let ghost before = bytes@;
    let remaining: usize = MAX_PAGE_BYTES - bytes.len();
    if remaining == 0 {
        assert((before + chunk@).take(MAX_PAGE_BYTES as int) =~= before);
        assert(before =~= before.subrange(0, before.len() as int));
        assert(before =~= (before + chunk@).subrange(0, before.len() as int));
        assert(chunk@.len() == 0 ==> before + chunk@ =~= before);
        return false;
    }
    let n: usize = if chunk.len() <= remaining {
        chunk.len()
    } else {
        remaining
    };
    assert(before + chunk@.take(0) =~= before);
    for i in 0..n
        invariant
            n <= chunk@.len(),
            bytes@ == before + chunk@.take(i as int),
    {
        bytes.push(chunk[i]);
        assert(before + chunk@.take(i + 1) =~= (before + chunk@.take(i as int)).push(
            chunk@[i as int],
        ));
    }
    proof {
        if chunk@.len() <= remaining {
            assert(chunk@.take(n as int) =~= chunk@);
        } else {
            assert(before + chunk@.take(n as int) =~= (before + chunk@).take(MAX_PAGE_BYTES as int));
        }
        assert(before =~= bytes@.subrange(0, before.len() as int));
        assert(bytes@ =~= (before + chunk@).subrange(0, bytes@.len() as int));
    }
    true
}

// ---------------------------------------------------------------- content

/// What `String::from_utf8_lossy` makes of bytes.
pub uninterp spec fn lossy_text(bytes: Seq<u8>) -> Seq<char>;

/// Calls `String::from_utf8_lossy`; the text depends on the bytes alone.
#[verifier::external_body]
pub(crate) fn decode_lossy(bytes: &Vec<u8>) -> (r: String)
    ensures
        r@ == lossy_text(bytes@),
{
    String::from_utf8_lossy(bytes).into_owned()
}

/// The text of a page: of its markup where it is HTML, else all of it with white space collapsed.
pub open spec fn page_text(content_type: Seq<char>, raw: Seq<char>) -> Seq<char> {
    if holds(ascii_lowered(content_type), "html"@) || holds(raw, "<html"@) {
        html_text(raw)
    } else {
        clipped(collapsed(raw), MAX_PAGE_CHARACTERS as nat)
    }
}

/// A page that has been read.
pub struct Page {
    pub url: String,
    pub content: String,
}

/// What has been read of a page.
pub struct PageView {
    pub url: Seq<char>,
    pub content: Seq<char>,
}

impl View for Page {
    type V = PageView;

    open spec fn view(&self) -> PageView {
        PageView { url: self.url@, content: self.content@ }
    }
}

/// What is read from a page whose text is `raw`.
pub open spec fn page_read(
    url: Seq<char>,
    content_type: Seq<char>,
    raw: Seq<char>,
) -> Result<PageView, Seq<char>> {
    let content = page_text(content_type, raw);
    if is_blank(content) {
        Err("The page did not contain readable text."@)
    } else {
        Ok(PageView { url, content })
    }
}

/// The view of a page, or of what is told instead.
pub open spec fn page_result(r: Result<Page, String>) -> Result<PageView, Seq<char>> {
    match r {
        Ok(page) => Ok(page@),
        Err(message) => Err(message@),
    }
}

/// Reads a page whose bytes have been decoded.
pub fn read_text_page(url: &str, content_type: &str, raw: &str) -> (r: Result<Page, String>)
    ensures
        page_result(r) == page_read(url@, content_type@, raw@),
{
    let kind = to_ascii_lowercase(content_type);
    let content = if contains(kind.as_str(), "html") || contains(raw, "<html") {
        html_to_text(raw)
    } else {
        let flat = collapse(raw);
        clip(flat.as_str(), MAX_PAGE_CHARACTERS)
    };
    if blank(content.as_str()) {
        return Err("The page did not contain readable text.".to_owned());
    }
    Ok(Page { url: url.to_owned(), content })
}

/// Reads a page.
pub fn read_page(url: &str, content_type: &str, bytes: &Vec<u8>) -> (r: Result<Page, String>)
    ensures
        page_result(r) == page_read(url@, content_type@, lossy_text(bytes@)),
{
    let raw = decode_lossy(bytes);
    read_text_page(url, content_type, raw.as_str())
}

/// Whatever a page holds, no more of it than the limit is handed to the model.
pub proof fn pages_are_bounded(content_type: Seq<char>, raw: Seq<char>)
    ensures
        page_text(content_type, raw).len() <= MAX_PAGE_CHARACTERS,
{
}

// ---------------------------------------------------------------- laws

/// An answer is read exactly where it came, with no error status, and is of a type that holds text.
pub proof fn answers_are_read_where_they_hold_text(status: u16, content_type: String)
    ensures
        ({
            let head = PageHead::Answered { status, content_type };
            let kind = ascii_lowered(content_type@);
            let failed = 400 <= status < 600;
            let text = kind.len() == 0 || holds(kind, "text/"@) || holds(kind, "html"@) || holds(
                kind,
                "xml"@,
            );
            &&& head_error(head) is None <==> !failed && text
            &&& failed ==> head_error(head) == Some("The page returned an error response."@)
            &&& !failed && !text ==> head_error(head) == Some(
                "The result is not a readable text page."@,
            )
        }),
        head_error(PageHead::Unreachable) == Some("The page could not be retrieved."@),
{
}

/// A page that was read is told under its own address; one without readable text is not told.
pub proof fn pages_are_told_under_their_address(
    url: Seq<char>,
    content_type: Seq<char>,
    raw: Seq<char>,
)
    ensures
        match page_read(url, content_type, raw) {
            Ok(page) => {
                &&& page.url == url
                &&& page.content == page_text(content_type, raw)
                &&& !is_blank(page.content)
            },
            Err(message) => {
                &&& is_blank(page_text(content_type, raw))
                &&& message == "The page did not contain readable text."@
            },
        },
{
}

/// A text that is no markup is told as it is, with single spaces and up to the limit; markup is told
/// by its type or by its own words.
pub proof fn plain_pages_are_told_unchanged(content_type: Seq<char>, raw: Seq<char>)
    ensures
        !holds(ascii_lowered(content_type), "html"@) && !holds(raw, "<html"@) ==> {
            &&& page_text(content_type, raw).is_prefix_of(collapsed(raw))
            &&& collapsed(raw).len() <= 12_000 ==> page_text(content_type, raw) == collapsed(raw)
            &&& collapsed(raw).len() > 12_000 ==> page_text(content_type, raw).len() == 12_000
        },
        holds(ascii_lowered(content_type), "html"@) || holds(raw, "<html"@) ==> page_text(
            content_type,
            raw,
        ) == html_text(raw),
{
    clipping_keeps_the_start(collapsed(raw), 12_000);
}

/// A page is opened exactly where its address is one that was found and is public.
pub proof fn pages_are_opened_where_they_were_found(url: Seq<char>, allowed: Seq<String>, i: int)
    requires
        0 <= i < allowed.len(),
    ensures
        opening(url, allowed) is Some ==> public_url(url) && exists|k: int|
            0 <= k < allowed.len() && #[trigger] allowed[k]@ == url,
        allowed[i]@ == url && public_url(url) ==> opening(url, allowed) == Some(
            lookup_of(parsed_url(url)),
        ),
{
    assert(texts(allowed)[i] == allowed[i]@);
    if opening(url, allowed) is Some {
        let k = choose|k: int| 0 <= k < texts(allowed).len() && texts(allowed)[k] == url;
        assert(allowed[k]@ == url);
    }
}

/// Text outside of tags is kept as it is, and a tag leaves a space in its place.
pub proof fn tags_leave_a_space(text: Seq<char>, tag: Seq<char>, rest: Seq<char>)
    requires
        !text.contains('<'),
        !text.contains('>'),
        !tag.contains('<'),
        !tag.contains('>'),
    ensures
        without_tags(text, false) == text,
        without_tags(text + seq!['<'] + tag + seq!['>'] + rest, false) == text + seq![' ']
            + without_tags(rest, false),
{
    lemma_text_is_kept(text, Seq::empty());
    assert(text + Seq::<char>::empty() =~= text);
    let marked = seq!['<'] + tag + seq!['>'] + rest;
    assert(text + seq!['<'] + tag + seq!['>'] + rest =~= text + marked);
    lemma_text_is_kept(text, marked);
    let inside = tag + seq!['>'] + rest;
    assert(marked.skip(1) =~= inside);
    lemma_tag_is_left(tag, rest);
    assert(text + seq![' '] + without_tags(rest, false) =~= text + (seq![' '] + without_tags(
        rest,
        false,
    )));
}

proof fn lemma_text_is_kept(text: Seq<char>, rest: Seq<char>)
    requires
        !text.contains('<'),
        !text.contains('>'),
    ensures
        without_tags(text + rest, false) == text + without_tags(rest, false),
    decreases text.len(),
{
    let s = text + rest;
    if text.len() == 0 {
        assert(s =~= rest);
        assert(text + without_tags(rest, false) =~= without_tags(rest, false));
    } else {
        assert(text.contains(text[0]));
        let tail = text.skip(1);
        assert forall|k: int| 0 <= k < tail.len() implies tail[k] != '<' && tail[k] != '>' by {
            assert(text.contains(text[k + 1]));
        }
        assert(s.skip(1) =~= tail + rest);
        lemma_text_is_kept(tail, rest);
        assert(seq![text[0]] + (tail + without_tags(rest, false)) =~= text + without_tags(
            rest,
            false,
        ));
    }
}

proof fn lemma_tag_is_left(tag: Seq<char>, rest: Seq<char>)
    requires
        !tag.contains('<'),
        !tag.contains('>'),
    ensures
        without_tags(tag + seq!['>'] + rest, true) == without_tags(rest, false),
    decreases tag.len(),
{
    let s = tag + seq!['>'] + rest;
    if tag.len() == 0 {
        assert(s.skip(1) =~= rest);
    } else {
        assert(tag.contains(tag[0]));
        let tail = tag.skip(1);
        assert forall|k: int| 0 <= k < tail.len() implies tail[k] != '<' && tail[k] != '>' by {
            assert(tag.contains(tag[k + 1]));
        }
        assert(s.skip(1) =~= tail + seq!['>'] + rest);
        lemma_tag_is_left(tail, rest);
    }
}

/// What stands from the start of an element to its end is left out, a space in its place; an element
/// that does not end takes the rest with it, and a text without any is unchanged.
pub proof fn elements_are_left_out(s: Seq<char>, open: Seq<char>, close: Seq<char>)
    requires
        close.len() > 0,
    ensures
        !holds(ascii_lowered(s), open) ==> without_element(s, open, close) == s,
        found(ascii_lowered(s), open) matches Some(from) ==> (found_from(
            ascii_lowered(s),
            close,
            from,
        ) matches Some(to) ==> without_element(s, open, close) == s.take(from) + seq![' ']
            + without_element(s.skip(to + close.len()), open, close)),
        found(ascii_lowered(s), open) matches Some(from) ==> (found_from(
            ascii_lowered(s),
            close,
            from,
        ) is None ==> without_element(s, open, close) == s.take(from) + seq![' ']),
{
    found_iff_holds(ascii_lowered(s), open);
}

/// A page without scripts, styles and drawings hides nothing.
pub proof fn visible_text_is_not_hidden(s: Seq<char>)
    requires
        !holds(ascii_lowered(s), "<script"@),
        !holds(ascii_lowered(s), "<style"@),
        !holds(ascii_lowered(s), "<noscript"@),
        !holds(ascii_lowered(s), "<svg"@),
    ensures
        without_hidden(s) == s,
{
    found_iff_holds(ascii_lowered(s), "<script"@);
    found_iff_holds(ascii_lowered(s), "<style"@);
    found_iff_holds(ascii_lowered(s), "<noscript"@);
    found_iff_holds(ascii_lowered(s), "<svg"@);
}

proof fn lemma_without_ampersand(s: Seq<char>, p: Seq<char>, q: Seq<char>)
    requires
        !s.contains('&'),
        p.len() > 0,
        p[0] == '&',
    ensures
        replaced(s, p, q) == s,
{
    found_from_is_least(s, p, 0);
    if let Some(i) = found(s, p) {
        assert(s.subrange(i, i + p.len())[0] == s[i]);
        assert(s.contains('&'));
    }
}

proof fn lemma_one_ampersand(
    before: Seq<char>,
    entity: Seq<char>,
    after: Seq<char>,
    p: Seq<char>,
    q: Seq<char>,
)
    requires
        !before.contains('&'),
        !after.contains('&'),
        entity.len() >= 2,
        entity[0] == '&',
        forall|k: int| 0 < k < entity.len() ==> entity[k] != '&',
        p.len() >= 2,
        p[0] == '&',
        p == entity || p[1] != entity[1],
    ensures
        p == entity ==> replaced(before + entity + after, p, q) == before + q + after,
        p != entity ==> replaced(before + entity + after, p, q) == before + entity + after,
{
    let s = before + entity + after;
    let at = before.len() as int;
    found_from_is_least(s, p, 0);
    assert forall|i: int| 0 <= i < s.len() && s[i] == '&' implies i == at by {
        if i < at {
            assert(before.contains(before[i]));
        } else if i >= at + entity.len() {
            assert(after.contains(after[i - at - entity.len()]));
        } else if i > at {
            assert(s[i] == entity[i - at]);
        }
    }
    assert forall|i: int| 0 <= i && i != at implies !matches_at(s, p, i) by {
        if matches_at(s, p, i) {
            assert(s.subrange(i, i + p.len())[0] == s[i]);
        }
    }
    if p == entity {
        assert(s.subrange(at, at + p.len()) =~= entity);
        assert(matches_at(s, p, at));
        assert(found(s, p) == Some(at));
        assert(s.take(at) =~= before);
        assert(s.skip(at + p.len()) =~= after);
        lemma_without_ampersand(after, p, q);
    } else if matches_at(s, p, at) {
        assert(s.subrange(at, at + p.len())[1] == s[at + 1]);
        assert(s[at + 1] == entity[1]);
    }
}

proof fn lemma_lone_ampersand(before: Seq<char>, after: Seq<char>, p: Seq<char>, q: Seq<char>)
    requires
        !before.contains('&'),
        !after.contains('&'),
        !after.contains(';'),
        p.len() >= 2,
        p[0] == '&',
        p.last() == ';',
    ensures
        replaced(before + seq!['&'] + after, p, q) == before + seq!['&'] + after,
{
    let s = before + seq!['&'] + after;
    let at = before.len() as int;
    found_from_is_least(s, p, 0);
    if let Some(i) = found(s, p) {
        assert(s.subrange(i, i + p.len())[0] == s[i]);
        assert(s.subrange(i, i + p.len())[p.len() - 1] == s[i + p.len() - 1]);
        if i < at {
            assert(before.contains(before[i]));
        } else if i > at {
            assert(after.contains(after[i - at - 1]));
        } else {
            assert(after.contains(after[p.len() - 2]));
        }
    }
}

/// Text without an ampersand holds no entities and is unchanged; an entity in such a text is read as
/// the character that it stands for.
pub proof fn entities_are_read(before: Seq<char>, after: Seq<char>)
    requires
        !before.contains('&'),
        !after.contains('&'),
    ensures
        without_entities(before) == before,
        without_entities(before + "&nbsp;"@ + after) == before + seq![' '] + after,
        without_entities(before + "&lt;"@ + after) == before + seq!['<'] + after,
        without_entities(before + "&gt;"@ + after) == before + seq!['>'] + after,
        without_entities(before + "&quot;"@ + after) == before + seq!['"'] + after,
        without_entities(before + "&#39;"@ + after) == before + seq!['\''] + after,
        !after.contains(';') ==> without_entities(before + "&amp;"@ + after) == before + seq!['&']
            + after,
{
    reveal_strlit("&nbsp;");
    reveal_strlit("&amp;");
    reveal_strlit("&lt;");
    reveal_strlit("&gt;");
    reveal_strlit("&quot;");
    reveal_strlit("&#39;");
    reveal_strlit(" ");
    reveal_strlit("&");
    reveal_strlit("<");
    reveal_strlit(">");
    reveal_strlit("\"");
    reveal_strlit("'");
    assert(" "@ =~= seq![' ']);
    assert("&"@ =~= seq!['&']);
    assert("<"@ =~= seq!['<']);
    assert(">"@ =~= seq!['>']);
    assert("\""@ =~= seq!['"']);
    assert("'"@ =~= seq!['\'']);
    lemma_plain_entities(before);
    lemma_entity(before, after, "&nbsp;"@, ' ');
    lemma_entity(before, after, "&lt;"@, '<');
    lemma_entity(before, after, "&gt;"@, '>');
    lemma_entity(before, after, "&quot;"@, '"');
    lemma_entity(before, after, "&#39;"@, '\'');
    if !after.contains(';') {
        lemma_one_ampersand(before, "&amp;"@, after, "&nbsp;"@, " "@);
        lemma_one_ampersand(before, "&amp;"@, after, "&amp;"@, "&"@);
        lemma_lone_ampersand(before, after, "&lt;"@, "<"@);
        lemma_lone_ampersand(before, after, "&gt;"@, ">"@);
        lemma_lone_ampersand(before, after, "&quot;"@, "\""@);
        lemma_lone_ampersand(before, after, "&#39;"@, "'"@);
    }
}

proof fn lemma_plain_entities(s: Seq<char>)
    requires
        !s.contains('&'),
    ensures
        without_entities(s) == s,
{
    reveal_strlit("&nbsp;");
    reveal_strlit("&amp;");
    reveal_strlit("&lt;");
    reveal_strlit("&gt;");
    reveal_strlit("&quot;");
    reveal_strlit("&#39;");
    lemma_without_ampersand(s, "&nbsp;"@, " "@);
    lemma_without_ampersand(s, "&amp;"@, "&"@);
    lemma_without_ampersand(s, "&lt;"@, "<"@);
    lemma_without_ampersand(s, "&gt;"@, ">"@);
    lemma_without_ampersand(s, "&quot;"@, "\""@);
    lemma_without_ampersand(s, "&#39;"@, "'"@);
}

proof fn lemma_entity(before: Seq<char>, after: Seq<char>, entity: Seq<char>, c: char)
    requires
        !before.contains('&'),
        !after.contains('&'),
        ({
            ||| entity == "&nbsp;"@ && " "@ == seq![c]
            ||| entity == "&lt;"@ && "<"@ == seq![c]
            ||| entity == "&gt;"@ && ">"@ == seq![c]
            ||| entity == "&quot;"@ && "\""@ == seq![c]
            ||| entity == "&#39;"@ && "'"@ == seq![c]
        }),
        c != '&',
    ensures
        without_entities(before + entity + after) == before + seq![c] + after,
{
    reveal_strlit("&nbsp;");
    reveal_strlit("&amp;");
    reveal_strlit("&lt;");
    reveal_strlit("&gt;");
    reveal_strlit("&quot;");
    reveal_strlit("&#39;");
    let out = before + seq![c] + after;
    assert forall|k: int| 0 <= k < out.len() implies out[k] != '&' by {
        if k < before.len() {
            assert(before.contains(before[k]));
        } else if k > before.len() {
            assert(after.contains(after[k - before.len() - 1]));
        }
    }
    lemma_without_ampersand(out, "&amp;"@, "&"@);
    lemma_without_ampersand(out, "&lt;"@, "<"@);
    lemma_without_ampersand(out, "&gt;"@, ">"@);
    lemma_without_ampersand(out, "&quot;"@, "\""@);
    lemma_without_ampersand(out, "&#39;"@, "'"@);
    lemma_one_ampersand(before, entity, after, "&nbsp;"@, " "@);
    lemma_one_ampersand(before, entity, after, "&amp;"@, "&"@);
    lemma_one_ampersand(before, entity, after, "&lt;"@, "<"@);
    lemma_one_ampersand(before, entity, after, "&gt;"@, ">"@);
    lemma_one_ampersand(before, entity, after, "&quot;"@, "\""@);
    lemma_one_ampersand(before, entity, after, "&#39;"@, "'"@);
}

} // verus!
