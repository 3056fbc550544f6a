//! The payload of a signed token: its text, and the names that it lists.
//!
//! The claims are a JSON object. A reader that takes it as a map no longer sees whether a name was
//! listed twice, so the names are read from the text.

use vstd::prelude::*;
use vstd::string::*;
use vstd::utf8::{decode_utf8, valid_utf8};

use crate::crypto::{opt_bytes, text_from_utf8};
use crate::json::{parsed_json, Json, JsonView};
use crate::text::{chars_of, opt_string, slice, texts};

verus! {

// ---------------------------------------------------------------- the text

/// What stands before and after the last dot.
pub open spec fn cut_at_last_dot(s: Seq<char>) -> Option<(Seq<char>, Seq<char>)>
    decreases s.len(),
{
    if s.len() == 0 {
        None
    } else if s.last() == '.' {
        Some((s.drop_last(), Seq::empty()))
    } else {
        match cut_at_last_dot(s.drop_last()) {
            Some((before, after)) => Some((before, after.push(s.last()))),
            None => None,
        }
    }
}

proof fn lemma_cut(s: Seq<char>, at: int, n: int)
    requires
        0 <= at < n <= s.len(),
        s[at] == '.',
        forall|i: int| at < i < n ==> #[trigger] s[i] != '.',
    ensures
        cut_at_last_dot(s.take(n)) == Some((s.take(at), s.subrange(at + 1, n))),
    decreases n - at,
{
    let t = s.take(n);
    assert(t.drop_last() =~= s.take(n - 1));
    assert(t.last() == s[n - 1]);
    if n == at + 1 {
        assert(s.subrange(at + 1, n) =~= Seq::empty());
    } else {
        lemma_cut(s, at, n - 1);
        assert(s.subrange(at + 1, n - 1).push(s[n - 1]) =~= s.subrange(at + 1, n));
    }
}

proof fn lemma_no_cut(s: Seq<char>)
    requires
        forall|i: int| 0 <= i < s.len() ==> #[trigger] s[i] != '.',
    ensures
        cut_at_last_dot(s) is None,
    decreases s.len(),
{
    if s.len() > 0 {
        assert(s[s.len() - 1] != '.');
        assert forall|i: int| 0 <= i < s.len() - 1 implies #[trigger] s.drop_last()[i] != '.' by {
            assert(s[i] != '.');
        }
        lemma_no_cut(s.drop_last());
    }
}

fn split_at_last_dot(s: &str) -> (r: Option<(String, String)>)
    ensures
        match r {
            Some((before, after)) => cut_at_last_dot(s@) == Some((before@, after@)),
            None => cut_at_last_dot(s@) is None,
        },
{
    let chars = chars_of(s);
    let n = chars.len();
    let mut at: usize = n;
    while at > 0
        invariant
            at <= n == chars@.len(),
            chars@ == s@,
            forall|i: int| at <= i < n ==> #[trigger] s@[i] != '.',
        decreases at,
    {
        at = at - 1;
        if chars[at] == '.' {
            proof {
                lemma_cut(s@, at as int, n as int);
                assert(s@.take(n as int) =~= s@);
                assert(s@.subrange(0, at as int) =~= s@.take(at as int));
            }
            return Some((slice(&chars, 0, at), slice(&chars, at + 1, n)));
        }
    }
    proof {
        lemma_no_cut(s@);
    }
    None
}

/// The payload of a token as it stands there: what is between the last two dots.
pub open spec fn payload_part(token: Seq<char>) -> Option<Seq<char>> {
    match cut_at_last_dot(token) {
        Some((message, _)) => match cut_at_last_dot(message) {
            Some((_, payload)) => Some(payload),
            None => None,
        },
        None => None,
    }
}

/// The bytes that a text in the URL-safe base64 without padding stands for; none where it is not
/// such a text.
pub uninterp spec fn decoded_base64url(text: Seq<char>) -> Option<Seq<u8>>;

/// Calls `decode` of `base64::engine::general_purpose::URL_SAFE_NO_PAD`; the bytes, or the refusal,
/// are named.
#[verifier::external_body]
fn decode_base64url(text: &str) -> (r: Option<Vec<u8>>)
    ensures
        opt_bytes(r) == decoded_base64url(text@),
{
    base64::Engine::decode(&base64::engine::general_purpose::URL_SAFE_NO_PAD, text.as_bytes()).ok()
}

/// The text of a token's payload.
pub open spec fn payload_text(token: Seq<char>) -> Option<Seq<char>> {
    match payload_part(token) {
        Some(part) => match decoded_base64url(part) {
            Some(bytes) => if valid_utf8(bytes) {
                Some(decode_utf8(bytes))
            } else {
                None
            },
            None => None,
        },
        None => None,
    }
}

/// The text of a token's payload.
pub fn read_payload(token: &str) -> (r: Option<String>)
    ensures
        opt_string(r) == payload_text(token@),
{
    match split_at_last_dot(token) {
        Some((message, _)) => match split_at_last_dot(message.as_str()) {
            Some((_, payload)) => match decode_base64url(payload.as_str()) {
                Some(bytes) => text_from_utf8(bytes),
                None => None,
            },
            None => None,
        },
        None => None,
    }
}

// ---------------------------------------------------------------- the names

/// How far the text of an object has been read: how many brackets are open, whether inside a string
/// and behind a backslash there, where the latest string stands, and the names so far, as they are
/// written.
pub struct Reading {
    pub depth: nat,
    pub quoted: bool,
    pub escaped: bool,
    pub from: int,
    pub to: int,
    pub names: Seq<Seq<char>>,
}

/// The reading after one more character. A colon in the outermost object stands behind a name.
pub open spec fn read_on(text: Seq<char>, r: Reading, at: int) -> Reading {
    let c = text[at];
    if r.quoted {
        if r.escaped {
            Reading { escaped: false, ..r }
        } else if c == '\\' {
            Reading { escaped: true, ..r }
        } else if c == '"' {
            Reading { quoted: false, to: at + 1, ..r }
        } else {
            r
        }
    } else if c == '"' {
        Reading { quoted: true, from: at, to: at, ..r }
    } else if c == '{' || c == '[' {
        Reading { depth: r.depth + 1, ..r }
    } else if c == '}' || c == ']' {
        Reading {
            depth: if r.depth > 0 {
                (r.depth - 1) as nat
            } else {
                0
            },
            ..r
        }
    } else if c == ':' && r.depth == 1 {
        Reading { names: r.names.push(text.subrange(r.from, r.to)), ..r }
    } else {
        r
    }
}

/// The reading of the first `n` characters.
pub open spec fn reading(text: Seq<char>, n: int) -> Reading
    decreases n,
{
    if n <= 0 {
        Reading { depth: 0, quoted: false, escaped: false, from: 0, to: 0, names: Seq::empty() }
    } else {
        read_on(text, reading(text, n - 1), n - 1)
    }
}

/// The names that the text of an object lists, as they are written and as often.
pub open spec fn listed_names(text: Seq<char>) -> Seq<Seq<char>> {
    reading(text, text.len() as int).names
}

fn list_names(text: &str) -> (r: Vec<String>)
    ensures
        texts(r@) == listed_names(text@),
{
    let chars = chars_of(text);
    let mut names: Vec<String> = Vec::new();
    let mut depth: usize = 0;
    let mut quoted = false;
    let mut escaped = false;
    let mut from: usize = 0;
    let mut to: usize = 0;
    assert(texts(names@) =~= Seq::empty());
    for i in 0..chars.len()
        invariant
            chars@ == text@,
            depth <= i,
            from <= to <= i,
            ({
                let r = reading(text@, i as int);
                &&& r.depth == depth
                &&& r.quoted == quoted
                &&& r.escaped == escaped
                &&& r.from == from
                &&& r.to == to
                &&& r.names == texts(names@)
            }),
    {
        let c = chars[i];
        if quoted {
            if escaped {
                escaped = false;
            } else if c == '\\' {
                escaped = true;
            } else if c == '"' {
                quoted = false;
                to = i + 1;
            }
        } else if c == '"' {
            quoted = true;
            from = i;
            to = i;
        } else if c == '{' || c == '[' {
            depth = depth + 1;
        } else if c == '}' || c == ']' {
            if depth > 0 {
                depth = depth - 1;
            }
        } else if c == ':' && depth == 1 {
            let ghost before = texts(names@);
            let name = slice(&chars, from, to);
            let ghost written = name@;
            names.push(name);
            assert(texts(names@) =~= before.push(written));
        }
    }
    names
}

/// How many of the written names are `name`.
pub open spec fn times_named(names: Seq<Seq<char>>, name: Seq<char>) -> nat
    decreases names.len(),
{
    if names.len() == 0 {
        0
    } else {
        times_named(names.drop_last(), name) + if parsed_json(names.last()) == Some(
            JsonView::Str(name),
        ) {
            1nat
        } else {
            0nat
        }
    }
}

fn count_named(names: &Vec<String>, name: &str) -> (r: usize)
    ensures
        r == times_named(texts(names@), name@),
{
    let ghost all = texts(names@);
    let mut count: usize = 0;
    assert(all.take(0) =~= Seq::empty());
    for i in 0..names.len()
        invariant
            all == texts(names@),
            count <= i,
            count == times_named(all.take(i as int), name@),
    {
        proof {
            assert(all.take(i + 1).drop_last() =~= all.take(i as int));
            assert(all.take(i + 1).last() == names@[i as int]@);
        }
        if let Some(read) = Json::parse(names[i].as_str()) {
            if read.is_str(name) {
                count = count + 1;
            }
        }
    }
    assert(all.take(all.len() as int) =~= all);
    count
}

/// Whether the text of an object lists one of the claims of an access token more than once.
pub open spec fn repeats_claims(text: Seq<char>) -> bool {
    let names = listed_names(text);
    ||| times_named(names, "sub"@) > 1
    ||| times_named(names, "exp"@) > 1
    ||| times_named(names, "iat"@) > 1
    ||| times_named(names, "typ"@) > 1
}

/// Whether the text of an object lists one of the claims of an access token more than once.
pub fn has_repeated_claims(text: &str) -> (r: bool)
    ensures
        r == repeats_claims(text@),
{
    let names = list_names(text);
    count_named(&names, "sub") > 1 || count_named(&names, "exp") > 1 || count_named(&names, "iat") > 1
        || count_named(&names, "typ") > 1
}

// ---------------------------------------------------------------- laws

/// A text is cut at its last dot: nothing is lost, and no dot is left behind the cut.
pub proof fn texts_are_cut_at_their_last_dot(s: Seq<char>)
    ensures
        cut_at_last_dot(s) is Some <==> s.contains('.'),
        cut_at_last_dot(s) matches Some((before, after)) ==> before.push('.') + after == s
            && !after.contains('.'),
    decreases s.len(),
{
    if s.len() > 0 {
        if s.last() == '.' {
            assert(s[s.len() - 1] == '.');
            assert(s.drop_last().push('.') + Seq::<char>::empty() =~= s);
        } else {
            let rest = s.drop_last();
            texts_are_cut_at_their_last_dot(rest);
            if s.contains('.') {
                let k = choose|k: int| 0 <= k < s.len() && s[k] == '.';
                assert(rest[k] == '.');
            }
            if let Some((before, after)) = cut_at_last_dot(rest) {
                assert(rest.contains('.'));
                let k = choose|k: int| 0 <= k < rest.len() && rest[k] == '.';
                assert(s[k] == '.');
                assert(before.push('.') + after.push(s.last()) =~= rest.push(s.last()));
                assert(rest.push(s.last()) =~= s);
                assert forall|q: int| 0 <= q < after.push(s.last()).len() implies after.push(
                    s.last(),
                )[q] != '.' by {
                    if q < after.len() {
                        assert(after.contains(after[q]));
                    }
                }
            }
        }
    }
}

proof fn lemma_dot_is_cut(before: Seq<char>, after: Seq<char>)
    requires
        !after.contains('.'),
    ensures
        cut_at_last_dot(before.push('.') + after) == Some((before, after)),
    decreases after.len(),
{
    let s = before.push('.') + after;
    if after.len() == 0 {
        assert(s =~= before.push('.'));
        assert(s.drop_last() =~= before);
        assert(after =~= Seq::empty());
    } else {
        let rest = after.drop_last();
        assert(s.drop_last() =~= before.push('.') + rest);
        assert(s.last() == after.last());
        assert(after.contains(after[after.len() - 1]));
        assert forall|q: int| 0 <= q < rest.len() implies rest[q] != '.' by {
            assert(after.contains(after[q]));
        }
        lemma_dot_is_cut(before, rest);
        assert(rest.push(after.last()) =~= after);
    }
}

/// The payload of a token is the middle one of its three parts.
pub proof fn payloads_stand_in_the_middle(
    header: Seq<char>,
    payload: Seq<char>,
    signature: Seq<char>,
)
    requires
        !payload.contains('.'),
        !signature.contains('.'),
    ensures
        payload_part((header.push('.') + payload).push('.') + signature) == Some(payload),
{
    lemma_dot_is_cut(header.push('.') + payload, signature);
    lemma_dot_is_cut(header, payload);
}

/// A name is counted as often as it is listed, however it is written.
pub proof fn names_are_counted(names: Seq<Seq<char>>, next: Seq<char>, name: Seq<char>)
    ensures
        parsed_json(next) == Some(JsonView::Str(name)) ==> times_named(names.push(next), name)
            == times_named(names, name) + 1,
        parsed_json(next) != Some(JsonView::Str(name)) ==> times_named(names.push(next), name)
            == times_named(names, name),
        times_named(Seq::empty(), name) == 0,
{
    assert(names.push(next).drop_last() =~= names);
}

/// Claims are repeated exactly where one of the four is named more than once.
pub proof fn claims_are_repeated_where_one_is(text: Seq<char>)
    ensures
        repeats_claims(text) <==> {
            ||| times_named(listed_names(text), "sub"@) >= 2
            ||| times_named(listed_names(text), "exp"@) >= 2
            ||| times_named(listed_names(text), "iat"@) >= 2
            ||| times_named(listed_names(text), "typ"@) >= 2
        },
{
}

/// Reading one character on, outside of a string: a colon names what the last string said, where it
/// stands at the first level; a bracket changes the level; a quote starts a string.
pub proof fn names_stand_before_colons(text: Seq<char>, at: int)
    requires
        0 <= at < text.len(),
        !reading(text, at).quoted,
    ensures
        ({
            let before = reading(text, at);
            let after = reading(text, at + 1);
            &&& text[at] == ':' && before.depth == 1 ==> after.names == before.names.push(
                text.subrange(before.from, before.to),
            )
            &&& text[at] != ':' || before.depth != 1 ==> after.names == before.names
            &&& text[at] == '{' || text[at] == '[' ==> after.depth == before.depth + 1
            &&& (text[at] == '}' || text[at] == ']') && before.depth > 0 ==> after.depth
                == before.depth - 1
            &&& text[at] == '"' <==> after.quoted
            &&& text[at] == '"' ==> after.from == at
        }),
{
}

/// Reading one character on, inside of a string: nothing is named and no level changes. A quote ends
/// the string, unless it is escaped.
pub proof fn strings_end_at_their_quote(text: Seq<char>, at: int)
    requires
        0 <= at < text.len(),
        reading(text, at).quoted,
    ensures
        ({
            let before = reading(text, at);
            let after = reading(text, at + 1);
            &&& after.names == before.names
            &&& after.depth == before.depth
            &&& after.from == before.from
            &&& !after.quoted <==> text[at] == '"' && !before.escaped
            &&& !after.quoted ==> after.to == at + 1
            &&& after.escaped <==> text[at] == '\\' && !before.escaped
        }),
{
}

/// Reading starts outside of any string, at no level and with nothing named.
pub proof fn reading_starts_with_nothing(text: Seq<char>)
    ensures
        !reading(text, 0).quoted,
        !reading(text, 0).escaped,
        reading(text, 0).depth == 0,
        reading(text, 0).names.len() == 0,
        listed_names(text) == reading(text, text.len() as int).names,
        listed_names(Seq::empty()).len() == 0,
{
}

} // verus!
