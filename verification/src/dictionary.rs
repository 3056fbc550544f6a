//! Word lookup across the three bundled dictionaries: the keys that are looked up, and the search
//! and the links of the Russian one.

use vstd::prelude::*;
use vstd::string::*;

use crate::error::{bad, internal, ApiError, ErrorView};
use crate::json::{Json, JsonView};
use crate::letters::{
    alphanumeric, comes_before, is_alphanumeric, lowercased, order_is_irreflexive, order_is_total,
    order_is_transitive, precedes, to_lowercase,
};
use crate::picking::{picked, picked_ends, picked_from, picked_push, picked_step};
use crate::search::{
    found, found_from_is_least, found_iff_holds, holds, lines, lines_of, matches_at, pieces,
    pieces_join_back, replace, replaced, split,
};
use crate::text::{
    chars_of, is_blank, is_whitespace, joined, opt_string, opt_text, same, slice, split_whitespace,
    texts, trim, trimmed, trimmed_is_empty_iff_blank, trimming_is_idempotent, words,
};

verus! {

// ---------------------------------------------------------------- entries

/// An entry of a dictionary as clients see it.
pub struct DictionaryEntryResponse {
    pub headword: String,
    pub lemma: String,
    pub pronunciation: String,
    pub definitions: Vec<String>,
    pub translations: Vec<String>,
    pub forms: Vec<String>,
    pub labels: Vec<String>,
    pub examples: Vec<String>,
    pub detail: Json,
    pub definition_html: String,
    pub matched_terms: Vec<String>,
}

/// What an entry says.
pub struct EntryView {
    pub headword: Seq<char>,
    pub lemma: Seq<char>,
    pub pronunciation: Seq<char>,
    pub definitions: Seq<Seq<char>>,
    pub translations: Seq<Seq<char>>,
    pub forms: Seq<Seq<char>>,
    pub labels: Seq<Seq<char>>,
    pub examples: Seq<Seq<char>>,
    pub detail: JsonView,
    pub definition_html: Seq<char>,
    pub matched_terms: Seq<Seq<char>>,
}

impl View for DictionaryEntryResponse {
    type V = EntryView;

    open spec fn view(&self) -> EntryView {
        EntryView {
            headword: self.headword@,
            lemma: self.lemma@,
            pronunciation: self.pronunciation@,
            definitions: texts(self.definitions@),
            translations: texts(self.translations@),
            forms: texts(self.forms@),
            labels: texts(self.labels@),
            examples: texts(self.examples@),
            detail: self.detail@,
            definition_html: self.definition_html@,
            matched_terms: texts(self.matched_terms@),
        }
    }
}

// ---------------------------------------------------------------- requests

/// Whether a name is that of a dictionary.
pub open spec fn is_dictionary(name: Seq<char>) -> bool {
    name == "russian_en"@ || name == "german_en"@ || name == "english_zh"@
}

/// What is wrong with a request, where something is; `word` is already trimmed.
pub open spec fn lookup_error(word: Seq<char>, dictionary: Seq<char>) -> Option<ErrorView> {
    if word.len() == 0 || word.len() > 120 {
        Some(bad("Select a word or short phrase of up to 120 characters."@))
    } else if !is_dictionary(dictionary) {
        Some(bad("Unsupported dictionary."@))
    } else {
        None
    }
}

/// Checks a request and gives the word to look up.
pub fn dictionary_lookup(word: &str, dictionary: &str) -> (r: Result<String, ApiError>)
    ensures
        match r {
            Ok(text) => text@ == trimmed(word@) && lookup_error(text@, dictionary@) is None,
            Err(error) => lookup_error(trimmed(word@), dictionary@) == Some(error@),
        },
{
    let text = trim(word);
    if text.is_empty() || text.unicode_len() > 120 {
        return Err(ApiError::bad("Select a word or short phrase of up to 120 characters."));
    }
    if !same(dictionary, "russian_en") && !same(dictionary, "german_en") && !same(
        dictionary,
        "english_zh",
    ) {
        return Err(ApiError::bad("Unsupported dictionary."));
    }
    Ok(text.to_owned())
}

// ---------------------------------------------------------------- keys

/// A character that counts in a key.
pub open spec fn key_char(c: char) -> Option<char> {
    if is_alphanumeric(c) || c == 'ё' {
        Some(c)
    } else {
        None
    }
}

/// The characters of a text that count in a key.
pub open spec fn key_chars(s: Seq<char>) -> Seq<char> {
    picked(s, |c: char| key_char(c))
}

/// A text without the accents that mark stress.
pub open spec fn without_accents(s: Seq<char>) -> Seq<char> {
    replaced(s, seq!['\u{301}'], Seq::empty())
}

/// The key under which a word is found: its letters and digits, in lower case, without accents.
pub open spec fn dictionary_key(value: Seq<char>) -> Seq<char> {
    key_chars(lowercased(without_accents(trimmed(value))))
}

fn keep_key_chars(s: &str) -> (r: String)
    ensures
        r@ == key_chars(s@),
{
    let chars = chars_of(s);
    let ghost pick = |c: char| key_char(c);
    let mut out = String::new();
    proof {
        picked_ends(s@, pick);
    }
    for i in 0..chars.len()
        invariant
            chars@ == s@,
            pick == (|c: char| key_char(c)),
            out@ == picked(s@.take(i as int), pick),
    {
        proof {
            picked_step(s@, pick, i as int);
        }
        let c = chars[i];
        if alphanumeric(c) || c == 'ё' {
            out.push(c);
        }
    }
    proof {
        picked_ends(s@, pick);
    }
    out
}

/// The key under which a word is found.
pub fn normalize_dictionary_key(value: &str) -> (r: String)
    ensures
        r@ == dictionary_key(value@),
{
    proof {
        reveal_strlit("\u{301}");
        reveal_strlit("");
        assert("\u{301}"@ =~= seq!['\u{301}']);
        assert(""@ =~= Seq::empty());
    }
    let plain = replace(trim(value), "\u{301}", "");
    let lower = to_lowercase(plain.as_str());
    keep_key_chars(lower.as_str())
}

/// A key holds letters and numerals only, and the letter ё.
pub proof fn keys_hold_letters_and_numerals(value: Seq<char>, i: int)
    requires
        0 <= i < dictionary_key(value).len(),
    ensures
        is_alphanumeric(dictionary_key(value)[i]) || dictionary_key(value)[i] == 'ё',
{
    let lower = lowercased(without_accents(trimmed(value)));
    let from = picked_from(lower, |c: char| key_char(c), i);
    assert(key_char(lower[from]) == Some(dictionary_key(value)[i]));
}

proof fn lemma_all_kept(s: Seq<char>)
    requires
        forall|i: int| 0 <= i < s.len() ==> key_char(#[trigger] s[i]) is Some,
    ensures
        key_chars(s) == s,
    decreases s.len(),
{
    if s.len() > 0 {
        let rest = s.drop_last();
        assert forall|i: int| 0 <= i < rest.len() implies key_char(#[trigger] rest[i]) is Some by {
            assert(rest[i] == s[i]);
        }
        lemma_all_kept(rest);
        assert(key_char(s[s.len() - 1]) is Some);
        assert(rest.push(s.last()) =~= s);
    } else {
        assert(key_chars(s) =~= s);
    }
}

/// The key of a key is the key itself, where lower-casing leaves the key as it is and the key holds
/// neither white space nor the accent that marks stress.
pub proof fn keys_are_their_own_keys(value: Seq<char>)
    requires
        lowercased(dictionary_key(value)) == dictionary_key(value),
        forall|i: int|
            0 <= i < dictionary_key(value).len() ==> !is_whitespace(
                #[trigger] dictionary_key(value)[i],
            ) && dictionary_key(value)[i] != '\u{301}',
    ensures
        dictionary_key(dictionary_key(value)) == dictionary_key(value),
{
    let key = dictionary_key(value);
    let accent = seq!['\u{301}'];
    assert forall|i: int| 0 <= i < key.len() implies !is_whitespace(#[trigger] key[i]) && key[i]
        != '\u{301}' && key_char(key[i]) is Some by {
        keys_hold_letters_and_numerals(value, i);
    }
    if key.len() > 0 {
        assert(!is_whitespace(key[0]));
        assert(!is_whitespace(key[key.len() - 1]));
    }
    assert(trimmed(key) == key);
    found_iff_holds(key, accent);
    if holds(key, accent) {
        let i = choose|i: int| #[trigger] matches_at(key, accent, i);
        assert(key.subrange(i, i + 1)[0] == accent[0]);
        assert(key[i] == '\u{301}');
    }
    assert(without_accents(key) == key);
    lemma_all_kept(key);
}

/// The keys under which words are found.
pub open spec fn keys_of(words: Seq<Seq<char>>) -> Seq<Seq<char>> {
    Seq::new(words.len(), |i: int| dictionary_key(words[i]))
}

/// The keys under which the words of a dictionary are found.
pub fn dictionary_keys(words: &Vec<String>) -> (r: Vec<String>)
    ensures
        texts(r@) == keys_of(texts(words@)),
{
    let mut out: Vec<String> = Vec::new();
    for i in 0..words.len()
        invariant
            out@.len() == i,
            forall|j: int| 0 <= j < i ==> #[trigger] out@[j]@ == dictionary_key(words@[j]@),
    {
        out.push(normalize_dictionary_key(words[i].as_str()));
    }
    assert(texts(out@) =~= keys_of(texts(words@)));
    out
}

/// A line without the white space at its ends, unless nothing is left.
pub open spec fn full_line(line: Seq<char>) -> Option<Seq<char>> {
    if trimmed(line).len() > 0 {
        Some(trimmed(line))
    } else {
        None
    }
}

/// The lines of a text that are not blank, each trimmed.
pub open spec fn full_lines(value: Seq<char>) -> Seq<Seq<char>> {
    picked(lines_of(value), |l: Seq<char>| full_line(l))
}

/// The lines of a text that are not blank, each trimmed.
pub fn split_lines(value: &str) -> (r: Vec<String>)
    ensures
        texts(r@) == full_lines(value@),
{
    let all = lines(value);
    let ghost seen = lines_of(value@);
    let ghost pick = |l: Seq<char>| full_line(l);
    let mut out: Vec<String> = Vec::new();
    proof {
        picked_ends(seen, pick);
        assert(texts(out@) =~= Seq::empty());
    }
    for i in 0..all.len()
        invariant
            seen == lines_of(value@),
            texts(all@) == seen,
            pick == (|l: Seq<char>| full_line(l)),
            texts(out@) == picked(seen.take(i as int), pick),
    {
        let ghost before = texts(out@);
        proof {
            assert(seen[i as int] == all@[i as int]@);
            picked_step(seen, pick, i as int);
        }
        let line = trim(all[i].as_str());
        if !line.is_empty() {
            out.push(line.to_owned());
            assert(texts(out@) =~= before.push(line@));
        }
    }
    proof {
        assert(seen.len() == all@.len());
        picked_ends(seen, pick);
    }
    out
}

// ---------------------------------------------------------------- plans

/// What to look up, by dictionary.
pub enum LookupPlan {
    /// Try these terms in the Russian dictionary, the first first.
    Russian(Vec<String>),
    /// Look up the key; where it gives nothing, the keys that start like the pattern.
    German { key: String, pattern: String },
    /// Look up the word and the words that start like the pattern.
    English { word: String, pattern: String },
}

/// What to look up, by dictionary.
pub enum LookupPlanView {
    Russian(Seq<Seq<char>>),
    German { key: Seq<char>, pattern: Seq<char> },
    English { word: Seq<char>, pattern: Seq<char> },
}

impl View for LookupPlan {
    type V = LookupPlanView;

    open spec fn view(&self) -> LookupPlanView {
        match self {
            LookupPlan::Russian(terms) => LookupPlanView::Russian(texts(terms@)),
            LookupPlan::German { key, pattern } => LookupPlanView::German {
                key: key@,
                pattern: pattern@,
            },
            LookupPlan::English { word, pattern } => LookupPlanView::English {
                word: word@,
                pattern: pattern@,
            },
        }
    }
}

/// The terms to try for a Russian word in lower case: with ё as it is written, then with е.
pub open spec fn russian_terms(lower: Seq<char>) -> Seq<Seq<char>> {
    let alternate = replaced(lower, "ё"@, "е"@);
    if alternate == lower {
        seq![lower]
    } else {
        seq![lower, alternate]
    }
}

/// The terms to try for a Russian word in lower case.
pub fn terms_for(lower: &str) -> (r: Vec<String>)
    ensures
        texts(r@) == russian_terms(lower@),
{
    proof {
        reveal_strlit("ё");
    }
    let alternate = replace(lower, "ё", "е");
    let mut out: Vec<String> = Vec::new();
    out.push(lower.to_owned());
    if !same(alternate.as_str(), lower) {
        out.push(alternate);
    }
    assert(texts(out@) =~= russian_terms(lower@));
    out
}

/// The terms to try for a Russian word.
pub fn lookup_russian_dictionary(word: &str) -> (r: Vec<String>)
    ensures
        texts(r@) == russian_terms(lowercased(trimmed(word@))),
{
    let lower = to_lowercase(trim(word));
    terms_for(lower.as_str())
}

/// What to look up, given the word in lower case and its key.
pub open spec fn planned_lookup(dictionary: Seq<char>, lower: Seq<char>, key: Seq<char>) -> LookupPlanView {
    if dictionary == "russian_en"@ {
        LookupPlanView::Russian(russian_terms(lower))
    } else if dictionary == "german_en"@ {
        let german = replaced(key, "ß"@, "ss"@);
        LookupPlanView::German { key: german, pattern: german + "%"@ }
    } else {
        LookupPlanView::English { word: lower, pattern: lower + "%"@ }
    }
}

/// What to look up, given the word in lower case and its key.
pub fn plan_lookup(dictionary: &str, lower: &str, key: &str) -> (r: LookupPlan)
    requires
        is_dictionary(dictionary@),
    ensures
        r@ == planned_lookup(dictionary@, lower@, key@),
{
    if same(dictionary, "russian_en") {
        LookupPlan::Russian(terms_for(lower))
    } else if same(dictionary, "german_en") {
        proof {
            reveal_strlit("ß");
        }
        let german = replace(key, "ß", "ss");
        let pattern = german.clone().concat("%");
        LookupPlan::German { key: german, pattern }
    } else {
        LookupPlan::English { word: lower.to_owned(), pattern: lower.to_owned().concat("%") }
    }
}

/// What to look up, where the dictionaries are installed.
pub fn lookup_dictionary(installed: bool, dictionary: &str, word: &str) -> (r: Result<
    LookupPlan,
    ApiError,
>)
    requires
        is_dictionary(dictionary@),
    ensures
        match r {
            Ok(plan) => installed && plan@ == planned_lookup(
                dictionary@,
                lowercased(trimmed(word@)),
                dictionary_key(word@),
            ),
            Err(error) => !installed && error@ == internal(
                "Local dictionaries are not installed on this server."@,
            ),
        },
{
    if !installed {
        return Err(ApiError::internal("Local dictionaries are not installed on this server."));
    }
    let lower = to_lowercase(trim(word));
    let key = normalize_dictionary_key(word);
    Ok(plan_lookup(dictionary, lower.as_str(), key.as_str()))
}

// ---------------------------------------------------------------- Russian: searching

/// Where a search by halves for the first key that does not come before `target` ends.
pub open spec fn bisected(keys: Seq<Seq<char>>, target: Seq<char>, lo: int, hi: int) -> int
    decreases hi - lo,
{
    if lo < hi {
        let mid = (lo + hi) / 2;
        if precedes(keys[mid], target) {
            bisected(keys, target, mid + 1, hi)
        } else {
            bisected(keys, target, lo, mid)
        }
    } else {
        lo
    }
}

/// The end of the run of keys from `at` on that equal `target`.
pub open spec fn run_end(keys: Seq<Seq<char>>, target: Seq<char>, at: int) -> int
    decreases keys.len() - at,
{
    if 0 <= at < keys.len() && keys[at] == target {
        run_end(keys, target, at + 1)
    } else {
        at
    }
}

/// The range of the entries whose key is `target`, among keys in order.
pub fn russian_exact_entries(keys: &Vec<String>, target: &str) -> (r: (usize, usize))
    ensures
        ({
            let start = bisected(texts(keys@), target@, 0, keys@.len() as int);
            &&& r.0 == start
            &&& r.1 == run_end(texts(keys@), target@, start)
        }),
        r.0 <= r.1 <= keys@.len(),
{
    let ghost all = texts(keys@);
    let n = keys.len();
    let mut lo: usize = 0;
    let mut hi: usize = n;
    while lo < hi
        invariant
            lo <= hi <= n == keys@.len(),
            all == texts(keys@),
            bisected(all, target@, 0, n as int) == bisected(all, target@, lo as int, hi as int),
        decreases hi - lo,
    {
        let mid = lo + (hi - lo) / 2;
        assert(mid == (lo + hi) / 2);
        assert(all[mid as int] == keys@[mid as int]@);
        if comes_before(keys[mid].as_str(), target) {
            lo = mid + 1;
        } else {
            hi = mid;
        }
    }
    let start = lo;
    while lo < n && same(keys[lo].as_str(), target)
        invariant
            start <= lo <= n == keys@.len(),
            all == texts(keys@),
            run_end(all, target@, start as int) == run_end(all, target@, lo as int),
        decreases n - lo,
    {
        assert(all[lo as int] == keys@[lo as int]@);
        lo = lo + 1;
    }
    proof {
        if lo < n {
            assert(all[lo as int] == keys@[lo as int]@);
        }
    }
    (start, lo)
}

/// Whether keys are in order.
pub open spec fn in_order(keys: Seq<Seq<char>>) -> bool {
    forall|i: int, j: int|
        0 <= i < j < keys.len() ==> !precedes(#[trigger] keys[j], #[trigger] keys[i])
}

proof fn lemma_not_after(a: Seq<char>, b: Seq<char>, target: Seq<char>)
    requires
        !precedes(b, a),
        precedes(b, target),
    ensures
        precedes(a, target),
{
    order_is_total(a, b);
    if precedes(a, b) {
        order_is_transitive(a, b, target);
    }
}

proof fn lemma_bisected(keys: Seq<Seq<char>>, target: Seq<char>, lo: int, hi: int)
    requires
        in_order(keys),
        0 <= lo <= hi <= keys.len(),
        forall|i: int| 0 <= i < lo ==> precedes(#[trigger] keys[i], target),
        forall|i: int| hi <= i < keys.len() ==> !precedes(#[trigger] keys[i], target),
    ensures
        ({
            let at = bisected(keys, target, lo, hi);
            &&& lo <= at <= hi
            &&& forall|i: int| 0 <= i < at ==> precedes(#[trigger] keys[i], target)
            &&& forall|i: int| at <= i < keys.len() ==> !precedes(#[trigger] keys[i], target)
        }),
    decreases hi - lo,
{
    if lo < hi {
        let mid = (lo + hi) / 2;
        if precedes(keys[mid], target) {
            assert forall|i: int| 0 <= i < mid + 1 implies precedes(#[trigger] keys[i], target) by {
                if i < mid {
                    lemma_not_after(keys[i], keys[mid], target);
                }
            }
            lemma_bisected(keys, target, mid + 1, hi);
        } else {
            assert forall|i: int| mid <= i < keys.len() implies !precedes(
                #[trigger] keys[i],
                target,
            ) by {
                if i > mid && precedes(keys[i], target) {
                    lemma_not_after(keys[mid], keys[i], target);
                }
            }
            lemma_bisected(keys, target, lo, mid);
        }
    }
}

proof fn lemma_run_end(keys: Seq<Seq<char>>, target: Seq<char>, at: int)
    requires
        0 <= at <= keys.len(),
    ensures
        ({
            let end = run_end(keys, target, at);
            &&& at <= end <= keys.len()
            &&& forall|i: int| at <= i < end ==> #[trigger] keys[i] == target
            &&& end < keys.len() ==> keys[end] != target
        }),
    decreases keys.len() - at,
{
    if at < keys.len() && keys[at] == target {
        lemma_run_end(keys, target, at + 1);
    }
}

/// Among keys in order, the range holds every entry with the key and no other.
pub proof fn exact_entries_are_complete(keys: Seq<Seq<char>>, target: Seq<char>, i: int)
    requires
        in_order(keys),
        0 <= i < keys.len(),
    ensures
        ({
            let start = bisected(keys, target, 0, keys.len() as int);
            let end = run_end(keys, target, start);
            keys[i] == target <==> start <= i < end
        }),
{
    let start = bisected(keys, target, 0, keys.len() as int);
    lemma_bisected(keys, target, 0, keys.len() as int);
    lemma_run_end(keys, target, start);
    let end = run_end(keys, target, start);
    order_is_irreflexive(target);
    if keys[i] == target {
        if i < start {
            assert(precedes(keys[i], target));
        }
        if i >= end && end < keys.len() {
            assert(keys[end] != target);
            assert(!precedes(keys[end], target));
            order_is_total(keys[end], target);
            if end < i {
                assert(!precedes(keys[i], keys[end]));
            }
        }
    }
}

// ---------------------------------------------------------------- Russian: links

/// Whether a character is one of the marks around a link.
pub open spec fn is_link_mark(c: char) -> bool {
    c == '"' || c == '\'' || c == '<' || c == '>'
}

/// `s` without the marks at its start.
pub open spec fn without_leading_marks(s: Seq<char>) -> Seq<char>
    decreases s.len(),
{
    if s.len() > 0 && is_link_mark(s[0]) {
        without_leading_marks(s.skip(1))
    } else {
        s
    }
}

/// `s` without the marks at its end.
pub open spec fn without_trailing_marks(s: Seq<char>) -> Seq<char>
    decreases s.len(),
{
    if s.len() > 0 && is_link_mark(s.last()) {
        without_trailing_marks(s.drop_last())
    } else {
        s
    }
}

/// The word that a definition links to, as it is written: the first word behind the link marker,
/// without the marks around it.
pub open spec fn linked_word(definition: Seq<char>) -> Option<Seq<char>> {
    let parts = pieces(definition, "@@@LINK="@);
    if parts.len() > 1 {
        let found = words(pieces(parts[1], "@@@"@)[0]);
        if found.len() > 0 {
            Some(without_trailing_marks(without_leading_marks(found[0])))
        } else {
            None
        }
    } else {
        None
    }
}

fn trim_marks(s: &str) -> (r: String)
    ensures
        r@ == without_trailing_marks(without_leading_marks(s@)),
{
    let chars = chars_of(s);
    let n = chars.len();
    let mut from: usize = 0;
    assert(s@.skip(0) =~= s@);
    while from < n && (chars[from] == '"' || chars[from] == '\'' || chars[from] == '<' || chars[from]
        == '>')
        invariant
            from <= n == chars@.len(),
            chars@ == s@,
            without_leading_marks(s@) == without_leading_marks(s@.skip(from as int)),
        decreases n - from,
    {
        assert(s@.skip(from as int).skip(1) =~= s@.skip(from + 1));
        assert(s@.skip(from as int)[0] == chars@[from as int]);
        from = from + 1;
    }
    let ghost t = s@.skip(from as int);
    proof {
        if from < n {
            assert(t[0] == chars@[from as int]);
        }
        assert(without_leading_marks(s@) == t);
        assert(s@.subrange(from as int, n as int) =~= t);
    }
    let mut to: usize = n;
    while from < to && (chars[to - 1] == '"' || chars[to - 1] == '\'' || chars[to - 1] == '<'
        || chars[to - 1] == '>')
        invariant
            from <= to <= n == chars@.len(),
            chars@ == s@,
            without_trailing_marks(t) == without_trailing_marks(
                s@.subrange(from as int, to as int),
            ),
        decreases to,
    {
        let ghost u = s@.subrange(from as int, to as int);
        assert(u.drop_last() =~= s@.subrange(from as int, to - 1));
        assert(u.last() == chars@[to - 1]);
        to = to - 1;
    }
    proof {
        let u = s@.subrange(from as int, to as int);
        if u.len() > 0 {
            assert(u.last() == chars@[to - 1]);
        }
    }
    slice(&chars, from, to)
}

/// The word that a definition links to, as it is written.
pub fn find_link(definition: &str) -> (r: Option<String>)
    ensures
        opt_string(r) == linked_word(definition@),
{
    proof {
        reveal_strlit("@@@LINK=");
        reveal_strlit("@@@");
    }
    let parts = split(definition, "@@@LINK=");
    assert(texts(parts@).len() == parts@.len());
    if parts.len() <= 1 {
        return None;
    }
    assert(texts(parts@)[1] == parts@[1]@);
    let inner = split(parts[1].as_str(), "@@@");
    assert(texts(inner@)[0] == inner@[0]@);
    let found = split_whitespace(inner[0].as_str());
    assert(texts(found@).len() == found@.len());
    if found.len() == 0 {
        return None;
    }
    assert(texts(found@)[0] == found@[0]@);
    Some(trim_marks(found[0].as_str()))
}

/// The word that a definition links to, in lower case.
pub open spec fn link_target(definition: Seq<char>) -> Option<Seq<char>> {
    match linked_word(definition) {
        Some(word) => Some(lowercased(word)),
        None => None,
    }
}

/// The word that a definition links to, in lower case.
pub fn russian_link_target(definition: &str) -> (r: Option<String>)
    ensures
        opt_string(r) == link_target(definition@),
{
    match find_link(definition) {
        Some(word) => Some(to_lowercase(word.as_str())),
        None => None,
    }
}

/// An entry of the Russian dictionary as clients see it, with the word whose link led to it.
pub open spec fn russian_view(
    headword: Seq<char>,
    definition: Seq<char>,
    linked_from: Option<Seq<char>>,
) -> EntryView {
    EntryView {
        headword,
        lemma: headword,
        pronunciation: Seq::empty(),
        definitions: Seq::empty(),
        translations: Seq::empty(),
        forms: Seq::empty(),
        labels: match linked_from {
            Some(source) => seq!["OpenRussian"@, "Lemma for "@ + source],
            None => seq!["OpenRussian"@],
        },
        examples: Seq::empty(),
        detail: JsonView::Null,
        definition_html: definition,
        matched_terms: match linked_from {
            Some(source) => seq![source],
            None => Seq::empty(),
        },
    }
}

/// An entry of the Russian dictionary as clients see it.
pub fn russian_response(headword: String, definition: &str, linked_from: Option<&str>) -> (r:
    DictionaryEntryResponse)
    ensures
        r@ == russian_view(headword@, definition@, opt_text(linked_from)),
{
    let mut labels: Vec<String> = Vec::new();
    labels.push("OpenRussian".to_owned());
    let mut matched_terms: Vec<String> = Vec::new();
    if let Some(source) = linked_from {
        labels.push("Lemma for ".to_owned().concat(source));
        matched_terms.push(source.to_owned());
    }
    let ghost view = russian_view(headword@, definition@, opt_text(linked_from));
    let r = DictionaryEntryResponse {
        lemma: headword.clone(),
        headword,
        pronunciation: String::new(),
        definitions: Vec::new(),
        translations: Vec::new(),
        forms: Vec::new(),
        labels,
        examples: Vec::new(),
        detail: Json::Null,
        definition_html: definition.to_owned(),
        matched_terms,
    };
    proof {
        assert(r@.definitions =~= Seq::empty());
        assert(r@.translations =~= Seq::empty());
        assert(r@.forms =~= Seq::empty());
        assert(r@.examples =~= Seq::empty());
        assert(r@.labels =~= view.labels);
        assert(r@.matched_terms =~= view.matched_terms);
    }
    r
}

/// How a term is looked up in the Russian dictionary.
pub enum RussianStep {
    /// Fetch the entry at this place.
    Fetch(usize),
    /// Ask the dictionary's own search for the term.
    Search,
}

/// How a term is looked up, given its key: the first entry with that key, else the dictionary's
/// own search. The keys are those of the entries, in order.
pub fn find_russian(keys: &Vec<String>, key: &str) -> (r: RussianStep)
    ensures
        ({
            let start = bisected(texts(keys@), key@, 0, keys@.len() as int);
            let end = run_end(texts(keys@), key@, start);
            match r {
                RussianStep::Fetch(at) => start < end && at == start,
                RussianStep::Search => start >= end,
            }
        }),
{
    let (start, end) = russian_exact_entries(keys, key);
    if start < end {
        RussianStep::Fetch(start)
    } else {
        RussianStep::Search
    }
}

/// How a term is looked up in the Russian dictionary.
pub fn russian_entry(keys: &Vec<String>, term: &str) -> (r: RussianStep)
    ensures
        ({
            let key = dictionary_key(term@);
            let start = bisected(texts(keys@), key, 0, keys@.len() as int);
            let end = run_end(texts(keys@), key, start);
            match r {
                RussianStep::Fetch(at) => start < end && at == start,
                RussianStep::Search => start >= end,
            }
        }),
{
    let key = normalize_dictionary_key(term);
    find_russian(keys, key.as_str())
}

/// What an entry of the Russian dictionary leads to.
pub enum RussianNext {
    /// Look up another term, which this word links to.
    Follow { term: String, linked_from: String },
    /// This is the entry.
    Entry(DictionaryEntryResponse),
}

/// What an entry of the Russian dictionary leads to.
pub enum RussianNextView {
    Follow { term: Seq<char>, linked_from: Seq<char> },
    Entry(EntryView),
}

impl View for RussianNext {
    type V = RussianNextView;

    open spec fn view(&self) -> RussianNextView {
        match self {
            RussianNext::Follow { term, linked_from } => RussianNextView::Follow {
                term: term@,
                linked_from: linked_from@,
            },
            RussianNext::Entry(entry) => RussianNextView::Entry(entry@),
        }
    }
}

/// What an entry leads to, given the term that it links to and whether that term has another key.
pub open spec fn led_to(
    target: Option<Seq<char>>,
    elsewhere: bool,
    headword: Seq<char>,
    definition: Seq<char>,
    linked_from: Option<Seq<char>>,
) -> RussianNextView {
    match target {
        Some(term) => if elsewhere {
            RussianNextView::Follow { term, linked_from: headword }
        } else {
            RussianNextView::Entry(russian_view(headword, definition, linked_from))
        },
        None => RussianNextView::Entry(russian_view(headword, definition, linked_from)),
    }
}

/// What an entry leads to, given the term that it links to and whether that term has another key.
pub fn follow_link(
    target: Option<String>,
    elsewhere: bool,
    headword: String,
    definition: &str,
    linked_from: Option<&str>,
) -> (r: RussianNext)
    ensures
        r@ == led_to(
            opt_string(target),
            elsewhere,
            headword@,
            definition@,
            opt_text(linked_from),
        ),
{
    if let Some(term) = target {
        if elsewhere {
            return RussianNext::Follow { term, linked_from: headword };
        }
    }
    RussianNext::Entry(russian_response(headword, definition, linked_from))
}

/// What an entry that was found for a term leads to: the entry that it links to, unless that is
/// the term itself, else the entry.
pub fn read_russian(term: &str, headword: String, definition: &str, linked_from: Option<&str>) -> (r:
    RussianNext)
    ensures
        r@ == led_to(
            link_target(definition@),
            link_target(definition@) matches Some(target) && dictionary_key(target)
                != dictionary_key(term@),
            headword@,
            definition@,
            opt_text(linked_from),
        ),
{
    let target = russian_link_target(definition);
    let elsewhere = match &target {
        Some(word) => {
            let there = normalize_dictionary_key(word.as_str());
            let here = normalize_dictionary_key(term);
            !same(there.as_str(), here.as_str())
        },
        None => false,
    };
    follow_link(target, elsewhere, headword, definition, linked_from)
}

/// What comes next in the search for a Russian word.
pub enum RussianTrial {
    /// Look up this term.
    Try(String),
    /// These are the entries.
    Done(Vec<DictionaryEntryResponse>),
}

/// What comes next in the search for a Russian word, once `tried` of its terms have been looked up
/// and the last of them gave `found`: the first entry that is found is the only one.
pub fn try_terms(terms: &Vec<String>, tried: usize, found: Option<DictionaryEntryResponse>) -> (r:
    RussianTrial)
    ensures
        match r {
            RussianTrial::Try(term) => {
                &&& found is None
                &&& tried < terms@.len()
                &&& term@ == terms@[tried as int]@
            },
            RussianTrial::Done(entries) => match found {
                Some(entry) => entries@ == seq![entry],
                None => tried >= terms@.len() && entries@.len() == 0,
            },
        },
{
    let mut entries: Vec<DictionaryEntryResponse> = Vec::new();
    match found {
        Some(entry) => {
            entries.push(entry);
        },
        None => {
            if tried < terms.len() {
                return RussianTrial::Try(terms[tried].clone());
            }
        },
    }
    RussianTrial::Done(entries)
}

// ---------------------------------------------------------------- laws

/// A request is accepted exactly where its word has 1 to 120 characters and its dictionary is one of
/// the three; the word is complained of first.
pub proof fn lookups_need_a_word_and_a_dictionary(word: Seq<char>, dictionary: Seq<char>)
    ensures
        ({
            let sized = 1 <= word.len() <= 120;
            let known = dictionary == "russian_en"@ || dictionary == "german_en"@ || dictionary
                == "english_zh"@;
            &&& lookup_error(word, dictionary) is None <==> sized && known
            &&& !sized ==> lookup_error(word, dictionary) == Some(
                bad("Select a word or short phrase of up to 120 characters."@),
            )
            &&& sized && !known ==> lookup_error(word, dictionary) == Some(
                bad("Unsupported dictionary."@),
            )
        }),
{
}

/// A letter, a numeral or ё counts in a key; any other character is as if it were not there.
pub proof fn keys_grow_by_what_counts(s: Seq<char>, c: char)
    ensures
        is_alphanumeric(c) || c == 'ё' ==> key_chars(s.push(c)) == key_chars(s).push(c),
        !is_alphanumeric(c) && c != 'ё' ==> key_chars(s.push(c)) == key_chars(s),
        key_chars(Seq::empty()).len() == 0,
{
    picked_push(s, c, |c: char| key_char(c));
}

/// Words that differ only in white space at their ends have the same key.
pub proof fn keys_ignore_white_space_at_the_ends(value: Seq<char>)
    ensures
        dictionary_key(trimmed(value)) == dictionary_key(value),
{
    trimming_is_idempotent(value);
}

/// No accent is left, and a text that has none is unchanged.
pub proof fn accents_are_taken_out(s: Seq<char>)
    ensures
        !without_accents(s).contains('\u{301}'),
        !s.contains('\u{301}') ==> without_accents(s) == s,
    decreases s.len(),
{
    let accent = seq!['\u{301}'];
    found_from_is_least(s, accent, 0);
    match found(s, accent) {
        Some(i) => {
            assert(s.subrange(i, i + 1)[0] == s[i]);
            assert(s.contains('\u{301}'));
            accents_are_taken_out(s.skip(i + 1));
            let rest = without_accents(s.skip(i + 1));
            let out = without_accents(s);
            assert(out =~= s.take(i) + rest);
            assert forall|k: int| 0 <= k < out.len() implies out[k] != '\u{301}' by {
                if k < i {
                    if s[k] == '\u{301}' {
                        assert(s.subrange(k, k + 1) =~= accent);
                        assert(matches_at(s, accent, k));
                    }
                } else {
                    assert(rest.contains(rest[k - i]));
                }
            }
        },
        None => {
            assert forall|k: int| 0 <= k < s.len() implies s[k] != '\u{301}' by {
                if s[k] == '\u{301}' {
                    assert(s.subrange(k, k + 1) =~= accent);
                    assert(matches_at(s, accent, k));
                }
            }
        },
    }
}

/// One more line adds itself, trimmed, at the end, unless it is blank.
pub proof fn full_lines_add_up(value: Seq<char>, longer: Seq<char>, line: Seq<char>)
    requires
        lines_of(longer) == lines_of(value).push(line),
    ensures
        is_blank(line) ==> full_lines(longer) == full_lines(value),
        !is_blank(line) ==> full_lines(longer) == full_lines(value).push(trimmed(line)),
        full_lines(Seq::empty()).len() == 0,
{
    trimmed_is_empty_iff_blank(line);
    picked_push(lines_of(value), line, |l: Seq<char>| full_line(l));
}

/// A Russian word is tried as it is written first; where it is written with ё, it is tried with е
/// in its place as well.
pub proof fn russian_words_are_tried_both_ways(lower: Seq<char>)
    ensures
        russian_terms(lower).len() >= 1,
        russian_terms(lower)[0] == lower,
        !lower.contains('ё') ==> russian_terms(lower).len() == 1,
        lower.contains('ё') ==> russian_terms(lower).len() == 2 && russian_terms(lower)[1] == joined(
            pieces(lower, "ё"@),
            "е"@,
        ),
{
    reveal_strlit("ё");
    reveal_strlit("е");
    let mark = "ё"@;
    assert(mark =~= seq!['ё']);
    found_from_is_least(lower, mark, 0);
    pieces_join_back(lower, mark, "е"@);
    match found(lower, mark) {
        Some(i) => {
            assert(lower.subrange(i, i + 1)[0] == lower[i]);
            assert(lower.contains('ё'));
            assert(replaced(lower, mark, "е"@)[i] == 'е');
        },
        None => {
            if lower.contains('ё') {
                let k = choose|k: int| 0 <= k < lower.len() && lower[k] == 'ё';
                assert(lower.subrange(k, k + 1) =~= mark);
                assert(matches_at(lower, mark, k));
            }
        },
    }
}

/// Each dictionary is asked in its own way: the Russian one by its terms, the German one by the key
/// with ss for ß, the English one by the word; a pattern is what is looked up with a wildcard behind.
pub proof fn dictionaries_are_asked_in_their_way(lower: Seq<char>, key: Seq<char>)
    ensures
        planned_lookup("russian_en"@, lower, key) matches LookupPlanView::Russian(terms) && terms
            == russian_terms(lower),
        planned_lookup("german_en"@, lower, key) matches LookupPlanView::German {
            key: asked,
            pattern,
        } && asked == joined(pieces(key, "ß"@), "ss"@) && pattern == asked + "%"@ && (!holds(
            key,
            "ß"@,
        ) ==> asked == key),
        planned_lookup("english_zh"@, lower, key) matches LookupPlanView::English { word, pattern }
            && word == lower && pattern == lower + "%"@,
{
    reveal_strlit("russian_en");
    reveal_strlit("german_en");
    reveal_strlit("english_zh");
    reveal_strlit("ß");
    assert("russian_en"@.len() == 10 && "german_en"@.len() == 9);
    assert("russian_en"@[0] == 'r' && "english_zh"@[0] == 'e');
    pieces_join_back(key, "ß"@, "ss"@);
    found_iff_holds(key, "ß"@);
}

proof fn lemma_marks_are_trimmed(s: Seq<char>)
    ensures
        ({
            let t = without_trailing_marks(s);
            &&& t.len() > 0 ==> !is_link_mark(t.last()) && t[0] == s[0]
            &&& t.len() <= s.len()
        }),
    decreases s.len(),
{
    if s.len() > 0 && is_link_mark(s.last()) {
        lemma_marks_are_trimmed(s.drop_last());
    }
}

proof fn lemma_leading_marks(s: Seq<char>)
    ensures
        without_leading_marks(s).len() > 0 ==> !is_link_mark(without_leading_marks(s)[0]),
    decreases s.len(),
{
    if s.len() > 0 && is_link_mark(s[0]) {
        lemma_leading_marks(s.skip(1));
    }
}

/// A definition without a link marker links to nothing. The word that another links to is the first
/// behind the marker, and none of the marks around it is part of it.
pub proof fn links_are_read_without_their_marks(definition: Seq<char>)
    ensures
        !holds(definition, "@@@LINK="@) ==> linked_word(definition) is None,
        linked_word(definition) matches Some(word) ==> word.len() > 0 ==> {
            &&& word[0] != '"' && word[0] != '\'' && word[0] != '<' && word[0] != '>'
            &&& word.last() != '"' && word.last() != '\'' && word.last() != '<' && word.last()
                != '>'
        },
        ({
            let parts = pieces(definition, "@@@LINK="@);
            let behind = words(pieces(parts[1], "@@@"@)[0]);
            let word = behind[0];
            let open = word[0] == '"' || word[0] == '\'' || word[0] == '<' || word[0] == '>';
            let shut = word.last() == '"' || word.last() == '\'' || word.last() == '<'
                || word.last() == '>';
            parts.len() > 1 && behind.len() > 0 && word.len() > 0 && !open && !shut ==> linked_word(
                definition,
            ) == Some(word)
        }),
{
    reveal_strlit("@@@LINK=");
    found_iff_holds(definition, "@@@LINK="@);
    let parts = pieces(definition, "@@@LINK="@);
    if parts.len() > 1 {
        let behind = words(pieces(parts[1], "@@@"@)[0]);
        if behind.len() > 0 {
            lemma_leading_marks(behind[0]);
            lemma_marks_are_trimmed(without_leading_marks(behind[0]));
        }
    }
}

/// A Russian entry is its headword and its definition; an entry that another word linked to says
/// which, and counts that word as the term that matched.
pub proof fn russian_entries_say_what_linked_to_them(
    headword: Seq<char>,
    definition: Seq<char>,
    source: Seq<char>,
)
    ensures
        ({
            let own = russian_view(headword, definition, None);
            let linked = russian_view(headword, definition, Some(source));
            &&& own.headword == headword && linked.headword == headword
            &&& own.lemma == headword && linked.lemma == headword
            &&& own.definition_html == definition && linked.definition_html == definition
            &&& own.labels == seq!["OpenRussian"@]
            &&& linked.labels.len() == 2 && linked.labels[0] == "OpenRussian"@
            &&& linked.labels[1] == "Lemma for "@ + source
            &&& own.matched_terms.len() == 0
            &&& linked.matched_terms == seq![source]
            &&& own.pronunciation.len() == 0 && own.detail is Null
            &&& own.definitions.len() == 0 && own.translations.len() == 0 && own.forms.len() == 0
                && own.examples.len() == 0
        }),
{
}

/// A link to another key is followed, in the name of the headword that it stands at; otherwise the
/// entry itself is the answer.
pub proof fn links_are_followed_from_their_headword(
    term: Seq<char>,
    headword: Seq<char>,
    definition: Seq<char>,
    linked_from: Option<Seq<char>>,
)
    ensures
        led_to(Some(term), true, headword, definition, linked_from) == (RussianNextView::Follow {
            term,
            linked_from: headword,
        }),
        led_to(Some(term), false, headword, definition, linked_from) matches RussianNextView::Entry(
            entry,
        ) && entry.headword == headword && entry.definition_html == definition,
        led_to(None, true, headword, definition, linked_from) == led_to(
            Some(term),
            false,
            headword,
            definition,
            linked_from,
        ),
        linked_from matches Some(source) ==> (led_to(
            None,
            false,
            headword,
            definition,
            linked_from,
        ) matches RussianNextView::Entry(entry) && entry.matched_terms == seq![source]),
{
}

/// A link leads to the word that it is written with, in lower case; a definition without one leads
/// nowhere.
pub proof fn links_lead_to_lower_case(definition: Seq<char>)
    ensures
        linked_word(definition) matches Some(word) ==> link_target(definition) == Some(
            lowercased(word),
        ),
        linked_word(definition) is None ==> link_target(definition) is None,
{
}

/// The keys of words are theirs, in their order.
pub proof fn words_keep_their_keys(words: Seq<Seq<char>>, i: int)
    requires
        0 <= i < words.len(),
    ensures
        keys_of(words).len() == words.len(),
        keys_of(words)[i] == dictionary_key(words[i]),
{
}

} // verus!
