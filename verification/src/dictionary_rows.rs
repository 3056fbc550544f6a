//! The rows of the German and the English dictionary as entries.

use vstd::prelude::*;
use vstd::string::*;

use crate::decimal::{signed, write_i64};
use crate::dictionary::{full_lines, split_lines, DictionaryEntryResponse, EntryView};
use crate::json::{parsed_json, views, Json, JsonView};
use crate::picking::{picked, picked_ends, picked_push, picked_step};
use crate::providers::opt_view;
use crate::search::{cut, pieces, split, split_once};
use crate::text::{same, texts};

verus! {

// ---------------------------------------------------------------- German

/// A row of the German dictionary.
pub struct GermanRow {
    pub headword: String,
    pub lemma: String,
    pub forms: String,
    pub definition: String,
}

/// Whether every item is a string.
pub open spec fn all_text(items: Seq<JsonView>) -> bool {
    forall|i: int| 0 <= i < items.len() ==> (#[trigger] items[i]) is Str
}

/// The strings of an array that holds nothing else.
pub open spec fn string_list(value: Option<JsonView>) -> Option<Seq<Seq<char>>> {
    match value {
        Some(JsonView::Array(items)) => if all_text(items) {
            Some(items.map_values(|i: JsonView| i.text_or_empty()))
        } else {
            None
        },
        _ => None,
    }
}

fn read_string_list(items: &Vec<Json>) -> (r: Option<Vec<String>>)
    ensures
        match r {
            Some(list) => string_list(Some(JsonView::Array(views(items@)))) == Some(texts(list@)),
            None => string_list(Some(JsonView::Array(views(items@)))) is None,
        },
{
    let ghost all = views(items@);
    let ghost shown = all.map_values(|i: JsonView| i.text_or_empty());
    let mut out: Vec<String> = Vec::new();
    assert(texts(out@) =~= shown.take(0));
    for i in 0..items.len()
        invariant
            all == views(items@),
            shown == all.map_values(|i: JsonView| i.text_or_empty()),
            texts(out@) == shown.take(i as int),
            forall|j: int| 0 <= j < i ==> (#[trigger] all[j]) is Str,
    {
        assert(all[i as int] == items@[i as int]@);
        match items[i].as_str() {
            Some(text) => {
                let ghost before = texts(out@);
                out.push(text.to_owned());
                proof {
                    assert(texts(out@) =~= before.push(text@));
                    assert(shown[i as int] == text@);
                    assert(shown.take(i + 1) =~= shown.take(i as int).push(text@));
                }
            },
            None => {
                assert(!(all[i as int] is Str));
                return None;
            },
        }
    }
    assert(shown.take(shown.len() as int) =~= shown);
    Some(out)
}

/// A row of the German dictionary as an entry, given what its forms parse as: the forms where they
/// are a list of strings, else the lemma.
pub open spec fn german_view(
    headword: Seq<char>,
    lemma: Seq<char>,
    definition: Seq<char>,
    word: Seq<char>,
    forms: Option<JsonView>,
) -> EntryView {
    EntryView {
        headword,
        lemma,
        pronunciation: Seq::empty(),
        definitions: Seq::empty(),
        translations: Seq::empty(),
        forms: match string_list(forms) {
            Some(list) => list,
            None => seq![lemma],
        },
        labels: seq!["Kaikki German"@],
        examples: Seq::empty(),
        detail: JsonView::Null,
        definition_html: definition,
        matched_terms: seq![word],
    }
}

fn only(s: &str) -> (r: Vec<String>)
    ensures
        texts(r@) == seq![s@],
{
    let mut out: Vec<String> = Vec::new();
    out.push(s.to_owned());
    assert(texts(out@) =~= seq![s@]);
    out
}

/// A row of the German dictionary as an entry, given what its forms parsed as.
pub fn shape_german(row: GermanRow, word: &str, forms: Option<Json>) -> (r: DictionaryEntryResponse)
    ensures
        r@ == german_view(row.headword@, row.lemma@, row.definition@, word@, opt_view(forms)),
        r.headword@ == row.headword@,
        r.lemma@ == row.lemma@,
        r.definition_html@ == row.definition@,
        texts(r.matched_terms@) == seq![word@],
{
    let ghost view = german_view(
        row.headword@,
        row.lemma@,
        row.definition@,
        word@,
        opt_view(forms),
    );
    let listed = match &forms {
        Some(value) => match value.as_array() {
            Some(items) => read_string_list(items),
            None => None,
        },
        None => None,
    };
    let forms = match listed {
        Some(list) => list,
        None => only(row.lemma.as_str()),
    };
    let r = DictionaryEntryResponse {
        headword: row.headword,
        lemma: row.lemma,
        pronunciation: String::new(),
        definitions: Vec::new(),
        translations: Vec::new(),
        forms,
        labels: only("Kaikki German"),
        examples: Vec::new(),
        detail: Json::Null,
        definition_html: row.definition,
        matched_terms: only(word),
    };
    proof {
        assert(r@.definitions =~= Seq::empty());
        assert(r@.translations =~= Seq::empty());
        assert(r@.examples =~= Seq::empty());
    }
    r
}

/// A row of the German dictionary as an entry.
pub fn lookup_german_dictionary(row: GermanRow, word: &str) -> (r: DictionaryEntryResponse)
    ensures
        r@ == german_view(
            row.headword@,
            row.lemma@,
            row.definition@,
            word@,
            parsed_json(row.forms@),
        ),
        r.headword@ == row.headword@,
        r.lemma@ == row.lemma@,
        r.definition_html@ == row.definition@,
        texts(r.matched_terms@) == seq![word@],
{
    let forms = Json::parse(row.forms.as_str());
    shape_german(row, word, forms)
}

/// The views of entries.
pub open spec fn entry_views(entries: Seq<DictionaryEntryResponse>) -> Seq<EntryView> {
    entries.map_values(|entry: DictionaryEntryResponse| entry@)
}

/// Rows of the German dictionary as entries.
pub open spec fn german_views(rows: Seq<GermanRow>, word: Seq<char>) -> Seq<EntryView> {
    rows.map_values(
        |row: GermanRow|
            german_view(row.headword@, row.lemma@, row.definition@, word, parsed_json(row.forms@)),
    )
}

/// What the rows that were found for a German word come to.
pub enum GermanAnswer {
    /// These are the entries.
    Entries(Vec<DictionaryEntryResponse>),
    /// Nothing has the key: look up the keys that start with it.
    Prefixes,
}

/// What the rows that were found for a German word come to; `by_prefix` says that they were looked
/// up by the start of their keys already.
pub fn german_answer(rows: Vec<GermanRow>, by_prefix: bool, word: &str) -> (r: GermanAnswer)
    ensures
        match r {
            GermanAnswer::Entries(entries) => {
                &&& rows@.len() > 0 || by_prefix
                &&& entry_views(entries@) == german_views(rows@, word@)
            },
            GermanAnswer::Prefixes => rows@.len() == 0 && !by_prefix,
        },
{
    if rows.len() == 0 && !by_prefix {
        return GermanAnswer::Prefixes;
    }
    let ghost given = rows@;
    let mut rest = rows;
    let mut entries: Vec<DictionaryEntryResponse> = Vec::new();
    assert(given.skip(0) =~= given);
    while rest.len() > 0
        invariant
            entries@.len() <= given.len(),
            rest@ == given.skip(entries@.len() as int),
            entry_views(entries@) =~= german_views(given.take(entries@.len() as int), word@),
        decreases rest@.len(),
    {
        let ghost n = entries@.len() as int;
        let ghost before = entry_views(entries@);
        let row = rest.remove(0);
        let entry = lookup_german_dictionary(row, word);
        entries.push(entry);
        proof {
            assert(row == given[n]);
            assert(rest@ =~= given.skip(n + 1));
            assert(entry_views(entries@) =~= before.push(entry@));
            assert(german_views(given.take(n + 1), word@) =~= german_views(
                given.take(n),
                word@,
            ).push(entry@));
        }
    }
    assert(given.take(given.len() as int) =~= given);
    GermanAnswer::Entries(entries)
}

// ---------------------------------------------------------------- English

/// A row of the English dictionary.
pub struct EnglishRow {
    pub headword: String,
    pub pronunciation: String,
    pub definition: String,
    pub translation: String,
    pub pos: String,
    pub collins: i32,
    pub oxford: i32,
    pub tags: String,
    pub bnc: i32,
    pub frequency: i32,
    pub exchange: String,
    pub detail: String,
}

/// The name of an inflected form.
pub open spec fn form_name(kind: Seq<char>) -> Seq<char> {
    if kind == "p"@ {
        "past"@
    } else if kind == "d"@ {
        "past participle"@
    } else if kind == "i"@ {
        "present participle"@
    } else if kind == "3"@ {
        "third-person singular"@
    } else if kind == "r"@ {
        "comparative"@
    } else if kind == "t"@ {
        "superlative"@
    } else if kind == "s"@ {
        "plural"@
    } else if kind == "0"@ {
        "lemma"@
    } else {
        kind
    }
}

fn name_form(kind: &str) -> (r: String)
    ensures
        r@ == form_name(kind@),
{
    if same(kind, "p") {
        "past".to_owned()
    } else if same(kind, "d") {
        "past participle".to_owned()
    } else if same(kind, "i") {
        "present participle".to_owned()
    } else if same(kind, "3") {
        "third-person singular".to_owned()
    } else if same(kind, "r") {
        "comparative".to_owned()
    } else if same(kind, "t") {
        "superlative".to_owned()
    } else if same(kind, "s") {
        "plural".to_owned()
    } else if same(kind, "0") {
        "lemma".to_owned()
    } else {
        kind.to_owned()
    }
}

/// An inflected form as clients see it; an item without a colon is none.
pub open spec fn form_text(item: Seq<char>) -> Option<Seq<char>> {
    match cut(item, ":"@) {
        Some((kind, value)) => Some(form_name(kind) + ": "@ + value),
        None => None,
    }
}

/// The inflected forms of a word.
pub open spec fn form_texts(exchange: Seq<char>) -> Seq<Seq<char>> {
    picked(pieces(exchange, "/"@), |i: Seq<char>| form_text(i))
}

fn read_forms(exchange: &str) -> (r: Vec<String>)
    ensures
        texts(r@) == form_texts(exchange@),
{
    proof {
        reveal_strlit("/");
    }
    let parts = split(exchange, "/");
    let ghost seen = pieces(exchange@, "/"@);
    let ghost pick = |i: Seq<char>| form_text(i);
    let mut out: Vec<String> = Vec::new();
    proof {
        picked_ends(seen, pick);
        assert(texts(out@) =~= Seq::empty());
    }
    for i in 0..parts.len()
        invariant
            seen == pieces(exchange@, "/"@),
            texts(parts@) == seen,
            pick == (|i: Seq<char>| form_text(i)),
            texts(out@) == picked(seen.take(i as int), pick),
    {
        let ghost before = texts(out@);
        proof {
            assert(seen[i as int] == parts@[i as int]@);
            picked_step(seen, pick, i as int);
        }
        if let Some((kind, value)) = split_once(parts[i].as_str(), ":") {
            let text = name_form(kind.as_str()).concat(": ").concat(value.as_str());
            let ghost written = text@;
            out.push(text);
            assert(texts(out@) =~= before.push(written));
        }
    }
    proof {
        assert(seen.len() == parts@.len());
        picked_ends(seen, pick);
    }
    out
}

/// A label, where there is something to say.
pub open spec fn label_when(yes: bool, label: Seq<char>) -> Seq<Seq<char>> {
    if yes {
        seq![label]
    } else {
        Seq::empty()
    }
}

/// The labels of a word: its tags, its part of speech, and how common it is.
pub open spec fn label_texts(row: EnglishRow) -> Seq<Seq<char>> {
    full_lines(row.tags@) + label_when(row.pos@.len() > 0, "POS: "@ + row.pos@) + label_when(
        row.collins > 0,
        "Collins "@ + signed(row.collins as int),
    ) + label_when(row.oxford > 0, "Oxford 3000"@) + label_when(
        row.bnc > 0,
        "BNC #"@ + signed(row.bnc as int),
    ) + label_when(row.frequency > 0, "Modern frequency #"@ + signed(row.frequency as int))
}

fn push_label(labels: &mut Vec<String>, yes: bool, label: String)
    ensures
        texts(final(labels)@) == texts(old(labels)@) + label_when(yes, label@),
{
    let ghost before = texts(labels@);
    let ghost written = label@;
    if yes {
        labels.push(label);
        assert(texts(labels@) =~= before + seq![written]);
    } else {
        assert(before + Seq::<Seq<char>>::empty() =~= before);
    }
}

fn read_labels(row: &EnglishRow) -> (r: Vec<String>)
    ensures
        texts(r@) == label_texts(*row),
{
    let mut labels = split_lines(row.tags.as_str());
    push_label(
        &mut labels,
        !row.pos.as_str().is_empty(),
        "POS: ".to_owned().concat(row.pos.as_str()),
    );
    push_label(
        &mut labels,
        row.collins > 0,
        "Collins ".to_owned().concat(write_i64(row.collins as i64).as_str()),
    );
    push_label(&mut labels, row.oxford > 0, "Oxford 3000".to_owned());
    push_label(
        &mut labels,
        row.bnc > 0,
        "BNC #".to_owned().concat(write_i64(row.bnc as i64).as_str()),
    );
    push_label(
        &mut labels,
        row.frequency > 0,
        "Modern frequency #".to_owned().concat(write_i64(row.frequency as i64).as_str()),
    );
    labels
}

/// The detail of a word: what it parses as, else its text, else nothing.
pub open spec fn detail_view(detail: Seq<char>, parsed: Option<JsonView>) -> JsonView {
    match parsed {
        Some(value) => value,
        None => if detail.len() == 0 {
            JsonView::Null
        } else {
            JsonView::Str(detail)
        },
    }
}

/// A row of the English dictionary as an entry, given what its detail parses as.
pub open spec fn english_view(row: EnglishRow, word: Seq<char>, detail: Option<JsonView>) -> EntryView {
    EntryView {
        headword: row.headword@,
        lemma: row.headword@,
        pronunciation: row.pronunciation@,
        definitions: full_lines(row.definition@),
        translations: full_lines(row.translation@),
        forms: form_texts(row.exchange@),
        labels: label_texts(row),
        examples: Seq::empty(),
        detail: detail_view(row.detail@, detail),
        definition_html: Seq::empty(),
        matched_terms: seq![word],
    }
}

/// A row of the English dictionary as an entry, given what its detail parsed as.
pub fn shape_english(row: EnglishRow, word: &str, detail: Option<Json>) -> (r:
    DictionaryEntryResponse)
    ensures
        r@ == english_view(row, word@, opt_view(detail)),
        r.headword@ == row.headword@,
        r.lemma@ == row.headword@,
        r.pronunciation@ == row.pronunciation@,
        texts(r.matched_terms@) == seq![word@],
{
    let ghost view = english_view(row, word@, opt_view(detail));
    let labels = read_labels(&row);
    let forms = read_forms(row.exchange.as_str());
    let definitions = split_lines(row.definition.as_str());
    let translations = split_lines(row.translation.as_str());
    let detail = match detail {
        Some(value) => value,
        None => if row.detail.as_str().is_empty() {
            Json::Null
        } else {
            Json::Str(row.detail)
        },
    };
    let r = DictionaryEntryResponse {
        lemma: row.headword.clone(),
        headword: row.headword,
        pronunciation: row.pronunciation,
        definitions,
        translations,
        forms,
        labels,
        examples: Vec::new(),
        detail,
        definition_html: String::new(),
        matched_terms: only(word),
    };
    assert(r@.examples =~= Seq::empty());
    r
}

/// A row of the English dictionary as an entry.
pub fn lookup_english_chinese_dictionary(row: EnglishRow, word: &str) -> (r:
    DictionaryEntryResponse)
    ensures
        r@ == english_view(row, word@, parsed_json(row.detail@)),
        r.headword@ == row.headword@,
        r.lemma@ == row.headword@,
        r.pronunciation@ == row.pronunciation@,
        texts(r.matched_terms@) == seq![word@],
{
    let detail = Json::parse(row.detail.as_str());
    shape_english(row, word, detail)
}

// ---------------------------------------------------------------- laws

/// A German entry says what its row says, whatever word led to it: two words that reach the same
/// row get the same entry, each with itself as the term that matched.
pub proof fn german_entries_say_what_their_row_says(
    headword: Seq<char>,
    lemma: Seq<char>,
    definition: Seq<char>,
    word: Seq<char>,
    other: Seq<char>,
    forms: Option<JsonView>,
)
    ensures
        ({
            let entry = german_view(headword, lemma, definition, word, forms);
            let again = german_view(headword, lemma, definition, other, forms);
            &&& entry.headword == headword
            &&& entry.lemma == lemma
            &&& entry.definition_html == definition
            &&& entry.matched_terms == seq![word]
            &&& again == (EntryView { matched_terms: seq![other], ..entry })
            &&& forms is None ==> entry.forms == seq![lemma]
            &&& entry.pronunciation.len() == 0
            &&& entry.definitions.len() == 0 && entry.translations.len() == 0
                && entry.examples.len() == 0
            &&& entry.detail is Null
        }),
{
}

/// The forms of a German entry are the strings of its list, in their order; a list with anything
/// else in it gives the lemma alone.
pub proof fn german_forms_are_listed(
    headword: Seq<char>,
    lemma: Seq<char>,
    definition: Seq<char>,
    word: Seq<char>,
    items: Seq<JsonView>,
    i: int,
)
    requires
        0 <= i < items.len(),
    ensures
        ({
            let entry = german_view(
                headword,
                lemma,
                definition,
                word,
                Some(JsonView::Array(items)),
            );
            &&& (forall|j: int| 0 <= j < items.len() ==> (#[trigger] items[j]) is Str) ==> {
                &&& entry.forms.len() == items.len()
                &&& items[i] == JsonView::Str(entry.forms[i])
            }
            &&& !(items[i] is Str) ==> entry.forms == seq![lemma]
        }),
{
}

/// Every row that was found becomes an entry of its own, in the order of the rows.
pub proof fn german_rows_become_entries(rows: Seq<GermanRow>, word: Seq<char>, i: int)
    requires
        0 <= i < rows.len(),
    ensures
        german_views(rows, word).len() == rows.len(),
        german_views(rows, word)[i].headword == rows[i].headword@,
        german_views(rows, word)[i].lemma == rows[i].lemma@,
        german_views(rows, word)[i].definition_html == rows[i].definition@,
        german_views(rows, word)[i].matched_terms == seq![word],
        parsed_json(rows[i].forms@) is None ==> german_views(
            rows,
            word,
        )[i].forms == seq![rows[i].lemma@],
{
}

/// An English entry says what its row says, whatever word led to it: two words that reach the same
/// row get the same entry, each with itself as the term that matched.
pub proof fn english_entries_say_what_their_row_says(
    row: EnglishRow,
    word: Seq<char>,
    other: Seq<char>,
    detail: Option<JsonView>,
)
    ensures
        ({
            let entry = english_view(row, word, detail);
            let again = english_view(row, other, detail);
            &&& entry.headword == row.headword@
            &&& entry.lemma == row.headword@
            &&& entry.pronunciation == row.pronunciation@
            &&& entry.matched_terms == seq![word]
            &&& again == (EntryView { matched_terms: seq![other], ..entry })
            &&& detail matches Some(value) ==> entry.detail == value
            &&& detail is None && row.detail@.len() > 0 ==> entry.detail == JsonView::Str(
                row.detail@,
            )
            &&& detail is None && row.detail@.len() == 0 ==> entry.detail is Null
            &&& entry.examples.len() == 0 && entry.definition_html.len() == 0
        }),
{
}

/// The definitions and the translations of an English entry are the lines of their own columns: rows
/// that agree on the one agree on the other.
pub proof fn english_columns_are_kept_apart(
    row: EnglishRow,
    other: EnglishRow,
    word: Seq<char>,
    detail: Option<JsonView>,
)
    ensures
        english_view(row, word, detail).definitions == full_lines(row.definition@),
        english_view(row, word, detail).translations == full_lines(row.translation@),
        row.definition@ == other.translation@ ==> english_view(row, word, detail).definitions
            == english_view(other, word, detail).translations,
{
}

/// A word is labelled with what its row gives it, and with nothing that it lacks.
pub proof fn english_labels_are_earned(row: EnglishRow)
    ensures
        ({
            let tags = full_lines(row.tags@);
            let labels = label_texts(row);
            let count = |yes: bool|
                if yes {
                    1int
                } else {
                    0int
                };
            let pos = tags.len() as int;
            let collins = pos + count(row.pos@.len() > 0);
            let oxford = collins + count(row.collins > 0);
            let bnc = oxford + count(row.oxford > 0);
            let frequency = bnc + count(row.bnc > 0);
            &&& labels.len() == frequency + count(row.frequency > 0)
            &&& tags.is_prefix_of(labels)
            &&& row.pos@.len() > 0 ==> labels[pos] == "POS: "@ + row.pos@
            &&& row.collins > 0 ==> labels[collins] == "Collins "@ + signed(row.collins as int)
            &&& row.oxford > 0 ==> labels[oxford] == "Oxford 3000"@
            &&& row.bnc > 0 ==> labels[bnc] == "BNC #"@ + signed(row.bnc as int)
            &&& row.frequency > 0 ==> labels[frequency] == "Modern frequency #"@ + signed(
                row.frequency as int,
            )
        }),
{
    let tags = full_lines(row.tags@);
    assert(tags =~= label_texts(row).subrange(0, tags.len() as int));
}

/// A form is shown as its name and its value: one of the known kinds under its English name, another
/// under its own.
pub proof fn forms_are_named(kind: Seq<char>, value: Seq<char>, item: Seq<char>)
    requires
        cut(item, ":"@) == Some((kind, value)),
    ensures
        form_text(item) matches Some(text) && value.is_suffix_of(text) && text == form_name(kind)
            + ": "@ + value,
        form_name("p"@) == "past"@,
        form_name("d"@) == "past participle"@,
        form_name("i"@) == "present participle"@,
        form_name("3"@) == "third-person singular"@,
        form_name("r"@) == "comparative"@,
        form_name("t"@) == "superlative"@,
        form_name("s"@) == "plural"@,
        form_name("0"@) == "lemma"@,
        kind.len() != 1 ==> form_name(kind) == kind,
{
    reveal_strlit("p");
    reveal_strlit("d");
    reveal_strlit("i");
    reveal_strlit("3");
    reveal_strlit("r");
    reveal_strlit("t");
    reveal_strlit("s");
    reveal_strlit("0");
    assert("p"@[0] == 'p' && "d"@[0] == 'd' && "i"@[0] == 'i' && "3"@[0] == '3');
    assert("r"@[0] == 'r' && "t"@[0] == 't' && "s"@[0] == 's' && "0"@[0] == '0');
    let text = form_name(kind) + ": "@ + value;
    assert(value =~= text.subrange(text.len() - value.len(), text.len() as int));
}

/// An item of the forms that names no kind is left out; one more item adds its own form and changes
/// none before it.
pub proof fn forms_add_up(exchange: Seq<char>, longer: Seq<char>, item: Seq<char>)
    requires
        pieces(longer, "/"@) == pieces(exchange, "/"@).push(item),
    ensures
        cut(item, ":"@) is None ==> form_texts(longer) == form_texts(exchange),
        cut(item, ":"@) matches Some((kind, value)) ==> form_texts(longer) == form_texts(
            exchange,
        ).push(form_name(kind) + ": "@ + value),
{
    picked_push(pieces(exchange, "/"@), item, |i: Seq<char>| form_text(i));
}

} // verus!
