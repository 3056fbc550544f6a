use malim_chat::dictionary::{
    dictionary_keys, dictionary_lookup, find_link, find_russian, follow_link, lookup_dictionary,
    lookup_russian_dictionary, normalize_dictionary_key, plan_lookup, read_russian,
    russian_entry, russian_exact_entries, russian_link_target, russian_response, split_lines,
    terms_for, try_terms, LookupPlan, RussianNext, RussianStep, RussianTrial,
};
use malim_chat::dictionary_rows::{
    german_answer, lookup_english_chinese_dictionary, lookup_german_dictionary, shape_english,
    shape_german, EnglishRow, GermanAnswer, GermanRow,
};
use malim_chat::json::Json;

fn strings(words: &[&str]) -> Vec<String> {
    words.iter().map(|w| w.to_string()).collect()
}

#[test]
fn requests_name_a_word_and_a_dictionary() {
    let message = |word: &str, dictionary: &str| dictionary_lookup(word, dictionary).unwrap_err().message;
    assert_eq!(dictionary_lookup("  слово ", "russian_en").unwrap(), "слово");
    assert!(dictionary_lookup(&"ж".repeat(120), "german_en").is_ok());
    let short = "Select a word or short phrase of up to 120 characters.";
    assert_eq!(message(&"ж".repeat(121), "german_en"), short);
    assert_eq!(message("  ", "nothing"), short);
    assert_eq!(message("word", "nothing"), "Unsupported dictionary.");
}

#[test]
fn keys_drop_accents_case_and_punctuation() {
    assert_eq!(normalize_dictionary_key(" Зе\u{301}ркало! "), "зеркало");
    assert_eq!(normalize_dictionary_key("Ёж-2"), "ёж2");
    assert_eq!(normalize_dictionary_key("Straße"), "straße");
    assert_eq!(normalize_dictionary_key(" За\u{301}мок! "), "замок");
    assert_eq!(normalize_dictionary_key("замок"), "замок");
    for word in [" За\u{301}мок! ", "ЁЛКА", "İstanbul ΣΟΦΟΣ", "x_1\u{301} Ⅷ"] {
        let key = normalize_dictionary_key(word);
        assert_eq!(normalize_dictionary_key(&key), key);
        assert!(key.chars().all(char::is_alphanumeric));
    }
    assert_eq!(normalize_dictionary_key("..."), "");
    assert_eq!(dictionary_keys(&strings(&["До\u{301}м", "A b"])), ["дом", "ab"]);
}

#[test]
fn lines_are_trimmed_and_blank_ones_dropped() {
    assert_eq!(split_lines(" a \r\n\n\t\nb"), ["a", "b"]);
    assert!(split_lines("").is_empty());
}

#[test]
fn each_dictionary_has_its_plan() {
    assert!(matches!(lookup_dictionary(true, "russian_en", " Ёлка "), Ok(LookupPlan::Russian(terms)) if terms == ["ёлка", "елка"]));
    assert!(matches!(
        lookup_dictionary(true, "german_en", "Straße"),
        Ok(LookupPlan::German { key, pattern }) if key == "strasse" && pattern == "strasse%"
    ));
    assert!(matches!(
        lookup_dictionary(true, "english_zh", " Run "),
        Ok(LookupPlan::English { word, pattern }) if word == "run" && pattern == "run%"
    ));
    match lookup_dictionary(false, "german_en", "x") {
        Ok(_) => panic!("nothing is installed"),
        Err(error) => assert_eq!(error.message, "Local dictionaries are not installed on this server."),
    }
    assert!(matches!(plan_lookup("russian_en", "дом", "дом"), LookupPlan::Russian(terms) if terms == ["дом"]));
    assert_eq!(terms_for("ёё"), ["ёё", "ее"]);
    assert_eq!(lookup_russian_dictionary(" Дом "), ["дом"]);
}

#[test]
fn entries_with_a_key_are_found_by_halves() {
    let keys = strings(&["а", "б", "б", "б", "г", "ё"]);
    assert_eq!(russian_exact_entries(&keys, "б"), (1, 4));
    assert_eq!(russian_exact_entries(&keys, "а"), (0, 1));
    assert_eq!(russian_exact_entries(&keys, "ё"), (5, 6));
    assert_eq!(russian_exact_entries(&keys, "в"), (4, 4));
    assert_eq!(russian_exact_entries(&keys, ""), (0, 0));
    assert_eq!(russian_exact_entries(&vec![], "а"), (0, 0));
    for n in 0..40usize {
        let keys: Vec<String> = (0..n).map(|i| format!("{:02}", i / 3)).collect();
        for target in 0..14usize {
            let target = format!("{:02}", target);
            let start = keys.iter().take_while(|k| **k < target).count();
            let end = start + keys.iter().filter(|k| **k == target).count();
            assert_eq!(russian_exact_entries(&keys, &target), (start, end));
        }
    }
    assert!(matches!(find_russian(&keys, "б"), RussianStep::Fetch(1)));
    assert!(matches!(find_russian(&keys, "в"), RussianStep::Search));
    assert!(matches!(russian_entry(&keys, " Г! "), RussianStep::Fetch(4)));
    assert!(matches!(russian_entry(&keys, "д"), RussianStep::Search));
}

#[test]
fn the_first_term_that_is_found_ends_the_search() {
    let terms = strings(&["ёлка", "елка"]);
    assert!(matches!(try_terms(&terms, 0, None), RussianTrial::Try(term) if term == "ёлка"));
    assert!(matches!(try_terms(&terms, 1, None), RussianTrial::Try(term) if term == "елка"));
    assert!(matches!(try_terms(&terms, 2, None), RussianTrial::Done(entries) if entries.is_empty()));
    let found = russian_response("ёлка".to_string(), "fir", None);
    match try_terms(&terms, 1, Some(found)) {
        RussianTrial::Done(entries) => {
            assert_eq!(entries.len(), 1);
            assert_eq!(entries[0].headword, "ёлка");
        }
        RussianTrial::Try(_) => panic!("an entry was found"),
    }
}

#[test]
fn german_words_fall_back_to_prefixes() {
    let row = |headword: &str| GermanRow {
        headword: headword.to_string(),
        lemma: "l".to_string(),
        forms: "[\"f\"]".to_string(),
        definition: "d".to_string(),
    };
    assert!(matches!(german_answer(vec![], false, "w"), GermanAnswer::Prefixes));
    assert!(matches!(german_answer(vec![], true, "w"), GermanAnswer::Entries(entries) if entries.is_empty()));
    for by_prefix in [false, true] {
        match german_answer(vec![row("a"), row("b")], by_prefix, "w") {
            GermanAnswer::Entries(entries) => {
                assert_eq!(entries.iter().map(|entry| entry.headword.as_str()).collect::<Vec<_>>(), ["a", "b"]);
                assert_eq!(entries[1].forms, ["f"]);
                assert_eq!(entries[1].matched_terms, ["w"]);
            }
            GermanAnswer::Prefixes => panic!("rows were found"),
        }
    }
}

#[test]
fn links_are_read_from_definitions() {
    assert_eq!(find_link("x @@@LINK= \"Дом\" more"), Some("Дом".to_string()));
    assert_eq!(find_link("@@@LINK=<'a'>@@@LINK=b"), Some("a".to_string()));
    assert_eq!(find_link("@@@LINK=a@@@b"), Some("a".to_string()));
    assert_eq!(find_link("@@@LINK=  "), None);
    assert_eq!(find_link("plain"), None);
    assert_eq!(russian_link_target("@@@LINK=ДОМ"), Some("дом".to_string()));
}

#[test]
fn linked_entries_are_followed_unless_they_are_the_term() {
    match read_russian("дома", "дома".to_string(), "@@@LINK=Дом", None) {
        RussianNext::Follow { term, linked_from } => assert_eq!((term.as_str(), linked_from.as_str()), ("дом", "дома")),
        RussianNext::Entry(_) => panic!("the entry links elsewhere"),
    }
    for definition in ["@@@LINK=До\u{301}м", "<b>house</b>"] {
        match read_russian("дом", "дом".to_string(), definition, Some("дома")) {
            RussianNext::Entry(entry) => {
                assert_eq!(entry.headword, "дом");
                assert_eq!(entry.lemma, "дом");
                assert_eq!(entry.labels, ["OpenRussian", "Lemma for дома"]);
                assert_eq!(entry.matched_terms, ["дома"]);
                assert_eq!(entry.definition_html, definition);
            }
            RussianNext::Follow { .. } => panic!("the entry is the term's own"),
        }
    }
    assert!(matches!(
        follow_link(Some("t".to_string()), true, "h".to_string(), "d", None),
        RussianNext::Follow { .. }
    ));
    let entry = russian_response("h".to_string(), "d", None);
    assert_eq!(entry.labels, ["OpenRussian"]);
    assert!(entry.matched_terms.is_empty() && entry.detail.is_null());
}

#[test]
fn german_rows_list_their_forms() {
    let row = |forms: &str| GermanRow {
        headword: "Haus".to_string(),
        lemma: "Haus".to_string(),
        forms: forms.to_string(),
        definition: "<p>house</p>".to_string(),
    };
    let entry = lookup_german_dictionary(row("[\"Hauses\",\"Häuser\"]"), "Häuser");
    assert_eq!(entry.forms, ["Hauses", "Häuser"]);
    assert_eq!((entry.labels.as_slice(), entry.matched_terms.as_slice()), (&["Kaikki German".to_string()][..], &["Häuser".to_string()][..]));
    assert_eq!(entry.definition_html, "<p>house</p>");
    for broken in ["", "{}", "[1]", "[\"a\",null]"] {
        assert_eq!(lookup_german_dictionary(row(broken), "x").forms, ["Haus"], "{}", broken);
    }
    assert!(lookup_german_dictionary(row("[]"), "x").forms.is_empty());
    assert_eq!(shape_german(row(""), "x", Some(Json::Array(vec![Json::text("f")]))).forms, ["f"]);
}

fn english() -> EnglishRow {
    EnglishRow {
        headword: "run".to_string(),
        pronunciation: "rʌn".to_string(),
        definition: "a\n\nb".to_string(),
        translation: " 跑 ".to_string(),
        pos: "v".to_string(),
        collins: 5,
        oxford: 1,
        tags: "zk\ngk".to_string(),
        bnc: 12,
        frequency: 34,
        exchange: "p:ran/d:run/i:running/3:runs/r:x/t:y/s:z/0:run/f:other/broken".to_string(),
        detail: String::new(),
    }
}

#[test]
fn english_rows_are_labelled() {
    let entry = lookup_english_chinese_dictionary(english(), "Run");
    assert_eq!(
        entry.labels,
        ["zk", "gk", "POS: v", "Collins 5", "Oxford 3000", "BNC #12", "Modern frequency #34"]
    );
    assert_eq!(
        entry.forms,
        [
            "past: ran", "past participle: run", "present participle: running",
            "third-person singular: runs", "comparative: x", "superlative: y", "plural: z",
            "lemma: run", "f: other"
        ]
    );
    assert_eq!((entry.definitions.as_slice(), entry.translations.as_slice()), (&strings(&["a", "b"])[..], &strings(&["跑"])[..]));
    assert_eq!((entry.lemma.as_str(), entry.pronunciation.as_str()), ("run", "rʌn"));
    assert_eq!(entry.matched_terms, ["Run"]);
    assert!(entry.detail.is_null());
    let bare = EnglishRow { pos: String::new(), collins: 0, oxford: -1, tags: String::new(), bnc: 0, frequency: 0, exchange: String::new(), ..english() };
    let entry = lookup_english_chinese_dictionary(bare, "run");
    assert!(entry.labels.is_empty() && entry.forms.is_empty());
}

#[test]
fn english_details_are_json_or_text() {
    let detail = |detail: &str| {
        lookup_english_chinese_dictionary(EnglishRow { detail: detail.to_string(), ..english() }, "run").detail
    };
    assert_eq!(detail("{\"a\":1}").at("a").as_u64(), Some(1));
    assert_eq!(detail("just text"), Json::text("just text"));
    assert!(detail("").is_null());
    assert_eq!(shape_english(english(), "run", Some(Json::text("d"))).detail, Json::text("d"));
}
