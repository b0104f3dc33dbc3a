use dg::dictionary::Dictionary;
use dg::entry::record_from_answer;
use dg::error::LookupError;
use dg::lookup::{begin_lookup, finish_lookup, lookup_url, word_argument, Step};
use dg::present::render;
use dg::record::WordInfo;
use dg::store::{load, save};

const HELLO: &str = r#"[{"word":"hello","phonetic":"həˈləʊ","meanings":[{"partOfSpeech":"exclamation","definitions":[{"definition":"used as a greeting"},{"definition":"used to begin a phone call"},{"definition":"used to express surprise"},{"definition":"used to attract attention"}]}]}]"#;

fn record(p: &str, s: &str, defs: &[&str]) -> WordInfo {
    WordInfo::new(p.to_string(), s.to_string(), defs.iter().map(|d| d.to_string()).collect())
}

#[test]
fn missing_argument_is_an_error() {
    let r = word_argument(&vec![]);
    assert!(matches!(r, Err(LookupError::MissingWord)));
}

#[test]
fn first_argument_is_the_word() {
    let r = word_argument(&vec!["Hello".to_string(), "other".to_string()]);
    assert_eq!(r.unwrap(), "Hello");
}

#[test]
fn not_found_adds_nothing() {
    let mut d = Dictionary::new();
    let word = "zzzxzzzx".to_string();
    assert!(matches!(begin_lookup(&d, &word), Step::Fetch));
    let answer = record_from_answer(&word, 404, r#"{"title":"No Definitions Found"}"#);
    match &answer {
        Err(LookupError::WordNotFound(w)) => assert_eq!(w, "zzzxzzzx"),
        other => panic!("unexpected {:?}", other),
    }
    let r = finish_lookup(&mut d, &word, answer);
    assert!(r.is_err());
    assert_eq!(d.len(), 0);
    assert_eq!(save(&d), "{}");
}

#[test]
fn entry_without_meanings_is_malformed() {
    let mut d = Dictionary::new();
    let before = save(&d);
    let word = "word".to_string();
    let answer = record_from_answer(&word, 200, "[{}]");
    assert!(matches!(answer, Err(LookupError::MalformedResponse)));
    let r = finish_lookup(&mut d, &word, answer);
    assert!(matches!(r, Err(LookupError::MalformedResponse)));
    assert_eq!(save(&d), before);
}

#[test]
fn other_answers_are_fetch_failures() {
    assert!(matches!(record_from_answer("w", 500, HELLO), Err(LookupError::FetchFailed)));
    assert!(matches!(record_from_answer("w", 200, ""), Err(LookupError::FetchFailed)));
    assert!(matches!(record_from_answer("w", 200, "[]"), Err(LookupError::FetchFailed)));
    assert!(matches!(record_from_answer("w", 200, r#"{"a":1}"#), Err(LookupError::FetchFailed)));
    assert!(matches!(record_from_answer("w", 200, "not json"), Err(LookupError::FetchFailed)));
}

#[test]
fn structural_gaps_are_malformed() {
    let cases = [
        r#"[1]"#,
        r#"[{"meanings":3}]"#,
        r#"[{"meanings":[]}]"#,
        r#"[{"meanings":["x"]}]"#,
        r#"[{"meanings":[{"partOfSpeech":"noun"}]}]"#,
        r#"[{"meanings":[{"definitions":{}}]}]"#,
    ];
    for c in cases.iter() {
        assert!(matches!(record_from_answer("w", 200, c), Err(LookupError::MalformedResponse)), "{}", c);
    }
}

#[test]
fn definitions_are_capped_at_three() {
    let w = record_from_answer("hello", 200, HELLO).unwrap();
    assert_eq!(w.phonetic, "həˈləʊ");
    assert_eq!(w.part_of_speech, "exclamation");
    assert_eq!(
        w.definitions,
        vec!["used as a greeting", "used to begin a phone call", "used to express surprise"]
    );
}

#[test]
fn short_definition_lists_are_not_padded() {
    let body = r#"[{"phonetic":"p","meanings":[{"partOfSpeech":"noun","definitions":[{"definition":"one"},{"definition":"two"}]}]}]"#;
    let w = record_from_answer("w", 200, body).unwrap();
    assert_eq!(w.definitions, vec!["one", "two"]);
    let body = r#"[{"meanings":[{"definitions":[]}]}]"#;
    let w = record_from_answer("w", 200, body).unwrap();
    assert!(w.definitions.is_empty());
}

#[test]
fn missing_fields_fall_back_to_the_sentinel() {
    let body = r#"[{"meanings":[{"partOfSpeech":7,"definitions":[{"definition":"kept"},{"example":"x"},"plain"]}]}]"#;
    let w = record_from_answer("w", 200, body).unwrap();
    assert_eq!(w.phonetic, "null");
    assert_eq!(w.part_of_speech, "null");
    assert_eq!(w.definitions, vec!["kept", "null", "null"]);
}

#[test]
fn only_the_first_entry_and_meaning_count() {
    let body = r#"[{"phonetic":"a","meanings":[{"partOfSpeech":"verb","definitions":[{"definition":"first"}]},{"partOfSpeech":"noun","definitions":[{"definition":"second"}]}]},{"phonetic":"b","meanings":[]}]"#;
    let w = record_from_answer("w", 200, body).unwrap();
    assert_eq!(w.phonetic, "a");
    assert_eq!(w.part_of_speech, "verb");
    assert_eq!(w.definitions, vec!["first"]);
}

/// One lookup as the program runs it, with `service` standing for the
/// dictionary service; the text shown on success.
fn run_lookup(
    d: &mut Dictionary,
    word: &str,
    service: &mut dyn FnMut(&str) -> (i32, String),
) -> Result<String, LookupError> {
    let word = word.to_string();
    match begin_lookup(d, &word) {
        Step::Show(w) => Ok(render(&w)),
        Step::Fetch => {
            let (status, body) = service(&lookup_url(&word));
            let w = finish_lookup(d, &word, record_from_answer(&word, status, &body))?;
            Ok(render(&w))
        }
    }
}

#[test]
fn miss_then_hit() {
    let mut calls = 0;
    let mut service = |_url: &str| {
        calls += 1;
        if calls == 1 {
            (200, HELLO.to_string())
        } else {
            (503, String::new())
        }
    };

    let mut d = load("");
    assert_eq!(d.len(), 0);
    let first = run_lookup(&mut d, "hello", &mut service).unwrap();
    let file = save(&d);
    assert!(file.contains("\"hello\""));

    let mut d2 = load(&file);
    assert_eq!(d2.len(), 1);
    let second = run_lookup(&mut d2, "hello", &mut service).unwrap();
    assert_eq!(second, first);
    assert_eq!(save(&d2), file);
    drop(service);
    assert_eq!(calls, 1);
}

#[test]
fn lookup_is_case_sensitive() {
    let mut d = Dictionary::new();
    assert!(d.insert("Hello".to_string(), record("p", "s", &["d"])));
    assert!(matches!(begin_lookup(&d, &"hello".to_string()), Step::Fetch));
    assert!(matches!(begin_lookup(&d, &"Hello".to_string()), Step::Show(_)));
}

#[test]
fn held_records_are_never_replaced() {
    let mut d = Dictionary::new();
    assert!(d.insert("w".to_string(), record("p", "s", &["old"])));
    assert!(!d.insert("w".to_string(), record("q", "t", &["new"])));
    assert_eq!(d.len(), 1);
    assert_eq!(d.get(&"w".to_string()).unwrap().definitions, vec!["old"]);
}

#[test]
fn store_round_trip() {
    let mut d = Dictionary::new();
    d.insert("hello".to_string(), record("həˈləʊ", "exclamation", &["a greeting", "a \"quoted\" one"]));
    d.insert("set".to_string(), record("null", "null", &[]));
    d.insert("x y".to_string(), record("p", "noun", &["1", "2", "3"]));
    let text = save(&d);
    let back = load(&text);
    assert_eq!(back.len(), 3);
    for key in ["hello", "set", "x y"].iter() {
        let k = key.to_string();
        assert!(back.get(&k).unwrap().same_as(d.get(&k).unwrap()));
    }
    assert_eq!(save(&back), text);
}

#[test]
fn stored_form_is_json() {
    let mut d = Dictionary::new();
    d.insert("w".to_string(), record("p", "noun", &["one"]));
    assert_eq!(
        save(&d),
        r#"{"w":{"definitions":["one"],"partOfSpeech":"noun","phonetic":"p"}}"#
    );
}

#[test]
fn unreadable_store_loads_empty() {
    assert_eq!(load("").len(), 0);
    assert_eq!(load("garbage").len(), 0);
    assert_eq!(load("[1,2]").len(), 0);
    assert_eq!(load(r#"{"w":{"phonetic":"p"}}"#).len(), 0);
    assert_eq!(
        load(r#"{"w":{"phonetic":"p","partOfSpeech":"n","definitions":["a","b","c","d"]}}"#).len(),
        0
    );
    assert_eq!(
        load(r#"{"w":{"phonetic":"p","partOfSpeech":"n","definitions":["a",2]}}"#).len(),
        0
    );
    assert_eq!(
        load(r#"{"w":{"phonetic":"p","partOfSpeech":"n","definitions":["a"]}}"#).len(),
        1
    );
}

#[test]
fn render_has_the_fixed_layout() {
    let w = record("p", "noun", &["one", "two"]);
    assert_eq!(
        render(&w),
        "Phonetic: p\nPart of speech: noun\n\nDefinitions\n\nDefinition -> one\nDefinition -> two\n"
    );
    let empty = record("null", "null", &[]);
    assert_eq!(render(&empty), "Phonetic: null\nPart of speech: null\n\nDefinitions\n\n");
}

#[test]
fn url_escapes_the_word() {
    assert_eq!(lookup_url("hello"), "https://api.dictionaryapi.dev/api/v2/entries/en/hello");
    assert_eq!(lookup_url("a b/c"), "https://api.dictionaryapi.dev/api/v2/entries/en/a%20b%2Fc");
    assert_eq!(lookup_url("café"), "https://api.dictionaryapi.dev/api/v2/entries/en/caf%C3%A9");
    assert_eq!(lookup_url("A-z_0.9~"), "https://api.dictionaryapi.dev/api/v2/entries/en/A-z_0.9~");
}

#[test]
fn copies_keep_the_contents() {
    let w = record("p", "noun", &["one", "two"]);
    let c = w.copy();
    assert!(c.same_as(&w));
    assert_eq!(c.definitions, vec!["one", "two"]);
    assert!(!c.same_as(&record("p", "noun", &["one"])));
}

#[test]
fn each_error_has_its_own_message() {
    assert_eq!(LookupError::MissingWord.message(), "Missing word to define");
    assert_eq!(
        LookupError::WordNotFound("w".to_string()).message(),
        "No definition found; check the spelling"
    );
    assert_eq!(LookupError::FetchFailed.message(), "Failed to fetch the definition");
    assert_eq!(
        LookupError::MalformedResponse.message(),
        "The dictionary service sent an unexpected answer"
    );
    assert_eq!(LookupError::CacheWriteFailed.message(), "Failed to write to the dictionary cache");
}
