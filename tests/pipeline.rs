use std::cell::Cell;

use sudachi_gloss::annotate::{enrich_token, enrich_tokens, lookup_sentence, tokenize_text};
use sudachi_gloss::diagnostics::get_log_path;
use sudachi_gloss::error::TokenizerError;
use sudachi_gloss::handle::{AnalyzerHandle, LoadedAnalyzer};
use sudachi_gloss::lexicon::{Gloss, GlossLanguage, Lexicon, LexiconEntry};
use sudachi_gloss::token::{Morpheme, TokenData};

/// A minimal analyzer: greedy longest match over a word list, one
/// out-of-vocabulary unit per unknown character.
struct TestAnalyzer {
    words: Vec<(&'static str, &'static str, u16)>,
}

fn test_analyzer() -> TestAnalyzer {
    TestAnalyzer {
        words: vec![("今日", "今日", 0), ("は", "は", 1), ("晴れ", "晴れ", 0), ("です", "です", 2)],
    }
}

fn segment(a: &TestAnalyzer, text: &str) -> Option<Vec<Morpheme>> {
    let mut out = Vec::new();
    let mut rest = text;
    while !rest.is_empty() {
        let best = a
            .words
            .iter()
            .filter(|(w, _, _)| rest.starts_with(w))
            .max_by_key(|(w, _, _)| w.len());
        let (surface, lemma, pos_id, is_oov) = match best {
            Some((w, l, p)) => (w.to_string(), l.to_string(), *p, false),
            None => {
                let c = rest.chars().next().unwrap();
                (c.to_string(), c.to_string(), 99, true)
            }
        };
        rest = &rest[surface.len()..];
        out.push(Morpheme {
            surface: surface.clone(),
            dictionary_form: lemma.clone(),
            normalized_form: lemma,
            reading_form: surface,
            pos_id,
            is_oov,
        });
    }
    Some(out)
}

fn failing_segment(_a: &TestAnalyzer, _text: &str) -> Option<Vec<Morpheme>> {
    None
}

fn pos_table() -> Vec<Vec<String>> {
    vec![
        vec!["名詞".to_string(), "普通名詞".to_string(), "一般".to_string(), "*".to_string()],
        vec!["助詞".to_string(), "係助詞".to_string(), "*".to_string(), "*".to_string()],
        vec!["助動詞".to_string(), "*".to_string(), "*".to_string(), "*".to_string()],
    ]
}

fn loaded() -> LoadedAnalyzer<TestAnalyzer> {
    LoadedAnalyzer { analyzer: test_analyzer(), pos_table: pos_table() }
}

fn ready_handle() -> AnalyzerHandle<TestAnalyzer> {
    let mut h = AnalyzerHandle::new();
    assert_eq!(h.initialize(|| Ok(loaded())), Ok(()));
    h
}

fn entry(written: &str, gloss: &str) -> LexiconEntry {
    LexiconEntry {
        written_forms: vec![written.to_string()],
        reading_forms: Vec::new(),
        glosses: vec![Gloss { language: GlossLanguage::English, text: gloss.to_string() }],
    }
}

fn weather_lexicon() -> Lexicon {
    Lexicon::new(
        vec![entry("今日", "today"), entry("晴れ", "clear weather")],
        GlossLanguage::English,
    )
}

#[test]
fn initialize_twice_loads_once() {
    let loads = Cell::new(0u32);
    let mut h: AnalyzerHandle<TestAnalyzer> = AnalyzerHandle::new();
    assert!(!h.is_ready());
    let load = || {
        loads.set(loads.get() + 1);
        Ok(loaded())
    };
    assert_eq!(h.initialize(load), Ok(()));
    assert_eq!(h.initialize(load), Ok(()));
    assert_eq!(loads.get(), 1);
    assert!(h.is_ready());
}

#[test]
fn second_initialize_keeps_first_instance() {
    let mut h = ready_handle();
    let other = LoadedAnalyzer { analyzer: TestAnalyzer { words: Vec::new() }, pos_table: Vec::new() };
    assert_eq!(h.initialize(|| Ok(other)), Ok(()));
    assert_eq!(h.install(Err(TokenizerError::ConfigError)), Ok(()));
    assert_eq!(h.analyzer().ok().map(|l| l.analyzer.words.len()), Some(4));
}

#[test]
fn failed_initialize_leaves_handle_uninitialized_and_can_be_retried() {
    let mut h: AnalyzerHandle<TestAnalyzer> = AnalyzerHandle::new();
    assert_eq!(h.initialize(|| Err(TokenizerError::ConfigError)), Err(TokenizerError::ConfigError));
    assert!(!h.is_ready());
    assert_eq!(h.install(Err(TokenizerError::DictLoadError)), Err(TokenizerError::DictLoadError));
    assert!(!h.is_ready());
    assert_eq!(h.initialize(|| Ok(loaded())), Ok(()));
    assert!(h.is_ready());
}

#[test]
fn annotate_before_initialize_fails_with_no_tokens() {
    let h: AnalyzerHandle<TestAnalyzer> = AnalyzerHandle::new();
    assert!(h.analyzer().is_err());
    assert_eq!(tokenize_text(&h, "今日は晴れです", segment).err(), Some(TokenizerError::DictLoadError));
    assert_eq!(
        lookup_sentence(&h, &weather_lexicon(), "今日は晴れです", segment).err(),
        Some(TokenizerError::DictLoadError)
    );
}

#[test]
fn analyzer_failure_is_a_tokenize_error() {
    let h = ready_handle();
    assert_eq!(tokenize_text(&h, "今日", failing_segment).err(), Some(TokenizerError::TokenizeError));
    assert_eq!(
        lookup_sentence(&h, &weather_lexicon(), "今日", failing_segment).err(),
        Some(TokenizerError::TokenizeError)
    );
    // The handle stays usable after a failed call.
    assert!(lookup_sentence(&h, &weather_lexicon(), "今日", segment).is_ok());
}

#[test]
fn weather_sentence_scenario() {
    let h = ready_handle();
    let rs = lookup_sentence(&h, &weather_lexicon(), "今日は晴れです", segment).unwrap();
    let lemmas: Vec<&str> = rs.iter().map(|r| r.dictionary_form.as_str()).collect();
    assert_eq!(lemmas, vec!["今日", "は", "晴れ", "です"]);
    assert!(rs[0].match_found);
    assert_eq!(rs[0].glosses, vec!["today".to_string()]);
    assert!(rs[2].match_found);
    assert_eq!(rs[2].glosses, vec!["clear weather".to_string()]);
    for i in [1usize, 3] {
        assert!(!rs[i].match_found);
        assert!(rs[i].glosses.is_empty());
    }
    assert_eq!(rs[1].pos, vec!["助詞", "係助詞", "*", "*"]);
}

#[test]
fn surfaces_concatenate_to_input() {
    let h = ready_handle();
    let input = "今日は雨です";
    let rs = lookup_sentence(&h, &weather_lexicon(), input, segment).unwrap();
    let joined: String = rs.iter().map(|r| r.surface.as_str()).collect();
    assert_eq!(joined, input);
    assert_eq!(rs.len(), 4);
    assert!(rs[2].is_oov);
    assert_eq!(rs[2].pos, vec!["*", "*", "*", "*"]);
}

#[test]
fn match_found_equals_non_empty_glosses() {
    let h = ready_handle();
    let rs = lookup_sentence(&h, &weather_lexicon(), "晴れは今日です今日", segment).unwrap();
    assert_eq!(rs.len(), 5);
    for r in &rs {
        assert_eq!(r.match_found, !r.glosses.is_empty());
    }
}

#[test]
fn every_token_has_four_labels() {
    let h = ready_handle();
    let ts = tokenize_text(&h, "今日は晴れ?です", segment).unwrap();
    assert_eq!(ts.len(), 5);
    for t in &ts {
        assert_eq!(t.pos.len(), 4);
    }
}

#[test]
fn empty_text_gives_no_tokens() {
    let h = ready_handle();
    assert!(lookup_sentence(&h, &weather_lexicon(), "", segment).unwrap().is_empty());
}

#[test]
fn repeated_annotation_gives_identical_results() {
    let h = ready_handle();
    let lex = weather_lexicon();
    let first = lookup_sentence(&h, &lex, "今日は晴れです", segment).unwrap();
    for _ in 0..8 {
        let again = lookup_sentence(&h, &lex, "今日は晴れです", segment).unwrap();
        assert_eq!(again.len(), first.len());
        for (a, b) in again.iter().zip(first.iter()) {
            assert_eq!(a.surface, b.surface);
            assert_eq!(a.glosses, b.glosses);
            assert_eq!(a.pos, b.pos);
        }
    }
}

#[test]
fn enrich_token_derives_match_found() {
    let t = TokenData {
        surface: "今日".to_string(),
        dictionary_form: "今日".to_string(),
        normalized_form: "今日".to_string(),
        reading_form: "キョウ".to_string(),
        pos: vec!["名詞".to_string(), "*".to_string(), "*".to_string(), "*".to_string()],
        is_oov: false,
    };
    let with = enrich_token(&t, vec!["today".to_string(), "today".to_string()]);
    assert!(with.match_found);
    assert_eq!(with.glosses.len(), 2);
    assert_eq!(with.reading_form, "キョウ");
    let without = enrich_token(&t, Vec::new());
    assert!(!without.match_found);
    let all = enrich_tokens(&vec![t], &weather_lexicon());
    assert_eq!(all[0].glosses, vec!["today".to_string()]);
}

#[test]
fn error_names() {
    assert_eq!(TokenizerError::ConfigError.name(), "ConfigError");
    assert_eq!(TokenizerError::DictLoadError.name(), "DictLoadError");
    assert_eq!(TokenizerError::TokenizeError.name(), "TokenizeError");
}

#[test]
fn log_path_depends_on_platform() {
    assert_eq!(get_log_path(false), "rust_log.txt");
    assert_eq!(get_log_path(true), "/data/data/com.your.package.name/files/rust_log.txt");
}
