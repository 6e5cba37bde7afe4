use arabic_morph::analyzer::{
    analyze, analyze_with, filter_results, find_solution, Candidate, Lexicon, LexiconEntry,
    MorphologicalAnalysis,
};
use arabic_morph::tokenizer::simple_word_tokenize;

fn tagged(token: &str, pos: &str) -> MorphologicalAnalysis {
    MorphologicalAnalysis {
        token: token.to_string(),
        lemma: None,
        lemma_id: None,
        pos: Some(pos.to_string()),
        root: None,
        frequency: 0,
    }
}

fn full_record() -> MorphologicalAnalysis {
    MorphologicalAnalysis {
        token: "ذهب".to_string(),
        lemma: Some("ذَهَبَ".to_string()),
        lemma_id: Some(202001617),
        pos: Some("فعل ماضي".to_string()),
        root: Some("ذ ه ب".to_string()),
        frequency: 82202,
    }
}

fn candidate(freq: i32, lemma: &str, id: i32) -> Candidate {
    Candidate {
        frequency: freq,
        lemma: lemma.to_string(),
        lemma_id: id,
        root: "r".to_string(),
        pos: "p".to_string(),
    }
}

#[test]
fn test_analyze_full_task() {
    let text = "ذهب";
    let result = analyze(text, "full", "1");
    let expected = vec![full_record()];
    assert_eq!(result, expected);
}

#[test]
fn analyze_first_granularity() {
    assert_eq!(analyze("ذهب", "full", "first"), vec![full_record()]);
}

#[test]
fn analyze_number() {
    assert_eq!(analyze("123", "full", "first"), vec![tagged("123", "number")]);
}

#[test]
fn analyze_arabic_indic_number() {
    assert_eq!(analyze("١٢٣", "full", "first"), vec![tagged("١٢٣", "number")]);
}

#[test]
fn analyze_mixed_script_sentence() {
    let result = analyze("Hello, عالم!", "full", "first");
    let expected = vec![
        tagged("Hello", "foreign"),
        tagged(",", "punctuation"),
        MorphologicalAnalysis {
            token: "عالم".to_string(),
            lemma: None,
            lemma_id: None,
            pos: None,
            root: None,
            frequency: 0,
        },
        tagged("!", "punctuation"),
    ];
    assert_eq!(result, expected);
}

#[test]
fn analyze_is_deterministic() {
    let a = analyze("ذهب 12 ، كتاب", "full", "all");
    let b = analyze("ذهب 12 ، كتاب", "full", "all");
    assert_eq!(a, b);
}

#[test]
fn analyze_projections() {
    let mut lemma = full_record();
    lemma.pos = None;
    lemma.root = None;
    assert_eq!(analyze("ذهب", "lemmatization", "first"), vec![lemma]);
    let mut pos = full_record();
    pos.lemma = None;
    pos.lemma_id = None;
    pos.root = None;
    assert_eq!(analyze("ذهب", "pos", "first"), vec![pos]);
    let mut root = full_record();
    root.lemma = None;
    root.lemma_id = None;
    root.pos = None;
    assert_eq!(analyze("ذهب", "root", "first"), vec![root]);
    assert_eq!(analyze("ذهب", "other", "first"), vec![full_record()]);
}

#[test]
fn filter_results_keeps_token_and_frequency() {
    let r = filter_results(vec![full_record()], "root");
    assert_eq!(r[0].token, "ذهب");
    assert_eq!(r[0].frequency, 82202);
    assert_eq!(r[0].root, Some("ذ ه ب".to_string()));
    assert_eq!(r[0].lemma, None);
}

#[test]
fn cascade_strips_diacritics_of_the_token() {
    assert_eq!(analyze("ذَهَبَ", "full", "first").len(), 1);
    let r = analyze("ذَهَبَ", "full", "first");
    assert_eq!(r[0].token, "ذَهَبَ");
    assert_eq!(r[0].lemma_id, Some(202001617));
}

#[test]
fn cascade_ha_to_ta_marbuta() {
    let lexicon = Lexicon {
        entries: vec![LexiconEntry { form: "مدرسة".to_string(), candidates: vec![candidate(5, "مدرسة", 7)] }],
    };
    let r = analyze_with(&lexicon, "مدرسه", "full", "first");
    assert_eq!(r.len(), 1);
    assert_eq!(r[0].token, "مدرسه");
    assert_eq!(r[0].lemma_id, Some(7));
}

#[test]
fn cascade_leading_alif_needs_long_remainder() {
    let lexicon = Lexicon {
        entries: vec![
            LexiconEntry { form: "ستخدمون".to_string(), candidates: vec![candidate(1, "a", 1)] },
            LexiconEntry { form: "كتب".to_string(), candidates: vec![candidate(2, "b", 2)] },
        ],
    };
    assert_eq!(analyze_with(&lexicon, "استخدمون", "full", "first")[0].lemma_id, Some(1));
    assert_eq!(analyze_with(&lexicon, "اكتب", "full", "first")[0].lemma_id, None);
}

#[test]
fn granularity_first_and_all() {
    let lexicon = Lexicon {
        entries: vec![LexiconEntry {
            form: "عين".to_string(),
            candidates: vec![candidate(3, "x", 1), candidate(9, "y", 2)],
        }],
    };
    assert_eq!(find_solution(&lexicon, "عين", "عين", "first").len(), 1);
    assert_eq!(find_solution(&lexicon, "عين", "عين", "all").len(), 2);
    assert_eq!(find_solution(&lexicon, "عين", "غير", "all").len(), 0);
    assert_eq!(analyze_with(&lexicon, "عين", "full", "all")[1].lemma_id, Some(2));
}

#[test]
fn tokenize_splits_punctuation_and_runs() {
    assert_eq!(
        simple_word_tokenize("Hello, عالم!"),
        vec!["Hello".to_string(), ",".to_string(), "عالم".to_string(), "!".to_string()]
    );
    assert_eq!(simple_word_tokenize("ab  cd12"), vec!["ab".to_string(), "cd12".to_string()]);
    assert!(simple_word_tokenize(" \t ").is_empty());
}
