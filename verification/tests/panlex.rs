use lexisoup::model::{LexicalItemDetail, Sentence, Synonyms, TranslationsSet, WordTranslations};
use lexisoup::panlex::{
    panlex_items, panlex_quality, panlex_uid, synonyms_from_rows, word_translations_from_rows,
};

fn s(text: &str, lang: &str, source: &str) -> Sentence {
    Sentence::new(text.to_string(), lang, source)
}

#[test]
fn synonyms_happy_path_same_language() {
    // Rows as the synonyms query returns them for "Imker": grouped by text,
    // best quality per text, ordered by text.
    let rows = vec![("Bienenhalter".to_string(), 12_i64), ("Bienenzüchter".to_string(), 5_i64)];
    let result = synonyms_from_rows(" Imker ", "deu", rows).expect("some");

    let source = "panlex".to_string();
    let expected = Synonyms {
        translations_set: TranslationsSet {
            original: s("Imker", "deu", &source),
            translations: vec![s("Bienenhalter", "deu", &source), s("Bienenzüchter", "deu", &source)],
            translations_qualities: Some(vec![9_i8, 5_i8]),
        },
        source: source.clone(),
    };
    assert_eq!(result, expected);
}

#[test]
fn synonyms_none_when_only_source_exists() {
    let result = synonyms_from_rows("Imker", "deu", vec![]);
    assert_eq!(result, None);
}

#[test]
fn translations_happy_path() {
    let rows = vec![("apiarist".to_string(), 12_i64), ("beekeeper".to_string(), 5_i64)];
    let result = word_translations_from_rows(" Imker ", "deu", "eng", rows).expect("some");

    let source = "panlex".to_string();
    let expected = WordTranslations {
        translations_set: TranslationsSet {
            original: s("Imker", "deu", &source),
            translations: vec![s("apiarist", "eng", &source), s("beekeeper", "eng", &source)],
            translations_qualities: Some(vec![9_i8, 5_i8]),
        },
        source: source.clone(),
    };
    assert_eq!(result, expected);
}

#[test]
fn translations_return_none_when_no_match() {
    let out = word_translations_from_rows("Nope", "deu", "eng", vec![]);
    assert_eq!(out, None);
}

#[test]
fn quality_is_clamped_to_rating_range() {
    assert_eq!(panlex_quality(0), 0);
    assert_eq!(panlex_quality(7), 7);
    assert_eq!(panlex_quality(9), 9);
    assert_eq!(panlex_quality(12), 9);
    assert_eq!(panlex_quality(-3), 0);
    assert_eq!(panlex_quality(200), 9);
    assert_eq!(panlex_quality(260), 9);
    assert_eq!(panlex_quality(i64::MAX), 9);
    assert_eq!(panlex_quality(i64::MIN), 0);
}

#[test]
fn stored_quality_200_rates_9() {
    let wt = word_translations_from_rows("Imker", "deu", "eng", vec![("beekeeper".into(), 200)])
        .unwrap();
    assert_eq!(wt.translations_set.translations_qualities, Some(vec![9_i8]));
}

#[test]
fn uid_names_main_variety() {
    assert_eq!(panlex_uid("deu"), "deu-000");
    assert_eq!(panlex_uid(""), "-000");
}

#[test]
fn panlex_items_lists_translations_then_synonyms() {
    let wt = word_translations_from_rows("Imker", "deu", "eng", vec![("beekeeper".into(), 5)]).unwrap();
    let syn = synonyms_from_rows("Imker", "deu", vec![("Bienenhalter".into(), 7)]).unwrap();
    let items = panlex_items(Some(wt.clone()), Some(syn.clone()));
    assert_eq!(
        items,
        vec![LexicalItemDetail::WordTranslations(wt.clone()), LexicalItemDetail::Synonyms(syn.clone())]
    );
    assert_eq!(panlex_items(None, Some(syn.clone())), vec![LexicalItemDetail::Synonyms(syn)]);
    assert_eq!(panlex_items(Some(wt.clone()), None), vec![LexicalItemDetail::WordTranslations(wt)]);
    assert!(panlex_items(None, None).is_empty());
}
