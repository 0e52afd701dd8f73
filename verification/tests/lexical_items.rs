use lexisoup::chatgpt::{answer, ChatGPTContent, ChatGPTOutput, ChatGPTResponse, ChatGPTUsage};
use lexisoup::chatgpt_lexical_items::{
    build_prompt, extract_json_object, json_candidate, lexical_items, ChatGPTLexicalResponse,
    FORMS_EXPLANATION,
};
use lexisoup::error::{UpstreamReply, BAD_GATEWAY};
use lexisoup::model::{
    Example, Explanation, Forms, LexicalItemDetail, Sentence, Synonyms, TranslationsSet,
    WordTranslations,
};

const LEX_JSON: &str = r#"
    {
      "forms": "der Hund, -e",
      "translations": ["dog", "hound"],
      "synonyms": ["Hündin", "Köter"],
      "explanation": "Der Hund ist ein Haustier.",
      "examples": [
        "Hund|Dog",
        "Mein Hund|My dog"
      ]
    }"#;

fn lex_response() -> ChatGPTLexicalResponse {
    ChatGPTLexicalResponse {
        forms: "der Hund, -e".to_string(),
        translations: vec!["dog".to_string(), "hound".to_string()],
        synonyms: vec!["Hündin".to_string(), "Köter".to_string()],
        explanation: "Der Hund ist ein Haustier.".to_string(),
        examples: vec!["Hund|Dog".to_string(), "Mein Hund|My dog".to_string()],
    }
}

fn reply_with(text: &str) -> ChatGPTResponse {
    ChatGPTResponse {
        output: vec![ChatGPTOutput {
            content: vec![ChatGPTContent { text: text.to_string(), kind: "str".to_string() }],
            id: "123".to_string(),
            kind: "str".to_string(),
            status: "ok".to_string(),
            role: "assistant".to_string(),
        }],
        status: "ok".to_string(),
        error: None,
        model: "4o".to_string(),
        usage: ChatGPTUsage { input_tokens: 10, output_tokens: 20, total_tokens: 30 },
    }
}

fn s(text: &str, lang: &str, source: &str) -> Sentence {
    Sentence::new(text.to_string(), lang, source)
}

#[test]
fn good_scenario() {
    let raw = answer(UpstreamReply::Received(reply_with(LEX_JSON))).expect("Ok");
    let json = json_candidate(&raw);
    assert_eq!(json, LEX_JSON.trim());
    let items = lexical_items("Hund", "deu", "eng", Ok(lex_response())).expect("Ok");

    let source = "chatgpt".to_string();
    let expected = {
        let wt = TranslationsSet {
            original: s("Hund", "deu", &source),
            translations: vec![s("dog", "eng", &source), s("hound", "eng", &source)],
            translations_qualities: None,
        };
        let syn = TranslationsSet {
            original: s("Hund", "deu", &source),
            translations: vec![s("Hündin", "deu", &source), s("Köter", "deu", &source)],
            translations_qualities: None,
        };
        let ex1 = TranslationsSet {
            original: s("Hund", "deu", &source),
            translations: vec![s("Dog", "eng", &source)],
            translations_qualities: None,
        };
        let ex2 = TranslationsSet {
            original: s("Mein Hund", "deu", &source),
            translations: vec![s("My dog", "eng", &source)],
            translations_qualities: None,
        };
        vec![
            LexicalItemDetail::Forms(Forms { text: "der Hund, -e".into(), source: source.clone() }),
            LexicalItemDetail::Explanation(Explanation {
                text: "Der Hund ist ein Haustier.".into(),
                source: source.clone(),
            }),
            LexicalItemDetail::WordTranslations(WordTranslations {
                translations_set: wt,
                source: source.clone(),
            }),
            LexicalItemDetail::Synonyms(Synonyms { translations_set: syn, source: source.clone() }),
            LexicalItemDetail::Example(Example { translations_set: ex1, source: source.clone() }),
            LexicalItemDetail::Example(Example { translations_set: ex2, source: source.clone() }),
        ]
    };
    assert_eq!(items, expected);
}

#[test]
fn malformed_json_in_model_text() {
    let raw = answer(UpstreamReply::Received(reply_with("{ error }"))).unwrap();
    assert_eq!(json_candidate(&raw), "{ error }");
    let err = lexical_items("dog", "eng", "deu", Err("key must be a string at line 1 column 3".into()))
        .expect_err("Err");
    assert_eq!(err.status, BAD_GATEWAY);
    assert!(err.message.starts_with("invalid JSON from ChatGPT:"));
    assert_eq!(err.message, "invalid JSON from ChatGPT: key must be a string at line 1 column 3");
}

#[test]
fn json_inside_code_fences_is_accepted() {
    let fenced = format!("```json\n{LEX_JSON}\n```");
    let raw = answer(UpstreamReply::Received(reply_with(&fenced))).unwrap();
    assert_eq!(extract_json_object(&raw).as_deref(), Some(LEX_JSON.trim()));
    let items = lexical_items("Hund", "deu", "eng", Ok(lex_response())).expect("Ok");
    assert_ne!(Vec::<LexicalItemDetail>::new(), items);
}

#[test]
fn upstream_non_2xx_bubbles_as_error() {
    let err = answer(UpstreamReply::Rejected { status: 500, body: r#"{"error":"boom"}"#.into() })
        .expect_err("Err");
    assert_eq!(err.status, BAD_GATEWAY);
}

#[test]
fn network_error_is_propagated() {
    let err = answer(UpstreamReply::Unreachable("error sending request".into())).expect_err("Err");
    assert_eq!(err.status, BAD_GATEWAY);
}

#[test]
fn examples_without_delimiter_are_dropped() {
    let mut resp = lex_response();
    resp.examples = vec!["no delimiter here".into(), "  a | b | c ".into()];
    let items = lexical_items("Hund", "deu", "eng", Ok(resp)).unwrap();
    assert_eq!(items.len(), 5);
    let LexicalItemDetail::Example(ex) = &items[4] else {
        panic!("expected an example");
    };
    assert_eq!(ex.translations_set.original, s("a", "deu", "chatgpt"));
    assert_eq!(ex.translations_set.translations, vec![s("b | c", "eng", "chatgpt")]);
}

#[test]
fn extract_json_object_cases() {
    assert_eq!(extract_json_object("{}").as_deref(), Some("{}"));
    assert_eq!(extract_json_object("Sure! {\"a\": {\"b\": 1}} Hope it helps").as_deref(), Some("{\"a\": {\"b\": 1}}"));
    assert_eq!(extract_json_object("no braces"), None);
    assert_eq!(extract_json_object("} before {"), None);
    assert_eq!(extract_json_object("only {"), None);
    assert_eq!(extract_json_object("Öl {\"ä\": \"ü\"} ✓").as_deref(), Some("{\"ä\": \"ü\"}"));
    let once = extract_json_object("x {a} y {b} z").unwrap();
    assert_eq!(once, "{a} y {b}");
    assert_eq!(extract_json_object(&once).unwrap(), once);
}

#[test]
fn json_candidate_falls_back_to_trimmed_text() {
    assert_eq!(json_candidate("  plain answer \n"), "plain answer");
    assert_eq!(json_candidate(" text {x} text "), "{x}");
}

#[test]
fn prompt_names_word_and_languages() {
    let p = build_prompt("Hund", "deu", "eng");
    assert!(p.starts_with("\nYou are called from a language learning app."));
    assert!(p.contains("Word to explain: Hund\nSource language (ISO-3): deu\nTarget language (ISO-3): eng\n"));
    assert!(p.contains(&format!("<FORMS>: {FORMS_EXPLANATION}\n<TRANSLATION>: a translation into lang eng\n")));
    assert!(p.contains("<EXAMPLE>: example sentence in lang deu | example sentence in lang eng\n"));
    assert!(p.contains("der Platz, -äe"));
    assert!(p.ends_with("Translations and synonyms may contain 1-6 entries.\n"));
    assert!(p.contains("{\n  \"forms\": \"<FORMS>\","));
}
