use lexisoup::client_config::{ClientConfig, TranslatorParams};
use lexisoup::error::ApiError;
use lexisoup::graphql::{graphiql_page, validate_params, Backend, GraphqlError, Query, BAD_USER_INPUT};
use lexisoup::model::Sentence;
use lexisoup::panlex::word_translations_from_rows;
use lexisoup::suggestions::SqlSuggestion;

#[test]
fn default_client_config() {
    let c = ClientConfig::default();
    assert_eq!(
        c,
        ClientConfig {
            backend_redirection_url: None,
            min_query_length: 3,
            max_query_length: 50,
            translate_text_length_max: 50,
            translate_text_length_min: 3,
            translate_batch_size_limit: 10,
        }
    );
    let p = TranslatorParams {
        translator_id: "deepl".into(),
        text_length_max: 50,
        text_length_min: 3,
        batch_size_limit: 10,
    };
    assert_eq!(p.clone(), p);
}

#[test]
fn params_are_checked() {
    let c = ClientConfig::default();
    assert_eq!(validate_params("  Hund  ", "deu", "eng", &c), Ok(()));
    assert_eq!(validate_params("Hü ", "deu", "eng", &c).unwrap_err().code, BAD_USER_INPUT);
    let e = validate_params("ab", "deu", "eng", &c).unwrap_err();
    assert_eq!(
        e,
        GraphqlError {
            message: "query length must be within 3..=50".into(),
            code: "BAD_USER_INPUT".into(),
            http_status: None,
            detail: None,
        }
    );
    assert_eq!(validate_params("äöü", "deu", "eng", &c), Ok(()));
    let long = "x".repeat(51);
    assert_eq!(validate_params(&long, "deu", "eng", &c).unwrap_err().message, "query length must be within 3..=50");
    let e = validate_params("Hund", "de", "eng", &c).unwrap_err();
    assert_eq!(e.message, "languages must be ISO-3 (3 letters)");
    assert_eq!(e.code, "BAD_USER_INPUT");
    assert!(validate_params("Hund", "deu", "engl", &c).is_err());
    assert!(validate_params("Hund", "dé", "eng", &c).is_ok());
}

#[test]
fn translate_arguments_are_checked() {
    let c = ClientConfig::default();
    let ok: Vec<String> = vec!["Hello".into(), "abc".into()];
    assert_eq!(Query::check_translate(&ok, &c), Ok(()));
    let many: Vec<String> = (0..11).map(|_| "Hello".to_string()).collect();
    assert_eq!(Query::check_translate(&many, &c).unwrap_err().message, "texts number must be <=10");
    let short: Vec<String> = vec!["Hello".into(), "hi".into()];
    let e = Query::check_translate(&short, &c).unwrap_err();
    assert_eq!(e.message, "text length must be within 3..=50");
    assert_eq!(e.code, "BAD_USER_INPUT");
    let custom = ClientConfig { translate_batch_size_limit: 1234, ..ClientConfig::default() };
    let many: Vec<String> = (0..1235).map(|_| "Hello".to_string()).collect();
    assert_eq!(Query::check_translate(&many, &custom).unwrap_err().message, "texts number must be <=1234");
    assert_eq!(Query::check_translate(&[], &c), Ok(()));
}

#[test]
fn backend_failures_are_reported_with_status() {
    let e = Query::upstream_error(Backend::Llm, ApiError::new(502, "boom".into()));
    assert_eq!(
        e,
        GraphqlError {
            message: "Upstream LLM error".into(),
            code: "UPSTREAM_LLM".into(),
            http_status: Some(502),
            detail: Some("boom".into()),
        }
    );
    let e = Query::upstream_error(Backend::PanLex, ApiError::new(500, "db".into()));
    assert_eq!((e.message.as_str(), e.code.as_str()), ("PanLex SQLite error", "PANLEX_SQLITE"));
    let e = Query::upstream_error(Backend::PanLexSuggestions, ApiError::new(500, "db".into()));
    assert_eq!(
        (e.message.as_str(), e.code.as_str()),
        ("PanLex suggestions SQLite error", "PANLEX_SQLITE_SUGGESTIONS")
    );
    let e = Query::upstream_error(Backend::Translation, ApiError::new(400, "bad".into()));
    assert_eq!(
        (e.message.as_str(), e.code.as_str(), e.http_status),
        ("Upstream translation error", "UPSTREAM_TRANSLATION_ERROR", Some(400))
    );
}

#[test]
fn suggestions_carry_translations_or_nothing() {
    let found = SqlSuggestion { text: "running".into(), distance: 10, denotation_count: 500 };
    let wt = word_translations_from_rows("running", "eng", "deu", vec![("laufend".into(), 3)]);
    let s = Query::suggestion(found.clone(), "eng", Ok(wt));
    assert_eq!(s.text, "running");
    assert_eq!(s.lang_iso3, "eng");
    assert_eq!(s.source, "panlex");
    assert_eq!(s.translations, vec![Sentence::new("laufend".into(), "deu", "panlex")]);
    assert!(Query::suggestion(found.clone(), "eng", Ok(None)).translations.is_empty());
    let failed = Query::suggestion(found, "eng", Err(ApiError::new(500, "db".into())));
    assert!(failed.translations.is_empty());
}

#[test]
fn graphiql_page_points_at_graphql_endpoint() {
    let page = graphiql_page("/api/");
    assert!(page.len() > "/api/graphql".len());
    assert!(page.contains("/api/graphql"));
    assert!(page.contains("graphiql"));
    assert!(!graphiql_page("/").contains("/api/graphql"));
}
