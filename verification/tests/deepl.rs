use lexisoup::deepl::{
    auth_header, deepl_translate_url, lang_from_iso3_to_deepl, lang_to_iso3_to_deepl,
    translation_request, translation_result, DeepLResponse, DeepLTranslation,
};
use lexisoup::error::{UpstreamReply, BAD_GATEWAY, BAD_REQUEST};
use lexisoup::model::TranslationResult;

#[test]
fn request_returns_translations() {
    let texts = vec!["Hello, world!".to_string()];
    let req = translation_request(&texts, "eng", "deu").unwrap();
    assert_eq!(req.text, &texts[..]);
    assert_eq!(req.target_lang, "DE");
    assert_eq!(req.source_lang, "EN");
    assert_eq!(auth_header("test_key"), "DeepL-Auth-Key test_key");
    assert_eq!(deepl_translate_url("http://127.0.0.1:1234"), "http://127.0.0.1:1234/v2/translate");

    let reply = DeepLResponse { translations: vec![DeepLTranslation { text: "Hallo, Welt!".into() }] };
    let result = translation_result(UpstreamReply::Received(reply)).unwrap();
    assert_eq!(
        result,
        TranslationResult { translations: vec!["Hallo, Welt!".to_string()], source: "deepl".to_string() }
    );
}

#[test]
fn request_returns_bad_gateway_on_upstream_non_2xx() {
    let err_body = r#"{"message":"boom"}"#;
    let result = translation_result(UpstreamReply::Rejected { status: 500, body: err_body.into() });
    let Err(err) = result else {
        panic!("expected Err");
    };
    assert_eq!(err.status, BAD_GATEWAY);
    assert_eq!(err.message, err_body);
}

#[test]
fn request_returns_bad_gateway_on_network_error() {
    let err = translation_result(UpstreamReply::Unreachable("error sending request".into()))
        .expect_err("should be Err");
    assert_eq!(err.status, BAD_GATEWAY);
}

#[test]
fn returns_bad_request_on_empty_texts() {
    let texts: Vec<String> = vec![];
    let err = translation_request(&texts, "eng", "deu").err().expect("should be Err");
    assert_eq!(err.status, BAD_REQUEST);
    assert_eq!(err.message, "'texts' must not be empty");
}

#[test]
fn returns_bad_request_on_unknown_target_language() {
    let texts = vec!["Hello".to_string()];
    let err = translation_request(&texts, "eng", "zzz").err().expect("should be Err");
    assert_eq!(err.status, BAD_REQUEST);
    assert_eq!(err.message, "unsupported target language iso3: zzz");
}

#[test]
fn unknown_source_language_is_bad_request() {
    let texts = vec!["Hello".to_string()];
    let err = translation_request(&texts, "qqq", "deu").err().unwrap();
    assert_eq!(err.status, 400);
    assert_eq!(err.message, "unsupported source language iso3: qqq");
    let both = translation_request(&texts, "qqq", "zzz").err().unwrap();
    assert_eq!(both.message, "unsupported target language iso3: zzz");
}

#[test]
fn translate_url_drops_trailing_slashes() {
    assert_eq!(deepl_translate_url("https://api.deepl.com/"), "https://api.deepl.com/v2/translate");
    assert_eq!(deepl_translate_url("https://api.deepl.com///"), "https://api.deepl.com/v2/translate");
    assert_eq!(deepl_translate_url(""), "/v2/translate");
    assert_eq!(deepl_translate_url("/"), "/v2/translate");
}

#[test]
fn language_codes() {
    assert_eq!(lang_to_iso3_to_deepl("deu"), Some("DE"));
    assert_eq!(lang_from_iso3_to_deepl("eng"), Some("EN"));
    assert_eq!(lang_from_iso3_to_deepl("rus"), Some("RU"));
    assert_eq!(lang_to_iso3_to_deepl("fra"), Some("FR"));
    assert_eq!(lang_to_iso3_to_deepl("zho"), Some("ZH"));
    assert_eq!(lang_to_iso3_to_deepl("DEU"), None);
    assert_eq!(lang_from_iso3_to_deepl(""), None);
}

#[test]
fn reply_translations_keep_their_order() {
    let reply = DeepLResponse {
        translations: vec![
            DeepLTranslation { text: "eins".into() },
            DeepLTranslation { text: "zwei".into() },
        ],
    };
    let result = translation_result(UpstreamReply::Received(reply)).unwrap();
    assert_eq!(result.translations, vec!["eins".to_string(), "zwei".to_string()]);
    let malformed = translation_result(UpstreamReply::Malformed("missing field".into())).unwrap_err();
    assert_eq!((malformed.status, malformed.message.as_str()), (502, "missing field"));
}
