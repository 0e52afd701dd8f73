use lexisoup::{kaikki, tatoeba, wortschatz_leipzig};
use lexisoup::error::{proxy_upstream_error, BAD_GATEWAY, BAD_REQUEST};
use lexisoup::kaikki::{kaikki_url, query_page_postfix, subwiktionary_of};
use lexisoup::tatoeba::{tatoeba_params, tatoeba_query, TATOEBA_SEARCH_URL};
use lexisoup::wortschatz_leipzig::{leipzig_query, leipzig_url, LeipzigQueryParams};

#[test]
fn kaikki_dictionaries() {
    assert_eq!(subwiktionary_of("rus"), Some("ruwiktionary/Русский"));
    assert_eq!(subwiktionary_of("eng"), Some("dictionary/English"));
    assert_eq!(subwiktionary_of("deu"), Some("dewiktionary/Deutsch"));
    assert_eq!(subwiktionary_of("fra"), Some("frwiktionary/Français"));
    assert_eq!(subwiktionary_of("spa"), None);
    assert_eq!(subwiktionary_of(" deu"), None);
}

#[test]
fn kaikki_page_postfix() {
    assert_eq!(query_page_postfix("Hund"), "H/Hu/Hund.jsonl");
    assert_eq!(query_page_postfix("a"), "a/aa/a.jsonl");
    assert_eq!(query_page_postfix(""), "_/__/.jsonl");
    assert_eq!(query_page_postfix("ёж"), "ё/ёж/ёж.jsonl");
}

#[test]
fn kaikki_url_for_trimmed_query() {
    assert_eq!(
        kaikki_url("  Hund ", " deu ").unwrap(),
        "https://kaikki.org/dewiktionary/Deutsch/meaning/H/Hu/Hund.jsonl"
    );
    assert_eq!(kaikki_url("dog", "eng").unwrap(), "https://kaikki.org/dictionary/English/meaning/d/do/dog.jsonl");
}

#[test]
fn kaikki_rejects_blank_query_before_language() {
    let e = kaikki_url("   ", "zzz").unwrap_err();
    assert_eq!((e.status, e.message.as_str()), (BAD_REQUEST, "query must not be empty"));
    let e = kaikki_url("Hund", "zzz").unwrap_err();
    assert_eq!((e.status, e.message.as_str()), (BAD_REQUEST, "unsupported lang"));
}

#[test]
fn proxy_errors_name_the_service() {
    let e = proxy_upstream_error("Kaikki");
    assert_eq!((e.status, e.message.as_str()), (BAD_GATEWAY, "Kaikki upstream error"));
    let e = proxy_upstream_error("Wortschatz Leipzig");
    assert_eq!(e.message, "Wortschatz Leipzig upstream error");
}

#[test]
fn tatoeba_query_checks() {
    assert_eq!(tatoeba_query(Some("  Hund ")).unwrap(), "Hund");
    let e = tatoeba_query(Some(" \t ")).unwrap_err();
    assert_eq!((e.status, e.message.as_str()), (400, "query must not be empty"));
    let e = tatoeba_query(None).unwrap_err();
    assert_eq!((e.status, e.message.as_str()), (400, "missing required parameter `query`"));
    assert_eq!(TATOEBA_SEARCH_URL, "https://tatoeba.org/en/api_v0/search");
}

#[test]
fn leipzig_urls() {
    assert_eq!(
        leipzig_url(" deu_news_2012_1M ", " Hund ").unwrap(),
        "https://api.wortschatz-leipzig.de/ws/sentences/deu_news_2012_1M/sentences/Hund"
    );
    let e = leipzig_url(" ", "").unwrap_err();
    assert_eq!((e.status, e.message.as_str()), (400, "corpus must not be empty"));
    let e = leipzig_url("c", " ").unwrap_err();
    assert_eq!((e.status, e.message.as_str()), (400, "term must not be empty"));
}

#[test]
fn leipzig_paging() {
    let both = LeipzigQueryParams { offset: Some(10), limit: Some(5) };
    assert_eq!(leipzig_query(&both), vec![("offset", 10), ("limit", 5)]);
    let limit_only = LeipzigQueryParams { offset: None, limit: Some(3) };
    assert_eq!(leipzig_query(&limit_only), vec![("limit", 3)]);
    let none = LeipzigQueryParams { offset: None, limit: None };
    assert!(leipzig_query(&none).is_empty());
}

fn pairs(items: &[(&str, &str)]) -> Vec<(String, String)> {
    items.iter().map(|(k, v)| (k.to_string(), v.to_string())).collect()
}

#[test]
fn tatoeba_params_trim_the_query_only() {
    let got = tatoeba_params(pairs(&[("from", " deu "), ("query", "  Hund "), ("to", "eng")])).unwrap();
    assert_eq!(got, pairs(&[("from", " deu "), ("query", "Hund"), ("to", "eng")]));
    let e = tatoeba_params(pairs(&[("from", "deu")])).unwrap_err();
    assert_eq!((e.status, e.message.as_str()), (400, "missing required parameter `query`"));
    let e = tatoeba_params(pairs(&[("query", "\t "), ("to", "eng")])).unwrap_err();
    assert_eq!((e.status, e.message.as_str()), (400, "query must not be empty"));
}

#[test]
fn proxy_service_names() {
    assert_eq!(proxy_upstream_error(kaikki::SERVICE_NAME).message, "Kaikki upstream error");
    assert_eq!(proxy_upstream_error(tatoeba::SERVICE_NAME).message, "Tatoeba upstream error");
    assert_eq!(
        proxy_upstream_error(wortschatz_leipzig::SERVICE_NAME).message,
        "Wortschatz Leipzig upstream error"
    );
}
