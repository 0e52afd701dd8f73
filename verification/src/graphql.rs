//! The GraphQL API's own decisions: input validation, the errors it answers
//! with, and the suggestions it assembles.
use vstd::prelude::*;
use async_graphql::http::GraphiQLSource;
use crate::client_config::ClientConfig;
use crate::error::ApiError;
use crate::model::{Sentence, Suggestion, WordTranslations};
use crate::panlex::SOURCE as PANLEX_SOURCE;
use crate::suggestions::SqlSuggestion;
use crate::text::{byte_len, chars_of, decimal_spec, push_decimal, trim, trim_spec};

verus! {

/// The root query type of the API.
pub struct Query;

/// Error code of a request with invalid arguments.
pub const BAD_USER_INPUT: &'static str = "BAD_USER_INPUT";

/// An error answered to a GraphQL request: a message, a code and, for
/// errors of a backend, the backend's HTTP status and message.
#[derive(Clone, Debug, PartialEq, Eq)]
pub struct GraphqlError {
    pub message: String,
    pub code: String,
    pub http_status: Option<u16>,
    pub detail: Option<String>,
}

/// `<prefix><lo>..=<hi>`.
pub open spec fn range_message_spec(prefix: Seq<char>, lo: usize, hi: usize) -> Seq<char> {
    prefix + decimal_spec(lo as nat) + "..="@ + decimal_spec(hi as nat)
}

/// Builds `<prefix><lo>..=<hi>`.
fn range_message(prefix: &str, lo: usize, hi: usize) -> (res: String)
    ensures
        res@ == range_message_spec(prefix@, lo, hi),
{
    let mut m = prefix.to_owned();
    push_decimal(&mut m, lo);
    m.append("..=");
    push_decimal(&mut m, hi);
    m
}

/// An invalid-input error with the given message.
fn bad_user_input(message: String) -> (res: GraphqlError)
    ensures
        res.message@ == message@,
        res.code@ == BAD_USER_INPUT@,
        res.http_status is None,
        res.detail is None,
{
    GraphqlError {
        message,
        code: BAD_USER_INPUT.to_owned(),
        http_status: None,
        detail: None,
    }
}

/// Checks the arguments of a word lookup: the query, without surrounding
/// whitespace, must have a number of characters within the configured
/// bounds (checked first), and both languages must be given by 3 bytes.
pub fn validate_params(
    query: &str,
    lang_from_iso3: &str,
    lang_to_iso3: &str,
    config: &ClientConfig,
) -> (res: Result<(), GraphqlError>)
    ensures
        !(config.min_query_length <= trim_spec(query@).len() <= config.max_query_length) ==> (
        res matches Err(e) && e.code@ == BAD_USER_INPUT@ && e.http_status is None && e.detail is None
            && e.message@ == range_message_spec(
            "query length must be within "@,
            config.min_query_length,
            config.max_query_length,
        )),
        config.min_query_length <= trim_spec(query@).len() <= config.max_query_length && (
        byte_len(lang_from_iso3@) != 3 || byte_len(lang_to_iso3@) != 3) ==> (
        res matches Err(e) && e.code@ == BAD_USER_INPUT@ && e.http_status is None && e.detail is None
            && e.message@ == "languages must be ISO-3 (3 letters)"@),
        config.min_query_length <= trim_spec(query@).len() <= config.max_query_length
            && byte_len(lang_from_iso3@) == 3 && byte_len(lang_to_iso3@) == 3
            ==> res is Ok,
{
    let n: usize = chars_of(trim(query)).len();
    let min_query_length: usize = config.min_query_length;
    let max_query_length: usize = config.max_query_length;
    if !(min_query_length <= n && n <= max_query_length) {
        return Err(
            bad_user_input(
                range_message("query length must be within ", min_query_length, max_query_length),
            ),
        );
    }
    if lang_from_iso3.as_bytes().len() != 3 || lang_to_iso3.as_bytes().len() != 3 {
        return Err(bad_user_input("languages must be ISO-3 (3 letters)".to_owned()));
    }
    Ok(())
}

/// Every text has a number of characters within `lo..=hi`.
pub open spec fn all_lengths_within(texts: Seq<String>, lo: usize, hi: usize) -> bool {
    forall|i: int| 0 <= i < texts.len() ==> lo <= #[trigger] texts[i]@.len() <= hi
}

/// Text lengths are counted in characters, not bytes: a single text is within
/// `lo..=hi` exactly when its number of characters is, and two texts with the
/// same number of characters pass or fail alike, however many bytes each takes.
pub proof fn law_text_length_counts_characters(a: String, b: String, lo: usize, hi: usize)
    requires
        a@.len() == b@.len(),
    ensures
        all_lengths_within(seq![a], lo, hi) <==> lo <= a@.len() <= hi,
        all_lengths_within(seq![a], lo, hi) == all_lengths_within(seq![b], lo, hi),
{
    assert(seq![a][0] == a);
    assert(seq![b][0] == b);
}

/// The backends whose failures the API reports.
#[derive(Clone, Copy, Debug, PartialEq, Eq)]
pub enum Backend {
    Llm,
    PanLex,
    PanLexSuggestions,
    Translation,
}

/// The message the API reports for a failure of a backend.
pub open spec fn backend_message(b: Backend) -> Seq<char> {
    match b {
        Backend::Llm => "Upstream LLM error"@,
        Backend::PanLex => "PanLex SQLite error"@,
        Backend::PanLexSuggestions => "PanLex suggestions SQLite error"@,
        Backend::Translation => "Upstream translation error"@,
    }
}

/// The code the API reports for a failure of a backend.
pub open spec fn backend_code(b: Backend) -> Seq<char> {
    match b {
        Backend::Llm => "UPSTREAM_LLM"@,
        Backend::PanLex => "PANLEX_SQLITE"@,
        Backend::PanLexSuggestions => "PANLEX_SQLITE_SUGGESTIONS"@,
        Backend::Translation => "UPSTREAM_TRANSLATION_ERROR"@,
    }
}

impl Query {
    /// Checks the arguments of a translation: at most the configured number
    /// of texts (checked first), each with a number of characters within the
    /// configured bounds.
    pub fn check_translate(texts: &[String], config: &ClientConfig) -> (res: Result<
        (),
        GraphqlError,
    >)
        ensures
            config.translate_batch_size_limit < texts@.len() ==> (res matches Err(e) && e.code@
                == BAD_USER_INPUT@ && e.http_status is None && e.detail is None && e.message@
                == "texts number must be <="@ + decimal_spec(config.translate_batch_size_limit as nat)),
            texts@.len() <= config.translate_batch_size_limit && !all_lengths_within(
                texts@,
                config.translate_text_length_min,
                config.translate_text_length_max,
            ) ==> (res matches Err(e) && e.code@ == BAD_USER_INPUT@ && e.http_status is None
                && e.detail is None && e.message@ == range_message_spec(
                "text length must be within "@,
                config.translate_text_length_min,
                config.translate_text_length_max,
            )),
            texts@.len() <= config.translate_batch_size_limit && all_lengths_within(
                texts@,
                config.translate_text_length_min,
                config.translate_text_length_max,
            ) ==> res is Ok,
            texts@.len() <= config.translate_batch_size_limit ==> (res is Ok <==> forall|i: int|
                0 <= i < texts@.len() ==> config.translate_text_length_min
                    <= #[trigger] texts@[i]@.len() <= config.translate_text_length_max),
    {
        let limit: usize = config.translate_batch_size_limit;
        let lo: usize = config.translate_text_length_min;
        let hi: usize = config.translate_text_length_max;
        if limit < texts.len() {
            let mut m = "texts number must be <=".to_owned();
            push_decimal(&mut m, limit);
            return Err(bad_user_input(m));
        }
        let mut i: usize = 0;
        while i < texts.len()
            invariant
                i <= texts@.len(),
                texts@.len() <= limit,
                limit == config.translate_batch_size_limit,
                lo == config.translate_text_length_min,
                hi == config.translate_text_length_max,
                forall|j: int| 0 <= j < i ==> lo <= #[trigger] texts@[j]@.len() <= hi,
            decreases texts@.len() - i,
        {
            let n: usize = chars_of(texts[i].as_str()).len();
            if !(lo <= n && n <= hi) {
                return Err(bad_user_input(range_message("text length must be within ", lo, hi)));
            }
            i += 1;
        }
        Ok(())
    }

    /// The error reported for a failed backend call: the backend's message
    /// and code, with the failure's status and message attached.
    pub fn upstream_error(backend: Backend, err: ApiError) -> (res: GraphqlError)
        ensures
            res.message@ == backend_message(backend),
            res.code@ == backend_code(backend),
            res.http_status == Some(err.status),
            res.detail matches Some(d) && d@ == err.message@,
    {
        let (message, code) = match backend {
            Backend::Llm => ("Upstream LLM error", "UPSTREAM_LLM"),
            Backend::PanLex => ("PanLex SQLite error", "PANLEX_SQLITE"),
            Backend::PanLexSuggestions => (
                "PanLex suggestions SQLite error",
                "PANLEX_SQLITE_SUGGESTIONS",
            ),
            Backend::Translation => ("Upstream translation error", "UPSTREAM_TRANSLATION_ERROR"),
        };
        GraphqlError {
            message: message.to_owned(),
            code: code.to_owned(),
            http_status: Some(err.status),
            detail: Some(err.message),
        }
    }

    /// A suggested word in the query's language with its PanLex translations;
    /// none when the lookup failed or found nothing.
    pub fn suggestion(
        found: SqlSuggestion,
        lang_from_iso3: &str,
        translations: Result<Option<WordTranslations>, ApiError>,
    ) -> (res: Suggestion)
        ensures
            res.text == found.text,
            res.lang_iso3@ == lang_from_iso3@,
            res.source@ == PANLEX_SOURCE@,
            res.translations@ == (match translations {
                Ok(Some(w)) => w.translations_set.translations@,
                _ => Seq::<Sentence>::empty(),
            }),
    {
        let sentences = match translations {
            Ok(Some(w)) => w.translations_set.translations,
            _ => Vec::new(),
        };
        Suggestion {
            text: found.text,
            lang_iso3: lang_from_iso3.to_owned(),
            source: PANLEX_SOURCE.to_owned(),
            translations: sentences,
        }
    }
}

/// The GraphiQL page that async-graphql renders for a GraphQL endpoint.
pub uninterp spec fn graphiql_source_html(endpoint: Seq<char>) -> Seq<char>;

/// Renders async-graphql's GraphiQL page for an endpoint
/// (`GraphiQLSource::build().endpoint(..).finish()`, which fills a fixed
/// template); the contract only names the page as a function of the endpoint.
#[verifier::external_body]
fn graphiql_html(endpoint: &str) -> (res: String)
    ensures
        res@ == graphiql_source_html(endpoint@),
{
    GraphiQLSource::build().endpoint(endpoint).finish()
}

/// The GraphiQL page for the API mounted under `graphql_parent_path`; it
/// talks to the endpoint `<graphql_parent_path>graphql`.
pub fn graphiql_page(graphql_parent_path: &str) -> (res: String)
    ensures
        res@ == graphiql_source_html(graphql_parent_path@ + "graphql"@),
{
    let mut endpoint = graphql_parent_path.to_owned();
    endpoint.append("graphql");
    graphiql_html(endpoint.as_str())
}

} // verus!
