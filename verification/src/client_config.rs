//! Limits the client is told about and the server enforces.
use vstd::prelude::*;

verus! {

/// Configuration published to clients: query and translation limits.
#[derive(Clone, Debug, PartialEq, Eq)]
pub struct ClientConfig {
    pub backend_redirection_url: Option<String>,
    pub min_query_length: usize,
    pub max_query_length: usize,
    pub translate_text_length_max: usize,
    pub translate_text_length_min: usize,
    pub translate_batch_size_limit: usize,
}

impl Default for ClientConfig {
    /// No redirection; queries of 3 to 50 characters; translations of at most
    /// 10 texts of 3 to 50 characters each.
    fn default() -> (res: Self)
        ensures
            res.backend_redirection_url is None,
            res.min_query_length == 3,
            res.max_query_length == 50,
            res.translate_text_length_max == 50,
            res.translate_text_length_min == 3,
            res.translate_batch_size_limit == 10,
    {
        ClientConfig {
            backend_redirection_url: None,
            min_query_length: 3,
            max_query_length: 50,
            translate_text_length_max: 50,
            translate_text_length_min: 3,
            translate_batch_size_limit: 10,
        }
    }
}

/// Limits of one translator as shown to clients.
#[derive(Clone, Debug, PartialEq, Eq)]
pub struct TranslatorParams {
    pub translator_id: String,
    pub text_length_max: i32,
    pub text_length_min: i32,
    pub batch_size_limit: i32,
}

} // verus!
