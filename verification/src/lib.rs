//! Verified core of the Lexisoup backend: request validation, URL and prompt
//! building, reply interpretation and result shaping for the dictionary,
//! translation and language-model sources the service proxies.

pub mod chatgpt;
pub mod chatgpt_lexical_items;
pub mod client_config;
pub mod deepl;
pub mod error;
pub mod graphql;
pub mod kaikki;
pub mod model;
pub mod panlex;
pub mod suggestions;
pub mod tatoeba;
pub mod text;
pub mod utils;
pub mod wortschatz_leipzig;
