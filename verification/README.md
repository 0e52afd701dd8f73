# lexisoup

Backend of the Lexisoup language-learning service: word lookups through a
language model and the PanLex dictionary, spelling suggestions, DeepL
translations, and proxies to kaikki.org, tatoeba.org and Wortschatz Leipzig.

The decisions of the service are a Verus-verified library in `src/`:

- `text`, `utils` — characters, Unicode trimming, decimal rendering, and
  truncation of long texts at a character boundary.
- `error` — status codes, the service's error answers, and how a reply of an
  upstream service becomes a value or an error.
- `model`, `client_config` — the values the API returns and its limits.
- `chatgpt`, `chatgpt_lexical_items` — the question sent to the model, the
  prompt for word lookups, recovery of the JSON object from a reply, and the
  lexical items built from it.
- `deepl` — language codes, the checked translation request, the endpoint
  address, and translation results.
- `panlex`, `suggestions` — database keys, quality ratings, translations and
  synonyms from result rows, and the filtering and ordering of spelling
  suggestions.
- `kaikki`, `tatoeba`, `wortschatz_leipzig` — checked proxy requests and
  upstream addresses.
- `graphql` — argument checks, error reports, suggestions, and the GraphiQL
  page.

`app/` is the server around it: command line, HTTP and database access,
serde and GraphQL types, and the axum router. `tests/` runs the library on
concrete values.
