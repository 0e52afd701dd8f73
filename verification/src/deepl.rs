//! Text translation through DeepL: language codes, the checked request, the
//! endpoint address and how the reply becomes a translation result.
use vstd::prelude::*;
use crate::error::{ApiError, UpstreamReply, upstream_value, BAD_GATEWAY, BAD_REQUEST};
use crate::model::TranslationResult;
use crate::text::{chars_of, str_eq, string_of_range};

verus! {

/// DeepL's code for each supported language, keyed by ISO 639-3 code.
pub const DEEPL_LANGUAGES: [(&'static str, &'static str); 30] = [
    ("ara", "AR"),
    ("bul", "BG"),
    ("ces", "CS"),
    ("dan", "DA"),
    ("deu", "DE"),
    ("ell", "EL"),
    ("eng", "EN"),
    ("spa", "ES"),
    ("est", "ET"),
    ("fin", "FI"),
    ("fra", "FR"),
    ("hun", "HU"),
    ("ind", "ID"),
    ("ita", "IT"),
    ("jpn", "JA"),
    ("kor", "KO"),
    ("lit", "LT"),
    ("lav", "LV"),
    ("nob", "NB"),
    ("nld", "NL"),
    ("pol", "PL"),
    ("por", "PT"),
    ("ron", "RO"),
    ("rus", "RU"),
    ("slk", "SK"),
    ("slv", "SL"),
    ("swe", "SV"),
    ("tur", "TR"),
    ("ukr", "UK"),
    ("zho", "ZH"),
];

/// The DeepL code of the first table entry (from position `i` on) whose
/// ISO 639-3 code is `iso3`.
pub open spec fn deepl_code_from(iso3: Seq<char>, i: int) -> Option<Seq<char>>
    decreases DEEPL_LANGUAGES@.len() - i,
{
    if i < 0 || i >= DEEPL_LANGUAGES@.len() {
        None
    } else if DEEPL_LANGUAGES@[i].0@ == iso3 {
        Some(DEEPL_LANGUAGES@[i].1@)
    } else {
        deepl_code_from(iso3, i + 1)
    }
}

/// The DeepL code of a language given by its ISO 639-3 code.
pub open spec fn deepl_code(iso3: Seq<char>) -> Option<Seq<char>> {
    deepl_code_from(iso3, 0)
}

/// Looks a language up in the DeepL table.
fn deepl_lookup(iso3: &str) -> (res: Option<&'static str>)
    ensures
        match deepl_code(iso3@) {
            Some(c) => res matches Some(r) && r@ == c,
            None => res is None,
        },
{
    let mut i: usize = 0;
    while i < 30
        invariant
            i <= 30,
            deepl_code(iso3@) == deepl_code_from(iso3@, i as int),
        decreases 30 - i,
    {
        let (key, code) = DEEPL_LANGUAGES[i];
        if str_eq(key, iso3) {
            return Some(code);
        }
        i += 1;
    }
    None
}

/// The DeepL code for a target language.
pub fn lang_to_iso3_to_deepl(iso3: &str) -> (res: Option<&'static str>)
    ensures
        match deepl_code(iso3@) {
            Some(c) => res matches Some(r) && r@ == c,
            None => res is None,
        },
{
    deepl_lookup(iso3)
}

/// The DeepL code for a source language.
pub fn lang_from_iso3_to_deepl(iso3: &str) -> (res: Option<&'static str>)
    ensures
        match deepl_code(iso3@) {
            Some(c) => res matches Some(r) && r@ == c,
            None => res is None,
        },
{
    deepl_lookup(iso3)
}

/// Body of a translation request.
pub struct DeepLRequest<'a> {
    pub text: &'a [String],
    pub target_lang: &'a str,
    pub source_lang: &'a str,
}

/// Body of a translation reply.
pub struct DeepLResponse {
    pub translations: Vec<DeepLTranslation>,
}

/// One translated text.
pub struct DeepLTranslation {
    pub text: String,
}

/// The request body for translating `texts`: `400 Bad Request` for no texts,
/// then for an unsupported target language, then for an unsupported source
/// language.
pub fn translation_request<'a>(
    texts: &'a [String],
    lang_from_iso3: &str,
    lang_to_iso3: &str,
) -> (res: Result<DeepLRequest<'a>, ApiError>)
    ensures
        texts@.len() == 0 ==> (res matches Err(e) && e.status == BAD_REQUEST && e.message@
            == "'texts' must not be empty"@),
        texts@.len() > 0 && deepl_code(lang_to_iso3@) is None ==> (res matches Err(e)
            && e.status == BAD_REQUEST && e.message@ == "unsupported target language iso3: "@
            + lang_to_iso3@),
        texts@.len() > 0 && deepl_code(lang_to_iso3@) is Some && deepl_code(lang_from_iso3@) is None
            ==> (res matches Err(e) && e.status == BAD_REQUEST && e.message@
            == "unsupported source language iso3: "@ + lang_from_iso3@),
        texts@.len() > 0 && deepl_code(lang_to_iso3@) is Some && deepl_code(lang_from_iso3@) is Some
            ==> (res matches Ok(r) && r.text@ == texts@ && Some(r.target_lang@) == deepl_code(
            lang_to_iso3@) && Some(r.source_lang@) == deepl_code(lang_from_iso3@)),
{
    if texts.len() == 0 {
        return Err(ApiError::new(BAD_REQUEST, "'texts' must not be empty".to_owned()));
    }
    let target_lang = match lang_to_iso3_to_deepl(lang_to_iso3) {
        Some(c) => c,
        None => {
            let mut message = "unsupported target language iso3: ".to_owned();
            message.append(lang_to_iso3);
            return Err(ApiError::new(BAD_REQUEST, message));
        },
    };
    let source_lang = match lang_from_iso3_to_deepl(lang_from_iso3) {
        Some(c) => c,
        None => {
            let mut message = "unsupported source language iso3: ".to_owned();
            message.append(lang_from_iso3);
            return Err(ApiError::new(BAD_REQUEST, message));
        },
    };
    Ok(DeepLRequest { text: texts, target_lang, source_lang })
}

/// `s` without its trailing slashes.
pub open spec fn trim_end_slashes(s: Seq<char>) -> Seq<char>
    decreases s.len(),
{
    if s.len() > 0 && s.last() == '/' {
        trim_end_slashes(s.drop_last())
    } else {
        s
    }
}

/// The translate endpoint under a DeepL base address: the address without
/// trailing slashes, then `/v2/translate`.
pub fn deepl_translate_url(deepl_endpoint: &str) -> (res: String)
    ensures
        res@ == trim_end_slashes(deepl_endpoint@) + "/v2/translate"@,
{
    let cs = chars_of(deepl_endpoint);
    let mut i: usize = cs.len();
    proof {
        assert(cs@.take(i as int) =~= cs@);
    }
    while i > 0 && cs[i - 1] == '/'
        invariant
            i <= cs@.len(),
            cs@ == deepl_endpoint@,
            trim_end_slashes(deepl_endpoint@) == trim_end_slashes(cs@.take(i as int)),
        decreases i,
    {
        proof {
            assert(cs@.take(i as int).drop_last() =~= cs@.take(i - 1));
        }
        i -= 1;
    }
    let mut url = string_of_range(&cs, 0, i);
    proof {
        assert(cs@.subrange(0, i as int) =~= cs@.take(i as int));
    }
    url.append("/v2/translate");
    url
}

/// Slashes at the end of a DeepL base address make no difference.
pub proof fn law_translate_url_ignores_trailing_slashes(endpoint: Seq<char>, k: nat)
    ensures
        trim_end_slashes(endpoint + Seq::new(k, |i: int| '/')) == trim_end_slashes(endpoint),
    decreases k,
{
    let s = endpoint + Seq::new(k, |i: int| '/');
    if k > 0 {
        assert(s.drop_last() =~= endpoint + Seq::new((k - 1) as nat, |i: int| '/'));
        law_translate_url_ignores_trailing_slashes(endpoint, (k - 1) as nat);
    } else {
        assert(s =~= endpoint);
    }
}

/// The `Authorization` header value for a DeepL key.
pub fn auth_header(deepl_key: &str) -> (res: String)
    ensures
        res@ == "DeepL-Auth-Key "@ + deepl_key@,
{
    let mut value = "DeepL-Auth-Key ".to_owned();
    value.append(deepl_key);
    value
}

/// Source name of DeepL results.
pub const SOURCE: &'static str = "deepl";

/// The texts of a decoded reply's translations, in order.
pub open spec fn reply_texts(resp: DeepLResponse) -> Seq<Seq<char>> {
    resp.translations@.map_values(|t: DeepLTranslation| t.text@)
}

/// The translation result of an exchange with DeepL: the translated texts of
/// a decoded reply, with source `deepl`; otherwise `502 Bad Gateway` as for
/// any upstream reply.
pub fn translation_result(reply: UpstreamReply<DeepLResponse>) -> (res: Result<
    TranslationResult,
    ApiError,
>)
    ensures
        match reply {
            UpstreamReply::Unreachable(m) => res matches Err(e) && e.status == BAD_GATEWAY
                && e.message@ == m@,
            UpstreamReply::Rejected { body, .. } => res matches Err(e) && e.status == BAD_GATEWAY
                && e.message@ == body@,
            UpstreamReply::Malformed(m) => res matches Err(e) && e.status == BAD_GATEWAY
                && e.message@ == m@,
            UpstreamReply::Received(resp) => res matches Ok(r) && r.source@ == SOURCE@
                && r.translations@.map_values(|t: String| t@) == reply_texts(resp),
        },
{
    let resp = match upstream_value(reply) {
        Ok(r) => r,
        Err(e) => return Err(e),
    };
    let mut translations: Vec<String> = Vec::new();
    let mut i: usize = 0;
    while i < resp.translations.len()
        invariant
            i <= resp.translations@.len(),
            translations@.map_values(|t: String| t@) == reply_texts(resp).take(i as int),
        decreases resp.translations@.len() - i,
    {
        let t = resp.translations[i].text.clone();
        let ghost before = translations@;
        translations.push(t);
        proof {
            assert(t@ == reply_texts(resp)[i as int]);
            assert(translations@.map_values(|t: String| t@) =~= before.map_values(
                |t: String| t@,
            ).push(t@));
            assert(translations@.map_values(|t: String| t@) =~= reply_texts(resp).take(i + 1));
        }
        i += 1;
    }
    proof {
        assert(reply_texts(resp).take(i as int) =~= reply_texts(resp));
    }
    Ok(TranslationResult { translations, source: SOURCE.to_owned() })
}

} // verus!
