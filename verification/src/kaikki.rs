//! Dictionary pages from kaikki.org (machine-readable Wiktionary): which
//! page a query and language lead to.
use vstd::prelude::*;
use crate::error::{ApiError, BAD_REQUEST};
use crate::text::{chars_of, push_char, str_eq, trim, trim_spec};

verus! {

/// Name of the service in proxy errors.
pub const SERVICE_NAME: &'static str = "Kaikki";

/// Query parameters of a kaikki lookup.
pub struct KaikkiQuery {
    pub query: String,
    pub lang_iso3: String,
}

/// The Wiktionary edition and language section kaikki keeps a language under.
pub open spec fn subwiktionary_spec(lang_iso3: Seq<char>) -> Option<Seq<char>> {
    if lang_iso3 == "rus"@ {
        Some("ruwiktionary/\u{0420}\u{0443}\u{0441}\u{0441}\u{043a}\u{0438}\u{0439}"@)
    } else if lang_iso3 == "eng"@ {
        Some("dictionary/English"@)
    } else if lang_iso3 == "deu"@ {
        Some("dewiktionary/Deutsch"@)
    } else if lang_iso3 == "fra"@ {
        Some("frwiktionary/Fran\u{e7}ais"@)
    } else {
        None
    }
}

/// The kaikki dictionary path for a supported language.
pub fn subwiktionary_of(lang_iso3: &str) -> (res: Option<&'static str>)
    ensures
        match subwiktionary_spec(lang_iso3@) {
            Some(p) => res matches Some(r) && r@ == p,
            None => res is None,
        },
{
    if str_eq(lang_iso3, "rus") {
        Some("ruwiktionary/\u{0420}\u{0443}\u{0441}\u{0441}\u{043a}\u{0438}\u{0439}")
    } else if str_eq(lang_iso3, "eng") {
        Some("dictionary/English")
    } else if str_eq(lang_iso3, "deu") {
        Some("dewiktionary/Deutsch")
    } else if str_eq(lang_iso3, "fra") {
        Some("frwiktionary/Fran\u{e7}ais")
    } else {
        None
    }
}

/// The page path of a word: `<c1>/<c1><c2>/<word>.jsonl` with `c1`, `c2`
/// its first two characters (`_` for a missing first, the first again for a
/// missing second).
pub open spec fn query_page_postfix_spec(query: Seq<char>) -> Seq<char> {
    let first = if query.len() > 0 {
        query[0]
    } else {
        '_'
    };
    let second = if query.len() > 1 {
        query[1]
    } else {
        first
    };
    seq![first, '/', first, second, '/'] + query + ".jsonl"@
}

/// Builds the page path of a word.
pub fn query_page_postfix(query: &str) -> (res: String)
    ensures
        res@ == query_page_postfix_spec(query@),
{
    let cs = chars_of(query);
    let first = if cs.len() > 0 {
        cs[0]
    } else {
        '_'
    };
    let second = if cs.len() > 1 {
        cs[1]
    } else {
        first
    };
    let mut out = String::new();
    push_char(&mut out, first);
    push_char(&mut out, '/');
    push_char(&mut out, first);
    push_char(&mut out, second);
    push_char(&mut out, '/');
    out.append(query);
    out.append(".jsonl");
    proof {
        assert(out@ =~= query_page_postfix_spec(query@));
    }
    out
}

/// The kaikki page for a lookup: `https://kaikki.org/<dictionary>/meaning/<page>`
/// for the trimmed query and language; `400 Bad Request` for an empty query
/// (checked first) or an unsupported language.
pub fn kaikki_url(query: &str, lang_iso3: &str) -> (res: Result<String, ApiError>)
    ensures
        trim_spec(query@).len() == 0 ==> (res matches Err(e) && e.status == BAD_REQUEST
            && e.message@ == "query must not be empty"@),
        trim_spec(query@).len() > 0 ==> match subwiktionary_spec(trim_spec(lang_iso3@)) {
            None => res matches Err(e) && e.status == BAD_REQUEST && e.message@
                == "unsupported lang"@,
            Some(sub) => res matches Ok(url) && url@ == "https://kaikki.org/"@ + sub
                + "/meaning/"@ + query_page_postfix_spec(trim_spec(query@)),
        },
{
    let q = trim(query);
    if q.is_empty() {
        return Err(ApiError::new(BAD_REQUEST, "query must not be empty".to_owned()));
    }
    let sub = match subwiktionary_of(trim(lang_iso3)) {
        Some(s) => s,
        None => {
            return Err(ApiError::new(BAD_REQUEST, "unsupported lang".to_owned()));
        },
    };
    let mut url = "https://kaikki.org/".to_owned();
    url.append(sub);
    url.append("/meaning/");
    let page = query_page_postfix(q);
    url.append(page.as_str());
    Ok(url)
}

} // verus!
