//! The PanLex dictionary: language variety keys, quality ratings, and the
//! translations, synonyms and lexical items built from database rows.
use vstd::prelude::*;
use crate::model::{
    LexicalItemDetail, Sentence, Synonyms, TranslationsSet, TranslationsSetView,
    WordTranslations, sentence_view, sentences_view,
};
use crate::text::{law_trim_idempotent, trim, trim_spec};

verus! {

/// Source name of PanLex results.
pub const SOURCE: &'static str = "panlex";

/// The PanLex key of a language's main variety: `<iso3>-000`.
pub open spec fn panlex_uid_spec(lang_iso3: Seq<char>) -> Seq<char> {
    lang_iso3 + "-000"@
}

/// Builds the PanLex key of a language's main variety.
pub fn panlex_uid(lang_iso3: &str) -> (res: String)
    ensures
        res@ == panlex_uid_spec(lang_iso3@),
{
    let mut uid = lang_iso3.to_owned();
    uid.append("-000");
    uid
}

/// What a PanLex query binds for a word: the key of the main variety of
/// its language and the word without surrounding whitespace.
pub struct WordKey {
    pub uid: String,
    pub text: String,
}

/// The PanLex query parameters for a word in a language.
pub fn word_key(query: &str, lang_iso3: &str) -> (res: WordKey)
    ensures
        res.uid@ == panlex_uid_spec(lang_iso3@),
        res.text@ == trim_spec(query@),
{
    WordKey { uid: panlex_uid(lang_iso3), text: trim(query).to_owned() }
}

/// A stored quality as a rating: PanLex rates from 0 to 9, so the value is
/// clamped to `0..=9`.
pub open spec fn panlex_quality_spec(q: i64) -> i8 {
    if q < 0 {
        0
    } else if q > 9 {
        9
    } else {
        q as i8
    }
}

/// Converts a stored quality to a rating.
pub fn panlex_quality(q: i64) -> (res: i8)
    ensures
        res == panlex_quality_spec(q),
{
    if q < 0 {
        0
    } else if q > 9 {
        9
    } else {
        q as i8
    }
}

/// Ratings always lie in `0..=9`, a stored quality in that range is kept, and
/// rating a rating changes nothing.
pub proof fn law_panlex_quality_range(q: i64)
    ensures
        0 <= panlex_quality_spec(q) <= 9,
        0 <= q <= 9 ==> panlex_quality_spec(q) == q,
        panlex_quality_spec(panlex_quality_spec(q) as i64) == panlex_quality_spec(q),
{
}

/// The texts of result rows `(text, quality)`.
pub open spec fn rows_texts(rows: Seq<(String, i64)>) -> Seq<Seq<char>> {
    rows.map_values(|r: (String, i64)| r.0@)
}

/// The ratings of result rows `(text, quality)`.
pub open spec fn rows_qualities(rows: Seq<(String, i64)>) -> Seq<i8> {
    rows.map_values(|r: (String, i64)| panlex_quality_spec(r.1))
}

/// The set of PanLex sentences for a word: the word itself, then one
/// sentence per row in `lang_rows`, rated by the row's quality.
pub open spec fn panlex_set(
    query: Seq<char>,
    lang_from_iso3: Seq<char>,
    lang_rows: Seq<char>,
    rows: Seq<(String, i64)>,
) -> TranslationsSetView {
    TranslationsSetView {
        original: sentence_view(query, lang_from_iso3, SOURCE@),
        translations: rows_texts(rows).map_values(
            |t: Seq<char>| sentence_view(t, lang_rows, SOURCE@),
        ),
        translations_qualities: Some(rows_qualities(rows)),
    }
}

/// No row is dropped or reordered: the set holds the word in its language and
/// exactly one sentence per row, in row order, with the row's text in
/// `lang_rows`, and one rating per row, the row's quality clamped to `0..=9`
/// (an unrated row, quality 0, keeps its sentence and rates 0).
pub proof fn law_panlex_set_one_sentence_per_row(
    query: Seq<char>,
    lang_from_iso3: Seq<char>,
    lang_rows: Seq<char>,
    rows: Seq<(String, i64)>,
)
    ensures
        panlex_set(query, lang_from_iso3, lang_rows, rows).original.text == query,
        panlex_set(query, lang_from_iso3, lang_rows, rows).original.lang_iso3 == lang_from_iso3,
        panlex_set(query, lang_from_iso3, lang_rows, rows).translations.len() == rows.len(),
        forall|i: int| 0 <= i < rows.len() ==> {
            let s = #[trigger] panlex_set(query, lang_from_iso3, lang_rows, rows).translations[i];
            s.text == rows[i].0@ && s.lang_iso3 == lang_rows && s.source == "panlex"@
        },
        panlex_set(query, lang_from_iso3, lang_rows, rows).translations_qualities matches Some(qs)
            && qs.len() == rows.len() && forall|i: int| 0 <= i < rows.len() ==> #[trigger] qs[i]
            == (if rows[i].1 < 0 { 0 } else if rows[i].1 > 9 { 9 } else { rows[i].1 }),
{
}

/// Builds the set of PanLex sentences for a word and its result rows.
fn panlex_set_from_rows(
    query: &str,
    lang_from_iso3: &str,
    lang_rows: &str,
    rows: Vec<(String, i64)>,
) -> (res: TranslationsSet)
    ensures
        res@ == panlex_set(query@, lang_from_iso3@, lang_rows@, rows@),
{
    let ghost all = rows@;
    let mut rows = rows;
    let mut sentences: Vec<Sentence> = Vec::new();
    let mut qualities: Vec<i8> = Vec::new();
    let ghost mut k: int = 0;
    let ghost target = panlex_set(query@, lang_from_iso3@, lang_rows@, all);
    proof {
        assert(all.skip(0) =~= all);
    }
    while rows.len() > 0
        invariant
            0 <= k <= all.len(),
            rows@ == all.skip(k),
            target == panlex_set(query@, lang_from_iso3@, lang_rows@, all),
            sentences_view(sentences@) == target.translations.take(k),
            qualities@ == rows_qualities(all).take(k),
        decreases rows@.len(),
    {
        let (text, q) = rows.remove(0);
        proof {
            assert(all[k] == (text, q));
            assert(all.skip(k).remove(0) =~= all.skip(k + 1));
        }
        let s = Sentence::new(text, lang_rows, SOURCE);
        let ghost before = sentences@;
        sentences.push(s);
        qualities.push(panlex_quality(q));
        proof {
            assert(sentences_view(sentences@) =~= sentences_view(before).push(s@));
            assert(sentences_view(sentences@) =~= target.translations.take(k + 1));
            assert(qualities@ =~= rows_qualities(all).take(k + 1));
            k = k + 1;
        }
    }
    proof {
        assert(target.translations.take(k) =~= target.translations);
        assert(rows_qualities(all).take(k) =~= rows_qualities(all));
    }
    TranslationsSet {
        original: Sentence::new(query.to_owned(), lang_from_iso3, SOURCE),
        translations: sentences,
        translations_qualities: Some(qualities),
    }
}

/// The PanLex translations of a word from its result rows `(translation,
/// quality)`: nothing for no rows; otherwise the trimmed word in the source
/// language with one rated sentence per row in the target language.
pub fn word_translations_from_rows(
    query: &str,
    lang_from_iso3: &str,
    lang_to_iso3: &str,
    rows: Vec<(String, i64)>,
) -> (res: Option<WordTranslations>)
    ensures
        rows@.len() == 0 ==> res is None,
        rows@.len() > 0 ==> (res matches Some(w) && w.source@ == SOURCE@ && w.translations_set@
            == panlex_set(trim_spec(query@), lang_from_iso3@, lang_to_iso3@, rows@)),
{
    if rows.len() == 0 {
        return None;
    }
    let query = trim(query);
    let set = panlex_set_from_rows(query, lang_from_iso3, lang_to_iso3, rows);
    Some(WordTranslations { translations_set: set, source: SOURCE.to_owned() })
}

/// The PanLex synonyms of a word from its result rows `(synonym, quality)`:
/// nothing for no rows; otherwise the trimmed word with one rated sentence
/// per row, all in the word's language.
pub fn synonyms_from_rows(query: &str, lang_from_iso3: &str, rows: Vec<(String, i64)>) -> (res:
    Option<Synonyms>)
    ensures
        rows@.len() == 0 ==> res is None,
        rows@.len() > 0 ==> (res matches Some(s) && s.source@ == SOURCE@ && s.translations_set@
            == panlex_set(trim_spec(query@), lang_from_iso3@, lang_from_iso3@, rows@)),
{
    if rows.len() == 0 {
        return None;
    }
    let query = trim(query);
    let set = panlex_set_from_rows(query, lang_from_iso3, lang_from_iso3, rows);
    Some(Synonyms { translations_set: set, source: SOURCE.to_owned() })
}

/// The PanLex lexical items of a word: its translations, if any, then its
/// synonyms, if any.
pub fn panlex_items(translations: Option<WordTranslations>, synonyms: Option<Synonyms>) -> (res:
    Vec<LexicalItemDetail>)
    ensures
        res@ == (match translations {
            Some(w) => seq![LexicalItemDetail::WordTranslations(w)],
            None => Seq::empty(),
        }) + (match synonyms {
            Some(s) => seq![LexicalItemDetail::Synonyms(s)],
            None => Seq::empty(),
        }),
{
    let mut out: Vec<LexicalItemDetail> = Vec::new();
    if let Some(w) = translations {
        out.push(LexicalItemDetail::WordTranslations(w));
    }
    if let Some(s) = synonyms {
        out.push(LexicalItemDetail::Synonyms(s));
    }
    proof {
        assert(out@ =~= (match translations {
            Some(w) => seq![LexicalItemDetail::WordTranslations(w)],
            None => Seq::empty(),
        }) + (match synonyms {
            Some(s) => seq![LexicalItemDetail::Synonyms(s)],
            None => Seq::empty(),
        }));
    }
    out
}

/// Surrounding whitespace of the looked-up word makes no difference: the set
/// built for the trimmed word is the set built for the word.
pub proof fn law_panlex_set_ignores_surrounding_whitespace(
    query: Seq<char>,
    lang_from_iso3: Seq<char>,
    lang_rows: Seq<char>,
    rows: Seq<(String, i64)>,
)
    ensures
        panlex_set(trim_spec(trim_spec(query)), lang_from_iso3, lang_rows, rows) == panlex_set(
            trim_spec(query),
            lang_from_iso3,
            lang_rows,
            rows,
        ),
{
    law_trim_idempotent(query);
}

} // verus!
