//! Word lookups through the language model: the prompt, recovery of the JSON
//! object from the model's reply, and the lexical items built from it.
use vstd::prelude::*;
use crate::error::{ApiError, BAD_GATEWAY};
use crate::model::{
    Example, Explanation, Forms, LexicalItemDetail, LexicalItemDetailView, Sentence, Synonyms,
    TranslationsSet, TranslationsSetView, WordTranslations, SentenceView, details_view,
    sentence_view, sentences_view,
};
use crate::text::{
    chars_of, find_first, find_last, first_index_of, last_index_of, lemma_first_index_bounds,
    lemma_first_index_of, lemma_last_index_of,
    lemma_last_index_bounds, split_once, split_once_spec, string_of_range, trim, trim_spec,
};

verus! {

/// Opening of the prompt: the task, the reply format and the word label.
pub const PROMPT_INTRO: &'static str = "\nYou are called from a language learning app. Your goal is to reply with **JSON only**, no prose, no code fences.\n\nThe JSON format must be exactly:\n{\n  \"forms\": \"<FORMS>\",\n  \"translations\": [\"<TRANSLATION>\", \"<TRANSLATION>\", \"<TRANSLATION>\"],\n  \"synonyms\": [\"<SYNONYM>\", \"<SYNONYM>\", \"<SYNONYM>\"],\n  \"explanation\": \"<EXPLANATION_TARGET_LANG>\",\n  \"examples\": [\n    \"<EXAMPLE>\",\n    \"<EXAMPLE>\",\n    \"<EXAMPLE>\",\n    \"<EXAMPLE>\",\n    \"<EXAMPLE>\"\n  ]\n}\n\nWord to explain: ";

/// Label of the source language.
pub const PROMPT_SOURCE_LABEL: &'static str = "\nSource language (ISO-3): ";

/// Label of the target language.
pub const PROMPT_TARGET_LABEL: &'static str = "\nTarget language (ISO-3): ";

/// Start of the placeholder list, up to the forms placeholder.
pub const PROMPT_FORMS_LABEL: &'static str = "\n\nPlaceholders:\n<FORMS>: ";

/// How the forms of a word are to be written.
pub const FORMS_EXPLANATION: &'static str = "\nif noun: article, singular form, plural form changes, e.g.:\nder Hund, -e\nder Platz, -\u{e4}e\nder Wurm, -(\u{fc})e\nif verb: follow next examples:\ngehen, geht, ging, ist gegangen\nlieben, liebt, liebte, hat geliebt\nfor others (adverb, adjective) make it as simple as possible\n";

/// Placeholder for translations.
pub const PROMPT_TRANSLATION_LABEL: &'static str = "\n<TRANSLATION>: a translation into lang ";

/// Placeholder for synonyms.
pub const PROMPT_SYNONYM_LABEL: &'static str = "\n<SYNONYM>: a synonym in lang ";

/// Placeholder for the explanation.
pub const PROMPT_EXPLANATION_LABEL: &'static str = "\n<EXPLANATION_TARGET_LANG>: short (2-3 sentences) explanation of the word, in lang ";

/// Placeholder for examples, source side.
pub const PROMPT_EXAMPLE_LABEL: &'static str = "\n<EXAMPLE>: example sentence in lang ";

/// Placeholder for examples, target side.
pub const PROMPT_EXAMPLE_SEPARATOR: &'static str = " | example sentence in lang ";

/// Closing rules of the prompt.
pub const PROMPT_CLOSING: &'static str = "\nThe '|' is a required delimiter. Example sentences must be short. Translations and synonyms may contain 1-6 entries.\n";

/// Source name of the items built from the model's reply.
pub const SOURCE: &'static str = "chatgpt";

/// The prompt asking the model for the forms, translations, synonyms,
/// explanation and examples of `query`.
pub open spec fn build_prompt_spec(
    query: Seq<char>,
    lang_from_iso3: Seq<char>,
    lang_to_iso3: Seq<char>,
) -> Seq<char> {
    PROMPT_INTRO@ + query + PROMPT_SOURCE_LABEL@ + lang_from_iso3 + PROMPT_TARGET_LABEL@
        + lang_to_iso3 + PROMPT_FORMS_LABEL@ + FORMS_EXPLANATION@ + PROMPT_TRANSLATION_LABEL@
        + lang_to_iso3 + PROMPT_SYNONYM_LABEL@ + lang_from_iso3 + PROMPT_EXPLANATION_LABEL@
        + lang_to_iso3 + PROMPT_EXAMPLE_LABEL@ + lang_from_iso3 + PROMPT_EXAMPLE_SEPARATOR@
        + lang_to_iso3 + PROMPT_CLOSING@
}

/// Builds the prompt for a word lookup.
pub fn build_prompt(query: &str, lang_from_iso3: &str, lang_to_iso3: &str) -> (res: String)
    ensures
        res@ == build_prompt_spec(query@, lang_from_iso3@, lang_to_iso3@),
{
    let mut out = PROMPT_INTRO.to_owned();
    out.append(query);
    out.append(PROMPT_SOURCE_LABEL);
    out.append(lang_from_iso3);
    out.append(PROMPT_TARGET_LABEL);
    out.append(lang_to_iso3);
    out.append(PROMPT_FORMS_LABEL);
    out.append(FORMS_EXPLANATION);
    out.append(PROMPT_TRANSLATION_LABEL);
    out.append(lang_to_iso3);
    out.append(PROMPT_SYNONYM_LABEL);
    out.append(lang_from_iso3);
    out.append(PROMPT_EXPLANATION_LABEL);
    out.append(lang_to_iso3);
    out.append(PROMPT_EXAMPLE_LABEL);
    out.append(lang_from_iso3);
    out.append(PROMPT_EXAMPLE_SEPARATOR);
    out.append(lang_to_iso3);
    out.append(PROMPT_CLOSING);
    proof {
        assert(out@ =~= build_prompt_spec(query@, lang_from_iso3@, lang_to_iso3@));
    }
    out
}

/// `needle` stands in `hay` as one contiguous run.
pub open spec fn occurs_in(needle: Seq<char>, hay: Seq<char>) -> bool {
    exists|before: Seq<char>, after: Seq<char>| hay == before + needle + after
}

/// Where the prompt gives the word to explain.
proof fn lemma_prompt_word_clause(q: Seq<char>, f: Seq<char>, t: Seq<char>)
    ensures
        occurs_in(PROMPT_INTRO@ + q + PROMPT_SOURCE_LABEL@, build_prompt_spec(q, f, t)),
{
    let before = Seq::<char>::empty();
    let after = f + PROMPT_TARGET_LABEL@ + t + PROMPT_FORMS_LABEL@ + FORMS_EXPLANATION@
        + PROMPT_TRANSLATION_LABEL@ + t + PROMPT_SYNONYM_LABEL@ + f + PROMPT_EXPLANATION_LABEL@
        + t + PROMPT_EXAMPLE_LABEL@ + f + PROMPT_EXAMPLE_SEPARATOR@ + t + PROMPT_CLOSING@;
    let needle = PROMPT_INTRO@ + q + PROMPT_SOURCE_LABEL@;
    assert(build_prompt_spec(q, f, t) =~= before + needle + after);
}

/// Where the prompt gives the source language.
proof fn lemma_prompt_source_clause(q: Seq<char>, f: Seq<char>, t: Seq<char>)
    ensures
        occurs_in(PROMPT_SOURCE_LABEL@ + f + PROMPT_TARGET_LABEL@, build_prompt_spec(q, f, t)),
{
    let before = PROMPT_INTRO@ + q;
    let after = t + PROMPT_FORMS_LABEL@ + FORMS_EXPLANATION@ + PROMPT_TRANSLATION_LABEL@ + t
        + PROMPT_SYNONYM_LABEL@ + f + PROMPT_EXPLANATION_LABEL@ + t + PROMPT_EXAMPLE_LABEL@ + f
        + PROMPT_EXAMPLE_SEPARATOR@ + t + PROMPT_CLOSING@;
    let needle = PROMPT_SOURCE_LABEL@ + f + PROMPT_TARGET_LABEL@;
    assert(build_prompt_spec(q, f, t) =~= before + needle + after);
}

/// Where the prompt gives the target language.
proof fn lemma_prompt_target_clause(q: Seq<char>, f: Seq<char>, t: Seq<char>)
    ensures
        occurs_in(PROMPT_TARGET_LABEL@ + t + PROMPT_FORMS_LABEL@, build_prompt_spec(q, f, t)),
{
    let before = PROMPT_INTRO@ + q + PROMPT_SOURCE_LABEL@ + f;
    let after = FORMS_EXPLANATION@ + PROMPT_TRANSLATION_LABEL@ + t + PROMPT_SYNONYM_LABEL@ + f
        + PROMPT_EXPLANATION_LABEL@ + t + PROMPT_EXAMPLE_LABEL@ + f + PROMPT_EXAMPLE_SEPARATOR@
        + t + PROMPT_CLOSING@;
    let needle = PROMPT_TARGET_LABEL@ + t + PROMPT_FORMS_LABEL@;
    assert(build_prompt_spec(q, f, t) =~= before + needle + after);
}

/// Where the prompt gives the language of the translations.
proof fn lemma_prompt_translation_clause(q: Seq<char>, f: Seq<char>, t: Seq<char>)
    ensures
        occurs_in(PROMPT_TRANSLATION_LABEL@ + t + PROMPT_SYNONYM_LABEL@, build_prompt_spec(q, f, t)),
{
    let before = PROMPT_INTRO@ + q + PROMPT_SOURCE_LABEL@ + f + PROMPT_TARGET_LABEL@ + t
        + PROMPT_FORMS_LABEL@ + FORMS_EXPLANATION@;
    let after = f + PROMPT_EXPLANATION_LABEL@ + t + PROMPT_EXAMPLE_LABEL@ + f
        + PROMPT_EXAMPLE_SEPARATOR@ + t + PROMPT_CLOSING@;
    let needle = PROMPT_TRANSLATION_LABEL@ + t + PROMPT_SYNONYM_LABEL@;
    assert(build_prompt_spec(q, f, t) =~= before + needle + after);
}

/// Where the prompt gives the language of the synonyms.
proof fn lemma_prompt_synonym_clause(q: Seq<char>, f: Seq<char>, t: Seq<char>)
    ensures
        occurs_in(PROMPT_SYNONYM_LABEL@ + f + PROMPT_EXPLANATION_LABEL@, build_prompt_spec(q, f, t)),
{
    let before = PROMPT_INTRO@ + q + PROMPT_SOURCE_LABEL@ + f + PROMPT_TARGET_LABEL@ + t
        + PROMPT_FORMS_LABEL@ + FORMS_EXPLANATION@ + PROMPT_TRANSLATION_LABEL@ + t;
    let after = t + PROMPT_EXAMPLE_LABEL@ + f + PROMPT_EXAMPLE_SEPARATOR@ + t + PROMPT_CLOSING@;
    let needle = PROMPT_SYNONYM_LABEL@ + f + PROMPT_EXPLANATION_LABEL@;
    assert(build_prompt_spec(q, f, t) =~= before + needle + after);
}

/// Where the prompt gives the language of the explanation.
proof fn lemma_prompt_explanation_clause(q: Seq<char>, f: Seq<char>, t: Seq<char>)
    ensures
        occurs_in(PROMPT_EXPLANATION_LABEL@ + t + PROMPT_EXAMPLE_LABEL@, build_prompt_spec(q, f, t)),
{
    let before = PROMPT_INTRO@ + q + PROMPT_SOURCE_LABEL@ + f + PROMPT_TARGET_LABEL@ + t
        + PROMPT_FORMS_LABEL@ + FORMS_EXPLANATION@ + PROMPT_TRANSLATION_LABEL@ + t
        + PROMPT_SYNONYM_LABEL@ + f;
    let after = f + PROMPT_EXAMPLE_SEPARATOR@ + t + PROMPT_CLOSING@;
    let needle = PROMPT_EXPLANATION_LABEL@ + t + PROMPT_EXAMPLE_LABEL@;
    assert(build_prompt_spec(q, f, t) =~= before + needle + after);
}

/// Where the prompt gives the language of an example's first half.
proof fn lemma_prompt_example_clause(q: Seq<char>, f: Seq<char>, t: Seq<char>)
    ensures
        occurs_in(PROMPT_EXAMPLE_LABEL@ + f + PROMPT_EXAMPLE_SEPARATOR@, build_prompt_spec(q, f, t)),
{
    let before = PROMPT_INTRO@ + q + PROMPT_SOURCE_LABEL@ + f + PROMPT_TARGET_LABEL@ + t
        + PROMPT_FORMS_LABEL@ + FORMS_EXPLANATION@ + PROMPT_TRANSLATION_LABEL@ + t
        + PROMPT_SYNONYM_LABEL@ + f + PROMPT_EXPLANATION_LABEL@ + t;
    let after = t + PROMPT_CLOSING@;
    let needle = PROMPT_EXAMPLE_LABEL@ + f + PROMPT_EXAMPLE_SEPARATOR@;
    assert(build_prompt_spec(q, f, t) =~= before + needle + after);
}

/// Where the prompt gives the language of an example's second half.
proof fn lemma_prompt_separator_clause(q: Seq<char>, f: Seq<char>, t: Seq<char>)
    ensures
        occurs_in(PROMPT_EXAMPLE_SEPARATOR@ + t + PROMPT_CLOSING@, build_prompt_spec(q, f, t)),
{
    let before = PROMPT_INTRO@ + q + PROMPT_SOURCE_LABEL@ + f + PROMPT_TARGET_LABEL@ + t
        + PROMPT_FORMS_LABEL@ + FORMS_EXPLANATION@ + PROMPT_TRANSLATION_LABEL@ + t
        + PROMPT_SYNONYM_LABEL@ + f + PROMPT_EXPLANATION_LABEL@ + t + PROMPT_EXAMPLE_LABEL@ + f;
    let after = Seq::<char>::empty();
    let needle = PROMPT_EXAMPLE_SEPARATOR@ + t + PROMPT_CLOSING@;
    assert(build_prompt_spec(q, f, t) =~= before + needle + after);
}

/// Every label of the prompt is directly followed by what it names and then by
/// the next label: the word after the task, the source and target languages
/// after their labels, translations, the explanation and the second half of
/// each example in the target language, synonyms and the first half of each
/// example in the word's own language; the prompt ends with its closing.
pub proof fn law_prompt_places_languages(
    query: Seq<char>,
    lang_from_iso3: Seq<char>,
    lang_to_iso3: Seq<char>,
)
    ensures
        occurs_in(
            PROMPT_INTRO@ + query + PROMPT_SOURCE_LABEL@,
            build_prompt_spec(query, lang_from_iso3, lang_to_iso3),
        ),
        occurs_in(
            PROMPT_SOURCE_LABEL@ + lang_from_iso3 + PROMPT_TARGET_LABEL@,
            build_prompt_spec(query, lang_from_iso3, lang_to_iso3),
        ),
        occurs_in(
            PROMPT_TARGET_LABEL@ + lang_to_iso3 + PROMPT_FORMS_LABEL@,
            build_prompt_spec(query, lang_from_iso3, lang_to_iso3),
        ),
        occurs_in(
            PROMPT_TRANSLATION_LABEL@ + lang_to_iso3 + PROMPT_SYNONYM_LABEL@,
            build_prompt_spec(query, lang_from_iso3, lang_to_iso3),
        ),
        occurs_in(
            PROMPT_SYNONYM_LABEL@ + lang_from_iso3 + PROMPT_EXPLANATION_LABEL@,
            build_prompt_spec(query, lang_from_iso3, lang_to_iso3),
        ),
        occurs_in(
            PROMPT_EXPLANATION_LABEL@ + lang_to_iso3 + PROMPT_EXAMPLE_LABEL@,
            build_prompt_spec(query, lang_from_iso3, lang_to_iso3),
        ),
        occurs_in(
            PROMPT_EXAMPLE_LABEL@ + lang_from_iso3 + PROMPT_EXAMPLE_SEPARATOR@,
            build_prompt_spec(query, lang_from_iso3, lang_to_iso3),
        ),
        occurs_in(
            PROMPT_EXAMPLE_SEPARATOR@ + lang_to_iso3 + PROMPT_CLOSING@,
            build_prompt_spec(query, lang_from_iso3, lang_to_iso3),
        ),
        PROMPT_CLOSING@.is_suffix_of(build_prompt_spec(query, lang_from_iso3, lang_to_iso3)),
{
    lemma_prompt_word_clause(query, lang_from_iso3, lang_to_iso3);
    lemma_prompt_source_clause(query, lang_from_iso3, lang_to_iso3);
    lemma_prompt_target_clause(query, lang_from_iso3, lang_to_iso3);
    lemma_prompt_translation_clause(query, lang_from_iso3, lang_to_iso3);
    lemma_prompt_synonym_clause(query, lang_from_iso3, lang_to_iso3);
    lemma_prompt_explanation_clause(query, lang_from_iso3, lang_to_iso3);
    lemma_prompt_example_clause(query, lang_from_iso3, lang_to_iso3);
    lemma_prompt_separator_clause(query, lang_from_iso3, lang_to_iso3);
    let p = build_prompt_spec(query, lang_from_iso3, lang_to_iso3);
    assert(p.subrange(p.len() - PROMPT_CLOSING@.len(), p.len() as int) =~= PROMPT_CLOSING@);
}

/// The part of a model reply from its first `{` to its last `}`, when the
/// first `{` does not come after the last `}`.
pub open spec fn extract_json_object_spec(s: Seq<char>) -> Option<Seq<char>> {
    match (first_index_of(s, '{'), last_index_of(s, '}')) {
        (Some(start), Some(end)) => if start <= end {
            Some(s.subrange(start, end + 1))
        } else {
            None
        },
        _ => None,
    }
}

/// Recovers the JSON object of a model reply that may be wrapped in prose or
/// code fences: the text from the first `{` to the last `}`, if there is one.
pub fn extract_json_object(s: &str) -> (res: Option<String>)
    ensures
        match extract_json_object_spec(s@) {
            Some(j) => res matches Some(r) && r@ == j,
            None => res is None,
        },
{
    let cs = chars_of(s);
    let first = find_first(&cs, '{');
    let last = find_last(&cs, '}');
    proof {
        lemma_first_index_bounds(cs@, '{');
        lemma_last_index_bounds(cs@, '}');
    }
    match (first, last) {
        (Some(start), Some(end)) => {
            if start <= end {
                Some(string_of_range(&cs, start, end + 1))
            } else {
                None
            }
        },
        _ => None,
    }
}

/// A recovered JSON object is recovered unchanged from itself.
pub proof fn law_extract_json_object_idempotent(s: Seq<char>)
    ensures
        extract_json_object_spec(s) matches Some(j) ==> extract_json_object_spec(j) == Some(j),
{
    if let Some(j) = extract_json_object_spec(s) {
        lemma_first_index_bounds(s, '{');
        lemma_last_index_bounds(s, '}');
        assert(j[0] == '{');
        assert(j.last() == '}');
        assert(first_index_of(j, '{') == Some(0int));
        assert(last_index_of(j, '}') == Some(j.len() - 1));
        assert(j.subrange(0, j.len() as int) =~= j);
    }
}

/// An object between prose or code fences is recovered: a reply made of a
/// text without `{`, an object from `{` to `}`, and a text without `}`
/// yields exactly the object.
pub proof fn law_extract_json_object_from_wrapped(before: Seq<char>, object: Seq<char>, after: Seq<char>)
    requires
        object.len() > 0,
        object[0] == '{',
        object.last() == '}',
        forall|i: int| 0 <= i < before.len() ==> before[i] != '{',
        forall|i: int| 0 <= i < after.len() ==> after[i] != '}',
    ensures
        extract_json_object_spec(before + object + after) == Some(object),
{
    let s = before + object + after;
    let start: int = before.len() as int;
    let end: int = before.len() + object.len() - 1;
    lemma_first_index_of(s, '{', start);
    assert forall|j: int| end < j < s.len() implies s[j] != '}' by {
        assert(s[j] == after[j - before.len() - object.len()]);
    }
    lemma_last_index_of(s, '}', end);
    assert(s.subrange(start, end + 1) =~= object);
}

/// The text the reply is decoded from: the recovered JSON object, or else
/// the whole reply without surrounding whitespace.
pub open spec fn json_candidate_spec(raw: Seq<char>) -> Seq<char> {
    match extract_json_object_spec(raw) {
        Some(j) => j,
        None => trim_spec(raw),
    }
}

/// Picks the text of a model reply that is decoded as JSON.
pub fn json_candidate(raw: &str) -> (res: String)
    ensures
        res@ == json_candidate_spec(raw@),
{
    match extract_json_object(raw) {
        Some(j) => j,
        None => trim(raw).to_owned(),
    }
}

/// The JSON object the model is asked to reply with.
pub struct ChatGPTLexicalResponse {
    pub forms: String,
    pub translations: Vec<String>,
    pub synonyms: Vec<String>,
    pub explanation: String,
    pub examples: Vec<String>,
}

/// Views of a list of strings.
pub open spec fn strings_view(s: Seq<String>) -> Seq<Seq<char>> {
    s.map_values(|x: String| x@)
}

/// Sentences in one language and from the model, for a list of texts.
pub open spec fn sentences_in(texts: Seq<Seq<char>>, lang: Seq<char>) -> Seq<SentenceView> {
    texts.map_values(|t: Seq<char>| sentence_view(t, lang, SOURCE@))
}

/// A set of model sentences for `query` without quality ratings.
pub open spec fn model_set(
    query: Seq<char>,
    lang_from_iso3: Seq<char>,
    translations: Seq<SentenceView>,
) -> TranslationsSetView {
    TranslationsSetView {
        original: sentence_view(query, lang_from_iso3, SOURCE@),
        translations,
        translations_qualities: None,
    }
}

/// The example item for a reply example `<source sentence> | <target
/// sentence>`; nothing for an example without `|`.
pub open spec fn example_item(
    lang_from_iso3: Seq<char>,
    lang_to_iso3: Seq<char>,
) -> spec_fn(Seq<char>) -> Option<LexicalItemDetailView> {
    |ex: Seq<char>|
        match split_once_spec(ex, '|') {
            Some((lhs, rhs)) => Some(
                LexicalItemDetailView::Example {
                    translations_set: TranslationsSetView {
                        original: sentence_view(trim_spec(lhs), lang_from_iso3, SOURCE@),
                        translations: seq![sentence_view(trim_spec(rhs), lang_to_iso3, SOURCE@)],
                        translations_qualities: None,
                    },
                    source: SOURCE@,
                },
            ),
            None => None,
        }
}

/// The lexical items of a decoded reply, in this order: forms, explanation,
/// translations of the word, synonyms of the word, then one example item per
/// reply example that holds a `|`, all with source `chatgpt`.
pub open spec fn lexical_items_spec(
    query: Seq<char>,
    lang_from_iso3: Seq<char>,
    lang_to_iso3: Seq<char>,
    resp: ChatGPTLexicalResponse,
) -> Seq<LexicalItemDetailView> {
    seq![
        LexicalItemDetailView::Forms { text: resp.forms@, source: SOURCE@ },
        LexicalItemDetailView::Explanation { text: resp.explanation@, source: SOURCE@ },
        LexicalItemDetailView::WordTranslations {
            translations_set: model_set(
                query,
                lang_from_iso3,
                sentences_in(strings_view(resp.translations@), lang_to_iso3),
            ),
            source: SOURCE@,
        },
        LexicalItemDetailView::Synonyms {
            translations_set: model_set(
                query,
                lang_from_iso3,
                sentences_in(strings_view(resp.synonyms@), lang_from_iso3),
            ),
            source: SOURCE@,
        },
    ] + strings_view(resp.examples@).filter_map(example_item(lang_from_iso3, lang_to_iso3))
}

/// The source recorded in a lexical item.
pub open spec fn detail_source(d: LexicalItemDetailView) -> Seq<char> {
    match d {
        LexicalItemDetailView::Forms { source, .. } => source,
        LexicalItemDetailView::Explanation { source, .. } => source,
        LexicalItemDetailView::WordTranslations { source, .. } => source,
        LexicalItemDetailView::Synonyms { source, .. } => source,
        LexicalItemDetailView::Example { source, .. } => source,
    }
}

/// A reply example holds the `|` delimiter.
pub open spec fn has_delimiter() -> spec_fn(Seq<char>) -> bool {
    |ex: Seq<char>| first_index_of(ex, '|') is Some
}

/// The example items of a reply are exactly one per delimited example, each
/// an example with source `chatgpt`.
proof fn lemma_example_items(examples: Seq<Seq<char>>, from: Seq<char>, to: Seq<char>)
    ensures
        examples.filter_map(example_item(from, to)).len() == examples.filter(has_delimiter()).len(),
        forall|i: int|
            0 <= i < examples.filter_map(example_item(from, to)).len() ==> {
                let d = #[trigger] examples.filter_map(example_item(from, to))[i];
                &&& d is Example
                &&& detail_source(d) == SOURCE@
            },
    decreases examples.len(),
{
    reveal(Seq::filter);
    if examples.len() > 0 {
        lemma_example_items(examples.drop_last(), from, to);
    }
}

/// The items of a decoded reply: forms, explanation, translations and
/// synonyms, then one example per reply example holding `|`; every item has
/// source `chatgpt`.
pub proof fn law_lexical_items_layout(
    query: Seq<char>,
    lang_from_iso3: Seq<char>,
    lang_to_iso3: Seq<char>,
    resp: ChatGPTLexicalResponse,
)
    ensures
        ({
            let items = lexical_items_spec(query, lang_from_iso3, lang_to_iso3, resp);
            &&& items.len() == 4 + strings_view(resp.examples@).filter(has_delimiter()).len()
            &&& items[0] is Forms
            &&& items[1] is Explanation
            &&& items[2] is WordTranslations
            &&& items[3] is Synonyms
            &&& forall|i: int| 4 <= i < items.len() ==> #[trigger] items[i] is Example
            &&& forall|i: int| 0 <= i < items.len() ==> detail_source(#[trigger] items[i]) == SOURCE@
        }),
{
    let examples = strings_view(resp.examples@);
    lemma_example_items(examples, lang_from_iso3, lang_to_iso3);
    let items = lexical_items_spec(query, lang_from_iso3, lang_to_iso3, resp);
    let tail = examples.filter_map(example_item(lang_from_iso3, lang_to_iso3));
    assert forall|i: int| 4 <= i < items.len() implies #[trigger] items[i] is Example by {
        assert(items[i] == tail[i - 4]);
    }
    assert forall|i: int| 0 <= i < items.len() implies detail_source(#[trigger] items[i]) == SOURCE@ by {
        if i >= 4 {
            assert(items[i] == tail[i - 4]);
        }
    }
}

/// Sentences in one language from the model, one per text.
fn model_sentences(texts: &Vec<String>, lang: &str) -> (res: Vec<Sentence>)
    ensures
        sentences_view(res@) == sentences_in(strings_view(texts@), lang@),
{
    let mut out: Vec<Sentence> = Vec::new();
    let mut i: usize = 0;
    while i < texts.len()
        invariant
            i <= texts@.len(),
            sentences_view(out@) == sentences_in(strings_view(texts@), lang@).take(i as int),
        decreases texts@.len() - i,
    {
        let s = Sentence::new(texts[i].clone(), lang, SOURCE);
        let ghost before = out@;
        out.push(s);
        proof {
            assert(s@ == sentences_in(strings_view(texts@), lang@)[i as int]);
            assert(sentences_view(out@) =~= sentences_view(before).push(s@));
            assert(sentences_view(out@) =~= sentences_in(strings_view(texts@), lang@).take(
                i + 1,
            ));
        }
        i += 1;
    }
    proof {
        assert(sentences_view(out@) =~= sentences_in(strings_view(texts@), lang@));
    }
    out
}

/// The lexical items for a looked-up word from the decoded model reply, or
/// `502 Bad Gateway` with "invalid JSON from ChatGPT: <error>" when the reply
/// did not decode.
pub fn lexical_items(
    query: &str,
    lang_from_iso3: &str,
    lang_to_iso3: &str,
    parsed: Result<ChatGPTLexicalResponse, String>,
) -> (res: Result<Vec<LexicalItemDetail>, ApiError>)
    ensures
        match parsed {
            Ok(resp) => res matches Ok(items) && details_view(items@) == lexical_items_spec(
                query@,
                lang_from_iso3@,
                lang_to_iso3@,
                resp,
            ),
            Err(e) => res matches Err(err) && err.status == BAD_GATEWAY && err.message@
                == "invalid JSON from ChatGPT: "@ + e@,
        },
{
    let resp = match parsed {
        Ok(r) => r,
        Err(e) => {
            let mut message = "invalid JSON from ChatGPT: ".to_owned();
            message.append(e.as_str());
            return Err(ApiError::new(BAD_GATEWAY, message));
        },
    };
    let ghost spec_items = lexical_items_spec(query@, lang_from_iso3@, lang_to_iso3@, resp);
    let mut out: Vec<LexicalItemDetail> = Vec::new();
    out.push(
        LexicalItemDetail::Forms(Forms { text: resp.forms.clone(), source: SOURCE.to_owned() }),
    );
    out.push(
        LexicalItemDetail::Explanation(
            Explanation { text: resp.explanation.clone(), source: SOURCE.to_owned() },
        ),
    );
    let word_set = TranslationsSet {
        original: Sentence::new(query.to_owned(), lang_from_iso3, SOURCE),
        translations: model_sentences(&resp.translations, lang_to_iso3),
        translations_qualities: None,
    };
    out.push(
        LexicalItemDetail::WordTranslations(
            WordTranslations { translations_set: word_set, source: SOURCE.to_owned() },
        ),
    );
    let synonym_set = TranslationsSet {
        original: Sentence::new(query.to_owned(), lang_from_iso3, SOURCE),
        translations: model_sentences(&resp.synonyms, lang_from_iso3),
        translations_qualities: None,
    };
    out.push(
        LexicalItemDetail::Synonyms(
            Synonyms { translations_set: synonym_set, source: SOURCE.to_owned() },
        ),
    );
    let ghost examples = strings_view(resp.examples@);
    let ghost f = example_item(lang_from_iso3@, lang_to_iso3@);
    proof {
        assert(details_view(out@) =~= spec_items.take(4));
        assert(examples.take(0) =~= Seq::<Seq<char>>::empty());
        assert(spec_items.take(4) =~= spec_items.take(4) + examples.take(0).filter_map(f));
    }
    let mut i: usize = 0;
    while i < resp.examples.len()
        invariant
            i <= resp.examples@.len(),
            examples == strings_view(resp.examples@),
            f == example_item(lang_from_iso3@, lang_to_iso3@),
            spec_items == lexical_items_spec(query@, lang_from_iso3@, lang_to_iso3@, resp),
            details_view(out@) == spec_items.take(4) + examples.take(i as int).filter_map(f),
        decreases resp.examples@.len() - i,
    {
        let ex = resp.examples[i].as_str();
        proof {
            examples.lemma_filter_map_take_succ(f, i as int);
        }
        match split_once(ex, '|') {
            Some((lhs, rhs)) => {
                let original = Sentence::new(trim(lhs.as_str()).to_owned(), lang_from_iso3, SOURCE);
                let mut translations: Vec<Sentence> = Vec::new();
                translations.push(Sentence::new(trim(rhs.as_str()).to_owned(), lang_to_iso3, SOURCE));
                let item = LexicalItemDetail::Example(
                    Example {
                        translations_set: TranslationsSet {
                            original,
                            translations,
                            translations_qualities: None,
                        },
                        source: SOURCE.to_owned(),
                    },
                );
                let ghost before = out@;
                out.push(item);
                proof {
                    assert(sentences_view(translations@) =~= seq![
                        sentence_view(trim_spec(rhs@), lang_to_iso3@, SOURCE@),
                    ]);
                    assert(details_view(out@) =~= details_view(before) + seq![
                        f(examples[i as int])->0,
                    ]);
                }
            },
            None => {},
        }
        i += 1;
    }
    proof {
        assert(examples.take(i as int) =~= examples);
        assert(spec_items =~= spec_items.take(4) + examples.filter_map(f));
    }
    Ok(out)
}

} // verus!
