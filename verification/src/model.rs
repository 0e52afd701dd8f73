//! The values the service returns: sentences with their language and source,
//! sets of translations, lexical item details, suggestions and translation
//! results, each with a view over plain sequences for contracts.
use vstd::prelude::*;

verus! {

/// A text in a language, with the data source it came from.
#[derive(Clone, Debug, PartialEq, Eq)]
pub struct Sentence {
    pub text: String,
    pub lang_iso3: String,
    pub source: String,
}

/// What a `Sentence` holds.
pub struct SentenceView {
    pub text: Seq<char>,
    pub lang_iso3: Seq<char>,
    pub source: Seq<char>,
}

impl View for Sentence {
    type V = SentenceView;

    open spec fn view(&self) -> SentenceView {
        SentenceView { text: self.text@, lang_iso3: self.lang_iso3@, source: self.source@ }
    }
}

/// The sentence view built from three texts.
pub open spec fn sentence_view(
    text: Seq<char>,
    lang_iso3: Seq<char>,
    source: Seq<char>,
) -> SentenceView {
    SentenceView { text, lang_iso3, source }
}

impl Sentence {
    /// A sentence with the given text, language and source.
    pub fn new(text: String, lang_iso3: &str, source: &str) -> (res: Sentence)
        ensures
            res@ == sentence_view(text@, lang_iso3@, source@),
    {
        Sentence { text, lang_iso3: lang_iso3.to_owned(), source: source.to_owned() }
    }
}

/// Views of a list of sentences.
pub open spec fn sentences_view(s: Seq<Sentence>) -> Seq<SentenceView> {
    s.map_values(|x: Sentence| x@)
}

/// An original sentence with its translations (or synonyms) and, where the
/// source rates them, one quality per translation.
#[derive(Clone, Debug, PartialEq, Eq)]
pub struct TranslationsSet {
    pub original: Sentence,
    pub translations: Vec<Sentence>,
    pub translations_qualities: Option<Vec<i8>>,
}

/// What a `TranslationsSet` holds.
pub struct TranslationsSetView {
    pub original: SentenceView,
    pub translations: Seq<SentenceView>,
    pub translations_qualities: Option<Seq<i8>>,
}

impl View for TranslationsSet {
    type V = TranslationsSetView;

    open spec fn view(&self) -> TranslationsSetView {
        TranslationsSetView {
            original: self.original@,
            translations: sentences_view(self.translations@),
            translations_qualities: match self.translations_qualities {
                Some(q) => Some(q@),
                None => None,
            },
        }
    }
}

/// Grammatical forms of a word, as text.
#[derive(Clone, Debug, PartialEq, Eq)]
pub struct Forms {
    pub text: String,
    pub source: String,
}

/// A short explanation of a word.
#[derive(Clone, Debug, PartialEq, Eq)]
pub struct Explanation {
    pub text: String,
    pub source: String,
}

/// Translations of a word.
#[derive(Clone, Debug, PartialEq, Eq)]
pub struct WordTranslations {
    pub translations_set: TranslationsSet,
    pub source: String,
}

/// Synonyms of a word, in the word's own language.
#[derive(Clone, Debug, PartialEq, Eq)]
pub struct Synonyms {
    pub translations_set: TranslationsSet,
    pub source: String,
}

/// An example sentence with its translation.
#[derive(Clone, Debug, PartialEq, Eq)]
pub struct Example {
    pub translations_set: TranslationsSet,
    pub source: String,
}

/// One piece of information about a word.
#[derive(Clone, Debug, PartialEq, Eq)]
pub enum LexicalItemDetail {
    Forms(Forms),
    Explanation(Explanation),
    WordTranslations(WordTranslations),
    Synonyms(Synonyms),
    Example(Example),
}

/// What a `LexicalItemDetail` holds: its kind and its texts.
pub enum LexicalItemDetailView {
    Forms { text: Seq<char>, source: Seq<char> },
    Explanation { text: Seq<char>, source: Seq<char> },
    WordTranslations { translations_set: TranslationsSetView, source: Seq<char> },
    Synonyms { translations_set: TranslationsSetView, source: Seq<char> },
    Example { translations_set: TranslationsSetView, source: Seq<char> },
}

impl View for LexicalItemDetail {
    type V = LexicalItemDetailView;

    open spec fn view(&self) -> LexicalItemDetailView {
        match self {
            LexicalItemDetail::Forms(f) => LexicalItemDetailView::Forms {
                text: f.text@,
                source: f.source@,
            },
            LexicalItemDetail::Explanation(e) => LexicalItemDetailView::Explanation {
                text: e.text@,
                source: e.source@,
            },
            LexicalItemDetail::WordTranslations(w) => LexicalItemDetailView::WordTranslations {
                translations_set: w.translations_set@,
                source: w.source@,
            },
            LexicalItemDetail::Synonyms(s) => LexicalItemDetailView::Synonyms {
                translations_set: s.translations_set@,
                source: s.source@,
            },
            LexicalItemDetail::Example(e) => LexicalItemDetailView::Example {
                translations_set: e.translations_set@,
                source: e.source@,
            },
        }
    }
}

/// Views of a list of lexical item details.
pub open spec fn details_view(s: Seq<LexicalItemDetail>) -> Seq<LexicalItemDetailView> {
    s.map_values(|x: LexicalItemDetail| x@)
}

/// A suggested word with its translations.
#[derive(Clone, Debug, PartialEq, Eq)]
pub struct Suggestion {
    pub text: String,
    pub lang_iso3: String,
    pub source: String,
    pub translations: Vec<Sentence>,
}

/// Translated texts and the service that translated them.
#[derive(Clone, Debug, PartialEq, Eq)]
pub struct TranslationResult {
    pub translations: Vec<String>,
    pub source: String,
}

} // verus!
