//! The translation store: one table per language and the language that is
//! active, with lookup, fallback to the key and positional substitution.

use crate::language::Language;
use crate::substitution::{substitute, substituted, texts};
use crate::translations::{loaded_table, parse_table, resolve, table_or_empty, Translations};
use vstd::prelude::*;

verus! {

/// The JSON text of each language's table, as handed over at startup.
pub struct LocaleSources {
    pub english: String,
    pub simplified_chinese: String,
    pub traditional_chinese: String,
    pub japanese: String,
    pub korean: String,
}

impl LocaleSources {
    /// The JSON text for a language.
    pub open spec fn text(&self, lang: Language) -> Seq<char> {
        match lang {
            Language::English => self.english@,
            Language::SimplifiedChinese => self.simplified_chinese@,
            Language::TraditionalChinese => self.traditional_chinese@,
            Language::Japanese => self.japanese@,
            Language::Korean => self.korean@,
        }
    }

    /// Returns the JSON text for a language.
    pub fn source(&self, lang: Language) -> (json: &str)
        ensures
            json@ == self.text(lang),
    {
        match lang {
            Language::English => self.english.as_str(),
            Language::SimplifiedChinese => self.simplified_chinese.as_str(),
            Language::TraditionalChinese => self.traditional_chinese.as_str(),
            Language::Japanese => self.japanese.as_str(),
            Language::Korean => self.korean.as_str(),
        }
    }
}

/// What a store holds: the active language and each language's table.
pub struct Store {
    pub language: Language,
    pub english: Map<Seq<char>, Seq<char>>,
    pub simplified_chinese: Map<Seq<char>, Seq<char>>,
    pub traditional_chinese: Map<Seq<char>, Seq<char>>,
    pub japanese: Map<Seq<char>, Seq<char>>,
    pub korean: Map<Seq<char>, Seq<char>>,
}

impl Store {
    /// The table of a language.
    pub open spec fn table(self, lang: Language) -> Map<Seq<char>, Seq<char>> {
        match lang {
            Language::English => self.english,
            Language::SimplifiedChinese => self.simplified_chinese,
            Language::TraditionalChinese => self.traditional_chinese,
            Language::Japanese => self.japanese,
            Language::Korean => self.korean,
        }
    }

    /// The store as it is first loaded: every table read from its JSON text,
    /// and Simplified Chinese active.
    pub open spec fn loaded(sources: LocaleSources) -> Store {
        Store {
            language: Language::SimplifiedChinese,
            english: loaded_table(sources.english@),
            simplified_chinese: loaded_table(sources.simplified_chinese@),
            traditional_chinese: loaded_table(sources.traditional_chinese@),
            japanese: loaded_table(sources.japanese@),
            korean: loaded_table(sources.korean@),
        }
    }

    /// The same tables with another language active.
    pub open spec fn switched(self, lang: Language) -> Store {
        Store { language: lang, ..self }
    }

    /// The text for a key in a given language: what that language's table
    /// holds, else the key itself. No other language is consulted.
    pub open spec fn lookup_in(self, lang: Language, key: Seq<char>) -> Seq<char> {
        resolve(self.table(lang), key)
    }

    /// The text for a key in the active language.
    pub open spec fn lookup(self, key: Seq<char>) -> Seq<char> {
        self.lookup_in(self.language, key)
    }

    /// The text for a key in the active language, with the arguments
    /// substituted for their placeholders.
    pub open spec fn lookup_with_args(self, key: Seq<char>, args: Seq<Seq<char>>) -> Seq<char> {
        substituted(self.lookup(key), args)
    }
}

/// The translation store.
pub struct I18nManager {
    current_language: Language,
    english: Translations,
    simplified_chinese: Translations,
    traditional_chinese: Translations,
    japanese: Translations,
    korean: Translations,
}

impl View for I18nManager {
    type V = Store;

    closed spec fn view(&self) -> Store {
        Store {
            language: self.current_language,
            english: self.english@,
            simplified_chinese: self.simplified_chinese@,
            traditional_chinese: self.traditional_chinese@,
            japanese: self.japanese@,
            korean: self.korean@,
        }
    }
}

impl I18nManager {
    /// Loads the table of every language and makes Simplified Chinese the
    /// active language. A text that cannot be read gives an empty table, so
    /// loading never fails.
    pub fn new(sources: &LocaleSources) -> (manager: I18nManager)
        ensures
            manager@ == Store::loaded(*sources),
    {
        I18nManager {
            current_language: Language::SimplifiedChinese,
            english: Self::load_translations(Language::English, sources),
            simplified_chinese: Self::load_translations(Language::SimplifiedChinese, sources),
            traditional_chinese: Self::load_translations(Language::TraditionalChinese, sources),
            japanese: Self::load_translations(Language::Japanese, sources),
            korean: Self::load_translations(Language::Korean, sources),
        }
    }

    /// A store over tables that are already at hand, with Simplified Chinese
    /// active.
    pub fn from_tables(
        english: Translations,
        simplified_chinese: Translations,
        traditional_chinese: Translations,
        japanese: Translations,
        korean: Translations,
    ) -> (manager: I18nManager)
        ensures
            manager@ == (Store {
                language: Language::SimplifiedChinese,
                english: english@,
                simplified_chinese: simplified_chinese@,
                traditional_chinese: traditional_chinese@,
                japanese: japanese@,
                korean: korean@,
            }),
    {
        I18nManager {
            current_language: Language::SimplifiedChinese,
            english,
            simplified_chinese,
            traditional_chinese,
            japanese,
            korean,
        }
    }

    /// Loads the table of one language from its JSON text.
    pub fn load_translations(lang: Language, sources: &LocaleSources) -> (table: Translations)
        ensures
            table@ == loaded_table(sources.text(lang)),
    {
        Self::load_from_json(sources.source(lang))
    }

    /// Reads a table from JSON text; a text that cannot be read gives an
    /// empty table.
    pub fn load_from_json(json: &str) -> (table: Translations)
        ensures
            table@ == loaded_table(json@),
    {
        table_or_empty(parse_table(json))
    }

    /// Makes `lang` the active language. The tables stay as they are.
    pub fn set_language(&mut self, lang: Language)
        ensures
            final(self)@ == old(self)@.switched(lang),
    {
        self.current_language = lang;
    }

    /// The active language.
    pub fn get_language(&self) -> (lang: Language)
        ensures
            lang == self@.language,
    {
        self.current_language
    }

    fn active_table(&self) -> (table: &Translations)
        ensures
            table@ == self@.table(self@.language),
    {
        match self.current_language {
            Language::English => &self.english,
            Language::SimplifiedChinese => &self.simplified_chinese,
            Language::TraditionalChinese => &self.traditional_chinese,
            Language::Japanese => &self.japanese,
            Language::Korean => &self.korean,
        }
    }

    /// The text for `key` in the active language, or `key` itself where the
    /// active language's table has no entry for it.
    pub fn translate(&self, key: &str) -> (text: String)
        ensures
            text@ == self@.lookup(key@),
    {
        self.active_table().lookup(key)
    }

    /// The text for `key` as `translate` gives it, with each argument
    /// substituted for its placeholder.
    pub fn translate_with_args(&self, key: &str, args: &[&str]) -> (text: String)
        ensures
            text@ == self@.lookup_with_args(key@, texts(args@)),
    {
        let template = self.translate(key);
        substitute(template.as_str(), args)
    }
}

/// Fallback: a key that no table holds comes back unchanged, whichever
/// language is active.
pub proof fn lemma_missing_key_is_returned(store: Store, lang: Language, key: Seq<char>)
    requires
        forall|any: Language| !store.table(any).contains_key(key),
    ensures
        store.switched(lang).lookup(key) == key,
        store.lookup(key) == key,
{
    assert(!store.table(lang).contains_key(key));
    assert(!store.table(store.language).contains_key(key));
}

/// Switching the language changes no table, so a lookup after the switch
/// reads the table of the new language and nothing else.
pub proof fn lemma_lookup_after_switch(store: Store, lang: Language, key: Seq<char>)
    ensures
        store.switched(lang).lookup(key) == store.lookup_in(lang, key),
        forall|any: Language| store.switched(lang).table(any) == store.table(any),
{
}

} // verus!
