//! The closed set of supported languages, their canonical wire tags and the
//! aliases that are accepted when a tag is read.

use crate::text::same_text;
use vstd::prelude::*;

verus! {

/// A supported language.
#[derive(Debug, Clone, Copy, PartialEq, Eq, Hash, Structural)]
pub enum Language {
    English,
    SimplifiedChinese,
    TraditionalChinese,
    Japanese,
    Korean,
}

impl Language {
    /// The canonical wire tag of the language. Tags are what is written out
    /// and stored, so they never change.
    pub open spec fn tag(self) -> Seq<char> {
        match self {
            Language::English => "en"@,
            Language::SimplifiedChinese => "zh-CN"@,
            Language::TraditionalChinese => "zh-TW"@,
            Language::Japanese => "ja"@,
            Language::Korean => "ko"@,
        }
    }

    /// The language that a tag or an alias names, if it names one. Every
    /// canonical tag is accepted, and besides them `zh_cn` and `zh` for
    /// Simplified Chinese and `zh_tw` for Traditional Chinese.
    pub open spec fn parse(s: Seq<char>) -> Option<Language> {
        if s == "en"@ {
            Some(Language::English)
        } else if s == "zh-CN"@ || s == "zh_cn"@ || s == "zh"@ {
            Some(Language::SimplifiedChinese)
        } else if s == "zh-TW"@ || s == "zh_tw"@ {
            Some(Language::TraditionalChinese)
        } else if s == "ja"@ {
            Some(Language::Japanese)
        } else if s == "ko"@ {
            Some(Language::Korean)
        } else {
            None
        }
    }

    /// Reads a tag or an alias. Anything else is `None`.
    pub fn from_str(s: &str) -> (lang: Option<Language>)
        ensures
            lang == Language::parse(s@),
    {
        if same_text(s, "en") {
            Some(Language::English)
        } else if same_text(s, "zh-CN") || same_text(s, "zh_cn") || same_text(s, "zh") {
            Some(Language::SimplifiedChinese)
        } else if same_text(s, "zh-TW") || same_text(s, "zh_tw") {
            Some(Language::TraditionalChinese)
        } else if same_text(s, "ja") {
            Some(Language::Japanese)
        } else if same_text(s, "ko") {
            Some(Language::Korean)
        } else {
            None
        }
    }

    /// Returns the canonical wire tag.
    pub fn as_str(&self) -> (tag: &'static str)
        ensures
            tag@ == self.tag(),
    {
        match self {
            Language::English => "en",
            Language::SimplifiedChinese => "zh-CN",
            Language::TraditionalChinese => "zh-TW",
            Language::Japanese => "ja",
            Language::Korean => "ko",
        }
    }
}

/// How the tags and aliases are spelt, as far as it takes to tell the eight
/// of them apart.
pub proof fn lemma_tag_spellings()
    ensures
        "en"@.len() == 2,
        "ja"@.len() == 2,
        "ko"@.len() == 2,
        "zh"@.len() == 2,
        "zh-CN"@.len() == 5,
        "zh_cn"@.len() == 5,
        "zh-TW"@.len() == 5,
        "zh_tw"@.len() == 5,
        "en"@[0] == 'e',
        "ja"@[0] == 'j',
        "ko"@[0] == 'k',
        "zh"@[0] == 'z',
        "zh-CN"@[2] == '-' && "zh-CN"@[3] == 'C',
        "zh-TW"@[2] == '-' && "zh-TW"@[3] == 'T',
        "zh_cn"@[2] == '_' && "zh_cn"@[3] == 'c',
        "zh_tw"@[2] == '_' && "zh_tw"@[3] == 't',
{
    reveal_strlit("en");
    reveal_strlit("zh-CN");
    reveal_strlit("zh_cn");
    reveal_strlit("zh");
    reveal_strlit("zh-TW");
    reveal_strlit("zh_tw");
    reveal_strlit("ja");
    reveal_strlit("ko");
}

/// Reading the canonical tag of a language gives that language back.
pub proof fn lemma_tag_round_trip(lang: Language)
    ensures
        Language::parse(lang.tag()) == Some(lang),
{
    lemma_tag_spellings();
}

/// Aliases are only read: the tag of a language is never one of them.
pub proof fn lemma_aliases_are_never_written(lang: Language)
    ensures
        lang.tag() != "zh"@,
        lang.tag() != "zh_cn"@,
        lang.tag() != "zh_tw"@,
{
    lemma_tag_spellings();
}

/// No two languages share a tag.
pub proof fn lemma_tags_distinct(a: Language, b: Language)
    requires
        a.tag() == b.tag(),
    ensures
        a == b,
{
    lemma_tag_round_trip(a);
    lemma_tag_round_trip(b);
}

/// Alias normalization: whatever spelling named a language, writing the
/// language out gives its canonical tag, and the canonical tag names the
/// same language again. So all aliases of one language agree, and only
/// canonical tags are ever written.
pub proof fn lemma_alias_normalization(s: Seq<char>)
    ensures
        Language::parse(s) matches Some(lang) ==> Language::parse(lang.tag()) == Some(lang),
        s == "zh"@ || s == "zh_cn"@ || s == "zh-CN"@ ==> Language::parse(s) == Some(
            Language::SimplifiedChinese,
        ),
        s == "zh_tw"@ || s == "zh-TW"@ ==> Language::parse(s) == Some(
            Language::TraditionalChinese,
        ),
{
    lemma_tag_spellings();
    match Language::parse(s) {
        Some(lang) => lemma_tag_round_trip(lang),
        None => {},
    }
}

} // verus!
