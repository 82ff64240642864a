use i18n::Language;

const ALL: [Language; 5] = [
    Language::English,
    Language::SimplifiedChinese,
    Language::TraditionalChinese,
    Language::Japanese,
    Language::Korean,
];

#[test]
fn canonical_tags_are_stable() {
    assert_eq!(Language::English.as_str(), "en");
    assert_eq!(Language::SimplifiedChinese.as_str(), "zh-CN");
    assert_eq!(Language::TraditionalChinese.as_str(), "zh-TW");
    assert_eq!(Language::Japanese.as_str(), "ja");
    assert_eq!(Language::Korean.as_str(), "ko");
}

#[test]
fn canonical_tags_parse_to_their_language() {
    assert_eq!(Language::from_str("en"), Some(Language::English));
    assert_eq!(Language::from_str("zh-CN"), Some(Language::SimplifiedChinese));
    assert_eq!(Language::from_str("zh-TW"), Some(Language::TraditionalChinese));
    assert_eq!(Language::from_str("ja"), Some(Language::Japanese));
    assert_eq!(Language::from_str("ko"), Some(Language::Korean));
}

#[test]
fn tag_round_trip_for_every_language() {
    for lang in ALL {
        assert_eq!(Language::from_str(lang.as_str()), Some(lang));
    }
}

#[test]
fn tags_are_pairwise_distinct() {
    for a in ALL {
        for b in ALL {
            assert_eq!(a.as_str() == b.as_str(), a == b);
        }
    }
}

#[test]
fn simplified_chinese_aliases_normalize() {
    for alias in ["zh", "zh_cn", "zh-CN"] {
        let lang = Language::from_str(alias);
        assert_eq!(lang, Some(Language::SimplifiedChinese));
        assert_eq!(lang.unwrap().as_str(), "zh-CN");
    }
}

#[test]
fn traditional_chinese_aliases_normalize() {
    for alias in ["zh_tw", "zh-TW"] {
        let lang = Language::from_str(alias);
        assert_eq!(lang, Some(Language::TraditionalChinese));
        assert_eq!(lang.unwrap().as_str(), "zh-TW");
    }
}

#[test]
fn normalizing_twice_changes_nothing() {
    for alias in ["en", "zh", "zh_cn", "zh-CN", "zh_tw", "zh-TW", "ja", "ko"] {
        let once = Language::from_str(alias).unwrap();
        let twice = Language::from_str(once.as_str()).unwrap();
        assert_eq!(once, twice);
        assert_eq!(once.as_str(), twice.as_str());
    }
}

#[test]
fn unrecognized_tags_are_no_match() {
    for tag in [
        "", "fr", "EN", "En", "en ", " en", "en-US", "zh-cn", "zh_CN", "zh-tw", "zh_TW", "ZH", "z",
        "zh-", "zh-CNN", "jp", "kr", "ja\n", "日本語", "e", "n", "enn",
    ] {
        assert_eq!(Language::from_str(tag), None, "tag {:?}", tag);
    }
}

#[test]
fn language_is_copy_and_hashable() {
    let a = Language::Japanese;
    let b = a;
    assert_eq!(a, b);
    let mut seen = std::collections::HashSet::new();
    for lang in ALL {
        assert!(seen.insert(lang));
    }
    assert_eq!(seen.len(), 5);
    assert_eq!(format!("{:?}", Language::Korean), "Korean");
}
