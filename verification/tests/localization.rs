use i18n::{
    clear_static_cache, get_language, init, set_language, t, t_args, t_static, I18nManager,
    Language, LocaleSources, Localization, Translations,
};

fn sources() -> LocaleSources {
    LocaleSources {
        english: r#"{"k": "EN", "panel.custom_panel": "Custom Panel", "count": "{0} of {1}"}"#
            .to_string(),
        simplified_chinese: r#"{"k": "简", "panel.custom_panel": "自定义面板", "count": "{1} 之 {0}"}"#
            .to_string(),
        traditional_chinese: r#"{"k": "繁"}"#.to_string(),
        japanese: r#"{"panel.custom_panel": "カスタムパネル"}"#.to_string(),
        korean: "{}".to_string(),
    }
}

fn loaded() -> Localization {
    let mut state = Localization::new();
    init(&mut state, &sources());
    state
}

#[test]
fn new_state_is_not_initialized() {
    let state = Localization::new();
    assert!(!state.is_initialized());
    assert_eq!(state.cached_entries(), 0);
}

#[test]
fn unloaded_state_reports_english() {
    let state = Localization::new();
    assert_eq!(get_language(&state), Language::English);
}

#[test]
fn unloaded_state_returns_the_raw_key() {
    let mut state = Localization::new();
    assert_eq!(t(&state, "menu.zoom_in"), "menu.zoom_in");
    assert_eq!(t_args(&state, "hello {0}", &["x"]), "hello {0}");
    assert_eq!(t_static(&mut state, "menu.zoom_in"), "menu.zoom_in");
}

#[test]
fn unloaded_state_ignores_a_switch_of_language() {
    let mut state = Localization::new();
    set_language(&mut state, Language::Japanese);
    assert_eq!(get_language(&state), Language::English);
    assert!(!state.is_initialized());
}

#[test]
fn init_loads_the_store() {
    let state = loaded();
    assert!(state.is_initialized());
    assert_eq!(get_language(&state), Language::SimplifiedChinese);
    assert_eq!(t(&state, "k"), "简");
}

#[test]
fn init_discards_strings_cached_before() {
    let mut state = Localization::new();
    assert_eq!(t_static(&mut state, "k"), "k");
    assert_eq!(state.cached_entries(), 1);
    init(&mut state, &sources());
    assert_eq!(state.cached_entries(), 0);
    set_language(&mut state, Language::English);
    assert_eq!(t_static(&mut state, "k"), "EN");
}

#[test]
fn with_manager_uses_the_given_store() {
    let mut english = Translations::new();
    english.insert("k".to_string(), "EN".to_string());
    let manager = I18nManager::from_tables(
        english,
        Translations::new(),
        Translations::new(),
        Translations::new(),
        Translations::new(),
    );
    let mut state = Localization::with_manager(manager);
    assert!(state.is_initialized());
    assert_eq!(state.cached_entries(), 0);
    assert_eq!(t(&state, "k"), "k");
    set_language(&mut state, Language::English);
    assert_eq!(t(&state, "k"), "EN");
}

#[test]
fn set_language_switches_lookups() {
    let mut state = loaded();
    set_language(&mut state, Language::English);
    assert_eq!(get_language(&state), Language::English);
    assert_eq!(t(&state, "k"), "EN");
    set_language(&mut state, Language::TraditionalChinese);
    assert_eq!(get_language(&state), Language::TraditionalChinese);
    assert_eq!(t(&state, "k"), "繁");
}

#[test]
fn t_returns_a_missing_key_unchanged() {
    let mut state = loaded();
    for lang in [
        Language::English,
        Language::SimplifiedChinese,
        Language::TraditionalChinese,
        Language::Japanese,
        Language::Korean,
    ] {
        set_language(&mut state, lang);
        assert_eq!(t(&state, "absent.everywhere"), "absent.everywhere");
        assert_eq!(t_static(&mut state, "absent.everywhere"), "absent.everywhere");
    }
}

#[test]
fn t_args_substitutes_in_order() {
    let mut state = loaded();
    set_language(&mut state, Language::English);
    assert_eq!(t_args(&state, "count", &["2", "5"]), "2 of 5");
    set_language(&mut state, Language::SimplifiedChinese);
    assert_eq!(t_args(&state, "count", &["2", "5"]), "5 之 2");
    assert_eq!(t_args(&state, "count", &["2"]), "{1} 之 2");
}

#[test]
fn t_static_gives_the_translation() {
    let mut state = loaded();
    assert_eq!(t_static(&mut state, "panel.custom_panel"), "自定义面板");
    set_language(&mut state, Language::Japanese);
    assert_eq!(t_static(&mut state, "panel.custom_panel"), "カスタムパネル");
}

#[test]
fn t_static_caches_on_a_miss_only() {
    let mut state = loaded();
    assert_eq!(state.cached_entries(), 0);
    assert_eq!(t_static(&mut state, "k"), "简");
    assert_eq!(state.cached_entries(), 1);
    assert_eq!(t_static(&mut state, "k"), "简");
    assert_eq!(state.cached_entries(), 1);
    assert_eq!(t_static(&mut state, "other"), "other");
    assert_eq!(state.cached_entries(), 2);
}

#[test]
fn t_static_agrees_with_t() {
    let mut state = loaded();
    for lang in [Language::English, Language::Japanese, Language::Korean] {
        set_language(&mut state, lang);
        for key in ["k", "panel.custom_panel", "count", "missing", ""] {
            let plain = t(&state, key);
            assert_eq!(t_static(&mut state, key), plain);
            assert_eq!(t_static(&mut state, key), plain);
        }
    }
}

#[test]
fn t_static_result_outlives_a_switch() {
    let mut state = loaded();
    let before = t_static(&mut state, "k");
    set_language(&mut state, Language::English);
    clear_static_cache(&mut state);
    assert_eq!(before, "简");
}

#[test]
fn stable_lookup_follows_a_switch_of_language() {
    let mut state = loaded();
    set_language(&mut state, Language::SimplifiedChinese);
    let first = t_static(&mut state, "k");
    assert_eq!(first, "简");
    set_language(&mut state, Language::English);
    let second = t_static(&mut state, "k");
    assert_eq!(second, t(&state, "k"));
    assert_eq!(second, "EN");
    assert_ne!(second, first);
}

#[test]
fn stable_lookup_follows_a_switch_to_a_table_without_the_key() {
    let mut state = loaded();
    assert_eq!(t_static(&mut state, "k"), "简");
    set_language(&mut state, Language::Japanese);
    assert_eq!(t_static(&mut state, "k"), "k");
    set_language(&mut state, Language::SimplifiedChinese);
    assert_eq!(t_static(&mut state, "k"), "简");
}

#[test]
fn switch_discards_every_cached_string() {
    let mut state = loaded();
    t_static(&mut state, "k");
    t_static(&mut state, "count");
    t_static(&mut state, "missing");
    assert_eq!(state.cached_entries(), 3);
    set_language(&mut state, Language::English);
    assert_eq!(state.cached_entries(), 0);
}

#[test]
fn switch_to_the_active_language_discards_too() {
    let mut state = loaded();
    t_static(&mut state, "k");
    assert_eq!(state.cached_entries(), 1);
    set_language(&mut state, Language::SimplifiedChinese);
    assert_eq!(get_language(&state), Language::SimplifiedChinese);
    assert_eq!(state.cached_entries(), 0);
    assert_eq!(t_static(&mut state, "k"), "简");
}

#[test]
fn clear_static_cache_discards_and_keeps_the_language() {
    let mut state = loaded();
    set_language(&mut state, Language::English);
    t_static(&mut state, "k");
    t_static(&mut state, "count");
    clear_static_cache(&mut state);
    assert_eq!(state.cached_entries(), 0);
    assert_eq!(get_language(&state), Language::English);
    assert_eq!(t_static(&mut state, "k"), "EN");
    assert_eq!(state.cached_entries(), 1);
}

#[test]
fn clear_static_cache_on_an_empty_cache() {
    let mut state = Localization::new();
    clear_static_cache(&mut state);
    assert_eq!(state.cached_entries(), 0);
}

#[test]
fn keys_with_a_colon_are_kept_apart() {
    let mut state = loaded();
    set_language(&mut state, Language::English);
    assert_eq!(t_static(&mut state, "en:k"), "en:k");
    assert_eq!(t_static(&mut state, "k"), "EN");
    assert_eq!(t_static(&mut state, ":k"), ":k");
    assert_eq!(state.cached_entries(), 3);
}

#[test]
fn any_order_of_calls_keeps_stable_lookups_current() {
    let languages = [
        Language::English,
        Language::SimplifiedChinese,
        Language::TraditionalChinese,
        Language::Japanese,
        Language::Korean,
    ];
    let keys = ["k", "panel.custom_panel", "count", "missing"];
    let mut state = loaded();
    let mut seed: u32 = 12345;
    for _ in 0..400 {
        seed = seed.wrapping_mul(1103515245).wrapping_add(12345);
        let choice = (seed >> 16) as usize;
        match choice % 8 {
            0 => set_language(&mut state, languages[(choice / 8) % languages.len()]),
            1 => clear_static_cache(&mut state),
            _ => {
                let key = keys[(choice / 8) % keys.len()];
                let expected = t(&state, key);
                assert_eq!(t_static(&mut state, key), expected);
            }
        }
        assert!(state.cached_entries() <= keys.len());
    }
}

#[test]
fn cached_reads_without_caching() {
    let mut state = loaded();
    assert_eq!(state.cached("k"), None);
    assert_eq!(state.cached_entries(), 0);
    assert_eq!(t_static(&mut state, "k"), "简");
    assert_eq!(state.cached("k"), Some("简".to_string()));
    assert_eq!(state.cached("count"), None);
    assert_eq!(state.cached_entries(), 1);
    set_language(&mut state, Language::English);
    assert_eq!(state.cached("k"), None);
}
