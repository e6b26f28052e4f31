use winisland::i18n::{
    catalog_row, current_lang, init_i18n, lang_from_locale, set_lang, tr, I18n, CATALOG_SIZE,
};

#[test]
fn english_texts() {
    let mut i = I18n::new();
    i.load("en");
    assert_eq!(i.get("tab_general"), "General");
    assert_eq!(i.get("lang_name"), "English");
    assert_eq!(
        i.get("update_available_desc"),
        "A new version of WinIsland is available (Released: {}). Would you like to update now?"
    );
    assert_eq!(i.current_lang, "en");
}

#[test]
fn chinese_texts() {
    let mut i = I18n::new();
    set_lang(&mut i, "zh");
    assert_eq!(tr(&i, "tab_general"), "常规");
    assert_eq!(tr(&i, "effect_mica"), "Mica (云母)");
    assert_eq!(current_lang(&i), "zh");
}

#[test]
fn unknown_key_is_its_own_text() {
    let mut i = I18n::new();
    i.load("en");
    assert_eq!(i.get("no_such_key"), "no_such_key");
    assert_eq!(I18n::new().get("tab_general"), "tab_general");
}

#[test]
fn other_languages_fall_back_to_english() {
    let mut i = I18n::new();
    i.load("fr");
    assert_eq!(i.get("tab_about"), "About");
    assert_eq!(current_lang(&i), "fr");
}

#[test]
fn auto_follows_the_system() {
    let mut i = I18n::new();
    init_i18n(&mut i, "auto", "zh");
    assert_eq!(current_lang(&i), "zh");
    assert_eq!(tr(&i, "delete"), "删除");
    init_i18n(&mut i, "en", "zh");
    assert_eq!(tr(&i, "delete"), "Delete");
}

#[test]
fn set_then_read_language() {
    let mut i = I18n::new();
    set_lang(&mut i, "en");
    set_lang(&mut i, "zh");
    assert_eq!(current_lang(&i), "zh");
}

#[test]
fn locale_names() {
    assert_eq!(lang_from_locale("zh-CN"), "zh");
    assert_eq!(lang_from_locale("zh"), "zh");
    assert_eq!(lang_from_locale("en-US"), "en");
    assert_eq!(lang_from_locale("z"), "en");
    assert_eq!(lang_from_locale(""), "en");
}

#[test]
fn both_catalogs_translate_the_same_keys() {
    let mut en = I18n::new();
    en.load("en");
    let mut zh = I18n::new();
    zh.load("zh");
    assert_eq!(CATALOG_SIZE, 64);
    let mut keys: Vec<&str> = Vec::new();
    for i in 0..CATALOG_SIZE {
        let (k, en_text, zh_text) = catalog_row(i);
        assert!(!keys.contains(&k));
        keys.push(k);
        assert_eq!(en.get(k), en_text);
        assert_eq!(zh.get(k), zh_text);
        assert!(!en_text.is_empty() && !zh_text.is_empty());
    }
    assert_eq!(zh.get("tab_plugins"), "插件");
    assert_eq!(en.get("update_failed_save"), "Failed to save the new version.");
}

#[test]
fn the_start_state_is_english() {
    let i = I18n::english();
    assert_eq!(current_lang(&i), "en");
    assert_eq!(tr(&i, "tab_about"), i.get("tab_about"));
    assert_eq!(tr(&i, "lang_name"), "English");
}
