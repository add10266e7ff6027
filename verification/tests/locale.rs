use memory_cleaner::locale::{list_separator_for, locale_from_lang_id};

#[test]
fn locale_from_lang_id_maps_chinese_and_english() {
    assert_eq!(locale_from_lang_id(0x0804), "zh-CN");
    assert_eq!(locale_from_lang_id(0x0409), "en");
    assert_eq!(locale_from_lang_id(0x040c), "en");
}

#[test]
fn list_separator_follows_active_locale() {
    assert_eq!(list_separator_for("zh-CN"), "、");
    assert_eq!(list_separator_for("en"), ", ");
}

#[test]
fn every_chinese_variant_maps_to_zh_cn() {
    assert_eq!(locale_from_lang_id(0x0404), "zh-CN");
    assert_eq!(locale_from_lang_id(0x7c04), "zh-CN");
}
