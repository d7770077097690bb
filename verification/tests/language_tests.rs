use toaster::language::{
    get_client_language, get_client_languages, get_user_language, language_str_to_enum, Language,
};

#[test]
fn language_tags_map_by_prefix() {
    assert_eq!(language_str_to_enum("en-US"), Language::En);
    assert_eq!(language_str_to_enum("ja"), Language::Ja);
    assert_eq!(language_str_to_enum("JA-jp"), Language::Ja);
    assert_eq!(language_str_to_enum("zh-CN"), Language::Zh);
    assert_eq!(language_str_to_enum("Zh"), Language::Zh);
}

#[test]
fn unknown_or_short_tags_fall_back_to_english() {
    assert_eq!(language_str_to_enum("fr-FR"), Language::En);
    assert_eq!(language_str_to_enum("z"), Language::En);
    assert_eq!(language_str_to_enum(""), Language::En);
    assert_eq!(language_str_to_enum("中文"), Language::En);
}

#[test]
fn default_language_is_english() {
    assert_eq!(Language::default(), Language::En);
}

#[test]
fn client_reports_english_and_no_list() {
    assert_eq!(get_client_language(), Language::En);
    assert!(get_client_languages().is_empty());
}

#[test]
fn user_language_is_chinese() {
    assert_eq!(get_user_language(), vec![Language::Zh]);
}

