use tray_menu::i18n::{I18n, Locale, StringKey};

#[test]
fn test_locale_from_str() {
    assert_eq!(Locale::from("zh"), Locale::Chinese);
    assert_eq!(Locale::from("zh_CN"), Locale::Chinese);
    assert_eq!(Locale::from("ja"), Locale::Japanese);
    assert_eq!(Locale::from("en"), Locale::English);
    assert_eq!(Locale::from("unknown"), Locale::English);
}

#[test]
fn test_get_string() {
    let mut t = I18n::new();
    t.set_locale(Locale::English);
    assert_eq!(t.get_string(StringKey::OpenSunshine), "Open Sunshine");

    t.set_locale(Locale::Chinese);
    assert_eq!(t.get_string(StringKey::OpenSunshine), "打开 Sunshine");

    t.set_locale(Locale::Japanese);
    assert_eq!(t.get_string(StringKey::OpenSunshine), "Sunshineを開く");
}

#[test]
fn test_get_string_fmt() {
    let mut t = I18n::new();
    t.set_locale(Locale::English);
    assert_eq!(
        t.get_string_fmt(StringKey::StreamingStartedFor, "TestApp"),
        "Streaming started for TestApp"
    );
}

#[test]
fn test_locale_default_and_tag() {
    assert_eq!(Locale::default(), Locale::English);
    assert_eq!(Locale::English.tag(), "en");
    assert_eq!(Locale::Chinese.tag(), "zh");
    assert_eq!(Locale::Japanese.tag(), "ja");
}

#[test]
fn test_set_locale_str() {
    let mut t = I18n::new();
    t.set_locale_str("zh_TW");
    assert_eq!(t.get_locale(), Locale::Chinese);
    t.set_locale_str("JAPANESE");
    assert_eq!(t.get_locale(), Locale::Japanese);
    t.set_locale_str("fr");
    assert_eq!(t.get_locale(), Locale::English);
}

#[test]
fn test_get_string_fmt_multiple_markers() {
    let mut t = I18n::new();
    t.set_locale(Locale::Chinese);
    assert_eq!(
        t.get_string_fmt(StringKey::StreamingStartedFor, "My App"),
        "已开始串流：My App"
    );
}
