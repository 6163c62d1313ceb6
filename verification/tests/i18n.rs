//! Messages in three languages.
use bulti::i18n::catalog::CATALOG;
use bulti::i18n::{current, set_language, translate, translate_fmt, CurrentLanguage, Language};

#[test]
fn default_language_is_english() {
    assert_eq!(Language::default(), Language::En);
    assert_eq!(translate(Language::En, "Switch model"), "Switch model");
}

#[test]
fn korean_translation_lookup() {
    assert_eq!(translate(Language::Ko, "Switch model"), "모델 전환");
}

#[test]
fn japanese_translation_lookup() {
    assert_eq!(translate(Language::Ja, "Switch model"), "モデルの切り替え");
}

#[test]
fn unknown_key_falls_back_to_english() {
    assert_eq!(
        translate(Language::Ko, "some unknown key"),
        "some unknown key"
    );
}

#[test]
fn translate_fmt_substitutes_placeholders() {
    assert_eq!(
        translate_fmt(Language::En, "Usage: /effort <low|medium|high>", &[]),
        "Usage: /effort <low|medium|high>"
    );
    assert_eq!(
        translate_fmt(Language::Ko, "Error: {e}", &["boom"]),
        "오류: boom"
    );
    assert_eq!(
        translate_fmt(Language::Ko, "Usage: /model <name> [low|medium|high]", &[]),
        "사용법: /model <모델명> [low|medium|high]"
    );
    assert_eq!(
        translate_fmt(Language::En, "Changed model to '{model}'.", &["gpt-4"]),
        "Changed model to 'gpt-4'."
    );
}

#[test]
fn language_codes_roundtrip() {
    for lang in Language::ALL {
        assert_eq!(Language::from_code(lang.code()), Some(lang));
    }
    assert_eq!(Language::from_code("EN"), Some(Language::En));
    assert_eq!(Language::from_code("kr"), Some(Language::Ko));
    assert_eq!(Language::from_code("xx"), None);
}

#[test]
fn every_catalog_entry_has_all_translations() {
    for (en, ko, ja) in CATALOG {
        assert!(!en.is_empty(), "empty english key");
        assert!(!ko.is_empty(), "empty korean for {en}");
        assert!(!ja.is_empty(), "empty japanese for {en}");
    }
}

#[test]
fn catalog_keys_are_unique() {
    for (i, (en, _, _)) in CATALOG.iter().enumerate() {
        for (other, _, _) in CATALOG.iter().skip(i + 1) {
            assert_ne!(en, other, "duplicate catalog key: {en}");
        }
    }
}

#[test]
fn global_set_and_current_roundtrip() {
    let mut cell = CurrentLanguage { index: 0 };
    set_language(&mut cell, Language::Ko);
    assert_eq!(current(&cell), Language::Ko);
    set_language(&mut cell, Language::En);
    assert_eq!(current(&cell), Language::En);
}

#[test]
fn lowering_a_code_first_changes_nothing() {
    for s in [" EN ", "Korean\n", "JAPANESE", "\u{3000}jp", "xx", "", "  ", "한국어", "EN GB"] {
        let lowered = s.trim().to_lowercase();
        assert_eq!(Language::from_code(s), Language::from_code(&lowered));
    }
    assert_eq!(Language::from_code("\u{212A}R"), Some(Language::Ko));
    assert_eq!(Language::from_code("kr"), Some(Language::Ko));
}
