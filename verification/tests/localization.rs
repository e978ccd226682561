use warp::catalog::{Catalog, CatalogBundle, CatalogError, TranslationSource};
use warp::locale::{current_locale, normalize_locale, AppLanguage, LocaleId};
use warp::localization::{
    languages_from_utf16_list,
    environment_locale_candidates_from, language_option_label, locale_candidates_from_values,
    refresh_system_locale_candidates_if_needed, replace_system_locale_candidates, text_for_app_or,
    text_for_locale, text_for_locale_with_args,
};
use warp::git_status::{GitRepoStatusEvent, GitStatusMetadata};
use warp::search_localization;
use warp::template::{replace_placeholders, TemplateError};

const EN_CATALOG: &str = r#"{
    "settings.appearance.language.option.system": "System",
    "settings.appearance.language.option.english": "English",
    "settings.appearance.language.option.simplified_chinese": "Simplified Chinese",
    "greeting": "Hello, {name}!",
    "only.english": "Only in English"
}"#;

const ZH_CATALOG: &str = r#"{
    "settings.appearance.language.option.system": "跟随系统",
    "settings.appearance.language.option.english": "英语",
    "settings.appearance.language.option.simplified_chinese": "简体中文",
    "greeting": "你好，{name}！"
}"#;

fn bundle() -> CatalogBundle {
    let en = Catalog::from_json(LocaleId::EnUs, EN_CATALOG).unwrap();
    let zh = Catalog::from_json(LocaleId::ZhCn, ZH_CATALOG).unwrap();
    CatalogBundle::new(LocaleId::EnUs, vec![en, zh]).unwrap()
}

#[test]
fn environment_locale_candidates_prioritize_language_override() {
    let candidates = environment_locale_candidates_from(|key| match key {
        "LANGUAGE" => Some("zh_CN:fr_FR::en_US".to_owned()),
        "LC_ALL" => Some("de_DE.UTF-8".to_owned()),
        "LC_MESSAGES" => Some("it_IT.UTF-8".to_owned()),
        "LANG" => Some("en_GB.UTF-8".to_owned()),
        _ => None,
    });

    assert_eq!(
        candidates,
        vec![
            "zh_CN",
            "fr_FR",
            "en_US",
            "de_DE.UTF-8",
            "it_IT.UTF-8",
            "en_GB.UTF-8",
        ]
    );
}

#[test]
fn environment_locale_candidates_ignore_blank_values() {
    let candidates = environment_locale_candidates_from(|key| match key {
        "LANGUAGE" => Some("  :  ".to_owned()),
        "LC_ALL" => Some("   ".to_owned()),
        "LC_MESSAGES" => None,
        "LANG" => Some(" zh_CN.UTF-8 ".to_owned()),
        _ => None,
    });

    assert_eq!(candidates, vec!["zh_CN.UTF-8"]);
}

#[test]
fn replace_system_locale_candidates_reports_whether_cache_changed() {
    let mut cache = vec!["en_US".to_owned()];

    assert!(!replace_system_locale_candidates(
        &mut cache,
        vec!["en_US".to_owned()]
    ));
    assert!(replace_system_locale_candidates(
        &mut cache,
        vec!["zh_CN".to_owned(), "en_US".to_owned()]
    ));
    assert_eq!(cache, vec!["zh_CN".to_owned(), "en_US".to_owned()]);
}

#[test]
fn text_for_app_uses_configured_language() {
    let bundle = bundle();
    let locale = current_locale(AppLanguage::SimplifiedChinese, &[]);
    assert_eq!(
        text_for_locale(
            &bundle,
            locale,
            "settings.appearance.language.option.simplified_chinese"
        ),
        "简体中文"
    );
    assert_eq!(
        text_for_locale(&bundle, locale, "settings.appearance.language.option.english"),
        "英语"
    );
}

#[test]
fn text_for_app_or_uses_fallback_only_when_key_is_missing() {
    let bundle = bundle();
    let locale = current_locale(AppLanguage::SimplifiedChinese, &[]);
    assert_eq!(
        text_for_app_or(
            &bundle,
            locale,
            "settings.appearance.language.option.system",
            "System"
        ),
        "跟随系统"
    );
    assert_eq!(
        text_for_app_or(&bundle, locale, "missing.test.key", "Fallback value"),
        "Fallback value"
    );
}

#[test]
fn lookup_falls_back_to_default_locale_then_key() {
    let bundle = bundle();
    let hit = bundle.lookup(LocaleId::ZhCn, "greeting");
    assert_eq!(hit.text, "你好，{name}！");
    assert_eq!(hit.source, TranslationSource::RequestedLocale);
    let fallback = bundle.lookup(LocaleId::ZhCn, "only.english");
    assert_eq!(fallback.text, "Only in English");
    assert_eq!(fallback.source, TranslationSource::DefaultLocale);
    let missing = bundle.lookup(LocaleId::ZhCn, "no.such.key");
    assert_eq!(missing.text, "no.such.key");
    assert_eq!(missing.source, TranslationSource::Key);
    assert_eq!(bundle.text(LocaleId::EnUs, "greeting"), "Hello, {name}!");
}

#[test]
fn language_option_label_uses_translation_key() {
    let bundle = bundle();
    assert_eq!(
        language_option_label(&bundle, LocaleId::ZhCn, AppLanguage::English),
        "英语"
    );
    assert_eq!(
        language_option_label(&bundle, LocaleId::EnUs, AppLanguage::System),
        "System"
    );
}

#[test]
fn text_with_args_fills_placeholders() {
    let bundle = bundle();
    assert_eq!(
        text_for_locale_with_args(&bundle, LocaleId::EnUs, "greeting", &[("name", "Ada")]),
        Ok("Hello, Ada!".to_owned())
    );
    assert_eq!(
        text_for_locale_with_args(&bundle, LocaleId::ZhCn, "greeting", &[]),
        Err(TemplateError::MissingArgument {
            name: "name".to_owned()
        })
    );
}

#[test]
fn catalog_rejects_invalid_json_and_empty_keys() {
    assert!(matches!(
        Catalog::from_json(LocaleId::EnUs, "[1, 2]"),
        Err(CatalogError::InvalidJson {
            locale: LocaleId::EnUs,
            ..
        })
    ));
    assert!(matches!(
        Catalog::from_json(LocaleId::ZhCn, r#"{"": "x", "a": "b"}"#),
        Err(CatalogError::EmptyKey {
            locale: LocaleId::ZhCn
        })
    ));
    let catalog = Catalog::from_json(LocaleId::EnUs, r#"{"a": "b"}"#).unwrap();
    assert_eq!(catalog.locale(), LocaleId::EnUs);
    assert_eq!(catalog.get("a"), Some("b"));
    assert_eq!(catalog.get("b"), None);
}

#[test]
fn bundle_rejects_duplicate_and_missing_default() {
    let en1 = Catalog::from_json(LocaleId::EnUs, "{}").unwrap();
    let en2 = Catalog::from_json(LocaleId::EnUs, "{}").unwrap();
    assert!(matches!(
        CatalogBundle::new(LocaleId::EnUs, vec![en1, en2]),
        Err(CatalogError::DuplicateLocale(LocaleId::EnUs))
    ));
    let zh = Catalog::from_json(LocaleId::ZhCn, "{}").unwrap();
    assert!(matches!(
        CatalogBundle::new(LocaleId::EnUs, vec![zh]),
        Err(CatalogError::MissingDefault(LocaleId::EnUs))
    ));
}

#[test]
fn system_locale_names_map_to_bundled_locales() {
    assert_eq!(LocaleId::from_system_locale("en_US.UTF-8"), Some(LocaleId::EnUs));
    assert_eq!(LocaleId::from_system_locale("EN"), Some(LocaleId::EnUs));
    assert_eq!(LocaleId::from_system_locale(" zh_CN "), Some(LocaleId::ZhCn));
    assert_eq!(LocaleId::from_system_locale("zh-Hans-CN"), Some(LocaleId::ZhCn));
    assert_eq!(LocaleId::from_system_locale("zh_SG@pinyin"), Some(LocaleId::ZhCn));
    assert_eq!(LocaleId::from_system_locale("zh_TW"), None);
    assert_eq!(LocaleId::from_system_locale("C"), None);
    assert_eq!(LocaleId::from_system_locale("POSIX"), None);
    assert_eq!(LocaleId::from_system_locale("   "), None);
    assert_eq!(LocaleId::from_system_locale("fr_FR"), None);
    assert_eq!(LocaleId::from_system_locale(LocaleId::EnUs.code()), Some(LocaleId::EnUs));
    assert_eq!(LocaleId::from_system_locale(LocaleId::ZhCn.code()), Some(LocaleId::ZhCn));
    assert_eq!(LocaleId::ZhCn.code(), "zh-CN");
}

#[test]
fn effective_locale_picks_first_supported_candidate() {
    assert_eq!(
        AppLanguage::System.effective_locale_from_candidates(&["fr_FR", "zh_CN", "en_US"]),
        LocaleId::ZhCn
    );
    assert_eq!(
        AppLanguage::System.effective_locale_from_candidates(&["fr_FR"]),
        LocaleId::EnUs
    );
    assert_eq!(
        AppLanguage::English.effective_locale(Some("zh_CN")),
        LocaleId::EnUs
    );
    assert_eq!(AppLanguage::System.effective_locale(Some("zh_CN")), LocaleId::ZhCn);
    assert_eq!(AppLanguage::System.effective_locale(None), LocaleId::EnUs);
    assert_eq!(
        AppLanguage::SimplifiedChinese.effective_locale(None),
        LocaleId::ZhCn
    );
    assert_eq!(AppLanguage::default(), AppLanguage::System);
    assert_eq!(
        AppLanguage::options(),
        [
            AppLanguage::System,
            AppLanguage::English,
            AppLanguage::SimplifiedChinese
        ]
    );
}

#[test]
fn refresh_only_when_following_system() {
    let mut cache = vec!["en_US".to_owned()];
    assert!(!refresh_system_locale_candidates_if_needed(
        AppLanguage::English,
        &mut cache,
        || vec!["zh_CN".to_owned()]
    ));
    assert_eq!(cache, vec!["en_US".to_owned()]);
    assert!(refresh_system_locale_candidates_if_needed(
        AppLanguage::System,
        &mut cache,
        || vec!["zh_CN".to_owned()]
    ));
    assert_eq!(cache, vec!["zh_CN".to_owned()]);
    let values = locale_candidates_from_values(None, None, None, Some("en_US".to_owned()));
    assert_eq!(values, vec!["en_US"]);
}

#[test]
fn replace_placeholders_cases() {
    assert_eq!(
        replace_placeholders("Hi {a} and {b}", &[("b", "B"), ("a", "A")]),
        Ok("Hi A and B".to_owned())
    );
    assert_eq!(
        replace_placeholders("{{literal}} {x}", &[("x", "1")]),
        Ok("{literal}} 1".to_owned())
    );
    assert_eq!(replace_placeholders("{1x} {} {a-b}", &[]), Ok("{1x} {} {a-b}".to_owned()));
    assert_eq!(replace_placeholders("open { brace", &[]), Ok("open { brace".to_owned()));
    assert_eq!(
        replace_placeholders("{a}", &[("a", "1"), ("a", "2")]),
        Err(TemplateError::DuplicateArgument {
            name: "a".to_owned()
        })
    );
    assert_eq!(
        replace_placeholders("{a}", &[]),
        Err(TemplateError::MissingArgument {
            name: "a".to_owned()
        })
    );
    assert_eq!(
        replace_placeholders("plain", &[("unused", "x")]),
        Err(TemplateError::UnusedArgument {
            name: "unused".to_owned()
        })
    );
    assert_eq!(
        replace_placeholders("{a} {", &[("a", "{b}"), ("b", "x")]),
        Err(TemplateError::UnusedArgument {
            name: "b".to_owned()
        })
    );
}

#[test]
fn windows_language_lists_split_on_nul() {
    let mut buffer: Vec<u16> = "en-US\0zh-CN\0".encode_utf16().collect();
    buffer.push(0);
    assert_eq!(languages_from_utf16_list(&buffer), vec!["en-US".to_string(), "zh-CN".to_string()]);
    let mut broken: Vec<u16> = "fr-FR".encode_utf16().collect();
    broken.push(0);
    broken.push(0xD800);
    broken.push(0);
    broken.extend("de".encode_utf16());
    assert_eq!(languages_from_utf16_list(&broken), vec!["fr-FR".to_string(), "de".to_string()]);
    assert!(languages_from_utf16_list(&[]).is_empty());
}

#[test]
fn locale_names_are_normalized() {
    assert_eq!(normalize_locale(" zh_CN.UTF-8@cjk "), Some("zh-cn".to_string()));
    assert_eq!(normalize_locale("EN_us"), Some("en-us".to_string()));
    assert_eq!(normalize_locale("   "), None);
    assert_eq!(LocaleId::from_system_locale(LocaleId::ZhCn.code()), Some(LocaleId::ZhCn));
    assert_eq!(LocaleId::from_system_locale(LocaleId::EnUs.code()), Some(LocaleId::EnUs));
}

#[test]
fn system_locales_ignore_case_separators_and_suffixes() {
    for s in ["en_US", "zh_CN", "zh-Hans-CN", "C", "POSIX", "fr_FR", "en", "zh_TW", ""] {
        let expected = LocaleId::from_system_locale(s);
        assert_eq!(LocaleId::from_system_locale(&s.to_ascii_uppercase()), expected, "{s}");
        assert_eq!(LocaleId::from_system_locale(&s.replace('_', "-")), expected, "{s}");
        assert_eq!(LocaleId::from_system_locale(&format!("{s}.UTF-8")), expected, "{s}");
        assert_eq!(LocaleId::from_system_locale(&format!("{s}@euro")), expected, "{s}");
    }
    assert_eq!(LocaleId::from_system_locale("zh_CN.UTF-8"), Some(LocaleId::ZhCn));
    assert_eq!(LocaleId::from_system_locale("EN_gb@euro"), Some(LocaleId::EnUs));
}

#[test]
fn search_views_always_show_the_fallback() {
    assert_eq!(search_localization::text_for_app_or("settings.appearance.language.option.system", "System"), "System");
    assert_eq!(search_localization::text_for_app_or("missing.key", "Fallback"), "Fallback");
}

#[test]
fn git_status_metadata_holds_branches_and_stats() {
    let m = GitStatusMetadata { current_branch_name: "feature".to_string(), main_branch_name: "main".to_string(), stats_against_head: (3u32, 1u32) };
    assert_eq!(m.clone(), m);
    assert_eq!(m.stats_against_head, (3, 1));
    assert_eq!(GitRepoStatusEvent::MetadataChanged, GitRepoStatusEvent::MetadataChanged);
}

#[test]
fn windows_language_names_decode_surrogate_pairs_and_skip_invalid_ones() {
    let mut buffer: Vec<u16> = "en-US".encode_utf16().collect();
    buffer.push(0);
    buffer.extend("x😀".encode_utf16());
    buffer.push(0);
    buffer.extend([0x0061, 0xD800, 0x0062]);
    buffer.push(0);
    buffer.push(0xDC00);
    buffer.push(0);
    assert_eq!(languages_from_utf16_list(&buffer), ["en-US", "x😀"]);
}
