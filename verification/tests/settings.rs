use piggytrans::field::JsonField;
use piggytrans::settings::{
    default_baidu_llm_api_url, default_hotkey, default_llm_api_base, default_llm_model, legacy_migration_needed,
    migrate_baidu_general, migrate_baidu_llm, migrate_custom_llm, migration_writes,
    BaiduGeneralSettings, BaiduLlmSettings, CustomLlmSettings, LegacySettings,
    TranslationProvider,
};

fn text(x: &str) -> JsonField {
    JsonField::Text(x.to_string())
}

fn legacy_all_missing() -> LegacySettings {
    LegacySettings {
        baidu_app_id: JsonField::Missing,
        baidu_app_key: JsonField::Missing,
        baidu_api_url: JsonField::Missing,
        baidu_api_key: JsonField::Missing,
        llm_api_base: JsonField::Missing,
        llm_api_key: JsonField::Missing,
        llm_model: JsonField::Missing,
    }
}

#[test]
fn defaults() {
    assert_eq!(TranslationProvider::default(), TranslationProvider::BaiduGeneral);
    let bg = BaiduGeneralSettings::default();
    assert_eq!(bg.app_id, "");
    assert_eq!(bg.app_key, "");
    let bl = BaiduLlmSettings::default();
    assert_eq!(bl.api_url, "https://fanyi-api.baidu.com/ait/api/aiTextTranslate");
    assert_eq!(bl.app_id, "");
    assert_eq!(bl.api_key, "");
    let cl = CustomLlmSettings::default();
    assert_eq!(cl.api_base, "https://api.openai.com/v1");
    assert_eq!(cl.api_key, "");
    assert_eq!(cl.model, "gpt-4o-mini");
    assert_eq!(default_llm_api_base(), "https://api.openai.com/v1");
    assert_eq!(default_baidu_llm_api_url(), "https://fanyi-api.baidu.com/ait/api/aiTextTranslate");
    assert_eq!(default_llm_model(), "gpt-4o-mini");
    assert_eq!(default_hotkey(), "CommandOrControl+R");
}

#[test]
fn migrate_from_legacy_keys() {
    let mut l = legacy_all_missing();
    l.baidu_app_id = text("id1");
    l.baidu_app_key = text("key1");
    l.llm_api_base = text("https://llm.example/v1");
    l.llm_model = JsonField::Other;
    let bg = migrate_baidu_general(&l);
    assert_eq!((bg.app_id.as_str(), bg.app_key.as_str()), ("id1", "key1"));
    let bl = migrate_baidu_llm(&l);
    assert_eq!(bl.api_url, "https://fanyi-api.baidu.com/ait/api/aiTextTranslate");
    assert_eq!(bl.app_id, "id1");
    assert_eq!(bl.api_key, "key1");
    let cl = migrate_custom_llm(&l);
    assert_eq!(cl.api_base, "https://llm.example/v1");
    assert_eq!(cl.api_key, "");
    assert_eq!(cl.model, "gpt-4o-mini");
}

#[test]
fn baidu_llm_key_prefers_api_key() {
    let mut l = legacy_all_missing();
    l.baidu_app_key = text("app-key");
    l.baidu_api_key = text("api-key");
    l.baidu_api_url = text("https://custom.example/translate");
    let bl = migrate_baidu_llm(&l);
    assert_eq!(bl.api_key, "api-key");
    assert_eq!(bl.api_url, "https://custom.example/translate");
    l.baidu_api_key = JsonField::Other;
    assert_eq!(migrate_baidu_llm(&l).api_key, "");
}

#[test]
fn migration_only_when_needed() {
    assert!(!legacy_migration_needed(false, false, false, false));
    assert!(!legacy_migration_needed(true, true, true, true));
    assert!(legacy_migration_needed(true, true, false, true));
}

#[test]
fn migration_writes_missing_files_only() {
    let mut l = legacy_all_missing();
    l.llm_api_key = text("sk");
    let w = migration_writes(&Some(l), true, false, false);
    assert!(w.baidu_general.is_none());
    assert_eq!(w.baidu_llm.unwrap().api_key, "");
    assert_eq!(w.custom_llm.unwrap().api_key, "sk");
    let none = migration_writes(&None, false, false, false);
    assert!(none.baidu_general.is_none() && none.baidu_llm.is_none() && none.custom_llm.is_none());
}
