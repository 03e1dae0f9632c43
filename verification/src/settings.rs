use vstd::prelude::*;

use crate::field::{field_as_text, text_or, JsonField};

verus! {

/// The service that translates.
#[derive(Debug, Clone, Copy, PartialEq, Eq, Structural)]
pub enum TranslationProvider {
    /// Baidu's general text translation (application ID and key, MD5 signature).
    BaiduGeneral,
    /// Baidu's large-model text translation (API address, application ID, API key).
    BaiduLlm,
    /// A chat-completions model of the user's choice.
    Llm,
}

impl Default for TranslationProvider {
    fn default() -> (r: Self)
        ensures
            r == TranslationProvider::BaiduGeneral,
    {
        TranslationProvider::BaiduGeneral
    }
}

/// Settings of Baidu's general text translation.
#[derive(Debug, Clone)]
pub struct BaiduGeneralSettings {
    pub app_id: String,
    pub app_key: String,
}

/// Settings of Baidu's large-model text translation.
#[derive(Debug, Clone)]
pub struct BaiduLlmSettings {
    pub api_url: String,
    pub app_id: String,
    pub api_key: String,
}

/// Settings of a chat-completions model.
#[derive(Debug, Clone)]
pub struct CustomLlmSettings {
    pub api_base: String,
    pub api_key: String,
    pub model: String,
}

/// The global shortcut until the user picks another: Cmd+R on macOS, Ctrl+R elsewhere.
pub open spec fn spec_default_hotkey() -> Seq<char> {
    "CommandOrControl+R"@
}

pub fn default_hotkey() -> (r: String)
    ensures
        r@ == spec_default_hotkey(),
{
    "CommandOrControl+R".to_owned()
}

pub open spec fn spec_default_llm_api_base() -> Seq<char> {
    "https://api.openai.com/v1"@
}

pub open spec fn spec_default_baidu_llm_api_url() -> Seq<char> {
    "https://fanyi-api.baidu.com/ait/api/aiTextTranslate"@
}

pub open spec fn spec_default_llm_model() -> Seq<char> {
    "gpt-4o-mini"@
}

pub fn default_llm_api_base() -> (r: String)
    ensures
        r@ == spec_default_llm_api_base(),
{
    "https://api.openai.com/v1".to_owned()
}

pub fn default_baidu_llm_api_url() -> (r: String)
    ensures
        r@ == spec_default_baidu_llm_api_url(),
{
    "https://fanyi-api.baidu.com/ait/api/aiTextTranslate".to_owned()
}

pub fn default_llm_model() -> (r: String)
    ensures
        r@ == spec_default_llm_model(),
{
    "gpt-4o-mini".to_owned()
}

impl Default for BaiduGeneralSettings {
    fn default() -> (r: Self)
        ensures
            r.app_id@ == Seq::<char>::empty(),
            r.app_key@ == Seq::<char>::empty(),
    {
        BaiduGeneralSettings { app_id: String::new(), app_key: String::new() }
    }
}

impl Default for BaiduLlmSettings {
    fn default() -> (r: Self)
        ensures
            r.api_url@ == spec_default_baidu_llm_api_url(),
            r.app_id@ == Seq::<char>::empty(),
            r.api_key@ == Seq::<char>::empty(),
    {
        BaiduLlmSettings {
            api_url: default_baidu_llm_api_url(),
            app_id: String::new(),
            api_key: String::new(),
        }
    }
}

impl Default for CustomLlmSettings {
    fn default() -> (r: Self)
        ensures
            r.api_base@ == spec_default_llm_api_base(),
            r.api_key@ == Seq::<char>::empty(),
            r.model@ == spec_default_llm_model(),
    {
        CustomLlmSettings {
            api_base: default_llm_api_base(),
            api_key: String::new(),
            model: default_llm_model(),
        }
    }
}

// ---------------------------------------------------------------------------
// Moving settings out of the single legacy file
// ---------------------------------------------------------------------------

/// The keys of the legacy single-file settings that migration reads.
#[derive(Debug, Clone)]
pub struct LegacySettings {
    pub baidu_app_id: JsonField,
    pub baidu_app_key: JsonField,
    pub baidu_api_url: JsonField,
    pub baidu_api_key: JsonField,
    pub llm_api_base: JsonField,
    pub llm_api_key: JsonField,
    pub llm_model: JsonField,
}

/// Baidu's large-model API key: `baidu_api_key` when present (if it holds no string,
/// there is none), else `baidu_app_key`.
pub open spec fn legacy_baidu_llm_key(legacy: LegacySettings) -> Seq<char> {
    match legacy.baidu_api_key {
        JsonField::Missing => text_or(legacy.baidu_app_key, Seq::empty()),
        other => text_or(other, Seq::empty()),
    }
}

pub fn migrate_baidu_general(legacy: &LegacySettings) -> (r: BaiduGeneralSettings)
    ensures
        r.app_id@ == text_or(legacy.baidu_app_id, Seq::empty()),
        r.app_key@ == text_or(legacy.baidu_app_key, Seq::empty()),
{
    let mut bg = BaiduGeneralSettings::default();
    if let Some(id) = field_as_text(&legacy.baidu_app_id) {
        bg.app_id = id;
    }
    if let Some(key) = field_as_text(&legacy.baidu_app_key) {
        bg.app_key = key;
    }
    bg
}

pub fn migrate_baidu_llm(legacy: &LegacySettings) -> (r: BaiduLlmSettings)
    ensures
        r.api_url@ == text_or(legacy.baidu_api_url, spec_default_baidu_llm_api_url()),
        r.app_id@ == text_or(legacy.baidu_app_id, Seq::empty()),
        r.api_key@ == legacy_baidu_llm_key(*legacy),
{
    let mut bl = BaiduLlmSettings::default();
    if let Some(url) = field_as_text(&legacy.baidu_api_url) {
        bl.api_url = url;
    }
    if let Some(id) = field_as_text(&legacy.baidu_app_id) {
        bl.app_id = id;
    }
    let key_field = match &legacy.baidu_api_key {
        JsonField::Missing => &legacy.baidu_app_key,
        other => other,
    };
    if let Some(key) = field_as_text(key_field) {
        bl.api_key = key;
    }
    bl
}

pub fn migrate_custom_llm(legacy: &LegacySettings) -> (r: CustomLlmSettings)
    ensures
        r.api_base@ == text_or(legacy.llm_api_base, spec_default_llm_api_base()),
        r.api_key@ == text_or(legacy.llm_api_key, Seq::empty()),
        r.model@ == text_or(legacy.llm_model, spec_default_llm_model()),
{
    let mut cl = CustomLlmSettings::default();
    if let Some(base) = field_as_text(&legacy.llm_api_base) {
        cl.api_base = base;
    }
    if let Some(key) = field_as_text(&legacy.llm_api_key) {
        cl.api_key = key;
    }
    if let Some(model) = field_as_text(&legacy.llm_model) {
        cl.model = model;
    }
    cl
}

/// The legacy file is read only when it exists and some per-service file is missing.
pub fn legacy_migration_needed(
    legacy_exists: bool,
    baidu_general_exists: bool,
    baidu_llm_exists: bool,
    custom_llm_exists: bool,
) -> (r: bool)
    ensures
        r == (legacy_exists && !(baidu_general_exists && baidu_llm_exists && custom_llm_exists)),
{
    if !legacy_exists {
        return false;
    }
    !(baidu_general_exists && baidu_llm_exists && custom_llm_exists)
}

/// The per-service files that migration writes, with their contents.
pub struct MigrationWrites {
    pub baidu_general: Option<BaiduGeneralSettings>,
    pub baidu_llm: Option<BaiduLlmSettings>,
    pub custom_llm: Option<CustomLlmSettings>,
}

/// What migration writes, given the legacy settings (`None` when the legacy file does
/// not hold a JSON object) and which per-service files exist: each missing file, filled
/// from the legacy keys.
pub fn migration_writes(
    legacy: &Option<LegacySettings>,
    baidu_general_exists: bool,
    baidu_llm_exists: bool,
    custom_llm_exists: bool,
) -> (r: MigrationWrites)
    ensures
        match legacy {
            None => r.baidu_general is None && r.baidu_llm is None && r.custom_llm is None,
            Some(l) => {
                &&& (r.baidu_general is Some <==> !baidu_general_exists)
                &&& (r.baidu_llm is Some <==> !baidu_llm_exists)
                &&& (r.custom_llm is Some <==> !custom_llm_exists)
                &&& (r.baidu_general matches Some(bg) ==> bg.app_id@ == text_or(
                    l.baidu_app_id,
                    Seq::empty(),
                ) && bg.app_key@ == text_or(l.baidu_app_key, Seq::empty()))
                &&& (r.baidu_llm matches Some(bl) ==> bl.api_url@ == text_or(
                    l.baidu_api_url,
                    spec_default_baidu_llm_api_url(),
                ) && bl.app_id@ == text_or(l.baidu_app_id, Seq::empty()) && bl.api_key@
                    == legacy_baidu_llm_key(*l))
                &&& (r.custom_llm matches Some(cl) ==> cl.api_base@ == text_or(
                    l.llm_api_base,
                    spec_default_llm_api_base(),
                ) && cl.api_key@ == text_or(l.llm_api_key, Seq::empty()) && cl.model@ == text_or(
                    l.llm_model,
                    spec_default_llm_model(),
                ))
            },
        },
{
    match legacy {
        None => MigrationWrites { baidu_general: None, baidu_llm: None, custom_llm: None },
        Some(l) => MigrationWrites {
            baidu_general: if baidu_general_exists {
                None
            } else {
                Some(migrate_baidu_general(l))
            },
            baidu_llm: if baidu_llm_exists {
                None
            } else {
                Some(migrate_baidu_llm(l))
            },
            custom_llm: if custom_llm_exists {
                None
            } else {
                Some(migrate_custom_llm(l))
            },
        },
    }
}


/// Migrated settings take each legacy key that holds a string, and the default or an
/// empty value otherwise; Baidu's large-model key is `baidu_api_key` when that key is
/// present (nothing when it holds no string), and `baidu_app_key` only when it is absent.
pub proof fn law_legacy_keys(legacy: LegacySettings)
    ensures
        legacy.baidu_api_key matches JsonField::Text(k) ==> legacy_baidu_llm_key(legacy) == k@,
        legacy.baidu_api_key is Other ==> legacy_baidu_llm_key(legacy) == Seq::<char>::empty(),
        legacy.baidu_api_key is Missing ==> (legacy.baidu_app_key matches JsonField::Text(k)
            ==> legacy_baidu_llm_key(legacy) == k@),
        legacy.baidu_api_key is Missing ==> (!(legacy.baidu_app_key is Text)
            ==> legacy_baidu_llm_key(legacy) == Seq::<char>::empty()),
        forall|f: JsonField, d: Seq<char>|
            #![trigger text_or(f, d)]
            (f matches JsonField::Text(x) ==> text_or(f, d) == x@) && (!(f is Text) ==> text_or(
                f,
                d,
            ) == d),
{
}

} // verus!

