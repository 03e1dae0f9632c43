use vstd::prelude::*;

use md5::{Digest, Md5};
use std::time::{Duration, SystemTime, UNIX_EPOCH};

use crate::text::{
    append_chars, append_str, decimal, trim_end, trim_start, decimal_chars, ends_with, ends_with_chars, hex_digit,
    is_lower_hex_digit, is_white_space, lemma_lower_hex_shape, lemma_remove_cr_identity,
    lemma_remove_cr_members, lemma_remove_cr_no_cr, lemma_trim_end_at, lemma_trim_idempotent,
    lemma_trim_shape, lemma_trim_start_at, lower_hex, lower_hex_chars, remove_cr,
    signed_decimal, signed_decimal_chars, string_from_chars, to_chars, trim, trim_chars,
    trim_str,
};
use crate::field::JsonField;
use crate::settings::{
    spec_default_baidu_llm_api_url, BaiduGeneralSettings, BaiduLlmSettings, CustomLlmSettings,
    TranslationProvider,
};

verus! {

/// A finished translation.
#[derive(Debug, Clone)]
pub struct TranslationResult {
    pub original_text: String,
    pub translated_text: String,
    pub detected_source: String,
}

// ---------------------------------------------------------------------------
// Target language
// ---------------------------------------------------------------------------

/// A CJK unified ideograph (U+4E00 to U+9FFF).
pub open spec fn is_cjk(c: char) -> bool {
    '\u{4e00}' <= c && c <= '\u{9fff}'
}

pub open spec fn has_cjk(s: Seq<char>) -> bool {
    exists|i: int| 0 <= i < s.len() && #[trigger] is_cjk(s[i])
}

/// Text with Chinese in it (mixed with English too) goes to English; anything else
/// goes to Chinese.
pub open spec fn target_language(s: Seq<char>) -> Seq<char> {
    if has_cjk(s) {
        "en"@
    } else {
        "zh"@
    }
}

fn contains_cjk(s: &[char]) -> (r: bool)
    ensures
        r == has_cjk(s@),
{
    let mut i: usize = 0;
    while i < s.len()
        invariant
            i <= s@.len(),
            forall|k: int| 0 <= k < i ==> !#[trigger] is_cjk(s@[k]),
        decreases s.len() - i,
    {
        if '\u{4e00}' <= s[i] && s[i] <= '\u{9fff}' {
            assert(is_cjk(s@[i as int]));
            return true;
        }
        i = i + 1;
    }
    false
}

pub fn resolve_target_language(text: &str) -> (r: &'static str)
    ensures
        r@ == target_language(text@),
{
    let chars = to_chars(text);
    if contains_cjk(&chars) {
        "en"
    } else {
        "zh"
    }
}

/// The text that is sent for translation: line endings normalised, trimmed.
pub fn normalize_input(text: &str) -> (r: String)
    ensures
        r@ == trim(remove_cr(text@)),
{
    let chars = to_chars(text);
    let no_cr = crate::text::remove_cr_chars(&chars);
    let t = trim_chars(&no_cr);
    string_from_chars(&t)
}

// ---------------------------------------------------------------------------
// Chat-completions address
// ---------------------------------------------------------------------------

/// `s` without its trailing `'/'` characters.
pub open spec fn trim_end_slashes(s: Seq<char>) -> Seq<char>
    decreases s.len(),
{
    if s.len() > 0 && s.last() == '/' {
        trim_end_slashes(s.drop_last())
    } else {
        s
    }
}

pub open spec fn chat_suffix() -> Seq<char> {
    "/chat/completions"@
}

pub open spec fn default_chat_url() -> Seq<char> {
    "https://api.openai.com/v1/chat/completions"@
}

/// The chat-completions address for an API base: the default one for an empty base;
/// the base itself when it already ends with `/chat/completions`; the base with
/// `/chat/completions` after a `/v1`; the base with `/v1/chat/completions` otherwise.
pub open spec fn chat_url(api_base: Seq<char>) -> Seq<char> {
    let base = trim_end_slashes(trim(api_base));
    if base.len() == 0 {
        default_chat_url()
    } else if ends_with(base, chat_suffix()) {
        base
    } else if ends_with(base, "/v1"@) {
        base + chat_suffix()
    } else {
        base + "/v1/chat/completions"@
    }
}

proof fn lemma_trim_end_slashes_prefix(s: Seq<char>)
    ensures
        trim_end_slashes(s).len() <= s.len(),
        trim_end_slashes(s) == s.subrange(0, trim_end_slashes(s).len() as int),
        trim_end_slashes(s).len() > 0 ==> trim_end_slashes(s).last() != '/',
    decreases s.len(),
{
    if s.len() > 0 && s.last() == '/' {
        lemma_trim_end_slashes_prefix(s.drop_last());
        let t = s.drop_last();
        assert(t.subrange(0, trim_end_slashes(t).len() as int) =~= s.subrange(
            0,
            trim_end_slashes(t).len() as int,
        ));
    } else {
        assert(s.subrange(0, s.len() as int) =~= s);
    }
}

proof fn lemma_trim_end_slashes_at(s: Seq<char>, j: int)
    requires
        0 <= j <= s.len(),
        forall|k: int| j <= k < s.len() ==> #[trigger] s[k] == '/',
        j == 0 || s[j - 1] != '/',
    ensures
        trim_end_slashes(s) == s.subrange(0, j),
    decreases s.len() - j,
{
    if j == s.len() {
        assert(s.subrange(0, j) =~= s);
    } else {
        let t = s.drop_last();
        assert forall|k: int| j <= k < t.len() implies #[trigger] t[k] == '/' by {
            assert(t[k] == s[k]);
        }
        if j > 0 {
            assert(t[j - 1] == s[j - 1]);
        }
        assert(s[s.len() - 1] == '/');
        lemma_trim_end_slashes_at(t, j);
        assert(t.subrange(0, j) =~= s.subrange(0, j));
    }
}

pub fn chat_completions_url(api_base: &str) -> (r: String)
    ensures
        r@ == chat_url(api_base@),
{
    let chars = to_chars(api_base);
    let trimmed = trim_chars(&chars);
    let mut j = trimmed.len();
    while j > 0 && trimmed[j - 1] == '/'
        invariant
            j <= trimmed@.len(),
            forall|k: int| j <= k < trimmed@.len() ==> #[trigger] trimmed@[k] == '/',
        decreases j,
    {
        j = j - 1;
    }
    proof {
        lemma_trim_end_slashes_at(trimmed@, j as int);
    }
    let base = crate::text::copy_range(&trimmed, 0, j);
    if base.len() == 0 {
        return "https://api.openai.com/v1/chat/completions".to_owned();
    }
    let suffix = to_chars("/chat/completions");
    if ends_with_chars(&base, &suffix) {
        return string_from_chars(&base);
    }
    let v1 = to_chars("/v1");
    let mut out = base.clone();
    if ends_with_chars(&base, &v1) {
        append_chars(&mut out, &suffix);
    } else {
        append_str(&mut out, "/v1/chat/completions");
    }
    string_from_chars(&out)
}


/// Building the chat-completions address from an address it built gives the same
/// address back.
pub proof fn law_chat_url_idempotent(api_base: Seq<char>)
    ensures
        chat_url(chat_url(api_base)) == chat_url(api_base),
{
    reveal_strlit("/chat/completions");
    reveal_strlit("https://api.openai.com/v1/chat/completions");
    reveal_strlit("/v1/chat/completions");
    reveal_strlit("/v1");
    let t = trim(api_base);
    let base = trim_end_slashes(t);
    let r = chat_url(api_base);
    let suffix = chat_suffix();
    lemma_trim_shape(api_base);
    lemma_trim_end_slashes_prefix(t);
    if base.len() > 0 {
        assert(base[0] == t[0]);
    }
    // The address ends with the suffix, and so with 's'.
    if base.len() == 0 {
        assert(r.subrange(r.len() - suffix.len(), r.len() as int) =~= suffix);
    } else if ends_with(base, suffix) {
        assert(r.last() == suffix.last());
    } else if ends_with(base, "/v1"@) {
        assert((base + suffix).subrange(r.len() - suffix.len(), r.len() as int) =~= suffix);
    } else {
        assert((base + "/v1/chat/completions"@).subrange(
            r.len() - suffix.len(),
            r.len() as int,
        ) =~= suffix);
    }
    assert(ends_with(r, suffix));
    assert(r.len() > 0);
    assert(r.last() == 's') by {
        assert(r[r.len() - 1] == r.subrange(r.len() - suffix.len(), r.len() as int)[suffix.len()
            - 1]);
    }
    assert(!is_white_space(r[0]));
    lemma_trim_start_at(r, 0);
    assert(r.subrange(0, r.len() as int) =~= r);
    lemma_trim_end_at(r, r.len() as int);
    lemma_trim_end_slashes_at(r, r.len() as int);
}


// ---------------------------------------------------------------------------
// Salt and signature of Baidu's general translation
// ---------------------------------------------------------------------------

#[verifier::external_type_specification]
#[verifier::external_body]
pub struct ExSystemTime(SystemTime);

/// `SystemTime::now`: the current time (nothing is promised of it).
#[verifier::external_body]
fn system_time_now() -> SystemTime {
    SystemTime::now()
}

/// `SystemTime::duration_since` from the Unix epoch; `None` where the clock stands
/// before the epoch (nothing is promised of the duration).
#[verifier::external_body]
fn duration_since_unix_epoch(t: &SystemTime) -> Option<Duration> {
    t.duration_since(UNIX_EPOCH).ok()
}

/// `Duration::as_micros`: the whole microseconds of `d` (nothing is promised of the
/// number, since the duration is opaque here).
#[verifier::external_body]
fn duration_micros(d: &Duration) -> u128 {
    d.as_micros()
}

/// The salt number for a clock reading in microseconds since the epoch (`None`
/// where the clock could not be read): a number from 10000 to 99999.
pub open spec fn salt_number(micros: Option<u128>) -> nat {
    match micros {
        Some(m) => (m % 90000 + 10000) as nat,
        None => 55555,
    }
}

pub fn salt_from_micros(micros: Option<u128>) -> (r: String)
    ensures
        r@ == decimal(salt_number(micros)),
{
    let n: u64 = match micros {
        Some(m) => (m % 90_000) as u64 + 10_000,
        None => 55_555,
    };
    let digits = decimal_chars(n);
    string_from_chars(&digits)
}

/// A salt from the current time: the decimal digits of a number from 10000 to 99999.
pub fn random_salt() -> (r: String)
    ensures
        exists|m: Option<u128>| r@ == decimal(#[trigger] salt_number(m)),
{
    let now = system_time_now();
    let micros = match duration_since_unix_epoch(&now) {
        Some(d) => Some(duration_micros(&d)),
        None => None,
    };
    salt_from_micros(micros)
}

/// The MD5 digest of `data`.
pub uninterp spec fn md5_digest(data: Seq<u8>) -> Seq<u8>;

/// `Md5::digest` of the `md-5` crate: the digest of `data`, 16 bytes long (the
/// output type is `GenericArray<u8, U16>`).
#[verifier::external_body]
fn md5(data: &[u8]) -> (r: Vec<u8>)
    ensures
        r@ == md5_digest(data@),
        r@.len() == 16,
{
    Md5::digest(data).to_vec()
}

/// The signature of a request to Baidu's general translation: the lower-case hex MD5
/// of the UTF-8 bytes of application ID, text, salt and key, one after another.
pub open spec fn baidu_sign_spec(
    app_id: Seq<char>,
    q: Seq<char>,
    salt: Seq<char>,
    app_key: Seq<char>,
) -> Seq<char> {
    lower_hex(md5_digest(vstd::utf8::encode_utf8(app_id + q + salt + app_key)))
}

pub fn baidu_sign(app_id: &str, q: &str, salt: &str, app_key: &str) -> (r: String)
    ensures
        r@ == baidu_sign_spec(app_id@, q@, salt@, app_key@),
        r@.len() == 32,
        forall|k: int| 0 <= k < r@.len() ==> is_lower_hex_digit(#[trigger] r@[k]),
{
    let mut input: Vec<char> = Vec::new();
    append_str(&mut input, app_id);
    append_str(&mut input, q);
    append_str(&mut input, salt);
    append_str(&mut input, app_key);
    let input_s = string_from_chars(&input);
    let bytes = input_s.as_str().as_bytes();
    let digest = md5(bytes);
    let hex = lower_hex_chars(&digest);
    proof {
        lemma_lower_hex_shape(digest@);
    }
    string_from_chars(&hex)
}


// ---------------------------------------------------------------------------
// Requests
// ---------------------------------------------------------------------------

/// The serialization of the URL that `Url::parse_with_params` makes of `base` with the
/// query pairs `params`, or the text of its parse error.
pub uninterp spec fn url_with_query(
    base: Seq<char>,
    params: Seq<(Seq<char>, Seq<char>)>,
) -> Result<Seq<char>, Seq<char>>;

/// `Url::parse_with_params` (the `url` crate's, as `reqwest::Url`): the address
/// `base` with `params` appended as an encoded query, as text, or the text of the
/// error that parsing `base` gave.
#[verifier::external_body]
fn parse_url_with_params(base: &str, params: &Vec<(String, String)>) -> (r: Result<
    String,
    String,
>)
    ensures
        match r {
            Ok(u) => url_with_query(base@, params.deep_view()) == Ok::<Seq<char>, Seq<char>>(u@),
            Err(e) => url_with_query(base@, params.deep_view()) == Err::<Seq<char>, Seq<char>>(
                e@,
            ),
        },
{
    match reqwest::Url::parse_with_params(base, params) {
        Ok(u) => Ok(u.into()),
        Err(e) => Err(e.to_string()),
    }
}

pub open spec fn empty_text_error() -> Seq<char> {
    "文本为空"@
}

pub open spec fn service_error() -> Seq<char> {
    "翻译服务返回异常"@
}

pub open spec fn baidu_general_missing_credentials() -> Seq<char> {
    "请在设置中填写百度通用翻译的「应用 ID」和「密钥」"@
}

pub open spec fn baidu_vip_url() -> Seq<char> {
    "https://fanyi-api.baidu.com/api/trans/vip/translate"@
}

/// A request to Baidu's general translation: a GET of `url`.
#[derive(Debug, Clone)]
pub struct BaiduGeneralRequest {
    pub url: String,
    /// The normalised text that is translated.
    pub source_text: String,
}

/// The query of a request to Baidu's general translation.
pub open spec fn baidu_general_params(
    q: Seq<char>,
    target: Seq<char>,
    app_id: Seq<char>,
    salt: Seq<char>,
    sign: Seq<char>,
) -> Seq<(Seq<char>, Seq<char>)> {
    seq![
        ("q"@, q),
        ("from"@, "auto"@),
        ("to"@, target),
        ("appid"@, app_id),
        ("salt"@, salt),
        ("sign"@, sign),
    ]
}

/// What preparing a request to Baidu's general translation gives: an error for an
/// empty text or missing credentials (both trimmed), else the signed query address.
pub open spec fn baidu_general_prepared(
    text: Seq<char>,
    settings: BaiduGeneralSettings,
    salt: Seq<char>,
    r: Result<BaiduGeneralRequest, String>,
) -> bool {
    let cleaned = trim(remove_cr(text));
    let id = trim(settings.app_id@);
    let key = trim(settings.app_key@);
    if cleaned.len() == 0 {
        r matches Err(e) && e@ == empty_text_error()
    } else if id.len() == 0 || key.len() == 0 {
        r matches Err(e) && e@ == baidu_general_missing_credentials()
    } else {
        let params = baidu_general_params(
            cleaned,
            target_language(cleaned),
            id,
            salt,
            baidu_sign_spec(id, cleaned, salt, key),
        );
        match url_with_query(baidu_vip_url(), params) {
            Ok(u) => r matches Ok(req) && req.url@ == u && req.source_text@ == cleaned,
            Err(m) => r matches Err(e) && e@ == m,
        }
    }
}

pub fn prepare_baidu_general(text: &str, settings: &BaiduGeneralSettings, salt: &str) -> (r:
    Result<BaiduGeneralRequest, String>)
    ensures
        baidu_general_prepared(text@, *settings, salt@, r),
{
    let cleaned = normalize_input(text);
    if cleaned.as_str().is_empty() {
        return Err("文本为空".to_owned());
    }
    let id_chars = trim_str(settings.app_id.as_str());
    let key_chars = trim_str(settings.app_key.as_str());
    if id_chars.len() == 0 || key_chars.len() == 0 {
        return Err("请在设置中填写百度通用翻译的「应用 ID」和「密钥」".to_owned());
    }
    let app_id = string_from_chars(&id_chars);
    let app_key = string_from_chars(&key_chars);
    let target = resolve_target_language(cleaned.as_str());
    let sign = baidu_sign(app_id.as_str(), cleaned.as_str(), salt, app_key.as_str());
    let params: Vec<(String, String)> = vec![
        ("q".to_owned(), cleaned.clone()),
        ("from".to_owned(), "auto".to_owned()),
        ("to".to_owned(), target.to_owned()),
        ("appid".to_owned(), app_id),
        ("salt".to_owned(), salt.to_owned()),
        ("sign".to_owned(), sign),
    ];
    assert(params.deep_view() =~= baidu_general_params(
        cleaned@,
        target@,
        trim(settings.app_id@),
        salt@,
        baidu_sign_spec(trim(settings.app_id@), cleaned@, salt@, trim(settings.app_key@)),
    ));
    match parse_url_with_params("https://fanyi-api.baidu.com/api/trans/vip/translate", &params) {
        Ok(url) => Ok(BaiduGeneralRequest { url, source_text: cleaned }),
        Err(e) => Err(e),
    }
}


pub open spec fn baidu_llm_missing_app_id() -> Seq<char> {
    "请在设置中填写百度大模型翻译的「应用 ID（appid）」"@
}

pub open spec fn baidu_llm_missing_api_key() -> Seq<char> {
    "请在设置中填写百度大模型翻译的「API Key」"@
}

/// A request to Baidu's large-model translation: a JSON POST of `app_id`,
/// `source_text` (as `q`), `from` and `to` to `url`, with the `authorization` header.
#[derive(Debug, Clone)]
pub struct BaiduLlmRequest {
    pub url: String,
    pub authorization: String,
    pub app_id: String,
    pub source_text: String,
    pub from: String,
    pub to: String,
}

/// What preparing a request to Baidu's large-model translation gives: an error for an
/// empty text, a missing application ID or a missing API key (all trimmed), else the
/// request to the trimmed address (the default one when it is empty).
pub open spec fn baidu_llm_prepared(
    text: Seq<char>,
    settings: BaiduLlmSettings,
    r: Result<BaiduLlmRequest, String>,
) -> bool {
    let cleaned = trim(remove_cr(text));
    let id = trim(settings.app_id@);
    let key = trim(settings.api_key@);
    let url = trim(settings.api_url@);
    if cleaned.len() == 0 {
        r matches Err(e) && e@ == empty_text_error()
    } else if id.len() == 0 {
        r matches Err(e) && e@ == baidu_llm_missing_app_id()
    } else if key.len() == 0 {
        r matches Err(e) && e@ == baidu_llm_missing_api_key()
    } else {
        r matches Ok(req) && req.url@ == (if url.len() == 0 {
            spec_default_baidu_llm_api_url()
        } else {
            url
        }) && req.authorization@ == "Bearer "@ + key && req.app_id@ == id && req.source_text@
            == cleaned && req.from@ == "auto"@ && req.to@ == target_language(cleaned)
    }
}

pub fn prepare_baidu_llm(text: &str, settings: &BaiduLlmSettings) -> (r: Result<
    BaiduLlmRequest,
    String,
>)
    ensures
        baidu_llm_prepared(text@, *settings, r),
{
    let cleaned = normalize_input(text);
    if cleaned.as_str().is_empty() {
        return Err("文本为空".to_owned());
    }
    let id_chars = trim_str(settings.app_id.as_str());
    let key_chars = trim_str(settings.api_key.as_str());
    if id_chars.len() == 0 {
        return Err("请在设置中填写百度大模型翻译的「应用 ID（appid）」".to_owned());
    }
    if key_chars.len() == 0 {
        return Err("请在设置中填写百度大模型翻译的「API Key」".to_owned());
    }
    let url_chars = trim_str(settings.api_url.as_str());
    let url = if url_chars.len() == 0 {
        crate::settings::default_baidu_llm_api_url()
    } else {
        string_from_chars(&url_chars)
    };
    let target = resolve_target_language(cleaned.as_str());
    let mut auth = to_chars("Bearer ");
    append_chars(&mut auth, &key_chars);
    Ok(
        BaiduLlmRequest {
            url,
            authorization: string_from_chars(&auth),
            app_id: string_from_chars(&id_chars),
            source_text: cleaned,
            from: "auto".to_owned(),
            to: target.to_owned(),
        },
    )
}

pub open spec fn custom_llm_missing_api_key() -> Seq<char> {
    "请在设置中填写自定义大模型的 API Key"@
}

pub open spec fn custom_llm_missing_model() -> Seq<char> {
    "请在设置中填写自定义大模型的模型名称"@
}

pub open spec fn chat_system_prompt() -> Seq<char> {
    "你是专业翻译助手。只输出译文，不要解释、不要加引号或前后缀。必须保留原文中的换行结构（有几行输入就输出几行译文）。"@
}

/// The name of the target language in the prompt.
pub open spec fn target_label(target: Seq<char>) -> Seq<char> {
    if target == "zh"@ {
        "简体中文"@
    } else {
        "English"@
    }
}

pub open spec fn chat_user_prompt(target: Seq<char>, cleaned: Seq<char>) -> Seq<char> {
    "将以下文本译为"@ + target_label(target)
        + "。规则与百度通用翻译一致：中英混杂译成英文；纯中文译成英文；否则译成中文。保留换行。\n\n"@
        + cleaned
}

/// A request to a chat-completions model: a JSON POST of `model`, the two prompts
/// (and a temperature) to `url`, with the `authorization` header.
#[derive(Debug, Clone)]
pub struct ChatRequest {
    pub url: String,
    pub authorization: String,
    pub model: String,
    pub system_prompt: String,
    pub user_prompt: String,
    pub source_text: String,
    pub target: String,
}

/// What preparing a request to a chat-completions model gives: an error for an empty
/// text, a missing API key or a missing model name (all trimmed), else the request.
pub open spec fn custom_llm_prepared(
    text: Seq<char>,
    settings: CustomLlmSettings,
    r: Result<ChatRequest, String>,
) -> bool {
    let cleaned = trim(remove_cr(text));
    let key = trim(settings.api_key@);
    let model = trim(settings.model@);
    let target = target_language(cleaned);
    if cleaned.len() == 0 {
        r matches Err(e) && e@ == empty_text_error()
    } else if key.len() == 0 {
        r matches Err(e) && e@ == custom_llm_missing_api_key()
    } else if model.len() == 0 {
        r matches Err(e) && e@ == custom_llm_missing_model()
    } else {
        r matches Ok(req) && req.url@ == chat_url(settings.api_base@) && req.authorization@
            == "Bearer "@ + key && req.model@ == model && req.system_prompt@ == chat_system_prompt()
            && req.user_prompt@ == chat_user_prompt(target, cleaned) && req.source_text@ == cleaned
            && req.target@ == target
    }
}

pub fn prepare_custom_llm(text: &str, settings: &CustomLlmSettings) -> (r: Result<
    ChatRequest,
    String,
>)
    ensures
        custom_llm_prepared(text@, *settings, r),
{
    let cleaned = normalize_input(text);
    if cleaned.as_str().is_empty() {
        return Err("文本为空".to_owned());
    }
    let key_chars = trim_str(settings.api_key.as_str());
    if key_chars.len() == 0 {
        return Err("请在设置中填写自定义大模型的 API Key".to_owned());
    }
    let model_chars = trim_str(settings.model.as_str());
    if model_chars.len() == 0 {
        return Err("请在设置中填写自定义大模型的模型名称".to_owned());
    }
    let cleaned_chars = to_chars(cleaned.as_str());
    let to_english = contains_cjk(&cleaned_chars);
    let target = if to_english {
        "en"
    } else {
        "zh"
    };
    proof {
        reveal_strlit("en");
        reveal_strlit("zh");
        assert("en"@ != "zh"@) by {
            assert("en"@[0] != "zh"@[0]);
        }
        assert(target@ == target_language(cleaned@));
        assert(target_label(target@) == (if to_english {
            "English"@
        } else {
            "简体中文"@
        }));
    }
    let label = if to_english {
        "English"
    } else {
        "简体中文"
    };
    let mut user = to_chars("将以下文本译为");
    append_str(&mut user, label);
    append_str(
        &mut user,
        "。规则与百度通用翻译一致：中英混杂译成英文；纯中文译成英文；否则译成中文。保留换行。\n\n",
    );
    append_chars(&mut user, &cleaned_chars);
    let mut auth = to_chars("Bearer ");
    append_chars(&mut auth, &key_chars);
    Ok(
        ChatRequest {
            url: chat_completions_url(settings.api_base.as_str()),
            authorization: string_from_chars(&auth),
            model: string_from_chars(&model_chars),
            system_prompt:
                "你是专业翻译助手。只输出译文，不要解释、不要加引号或前后缀。必须保留原文中的换行结构（有几行输入就输出几行译文）。".to_owned(),
            user_prompt: string_from_chars(&user),
            source_text: cleaned,
            target: target.to_owned(),
        },
    )
}

/// A prepared request to the chosen service.
#[derive(Debug, Clone)]
pub enum TranslationRequest {
    BaiduGeneral(BaiduGeneralRequest),
    BaiduLlm(BaiduLlmRequest),
    Chat(ChatRequest),
}

/// Prepares the request to the service that `provider` chooses, with that service's
/// settings (`salt` serves Baidu's general translation only).
pub fn prepare_translation(
    provider: TranslationProvider,
    baidu_general: &BaiduGeneralSettings,
    baidu_llm: &BaiduLlmSettings,
    custom_llm: &CustomLlmSettings,
    text: &str,
    salt: &str,
) -> (r: Result<TranslationRequest, String>)
    ensures
        match provider {
            TranslationProvider::BaiduGeneral => match r {
                Ok(TranslationRequest::BaiduGeneral(q)) => baidu_general_prepared(
                    text@,
                    *baidu_general,
                    salt@,
                    Ok(q),
                ),
                Err(e) => baidu_general_prepared(text@, *baidu_general, salt@, Err(e)),
                _ => false,
            },
            TranslationProvider::BaiduLlm => match r {
                Ok(TranslationRequest::BaiduLlm(q)) => baidu_llm_prepared(text@, *baidu_llm, Ok(q)),
                Err(e) => baidu_llm_prepared(text@, *baidu_llm, Err(e)),
                _ => false,
            },
            TranslationProvider::Llm => match r {
                Ok(TranslationRequest::Chat(q)) => custom_llm_prepared(text@, *custom_llm, Ok(q)),
                Err(e) => custom_llm_prepared(text@, *custom_llm, Err(e)),
                _ => false,
            },
        },
{
    match provider {
        TranslationProvider::BaiduGeneral => match prepare_baidu_general(text, baidu_general, salt) {
            Ok(q) => Ok(TranslationRequest::BaiduGeneral(q)),
            Err(e) => Err(e),
        },
        TranslationProvider::BaiduLlm => match prepare_baidu_llm(text, baidu_llm) {
            Ok(q) => Ok(TranslationRequest::BaiduLlm(q)),
            Err(e) => Err(e),
        },
        TranslationProvider::Llm => match prepare_custom_llm(text, custom_llm) {
            Ok(q) => Ok(TranslationRequest::Chat(q)),
            Err(e) => Err(e),
        },
    }
}


// ---------------------------------------------------------------------------
// Replies
// ---------------------------------------------------------------------------

/// The `error_code` of a reply: a string, an integer, or anything else (kept as its
/// JSON text).
#[derive(Debug, Clone)]
pub enum ErrorCode {
    Text(String),
    Integer(i64),
    Json(String),
}

pub open spec fn error_code_text(c: ErrorCode) -> Seq<char> {
    match c {
        ErrorCode::Text(s) => s@,
        ErrorCode::Integer(n) => signed_decimal(n as int),
        ErrorCode::Json(s) => s@,
    }
}

/// A reply of one of Baidu's translation services, as far as it is read. A field is
/// `None` where the key is absent or does not hold the kind of value it is read as.
#[derive(Debug, Clone)]
pub struct BaiduReply {
    pub error_code: Option<ErrorCode>,
    /// `error_msg`, when a string.
    pub error_msg: Option<String>,
    /// `message`, when a string.
    pub message: Option<String>,
    /// `trans_result`, when an array: each item's `dst`, when a string.
    pub trans_result: Option<Vec<Option<String>>>,
    /// `from`, when a string.
    pub from: Option<String>,
    /// `result`, when a string.
    pub result: Option<String>,
    /// `data`, when present.
    pub data: Option<BaiduReplyData>,
}

/// The `data` member of a reply.
#[derive(Debug, Clone)]
pub struct BaiduReplyData {
    /// `data.result`, when a string.
    pub result: Option<String>,
    /// `data.from`.
    pub from: JsonField,
}

/// A reply of a chat-completions model, as far as it is read.
#[derive(Debug, Clone)]
pub struct ChatReply {
    /// `error.message`, when a string.
    pub error_message: Option<String>,
    /// `message`, when a string.
    pub message: Option<String>,
    /// `choices[0].message.content`, when a string.
    pub content: Option<String>,
}

pub open spec fn text_or_unknown(o: Option<Seq<char>>) -> Seq<char> {
    match o {
        Some(s) => s,
        None => "unknown"@,
    }
}

/// The error a reply with an `error_code` comes to.
pub open spec fn baidu_error_text(code: ErrorCode, msg: Option<Seq<char>>) -> Seq<char> {
    "百度翻译错误: "@ + error_code_text(code) + " "@ + text_or_unknown(msg)
}

/// The error a reply with a failing HTTP status comes to.
pub open spec fn baidu_http_error_text(reply: BaiduReply, status: u16) -> Seq<char> {
    match reply.error_code {
        Some(c) => baidu_error_text(c, reply.error_msg.deep_view()),
        None => "百度翻译 HTTP "@ + decimal(status as nat) + ": "@ + text_or_unknown(
            reply.message.deep_view(),
        ),
    }
}

fn text_or_unknown_chars(o: &Option<String>) -> (r: Vec<char>)
    ensures
        r@ == text_or_unknown(o.deep_view()),
{
    match o {
        Some(s) => to_chars(s.as_str()),
        None => to_chars("unknown"),
    }
}

fn baidu_error_from_value(code: &ErrorCode, msg: &Option<String>) -> (r: String)
    ensures
        r@ == baidu_error_text(*code, msg.deep_view()),
{
    let mut out = to_chars("百度翻译错误: ");
    match code {
        ErrorCode::Text(s) => append_str(&mut out, s.as_str()),
        ErrorCode::Integer(n) => {
            let digits = signed_decimal_chars(*n);
            append_chars(&mut out, &digits);
        },
        ErrorCode::Json(s) => append_str(&mut out, s.as_str()),
    }
    append_str(&mut out, " ");
    let m = text_or_unknown_chars(msg);
    append_chars(&mut out, &m);
    string_from_chars(&out)
}

fn baidu_http_error(v: &BaiduReply, status: u16) -> (r: String)
    ensures
        r@ == baidu_http_error_text(*v, status),
{
    if let Some(code) = &v.error_code {
        return baidu_error_from_value(code, &v.error_msg);
    }
    let mut out = to_chars("百度翻译 HTTP ");
    let digits = decimal_chars(status as u64);
    append_chars(&mut out, &digits);
    append_str(&mut out, ": ");
    let m = text_or_unknown_chars(&v.message);
    append_chars(&mut out, &m);
    string_from_chars(&out)
}

/// The texts that are present, in order.
pub open spec fn present_texts(items: Seq<Option<Seq<char>>>) -> Seq<Seq<char>>
    decreases items.len(),
{
    if items.len() == 0 {
        Seq::empty()
    } else {
        let rest = present_texts(items.drop_last());
        match items.last() {
            Some(t) => rest.push(t),
            None => rest,
        }
    }
}

/// The lines joined with `'\n'` between them.
pub open spec fn join_lines(parts: Seq<Seq<char>>) -> Seq<char>
    decreases parts.len(),
{
    if parts.len() == 0 {
        Seq::empty()
    } else if parts.len() == 1 {
        parts[0]
    } else {
        join_lines(parts.drop_last()) + seq!['\n'] + parts.last()
    }
}

/// The trimmed text, when there is one and it is not empty.
pub open spec fn nonempty_trimmed(o: Option<Seq<char>>) -> Option<Seq<char>> {
    match o {
        Some(s) => if trim(s).len() > 0 {
            Some(trim(s))
        } else {
            None
        },
        None => None,
    }
}

/// The translation (and the detected source language) that a reply without an error
/// code holds: the `dst` lines of `trans_result`, joined; else a non-empty `result`;
/// else a non-empty `data.result`.
pub open spec fn baidu_translation(reply: BaiduReply) -> Result<(Seq<char>, Seq<char>), Seq<char>> {
    let from = match reply.from {
        Some(f) => f@,
        None => "auto"@,
    };
    match reply.trans_result {
        Some(items) => {
            let parts = present_texts(items.deep_view());
            if parts.len() == 0 {
                Err(service_error())
            } else {
                Ok((join_lines(parts), from))
            }
        },
        None => match nonempty_trimmed(reply.result.deep_view()) {
            Some(t) => Ok((t, from)),
            None => match reply.data {
                Some(d) => match nonempty_trimmed(d.result.deep_view()) {
                    Some(t) => Ok(
                        (
                            t,
                            match d.from {
                                JsonField::Missing => from,
                                JsonField::Text(s) => s@,
                                JsonField::Other => "auto"@,
                            },
                        ),
                    ),
                    None => Err(service_error()),
                },
                None => Err(service_error()),
            },
        },
    }
}

fn join_present(items: &Vec<Option<String>>) -> (r: (Vec<char>, usize))
    ensures
        r.0@ == join_lines(present_texts(items.deep_view())),
        r.1 == present_texts(items.deep_view()).len(),
{
    let ghost all = items.deep_view();
    let mut out: Vec<char> = Vec::new();
    let mut count: usize = 0;
    let mut i: usize = 0;
    while i < items.len()
        invariant
            i <= items@.len(),
            all == items.deep_view(),
            all.len() == items@.len(),
            out@ == join_lines(present_texts(all.take(i as int))),
            count == present_texts(all.take(i as int)).len(),
            count <= i,
        decreases items.len() - i,
    {
        proof {
            assert(all.take(i as int + 1).drop_last() =~= all.take(i as int));
            assert(all.take(i as int + 1).last() == items@[i as int].deep_view());
        }
        match &items[i] {
            Some(t) => {
                let ghost p = present_texts(all.take(i as int));
                proof {
                    assert(p.push(t@).drop_last() =~= p);
                    assert(p.push(t@).last() == t@);
                }
                if count > 0 {
                    out.push('\n');
                }
                append_str(&mut out, t.as_str());
                count = count + 1;
                proof {
                    if p.len() == 0 {
                        assert(p.push(t@)[0] == t@);
                        assert(out@ =~= t@);
                    } else {
                        assert(out@ =~= join_lines(p) + seq!['\n'] + t@);
                    }
                }
            },
            None => {},
        }
        i = i + 1;
    }
    assert(all.take(items@.len() as int) =~= all);
    (out, count)
}

fn nonempty_trimmed_chars(o: &Option<String>) -> (r: Option<Vec<char>>)
    ensures
        match r {
            Some(v) => nonempty_trimmed(o.deep_view()) == Some(v@),
            None => nonempty_trimmed(o.deep_view()) is None,
        },
{
    match o {
        Some(s) => {
            let t = trim_str(s.as_str());
            if t.len() > 0 {
                Some(t)
            } else {
                None
            }
        },
        None => None,
    }
}

/// Reads the translation out of a reply; the original text is the selected text
/// itself (with its line breaks), not the lines the service split it into.
pub fn parse_baidu_translation(v: &BaiduReply, fallback_src: &str) -> (r: Result<
    (String, String, String),
    String,
>)
    ensures
        match baidu_translation(*v) {
            Ok((dst, from)) => r matches Ok((a, b, c)) && a@ == fallback_src@ && b@ == dst && c@
                == from,
            Err(m) => r matches Err(e) && e@ == m,
        },
{
    let from_top: String = match &v.from {
        Some(f) => f.clone(),
        None => "auto".to_owned(),
    };
    if let Some(items) = &v.trans_result {
        if items.len() == 0 {
            return Err("翻译服务返回异常".to_owned());
        }
        let (dst, count) = join_present(items);
        if count == 0 {
            return Err("翻译服务返回异常".to_owned());
        }
        return Ok((fallback_src.to_owned(), string_from_chars(&dst), from_top));
    }
    if let Some(dst) = nonempty_trimmed_chars(&v.result) {
        return Ok((fallback_src.to_owned(), string_from_chars(&dst), from_top));
    }
    if let Some(data) = &v.data {
        if let Some(dst) = nonempty_trimmed_chars(&data.result) {
            let from: String = match &data.from {
                JsonField::Missing => from_top,
                JsonField::Text(s) => s.clone(),
                JsonField::Other => "auto".to_owned(),
            };
            return Ok((fallback_src.to_owned(), string_from_chars(&dst), from));
        }
    }
    Err("翻译服务返回异常".to_owned())
}


// ---------------------------------------------------------------------------
// Finishing a translation
// ---------------------------------------------------------------------------

/// An HTTP status in the 2xx range (`StatusCode::is_success`).
pub open spec fn http_success(status: u16) -> bool {
    200 <= status && status < 300
}

/// What a parsed reply of one of Baidu's services comes to: its error code's error,
/// else the translation of `source` that it holds, else the error that it holds none.
pub open spec fn baidu_outcome(
    reply: BaiduReply,
    source: Seq<char>,
    r: Result<TranslationResult, String>,
) -> bool {
    match reply.error_code {
        Some(c) => r matches Err(e) && e@ == baidu_error_text(c, reply.error_msg.deep_view()),
        None => match baidu_translation(reply) {
            Ok((dst, from)) => r matches Ok(t) && t.original_text@ == source && t.translated_text@
                == dst && t.detected_source@ == from,
            Err(m) => r matches Err(e) && e@ == m,
        },
    }
}

pub fn http_success_status(status: u16) -> (r: bool)
    ensures
        r == http_success(status),
{
    200 <= status && status < 300
}

fn baidu_result(v: &BaiduReply, source: &str) -> (r: Result<TranslationResult, String>)
    ensures
        baidu_outcome(*v, source@, r),
{
    if let Some(code) = &v.error_code {
        return Err(baidu_error_from_value(code, &v.error_msg));
    }
    match parse_baidu_translation(v, source) {
        Ok((src, dst, from)) => Ok(
            TranslationResult { original_text: src, translated_text: dst, detected_source: from },
        ),
        Err(e) => Err(e),
    }
}

/// Finishes a translation by Baidu's general service from the HTTP status and the
/// reply (which is only read, and so only parsed, when the status is a success; `Err`
/// holds the text of the error that parsing it gave).
pub fn finish_baidu_general(
    request: &BaiduGeneralRequest,
    status: u16,
    reply: Result<BaiduReply, String>,
) -> (r: Result<TranslationResult, String>)
    ensures
        if !http_success(status) {
            r matches Err(e) && e@ == service_error()
        } else {
            match reply {
                Err(m) => r matches Err(e) && e@ == m@,
                Ok(v) => baidu_outcome(v, request.source_text@, r),
            }
        },
{
    if !http_success_status(status) {
        return Err("翻译服务返回异常".to_owned());
    }
    match reply {
        Err(m) => Err(m),
        Ok(v) => baidu_result(&v, request.source_text.as_str()),
    }
}

/// Finishes a translation by Baidu's large-model service from the HTTP status and the
/// reply (`Err` holds the text of the error that parsing it gave).
pub fn finish_baidu_llm(
    request: &BaiduLlmRequest,
    status: u16,
    reply: Result<BaiduReply, String>,
) -> (r: Result<TranslationResult, String>)
    ensures
        match reply {
            Err(m) => r matches Err(e) && e@ == m@,
            Ok(v) => if !http_success(status) {
                r matches Err(e) && e@ == baidu_http_error_text(v, status)
            } else {
                baidu_outcome(v, request.source_text@, r)
            },
        },
{
    match reply {
        Err(m) => Err(m),
        Ok(v) => {
            if !http_success_status(status) {
                return Err(baidu_http_error(&v, status));
            }
            baidu_result(&v, request.source_text.as_str())
        },
    }
}

/// The message of a failed chat-completions reply: `error.message`, else `message`,
/// else "unknown".
pub open spec fn chat_error_text(reply: ChatReply) -> Seq<char> {
    "大模型翻译错误: "@ + match reply.error_message {
        Some(m) => m@,
        None => text_or_unknown(reply.message.deep_view()),
    }
}

pub open spec fn chat_empty_error() -> Seq<char> {
    "大模型返回内容为空"@
}

/// The source language a chat translation reports: the other one of the pair.
pub open spec fn chat_detected_source(target: Seq<char>) -> Seq<char> {
    if target == "zh"@ {
        "en"@
    } else {
        "zh"@
    }
}

/// Finishes a translation by a chat-completions model from the HTTP status and the
/// reply (`Err` holds the text of the error that parsing it gave).
pub fn finish_custom_llm(request: &ChatRequest, status: u16, reply: Result<ChatReply, String>) -> (r:
    Result<TranslationResult, String>)
    ensures
        match reply {
            Err(m) => r matches Err(e) && e@ == m@,
            Ok(v) => if !http_success(status) {
                r matches Err(e) && e@ == chat_error_text(v)
            } else {
                match nonempty_trimmed(v.content.deep_view()) {
                    Some(t) => r matches Ok(res) && res.original_text@ == request.source_text@
                        && res.translated_text@ == t && res.detected_source@
                        == chat_detected_source(request.target@),
                    None => r matches Err(e) && e@ == chat_empty_error(),
                }
            },
        },
{
    let v = match reply {
        Err(m) => return Err(m),
        Ok(v) => v,
    };
    if !http_success_status(status) {
        let mut out = to_chars("大模型翻译错误: ");
        match &v.error_message {
            Some(m) => append_str(&mut out, m.as_str()),
            None => {
                let m = text_or_unknown_chars(&v.message);
                append_chars(&mut out, &m);
            },
        }
        return Err(string_from_chars(&out));
    }
    let translated = match nonempty_trimmed_chars(&v.content) {
        Some(t) => t,
        None => return Err("大模型返回内容为空".to_owned()),
    };
    let target = to_chars(request.target.as_str());
    let zh = to_chars("zh");
    let detected = if crate::text::chars_equal(&target, &zh) {
        "en"
    } else {
        "zh"
    };
    Ok(
        TranslationResult {
            original_text: request.source_text.clone(),
            translated_text: string_from_chars(&translated),
            detected_source: detected.to_owned(),
        },
    )
}


// ---------------------------------------------------------------------------
// Laws
// ---------------------------------------------------------------------------

/// Preparing a text for translation twice is preparing it once.
pub proof fn law_normalize_input_idempotent(text: Seq<char>)
    ensures
        trim(remove_cr(trim(remove_cr(text)))) == trim(remove_cr(text)),
{
    let x = remove_cr(text);
    let t = trim(x);
    lemma_remove_cr_no_cr(text);
    let start = lemma_trim_shape(x);
    assert(!t.contains('\r')) by {
        if t.contains('\r') {
            let k = choose|k: int| 0 <= k < t.len() && t[k] == '\r';
            assert(x[start + k] == '\r');
            assert(x.contains('\r'));
        }
    }
    lemma_remove_cr_identity(t);
    lemma_trim_idempotent(x);
}

/// Preparing a text for translation does not change the language it goes to.
pub proof fn law_target_survives_normalization(text: Seq<char>)
    ensures
        target_language(trim(remove_cr(text))) == target_language(text),
{
    let x = remove_cr(text);
    let t = trim(x);
    lemma_remove_cr_members(text);
    let start = lemma_trim_shape(x);
    if has_cjk(text) {
        let i = choose|i: int| 0 <= i < text.len() && #[trigger] is_cjk(text[i]);
        let c = text[i];
        assert(text.contains(c));
        assert(x.contains(c));
        let j = choose|j: int| 0 <= j < x.len() && x[j] == c;
        assert(!is_white_space(x[j]));
        assert(t[j - start] == c);
        assert(is_cjk(t[j - start]));
    }
    if has_cjk(t) {
        let i = choose|i: int| 0 <= i < t.len() && #[trigger] is_cjk(t[i]);
        let c = t[i];
        assert(x[start + i] == c);
        assert(x.contains(c));
        assert(text.contains(c));
        let k = choose|k: int| 0 <= k < text.len() && text[k] == c;
        assert(is_cjk(text[k]));
    }
}

/// The salt is always five decimal digits.
pub proof fn law_salt_five_digits(micros: Option<u128>)
    ensures
        decimal(salt_number(micros)).len() == 5,
        forall|k: int|
            0 <= k < 5 ==> '0' <= #[trigger] decimal(salt_number(micros))[k] && decimal(
                salt_number(micros),
            )[k] <= '9',
{
    let n = salt_number(micros);
    assert(10000 <= n <= 99999);
    reveal_with_fuel(decimal, 6);
    let d = decimal(n);
    assert(d == seq![
        hex_digit(n / 10000),
        hex_digit((n / 1000) % 10),
        hex_digit((n / 100) % 10),
        hex_digit((n / 10) % 10),
        hex_digit(n % 10),
    ]);
}

/// Whichever service is chosen, a text that is empty once line endings are normalised
/// and it is trimmed is refused with the same error.
pub proof fn law_empty_text_refused(
    text: Seq<char>,
    baidu_general: BaiduGeneralSettings,
    baidu_llm: BaiduLlmSettings,
    custom_llm: CustomLlmSettings,
    salt: Seq<char>,
    r1: Result<BaiduGeneralRequest, String>,
    r2: Result<BaiduLlmRequest, String>,
    r3: Result<ChatRequest, String>,
)
    requires
        trim(remove_cr(text)).len() == 0,
        baidu_general_prepared(text, baidu_general, salt, r1),
        baidu_llm_prepared(text, baidu_llm, r2),
        custom_llm_prepared(text, custom_llm, r3),
    ensures
        r1 matches Err(e) && e@ == empty_text_error(),
        r2 matches Err(e) && e@ == empty_text_error(),
        r3 matches Err(e) && e@ == empty_text_error(),
{
}


/// Every text holding a CJK unified ideograph (U+4E00 to U+9FFF) goes to English, and
/// every text without one goes to Chinese; the two targets differ.
pub proof fn law_target_language_block(s: Seq<char>)
    ensures
        (exists|k: int| 0 <= k < s.len() && '\u{4e00}' <= #[trigger] s[k] && s[k] <= '\u{9fff}')
            ==> target_language(s) == "en"@,
        (forall|k: int| 0 <= k < s.len() ==> !('\u{4e00}' <= #[trigger] s[k] && s[k] <= '\u{9fff}'))
            ==> target_language(s) == "zh"@,
        "en"@ != "zh"@,
{
    reveal_strlit("en");
    reveal_strlit("zh");
    assert("en"@[0] != "zh"@[0]);
    if exists|k: int| 0 <= k < s.len() && '\u{4e00}' <= #[trigger] s[k] && s[k] <= '\u{9fff}' {
        let k = choose|k: int| 0 <= k < s.len() && '\u{4e00}' <= #[trigger] s[k] && s[k] <= '\u{9fff}';
        assert(is_cjk(s[k]));
    }
    if has_cjk(s) {
        let k = choose|k: int| 0 <= k < s.len() && #[trigger] is_cjk(s[k]);
        assert('\u{4e00}' <= s[k] && s[k] <= '\u{9fff}');
    }
}

/// A one-character text goes to English exactly when the character is a CJK unified
/// ideograph (U+4E00 to U+9FFF).
pub proof fn law_target_language_char(c: char)
    ensures
        ('\u{4e00}' <= c && c <= '\u{9fff}') <==> target_language(seq![c]) == "en"@,
{
    law_target_language_block(seq![c]);
    let s = seq![c];
    assert(s[0] == c);
}

/// Joining lines: no lines give nothing, one line gives itself, and each further line
/// comes after a single `'\n'`.
pub proof fn law_join_lines(p: Seq<Seq<char>>, t: Seq<char>)
    ensures
        join_lines(Seq::empty()) == Seq::<char>::empty(),
        join_lines(seq![t]) == t,
        p.len() > 0 ==> join_lines(p.push(t)) == join_lines(p) + seq!['\n'] + t,
{
    assert(seq![t][0] == t);
    if p.len() > 0 {
        assert(p.push(t).drop_last() =~= p);
        assert(p.push(t).last() == t);
    }
}

/// The present texts keep every present text in order and skip the missing ones.
pub proof fn law_present_texts(items: Seq<Option<Seq<char>>>, t: Seq<char>)
    ensures
        present_texts(Seq::empty()) == Seq::<Seq<char>>::empty(),
        present_texts(items.push(Some(t))) == present_texts(items).push(t),
        present_texts(items.push(None)) == present_texts(items),
{
    assert(items.push(Some(t)).drop_last() =~= items);
    assert(items.push(None::<Seq<char>>).drop_last() =~= items);
}

/// A prepared request to Baidu's general translation asks for the normalised text,
/// from `auto`, to English when the text holds a CJK ideograph and to Chinese
/// otherwise, with the trimmed application ID, the salt and the MD5 signature.
pub proof fn law_baidu_general_query(
    text: Seq<char>,
    settings: BaiduGeneralSettings,
    salt: Seq<char>,
    req: BaiduGeneralRequest,
)
    requires
        baidu_general_prepared(text, settings, salt, Ok(req)),
    ensures
        ({
            let q = trim(remove_cr(text));
            let id = trim(settings.app_id@);
            let key = trim(settings.app_key@);
            let to: Seq<char> = if exists|k: int|
                0 <= k < q.len() && '\u{4e00}' <= #[trigger] q[k] && q[k] <= '\u{9fff}' {
                "en"@
            } else {
                "zh"@
            };
            &&& q.len() > 0 && id.len() > 0 && key.len() > 0
            &&& req.source_text@ == q
            &&& url_with_query(
                "https://fanyi-api.baidu.com/api/trans/vip/translate"@,
                seq![
                    ("q"@, q),
                    ("from"@, "auto"@),
                    ("to"@, to),
                    ("appid"@, id),
                    ("salt"@, salt),
                    ("sign"@, lower_hex(md5_digest(vstd::utf8::encode_utf8(id + q + salt + key)))),
                ],
            ) == Ok::<Seq<char>, Seq<char>>(req.url@)
        }),
{
    let q = trim(remove_cr(text));
    law_target_language_block(q);
}

/// A prepared request to Baidu's large-model translation goes to English exactly when
/// the normalised text holds a CJK ideograph, from `auto`.
pub proof fn law_baidu_llm_target(text: Seq<char>, settings: BaiduLlmSettings, req: BaiduLlmRequest)
    requires
        baidu_llm_prepared(text, settings, Ok(req)),
    ensures
        ({
            let q = trim(remove_cr(text));
            &&& req.source_text@ == q
            &&& req.from@ == "auto"@
            &&& (exists|k: int| 0 <= k < q.len() && '\u{4e00}' <= #[trigger] q[k] && q[k] <= '\u{9fff}')
                ==> req.to@ == "en"@
            &&& (forall|k: int| 0 <= k < q.len() ==> !('\u{4e00}' <= #[trigger] q[k] && q[k] <= '\u{9fff}'))
                ==> req.to@ == "zh"@
        }),
{
    law_target_language_block(trim(remove_cr(text)));
}

/// A prepared chat request goes to the chat-completions address of the configured base,
/// and to English exactly when the normalised text holds a CJK ideograph.
pub proof fn law_custom_llm_request(text: Seq<char>, settings: CustomLlmSettings, req: ChatRequest)
    requires
        custom_llm_prepared(text, settings, Ok(req)),
    ensures
        ({
            let q = trim(remove_cr(text));
            &&& req.url@ == chat_url(settings.api_base@)
            &&& req.source_text@ == q
            &&& req.authorization@ == "Bearer "@ + trim(settings.api_key@)
            &&& req.model@ == trim(settings.model@)
            &&& (exists|k: int| 0 <= k < q.len() && '\u{4e00}' <= #[trigger] q[k] && q[k] <= '\u{9fff}')
                ==> req.target@ == "en"@
            &&& (forall|k: int| 0 <= k < q.len() ==> !('\u{4e00}' <= #[trigger] q[k] && q[k] <= '\u{9fff}'))
                ==> req.target@ == "zh"@
        }),
{
    law_target_language_block(trim(remove_cr(text)));
}

/// The chat-completions address of an empty base is the default one.
pub proof fn law_chat_url_empty()
    ensures
        chat_url(Seq::empty()) == "https://api.openai.com/v1/chat/completions"@,
{
    assert(trim_start(Seq::<char>::empty()) == Seq::<char>::empty());
    assert(trim_end(Seq::<char>::empty()) == Seq::<char>::empty());
}

/// For a base that ends with `/v1` (with or without a trailing `'/'`, and with no white
/// space around it), the address is the base without the slash followed by
/// `/chat/completions`.
pub proof fn law_chat_url_v1(b: Seq<char>)
    requires
        b.len() >= 3,
        b.subrange(b.len() - 3, b.len() as int) == "/v1"@,
        !is_white_space(b[0]),
    ensures
        chat_url(b) == b + "/chat/completions"@,
        chat_url(b + "/"@) == b + "/chat/completions"@,
{
    reveal_strlit("/v1");
    reveal_strlit("/");
    reveal_strlit("/chat/completions");
    assert(b.last() == '1') by {
        assert(b[b.len() - 1] == b.subrange(b.len() - 3, b.len() as int)[2]);
    }
    lemma_plain_base(b);
    let suffix = chat_suffix();
    assert(!ends_with(b, suffix)) by {
        if ends_with(b, suffix) {
            assert(b[b.len() - 1] == b.subrange(b.len() - suffix.len(), b.len() as int)[suffix.len()
                - 1]);
        }
    }
    assert(ends_with(b, "/v1"@));
    let bs = b + "/"@;
    assert(bs[0] == b[0]);
    assert(bs.last() == '/');
    lemma_trim_start_at(bs, 0);
    assert(bs.subrange(0, bs.len() as int) =~= bs);
    lemma_trim_end_at(bs, bs.len() as int);
    assert(bs[b.len() as int] == '/');
    assert(bs[b.len() - 1] == b.last());
    lemma_trim_end_slashes_at(bs, b.len() as int);
    assert(bs.subrange(0, b.len() as int) =~= b);
}

/// A base without surrounding white space and without a trailing `'/'` is taken as it
/// is, and the address built from it ends with `/chat/completions`.
proof fn lemma_plain_base(b: Seq<char>)
    requires
        b.len() > 0,
        !is_white_space(b[0]),
        !is_white_space(b.last()),
        b.last() != '/',
    ensures
        trim_end_slashes(trim(b)) == b,
{
    lemma_trim_start_at(b, 0);
    assert(b.subrange(0, b.len() as int) =~= b);
    lemma_trim_end_at(b, b.len() as int);
    lemma_trim_end_slashes_at(b, b.len() as int);
}

/// A base that already ends with `/chat/completions` is the address itself, and one that
/// ends with neither that nor `/v1` gets `/v1/chat/completions` (for bases without
/// surrounding white space or a trailing `'/'`).
pub proof fn law_chat_url_other(b: Seq<char>)
    requires
        b.len() > 0,
        !is_white_space(b[0]),
        !is_white_space(b.last()),
        b.last() != '/',
    ensures
        ends_with(b, "/chat/completions"@) ==> chat_url(b) == b,
        !ends_with(b, "/chat/completions"@) && !ends_with(b, "/v1"@) ==> chat_url(b) == b
            + "/v1/chat/completions"@,
        ends_with(chat_url(b), "/chat/completions"@),
{
    reveal_strlit("/chat/completions");
    reveal_strlit("/v1/chat/completions");
    reveal_strlit("/v1");
    lemma_plain_base(b);
    law_chat_url_idempotent(b);
    let suffix = chat_suffix();
    let r = chat_url(b);
    if ends_with(b, suffix) {
    } else if ends_with(b, "/v1"@) {
        assert((b + suffix).subrange(r.len() - suffix.len(), r.len() as int) =~= suffix);
    } else {
        assert((b + "/v1/chat/completions"@).subrange(r.len() - suffix.len(), r.len() as int)
            =~= suffix);
    }
}


/// A chat translation reports the other language of the pair as its source: English
/// for a translation into Chinese, Chinese for one into English.
pub proof fn law_chat_detected_source()
    ensures
        chat_detected_source("zh"@) == "en"@,
        chat_detected_source("en"@) == "zh"@,
{
    reveal_strlit("en");
    reveal_strlit("zh");
    assert("en"@[0] != "zh"@[0]);
}

/// What a reply without an error code gives: the present `dst` lines of `trans_result`
/// joined (an error when none is present); without `trans_result`, the trimmed `result`;
/// else the trimmed `data.result`; else the service error. The source language is
/// `from`, or `auto`.
pub proof fn law_baidu_translation(reply: BaiduReply)
    ensures
        ({
            let from: Seq<char> = match reply.from {
                Some(f) => f@,
                None => "auto"@,
            };
            match reply.trans_result {
                Some(items) => {
                    let parts = present_texts(items.deep_view());
                    &&& parts.len() > 0 ==> baidu_translation(reply) == Ok::<
                        (Seq<char>, Seq<char>),
                        Seq<char>,
                    >((join_lines(parts), from))
                    &&& parts.len() == 0 ==> baidu_translation(reply) == Err::<
                        (Seq<char>, Seq<char>),
                        Seq<char>,
                    >("翻译服务返回异常"@)
                },
                None => match reply.result {
                    Some(r) => trim(r@).len() > 0 ==> baidu_translation(reply) == Ok::<
                        (Seq<char>, Seq<char>),
                        Seq<char>,
                    >((trim(r@), from)),
                    None => reply.data is None ==> baidu_translation(reply) == Err::<
                        (Seq<char>, Seq<char>),
                        Seq<char>,
                    >("翻译服务返回异常"@),
                },
            }
        }),
{
}

/// A reply with an error code is refused with that code and its message (or
/// "unknown"); one without, whose `trans_result` holds lines, translates the given
/// source text into those lines joined.
pub proof fn law_baidu_outcome(
    reply: BaiduReply,
    source: Seq<char>,
    r: Result<TranslationResult, String>,
)
    requires
        baidu_outcome(reply, source, r),
    ensures
        reply.error_code matches Some(c) ==> (r matches Err(e) && e@ == "百度翻译错误: "@
            + error_code_text(c) + " "@ + match reply.error_msg {
            Some(m) => m@,
            None => "unknown"@,
        }),
        reply.error_code is None ==> (reply.trans_result matches Some(items) ==> (present_texts(
            items.deep_view(),
        ).len() > 0 ==> (r matches Ok(t) && t.original_text@ == source && t.translated_text@
            == join_lines(present_texts(items.deep_view()))))),
        forall|n: i64| #[trigger] error_code_text(ErrorCode::Integer(n)) == signed_decimal(n as int),
{
}

} // verus!


