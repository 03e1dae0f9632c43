use piggytrans::field::JsonField;
use piggytrans::settings::{
    BaiduGeneralSettings, BaiduLlmSettings, CustomLlmSettings, TranslationProvider,
};
use piggytrans::translate::{
    baidu_sign, chat_completions_url, finish_baidu_general, finish_baidu_llm, finish_custom_llm,
    normalize_input, parse_baidu_translation, prepare_baidu_general, prepare_baidu_llm,
    prepare_custom_llm, prepare_translation, random_salt, resolve_target_language,
    salt_from_micros, BaiduReply, BaiduReplyData, ChatReply, ErrorCode, TranslationRequest,
};

fn s(x: &str) -> Option<String> {
    Some(x.to_string())
}

fn empty_reply() -> BaiduReply {
    BaiduReply {
        error_code: None,
        error_msg: None,
        message: None,
        trans_result: None,
        from: None,
        result: None,
        data: None,
    }
}

fn general_settings() -> BaiduGeneralSettings {
    BaiduGeneralSettings { app_id: " 2015063000000001 ".to_string(), app_key: "12345678".to_string() }
}

#[test]
fn target_language_rule() {
    assert_eq!(resolve_target_language("hello world"), "zh");
    assert_eq!(resolve_target_language("你好 world"), "en");
    assert_eq!(resolve_target_language("纯中文"), "en");
    assert_eq!(resolve_target_language(""), "zh");
    assert_eq!(resolve_target_language("こんにちは"), "zh");
}

#[test]
fn input_is_normalized() {
    assert_eq!(normalize_input(" a\r\nb "), "a\nb");
    assert_eq!(normalize_input(&normalize_input(" a\r\nb ")), "a\nb");
}

#[test]
fn chat_urls() {
    assert_eq!(chat_completions_url(""), "https://api.openai.com/v1/chat/completions");
    assert_eq!(chat_completions_url("  //  "), "https://api.openai.com/v1/chat/completions");
    assert_eq!(chat_completions_url("https://x.com/v1/"), "https://x.com/v1/chat/completions");
    assert_eq!(chat_completions_url(" https://x.com "), "https://x.com/v1/chat/completions");
    assert_eq!(
        chat_completions_url("https://x.com/api/chat/completions//"),
        "https://x.com/api/chat/completions"
    );
    let once = chat_completions_url("https://y.org/base/");
    assert_eq!(once, "https://y.org/base/v1/chat/completions");
    assert_eq!(chat_completions_url(&once), once);
}

#[test]
fn salts() {
    assert_eq!(salt_from_micros(Some(123456)), "43456");
    assert_eq!(salt_from_micros(Some(0)), "10000");
    assert_eq!(salt_from_micros(Some(89999)), "99999");
    assert_eq!(salt_from_micros(None), "55555");
    let r = random_salt();
    assert_eq!(r.len(), 5);
    assert!(r.chars().all(|c| c.is_ascii_digit()));
}

#[test]
fn signatures() {
    assert_eq!(baidu_sign("", "", "", ""), "d41d8cd98f00b204e9800998ecf8427e");
    assert_eq!(
        baidu_sign("2015063000000001", "apple", "1435660288", "12345678"),
        "f89f9594663708c1605f3d736d01d2d4"
    );
}

#[test]
fn baidu_general_request_address() {
    let req = prepare_baidu_general(" apple\r\n", &general_settings(), "1435660288").unwrap();
    assert_eq!(req.source_text, "apple");
    assert_eq!(
        req.url,
        "https://fanyi-api.baidu.com/api/trans/vip/translate?q=apple&from=auto&to=zh&appid=2015063000000001&salt=1435660288&sign=f89f9594663708c1605f3d736d01d2d4"
    );
    let req = prepare_baidu_general("a b", &general_settings(), "1").unwrap();
    assert!(req.url.starts_with("https://fanyi-api.baidu.com/api/trans/vip/translate?q=a+b&from=auto&to=zh&"));
}

#[test]
fn baidu_general_request_errors() {
    assert_eq!(prepare_baidu_general(" \r\n ", &general_settings(), "1").unwrap_err(), "文本为空");
    let missing = BaiduGeneralSettings { app_id: "id".to_string(), app_key: "  ".to_string() };
    assert_eq!(
        prepare_baidu_general("text", &missing, "1").unwrap_err(),
        "请在设置中填写百度通用翻译的「应用 ID」和「密钥」"
    );
}

#[test]
fn baidu_llm_requests() {
    let settings = BaiduLlmSettings { api_url: "  ".to_string(), app_id: " id ".to_string(), api_key: " k ".to_string() };
    let req = prepare_baidu_llm("你好", &settings).unwrap();
    assert_eq!(req.url, "https://fanyi-api.baidu.com/ait/api/aiTextTranslate");
    assert_eq!(req.authorization, "Bearer k");
    assert_eq!(req.app_id, "id");
    assert_eq!(req.source_text, "你好");
    assert_eq!(req.from, "auto");
    assert_eq!(req.to, "en");
    let custom = BaiduLlmSettings { api_url: " https://b.example/t ".to_string(), ..settings.clone() };
    assert_eq!(prepare_baidu_llm("x", &custom).unwrap().url, "https://b.example/t");
    let no_id = BaiduLlmSettings { app_id: String::new(), ..settings.clone() };
    assert_eq!(prepare_baidu_llm("x", &no_id).unwrap_err(), "请在设置中填写百度大模型翻译的「应用 ID（appid）」");
    let no_key = BaiduLlmSettings { api_key: String::new(), ..settings };
    assert_eq!(prepare_baidu_llm("x", &no_key).unwrap_err(), "请在设置中填写百度大模型翻译的「API Key」");
    assert_eq!(prepare_baidu_llm("", &no_key).unwrap_err(), "文本为空");
}

#[test]
fn custom_llm_requests() {
    let settings = CustomLlmSettings {
        api_base: "https://llm.example/v1/".to_string(),
        api_key: "sk".to_string(),
        model: " m1 ".to_string(),
    };
    let req = prepare_custom_llm("Hello\r\nworld", &settings).unwrap();
    assert_eq!(req.url, "https://llm.example/v1/chat/completions");
    assert_eq!(req.authorization, "Bearer sk");
    assert_eq!(req.model, "m1");
    assert_eq!(req.target, "zh");
    assert_eq!(req.source_text, "Hello\nworld");
    assert_eq!(
        req.user_prompt,
        "将以下文本译为简体中文。规则与百度通用翻译一致：中英混杂译成英文；纯中文译成英文；否则译成中文。保留换行。\n\nHello\nworld"
    );
    assert!(req.system_prompt.starts_with("你是专业翻译助手。"));
    let req = prepare_custom_llm("中文", &settings).unwrap();
    assert!(req.user_prompt.starts_with("将以下文本译为English。"));
    let no_key = CustomLlmSettings { api_key: " ".to_string(), ..settings.clone() };
    assert_eq!(prepare_custom_llm("x", &no_key).unwrap_err(), "请在设置中填写自定义大模型的 API Key");
    let no_model = CustomLlmSettings { model: String::new(), ..settings };
    assert_eq!(prepare_custom_llm("x", &no_model).unwrap_err(), "请在设置中填写自定义大模型的模型名称");
}

#[test]
fn prepare_dispatches_on_provider() {
    let bg = general_settings();
    let bl = BaiduLlmSettings { api_url: String::new(), app_id: "i".to_string(), api_key: "k".to_string() };
    let cl = CustomLlmSettings { api_base: String::new(), api_key: "k".to_string(), model: "m".to_string() };
    assert!(matches!(prepare_translation(TranslationProvider::BaiduGeneral, &bg, &bl, &cl, "x", "1"), Ok(TranslationRequest::BaiduGeneral(_))));
    assert!(matches!(prepare_translation(TranslationProvider::BaiduLlm, &bg, &bl, &cl, "x", "1"), Ok(TranslationRequest::BaiduLlm(_))));
    assert!(matches!(prepare_translation(TranslationProvider::Llm, &bg, &bl, &cl, "x", "1"), Ok(TranslationRequest::Chat(_))));
    for p in [TranslationProvider::BaiduGeneral, TranslationProvider::BaiduLlm, TranslationProvider::Llm] {
        assert_eq!(prepare_translation(p, &bg, &bl, &cl, " \r\n", "1").unwrap_err(), "文本为空");
    }
}

#[test]
fn parse_trans_result_lines() {
    let mut v = empty_reply();
    v.trans_result = Some(vec![s("a"), None, s("b")]);
    v.from = s("en");
    let (src, dst, from) = parse_baidu_translation(&v, "line a\nline b").unwrap();
    assert_eq!((src.as_str(), dst.as_str(), from.as_str()), ("line a\nline b", "a\nb", "en"));
    v.trans_result = Some(vec![]);
    assert_eq!(parse_baidu_translation(&v, "x").unwrap_err(), "翻译服务返回异常");
    v.trans_result = Some(vec![None]);
    assert_eq!(parse_baidu_translation(&v, "x").unwrap_err(), "翻译服务返回异常");
}

#[test]
fn parse_result_and_data() {
    let mut v = empty_reply();
    v.result = s("  bonjour ");
    let (_, dst, from) = parse_baidu_translation(&v, "x").unwrap();
    assert_eq!((dst.as_str(), from.as_str()), ("bonjour", "auto"));
    let mut v = empty_reply();
    v.result = s("   ");
    v.from = s("zh");
    v.data = Some(BaiduReplyData { result: s(" hi "), from: JsonField::Missing });
    let (_, dst, from) = parse_baidu_translation(&v, "x").unwrap();
    assert_eq!((dst.as_str(), from.as_str()), ("hi", "zh"));
    v.data = Some(BaiduReplyData { result: s("hi"), from: JsonField::Other });
    assert_eq!(parse_baidu_translation(&v, "x").unwrap().2, "auto");
    v.data = Some(BaiduReplyData { result: s("hi"), from: JsonField::Text("jp".to_string()) });
    assert_eq!(parse_baidu_translation(&v, "x").unwrap().2, "jp");
    v.data = Some(BaiduReplyData { result: None, from: JsonField::Missing });
    assert_eq!(parse_baidu_translation(&v, "x").unwrap_err(), "翻译服务返回异常");
}

#[test]
fn finish_general_translation() {
    let req = prepare_baidu_general("apple", &general_settings(), "1").unwrap();
    let mut v = empty_reply();
    v.trans_result = Some(vec![s("苹果")]);
    v.from = s("en");
    let r = finish_baidu_general(&req, 200, Ok(v.clone())).unwrap();
    assert_eq!(r.original_text, "apple");
    assert_eq!(r.translated_text, "苹果");
    assert_eq!(r.detected_source, "en");
    assert_eq!(finish_baidu_general(&req, 500, Ok(v.clone())).unwrap_err(), "翻译服务返回异常");
    assert_eq!(finish_baidu_general(&req, 200, Err("bad json".to_string())).unwrap_err(), "bad json");
    v.error_code = Some(ErrorCode::Text("54001".to_string()));
    v.error_msg = s("Invalid Sign");
    assert_eq!(finish_baidu_general(&req, 200, Ok(v)).unwrap_err(), "百度翻译错误: 54001 Invalid Sign");
}

#[test]
fn finish_llm_translation_errors() {
    let settings = BaiduLlmSettings { api_url: String::new(), app_id: "i".to_string(), api_key: "k".to_string() };
    let req = prepare_baidu_llm("apple", &settings).unwrap();
    let mut v = empty_reply();
    v.message = s("bad");
    assert_eq!(finish_baidu_llm(&req, 401, Ok(v.clone())).unwrap_err(), "百度翻译 HTTP 401: bad");
    v.message = None;
    assert_eq!(finish_baidu_llm(&req, 503, Ok(v.clone())).unwrap_err(), "百度翻译 HTTP 503: unknown");
    v.error_code = Some(ErrorCode::Integer(-52003));
    assert_eq!(finish_baidu_llm(&req, 401, Ok(v.clone())).unwrap_err(), "百度翻译错误: -52003 unknown");
    v.error_code = Some(ErrorCode::Json("null".to_string()));
    assert_eq!(finish_baidu_llm(&req, 200, Ok(v.clone())).unwrap_err(), "百度翻译错误: null unknown");
    assert_eq!(finish_baidu_llm(&req, 500, Err("eof".to_string())).unwrap_err(), "eof");
    let mut ok = empty_reply();
    ok.result = s("苹果");
    let r = finish_baidu_llm(&req, 200, Ok(ok)).unwrap();
    assert_eq!((r.original_text.as_str(), r.translated_text.as_str(), r.detected_source.as_str()), ("apple", "苹果", "auto"));
}

#[test]
fn finish_chat_translation() {
    let settings = CustomLlmSettings { api_base: String::new(), api_key: "k".to_string(), model: "m".to_string() };
    let req = prepare_custom_llm("hello", &settings).unwrap();
    let reply = ChatReply { error_message: None, message: None, content: s("  你好 ") };
    let r = finish_custom_llm(&req, 200, Ok(reply)).unwrap();
    assert_eq!((r.original_text.as_str(), r.translated_text.as_str(), r.detected_source.as_str()), ("hello", "你好", "en"));
    let reply = ChatReply { error_message: s("quota"), message: s("other"), content: None };
    assert_eq!(finish_custom_llm(&req, 429, Ok(reply)).unwrap_err(), "大模型翻译错误: quota");
    let reply = ChatReply { error_message: None, message: None, content: None };
    assert_eq!(finish_custom_llm(&req, 400, Ok(reply)).unwrap_err(), "大模型翻译错误: unknown");
    let reply = ChatReply { error_message: None, message: None, content: s(" ") };
    assert_eq!(finish_custom_llm(&req, 200, Ok(reply)).unwrap_err(), "大模型返回内容为空");
    let req_zh = prepare_custom_llm("中文", &settings).unwrap();
    let reply = ChatReply { error_message: None, message: None, content: s("Chinese") };
    assert_eq!(finish_custom_llm(&req_zh, 200, Ok(reply)).unwrap().detected_source, "zh");
}

#[test]
fn normalization_keeps_target_language() {
    for text in [" 你好\r\n", "\r\nhello ", "\u{3000}mixed 中文 text\r", ""] {
        assert_eq!(resolve_target_language(&normalize_input(text)), resolve_target_language(text));
    }
}

#[test]
fn signature_is_lower_hex() {
    let sig = baidu_sign("id", "文本", "12345", "key");
    assert_eq!(sig.len(), 32);
    assert!(sig.chars().all(|c| c.is_ascii_digit() || ('a'..='f').contains(&c)));
}
