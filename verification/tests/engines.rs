use mytranslator::engines::gemini::{
    self, error_detail, plan_request, status_error, DEFAULT_MODEL, SYSTEM_PROMPT,
};
use mytranslator::engines::google::{self, query_params, ENDPOINT};
use mytranslator::engines::{
    lang_display, Engine, EngineContext, EngineError, EngineRegistry, GeminiEngine,
    GoogleFreeEngine, ResponseStep, TranslateRequest, TranslationEngine,
};
use mytranslator::json::Json;

fn s(text: &str) -> Json {
    Json::Str(text.to_string())
}

fn obj(entries: Vec<(&str, Json)>) -> Json {
    Json::Object(entries.into_iter().map(|(k, v)| (k.to_string(), v)).collect())
}

fn arr(items: Vec<Json>) -> Json {
    Json::Array(items)
}

fn num(text: &str) -> Json {
    Json::Number(text.to_string())
}

fn request(text: &str, target: &str) -> TranslateRequest {
    TranslateRequest { text: text.to_string(), source: "auto".to_string(), target: target.to_string() }
}

#[test]
fn parses_generate_content_response() {
    let body = obj(vec![(
        "candidates",
        arr(vec![obj(vec![
            ("content", obj(vec![("parts", arr(vec![obj(vec![("text", s("你好，世界\n"))])])), ("role", s("model"))])),
            ("finishReason", s("STOP")),
        ])]),
    )]);
    let r = gemini::parse_response(&body).unwrap();
    assert_eq!(r.text, "你好，世界");
    assert!(r.detected_source.is_none());
}

#[test]
fn skips_thought_parts() {
    let body = obj(vec![(
        "candidates",
        arr(vec![obj(vec![
            (
                "content",
                obj(vec![
                    (
                        "parts",
                        arr(vec![
                            obj(vec![
                                ("text", s("Let me think about this translation...")),
                                ("thought", Json::Bool(true)),
                            ]),
                            obj(vec![("text", s("你好"))]),
                        ]),
                    ),
                    ("role", s("model")),
                ]),
            ),
            ("finishReason", s("STOP")),
        ])]),
    )]);
    let r = gemini::parse_response(&body).unwrap();
    assert_eq!(r.text, "你好");
}

#[test]
fn surfaces_api_error_message() {
    let body = obj(vec![("error", obj(vec![("code", num("404")), ("message", s("model not found"))]))]);
    let err = gemini::parse_response(&body).unwrap_err();
    assert!(err.to_string().contains("model not found"));
}

#[test]
fn parses_multi_segment_response() {
    let body = arr(vec![
        arr(vec![
            arr(vec![s("你好。"), s("Hello."), Json::Null, Json::Null, num("10")]),
            arr(vec![s("世界。"), s("World."), Json::Null, Json::Null, num("10")]),
        ]),
        Json::Null,
        s("en"),
    ]);
    let r = google::parse_response(&body).unwrap();
    assert_eq!(r.text, "你好。世界。");
    assert_eq!(r.detected_source.as_deref(), Some("en"));
}

#[test]
fn rejects_unexpected_shape() {
    assert!(google::parse_response(&obj(vec![("error", s("nope"))])).is_err());
    assert!(google::parse_response(&arr(vec![arr(vec![]), Json::Null, s("en")])).is_err());
}

fn bad_response(r: Result<mytranslator::engines::TranslateResponse, EngineError>) -> String {
    match r {
        Err(EngineError::BadResponse(m)) => m,
        Err(e) => panic!("unexpected error {}", e.to_string()),
        Ok(r) => panic!("unexpected translation {}", r.text),
    }
}

#[test]
fn gemini_reports_shape_and_empty_translation() {
    assert_eq!(bad_response(gemini::parse_response(&obj(vec![]))), "unexpected response shape");
    let parts = |p: Vec<Json>| {
        obj(vec![("candidates", arr(vec![obj(vec![("content", obj(vec![("parts", arr(p))]))])]))])
    };
    assert_eq!(bad_response(gemini::parse_response(&parts(vec![]))), "empty translation");
    assert_eq!(
        bad_response(gemini::parse_response(&parts(vec![obj(vec![("text", s(" \n "))])]))),
        "empty translation"
    );
    let only_thought = parts(vec![obj(vec![("text", s("thinking")), ("thought", Json::Bool(true))])]);
    assert_eq!(bad_response(gemini::parse_response(&only_thought)), "empty translation");
}

#[test]
fn gemini_joins_parts_and_ignores_non_text() {
    let body = obj(vec![(
        "candidates",
        arr(vec![obj(vec![(
            "content",
            obj(vec![(
                "parts",
                arr(vec![
                    obj(vec![("text", s(" A"))]),
                    obj(vec![("text", s("B")), ("thought", Json::Bool(false))]),
                    obj(vec![("text", num("3"))]),
                    s("loose"),
                    obj(vec![("text", s("C "))]),
                ]),
            )]),
        )])]),
    )]);
    let r = gemini::parse_response(&body).unwrap();
    assert_eq!(r.text, "ABC");
    assert_eq!(r.engine, "gemini");
}

#[test]
fn gemini_candidates_may_be_an_object_keyed_by_index() {
    let body = obj(vec![(
        "candidates",
        obj(vec![("0", obj(vec![("content", obj(vec![("parts", arr(vec![obj(vec![("text", s("x"))])]))]))]))]),
    )]);
    assert_eq!(gemini::parse_response(&body).unwrap().text, "x");
}

#[test]
fn google_skips_segments_without_text() {
    let body = arr(vec![arr(vec![arr(vec![s("a")]), arr(vec![Json::Null, s("b")]), num("1"), arr(vec![s("c")])])]);
    let r = google::parse_response(&body).unwrap();
    assert_eq!(r.text, "ac");
    assert!(r.detected_source.is_none());
    assert_eq!(r.engine, "google");
    assert_eq!(bad_response(google::parse_response(&arr(vec![arr(vec![arr(vec![s("")])])]))), "empty translation");
    assert_eq!(bad_response(google::parse_response(&s("x"))), "unexpected response shape");
}

#[test]
fn error_messages() {
    assert_eq!(EngineError::Network("timeout".to_string()).to_string(), "網路請求失敗：timeout");
    assert_eq!(EngineError::MissingApiKey.to_string(), "尚未設定 API key，請到設定頁填入");
    assert_eq!(EngineError::InvalidApiKey(403).to_string(), "API key 無效或無權限（HTTP 403）");
    assert_eq!(EngineError::RateLimited.to_string(), "請求過於頻繁，請稍後再試或切換引擎");
    assert_eq!(EngineError::BadResponse("x".to_string()).to_string(), "翻譯服務回應異常：x");
}

#[test]
fn gemini_plan_needs_a_key() {
    let req = request("hi", "en");
    let none = EngineContext { api_key: None, model: None };
    assert!(matches!(plan_request(&req, &none), Err(EngineError::MissingApiKey)));
    let empty = EngineContext { api_key: Some(String::new()), model: None };
    assert!(matches!(plan_request(&req, &empty), Err(EngineError::MissingApiKey)));
}

#[test]
fn gemini_plan_for_gemini_model() {
    let req = request("Hello", "zh-TW");
    let ctx = EngineContext { api_key: Some("k1".to_string()), model: None };
    let g = plan_request(&req, &ctx).unwrap();
    assert_eq!(g.api_key, "k1");
    assert_eq!(
        g.url,
        format!("https://generativelanguage.googleapis.com/v1beta/models/{DEFAULT_MODEL}:generateContent")
    );
    assert_eq!(g.prompt, "Translate into Traditional Chinese (繁體中文):\n\nHello");
    assert_eq!(g.system_instruction.as_deref(), Some(SYSTEM_PROMPT));
}

#[test]
fn gemini_plan_for_gemma_model() {
    let req = request("Hello", "xx");
    let ctx = EngineContext { api_key: Some("k".to_string()), model: Some("gemma-3".to_string()) };
    let g = plan_request(&req, &ctx).unwrap();
    assert_eq!(g.url, "https://generativelanguage.googleapis.com/v1beta/models/gemma-3:generateContent");
    assert_eq!(g.prompt, format!("{SYSTEM_PROMPT}\n\nTranslate into xx:\n\nHello"));
    assert!(g.system_instruction.is_none());
}

#[test]
fn gemini_status_decisions() {
    assert!(matches!(gemini::on_status(500, false), ResponseStep::Retry));
    assert!(matches!(gemini::on_status(503, true), ResponseStep::ReadErrorDetail));
    assert!(matches!(gemini::on_status(401, false), ResponseStep::Fail(EngineError::InvalidApiKey(401))));
    assert!(matches!(gemini::on_status(403, true), ResponseStep::Fail(EngineError::InvalidApiKey(403))));
    assert!(matches!(gemini::on_status(429, false), ResponseStep::Fail(EngineError::RateLimited)));
    assert!(matches!(gemini::on_status(400, false), ResponseStep::ReadErrorDetail));
    assert!(matches!(gemini::on_status(302, false), ResponseStep::ReadErrorDetail));
    assert!(matches!(gemini::on_status(200, false), ResponseStep::ReadBody));
    assert!(matches!(gemini::on_status(299, true), ResponseStep::ReadBody));
}

#[test]
fn gemini_status_errors() {
    assert!(matches!(status_error(400, "API key not valid. Please pass a valid API key."), EngineError::InvalidApiKey(400)));
    match status_error(400, "bad field") {
        EngineError::BadResponse(m) => assert_eq!(m, "HTTP 400：bad field"),
        e => panic!("{}", e.to_string()),
    }
    match status_error(404, "") {
        EngineError::BadResponse(m) => assert_eq!(m, "HTTP 404"),
        e => panic!("{}", e.to_string()),
    }
    match status_error(500, "API key") {
        EngineError::BadResponse(m) => assert_eq!(m, "HTTP 500：API key"),
        e => panic!("{}", e.to_string()),
    }
}

#[test]
fn gemini_error_detail() {
    let body = obj(vec![("error", obj(vec![("message", s("quota"))]))]);
    assert_eq!(error_detail(Some(&body)), "quota");
    assert_eq!(error_detail(Some(&obj(vec![("error", s("quota"))]))), "");
    assert_eq!(error_detail(None), "");
}

#[test]
fn google_status_decisions() {
    assert!(matches!(google::on_status(429), ResponseStep::Fail(EngineError::RateLimited)));
    match google::on_status(503) {
        ResponseStep::Fail(EngineError::BadResponse(m)) => assert_eq!(m, "HTTP 503"),
        _ => panic!("expected a bad response"),
    }
    assert!(matches!(google::on_status(200), ResponseStep::ReadBody));
}

#[test]
fn google_query() {
    let q = query_params(&request("Hello", "ja"));
    let pairs: Vec<(&str, &str)> = q.iter().map(|(k, v)| (*k, v.as_str())).collect();
    assert_eq!(pairs, vec![("client", "gtx"), ("sl", "auto"), ("tl", "ja"), ("dt", "t"), ("q", "Hello")]);
    assert_eq!(ENDPOINT, "https://translate.googleapis.com/translate_a/single");
}

#[test]
fn language_names() {
    assert_eq!(lang_display("zh-TW"), "Traditional Chinese (繁體中文)");
    assert_eq!(lang_display("zh-CN"), "Simplified Chinese (简体中文)");
    assert_eq!(lang_display("en"), "English");
    assert_eq!(lang_display("ja"), "Japanese");
    assert_eq!(lang_display("ko"), "Korean");
    assert_eq!(lang_display("fr"), "French");
    assert_eq!(lang_display("de"), "German");
    assert_eq!(lang_display("es"), "Spanish");
    assert_eq!(lang_display("pt-BR"), "pt-BR");
}

#[test]
fn registry_lookup_and_list() {
    let r = EngineRegistry::new();
    assert_eq!(r.get("google"), Some(&Engine::Google(GoogleFreeEngine)));
    assert_eq!(r.get("gemini"), Some(&Engine::Gemini(GeminiEngine)));
    assert!(r.get("deepl").is_none());
    assert!(r.get("").is_none());
    let list = r.list();
    assert_eq!(list.len(), 2);
    assert_eq!((list[0].id, list[0].name, list[0].requires_key), ("google", "Google 翻譯", false));
    assert_eq!((list[1].id, list[1].name, list[1].requires_key), ("gemini", "Gemini AI", true));
    for info in &list {
        assert_eq!(r.get(info.id).unwrap().id(), info.id);
    }
}

#[test]
fn engine_context_default_is_empty() {
    let c = EngineContext::default();
    assert!(c.api_key.is_none() && c.model.is_none());
}

#[test]
fn listed_ids_are_distinct_and_found_again() {
    let r = EngineRegistry::new();
    let list = r.list();
    assert_ne!(list[0].id, list[1].id);
    for info in &list {
        let e = r.get(info.id).unwrap();
        assert_eq!(e.display_name(), info.name);
        assert_eq!(e.requires_key(), info.requires_key);
    }
    let again = r.list();
    assert_eq!(again.len(), list.len());
    for (a, b) in again.iter().zip(list.iter()) {
        assert_eq!((a.id, a.name, a.requires_key), (b.id, b.name, b.requires_key));
    }
}
