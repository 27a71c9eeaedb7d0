use vstd::prelude::*;

use crate::engines::{first_with_id, Engine, EngineContext, EngineRegistry, TranslateRequest};
use crate::settings::AppSettings;

verus! {

/// The message for an engine identifier that no engine has.
pub open spec fn unknown_engine_message(engine_id: Seq<char>) -> Seq<char> {
    "未知的翻譯引擎："@ + engine_id
}

/// The engine a translation asks for, or the message that it is unknown.
pub fn find_engine<'a>(registry: &'a EngineRegistry, engine_id: &str) -> (r: Result<&'a Engine, String>)
    ensures
        match r {
            Ok(e) => exists|i: int| first_with_id(registry.engines(), engine_id@, i) && registry.engines()[i] == *e,
            Err(m) => {
                &&& m@ == unknown_engine_message(engine_id@)
                &&& forall|i: int|
                    0 <= i < registry.engines().len() ==> registry.engines()[i].spec_id() != engine_id@
            },
        },
{
    match registry.get(engine_id) {
        Some(e) => Ok(e),
        None => Err(String::from_str("未知的翻譯引擎：").concat(engine_id)),
    }
}

/// The Gemini engine, which key validation uses.
pub fn validation_engine(registry: &EngineRegistry) -> (r: Result<&Engine, String>)
    ensures
        match r {
            Ok(e) => exists|i: int| first_with_id(registry.engines(), "gemini"@, i) && registry.engines()[i] == *e,
            Err(m) => {
                &&& m@ == "engine missing"@
                &&& forall|i: int|
                    0 <= i < registry.engines().len() ==> registry.engines()[i].spec_id() != "gemini"@
            },
        },
{
    match registry.get("gemini") {
        Some(e) => Ok(e),
        None => Err(String::from_str("engine missing")),
    }
}

/// Context and request of a translation of `text` into `target`, with the
/// stored key of the engine and the configured model; the source language is
/// detected.
pub fn translation_inputs(text: String, target: String, api_key: Option<String>, settings: &AppSettings) -> (r: (
    EngineContext,
    TranslateRequest,
))
    ensures
        r.0.api_key == api_key,
        r.0.model == Some(settings.gemini_model),
        r.1.text == text,
        r.1.source@ == "auto"@,
        r.1.target == target,
{
    let ctx = EngineContext { api_key, model: Some(settings.gemini_model.clone()) };
    let req = TranslateRequest { text, source: String::from_str("auto"), target };
    (ctx, req)
}

/// Whether validating `key` falls back on the stored key: it does when `key`
/// is empty.
pub fn uses_stored_key(key: &str) -> (r: bool)
    ensures
        r == (key@.len() == 0),
{
    key.unicode_len() == 0
}

/// Context and request of the minimal translation that checks a Gemini key:
/// `key`, or the stored key when `key` is empty, with the configured model,
/// translating "hi" into the configured target language.
pub fn validation_inputs(key: String, stored_key: Option<String>, settings: &AppSettings) -> (r: (
    EngineContext,
    TranslateRequest,
))
    ensures
        r.0.api_key == (if key@.len() == 0 {
            stored_key
        } else {
            Some(key)
        }),
        r.0.model == Some(settings.gemini_model),
        r.1.text@ == "hi"@,
        r.1.source@ == "auto"@,
        r.1.target == settings.target_lang,
{
    let api_key = if uses_stored_key(key.as_str()) {
        stored_key
    } else {
        Some(key)
    };
    let ctx = EngineContext { api_key, model: Some(settings.gemini_model.clone()) };
    let req = TranslateRequest {
        text: String::from_str("hi"),
        source: String::from_str("auto"),
        target: settings.target_lang.clone(),
    };
    (ctx, req)
}

} // verus!
