use vstd::prelude::*;

use super::{
    lang_display, lang_name, EngineContext, EngineError, ResponseStep, TranslateRequest,
    TranslateResponse, TranslationEngine,
};
use crate::json::{at_path, pointer, Json};
use crate::text::{
    contains, contains_seq, decimal, is_prefix, is_ws, lemma_trimmed_edges, starts_with, to_decimal,
    trim, trimmed,
};

verus! {

/// The model used when the settings name none.
pub const DEFAULT_MODEL: &'static str = "gemini-3.1-flash-lite";

/// The instruction that makes the model answer with the translation only.
pub const SYSTEM_PROMPT: &'static str = "You are a translation engine. Translate the text given by the user into the requested target language. Output ONLY the translation with the original formatting preserved. Do not add explanations, notes, or quotation marks.";

/// Gemini AI translation with the user's own API key.
#[derive(Debug, Clone, Copy, PartialEq, Eq, Structural)]
pub struct GeminiEngine;

impl TranslationEngine for GeminiEngine {
    fn id(&self) -> (r: &'static str)
        ensures
            r@ == "gemini"@,
    {
        "gemini"
    }

    fn display_name(&self) -> (r: &'static str)
        ensures
            r@ == "Gemini AI"@,
    {
        "Gemini AI"
    }

    fn requires_key(&self) -> (r: bool)
        ensures
            r,
    {
        true
    }
}

/// The request to send to the Gemini API: where, with which key, the user
/// message, and the system instruction when the model accepts one.
#[derive(Debug, Clone)]
pub struct GeminiRequest {
    pub url: String,
    pub api_key: String,
    pub prompt: String,
    pub system_instruction: Option<String>,
}

/// The key to use: a stored key that is not empty.
pub open spec fn usable_key(key: Option<String>) -> Option<Seq<char>> {
    match key {
        Some(k) => if k@.len() > 0 {
            Some(k@)
        } else {
            None
        },
        None => None,
    }
}

/// The model to use: the configured one, else the default.
pub open spec fn model_of(ctx: EngineContext) -> Seq<char> {
    match ctx.model {
        Some(m) => m@,
        None => DEFAULT_MODEL@,
    }
}

/// Gemma models take no system instruction; it goes into the user message.
pub open spec fn is_gemma(model: Seq<char>) -> bool {
    is_prefix("gemma"@, model)
}

/// The endpoint of `model`.
pub open spec fn model_url(model: Seq<char>) -> Seq<char> {
    "https://generativelanguage.googleapis.com/v1beta/models/"@ + model + ":generateContent"@
}

/// The user message asking for a translation of `req`.
pub open spec fn user_message(req: TranslateRequest) -> Seq<char> {
    "Translate into "@ + lang_name(req.target@) + ":\n\n"@ + req.text@
}

/// The text sent as the user message for `model`.
pub open spec fn prompt_for(model: Seq<char>, req: TranslateRequest) -> Seq<char> {
    if is_gemma(model) {
        SYSTEM_PROMPT@ + "\n\n"@ + user_message(req)
    } else {
        user_message(req)
    }
}

/// Builds the request for `req`; fails when no usable API key is given.
pub fn plan_request(req: &TranslateRequest, ctx: &EngineContext) -> (r: Result<GeminiRequest, EngineError>)
    ensures
        match r {
            Ok(g) => {
                &&& usable_key(ctx.api_key) == Some(g.api_key@)
                &&& g.url@ == model_url(model_of(*ctx))
                &&& g.prompt@ == prompt_for(model_of(*ctx), *req)
                &&& match g.system_instruction {
                    Some(s) => !is_gemma(model_of(*ctx)) && s@ == SYSTEM_PROMPT@,
                    None => is_gemma(model_of(*ctx)),
                }
            },
            Err(e) => usable_key(ctx.api_key) is None && e == EngineError::MissingApiKey,
        },
{
    let key: &str = match &ctx.api_key {
        Some(k) => {
            if k.as_str().unicode_len() == 0 {
                return Err(EngineError::MissingApiKey);
            }
            k.as_str()
        },
        None => {
            return Err(EngineError::MissingApiKey);
        },
    };
    let model: &str = match &ctx.model {
        Some(m) => m.as_str(),
        None => DEFAULT_MODEL,
    };
    let url = String::from_str("https://generativelanguage.googleapis.com/v1beta/models/").concat(
        model,
    ).concat(":generateContent");
    let user_text = String::from_str("Translate into ").concat(lang_display(req.target.as_str())).concat(
        ":\n\n",
    ).concat(req.text.as_str());
    let gemma = starts_with(model, "gemma");
    let prompt = if gemma {
        String::from_str(SYSTEM_PROMPT).concat("\n\n").concat(user_text.as_str())
    } else {
        user_text
    };
    let system_instruction = if gemma {
        None
    } else {
        Some(String::from_str(SYSTEM_PROMPT))
    };
    Ok(GeminiRequest { url, api_key: String::from_str(key), prompt, system_instruction })
}

/// What follows a response with HTTP `status`; `retried` tells whether the
/// request was already sent a second time. A server error (5xx) is retried
/// once; 401 and 403 mean a bad key; 429 means rate limiting; any other status
/// outside 2xx needs the error body; 2xx carries the translation.
pub open spec fn status_step(status: u16, retried: bool) -> ResponseStep {
    if status >= 500 && !retried {
        ResponseStep::Retry
    } else if status == 401 || status == 403 {
        ResponseStep::Fail(EngineError::InvalidApiKey(status))
    } else if status == 429 {
        ResponseStep::Fail(EngineError::RateLimited)
    } else if !(200 <= status < 300) {
        ResponseStep::ReadErrorDetail
    } else {
        ResponseStep::ReadBody
    }
}

/// Decides what to do with a response of HTTP `status`.
pub fn on_status(status: u16, retried: bool) -> (r: ResponseStep)
    ensures
        r == status_step(status, retried),
{
    if status >= 500 && !retried {
        ResponseStep::Retry
    } else if status == 401 || status == 403 {
        ResponseStep::Fail(EngineError::InvalidApiKey(status))
    } else if status == 429 {
        ResponseStep::Fail(EngineError::RateLimited)
    } else if !(200 <= status && status < 300) {
        ResponseStep::ReadErrorDetail
    } else {
        ResponseStep::ReadBody
    }
}

/// The pointer to the error message of an API error body.
pub open spec fn error_path() -> Seq<Seq<char>> {
    seq!["error"@, "message"@]
}

/// The pointer to the parts of the first candidate.
pub open spec fn parts_path() -> Seq<Seq<char>> {
    seq!["candidates"@, "0"@, "content"@, "parts"@]
}

/// The error message an API error body carries, if any.
pub open spec fn error_message(body: Json) -> Option<Seq<char>> {
    match at_path(body, error_path()) {
        Some(v) => v.str_of(),
        None => None,
    }
}

/// The error message of an error body, or nothing when the body could not be
/// read or carries none.
pub fn error_detail(body: Option<&Json>) -> (r: String)
    ensures
        r@ == match body {
            Some(b) => match error_message(*b) {
                Some(m) => m,
                None => Seq::empty(),
            },
            None => Seq::empty(),
        },
{
    match body {
        Some(b) => {
            let path: [&str; 2] = ["error", "message"];
            assert(path@.map_values(|t: &str| t@) =~= error_path());
            match pointer(b, &path) {
                Some(v) => match v.as_str() {
                    Some(m) => String::from_str(m),
                    None => String::new(),
                },
                None => String::new(),
            }
        },
        None => String::new(),
    }
}

/// The message of a failed request: "HTTP <status>", followed by the detail
/// when there is one.
pub open spec fn http_failure_message(status: u16, detail: Seq<char>) -> Seq<char> {
    if detail.len() == 0 {
        "HTTP "@ + decimal(status as nat)
    } else {
        "HTTP "@ + decimal(status as nat) + "："@ + detail
    }
}

/// The error for a failed request with HTTP `status` and error detail
/// `detail`: a 400 whose detail mentions the API key is a bad key, anything
/// else a bad response.
pub fn status_error(status: u16, detail: &str) -> (r: EngineError)
    ensures
        if status == 400 && contains_seq(detail@, "API key"@) {
            r == EngineError::InvalidApiKey(400)
        } else {
            r matches EngineError::BadResponse(m) && m@ == http_failure_message(status, detail@)
        },
{
    if status == 400 && contains(detail, "API key") {
        return EngineError::InvalidApiKey(400);
    }
    let code = to_decimal(status as u64);
    if detail.unicode_len() == 0 {
        EngineError::BadResponse(String::from_str("HTTP ").concat(code.as_str()))
    } else {
        EngineError::BadResponse(
            String::from_str("HTTP ").concat(code.as_str()).concat("：").concat(detail),
        )
    }
}

/// The text a candidate part contributes: its text, unless it is marked as
/// the model's thinking.
pub open spec fn part_text(part: Json) -> Seq<char> {
    let thought = match part.get_key("thought"@) {
        Some(t) => t.bool_of() == Some(true),
        None => false,
    };
    if thought {
        Seq::empty()
    } else {
        match part.get_key("text"@) {
            Some(t) => match t.str_of() {
                Some(s) => s,
                None => Seq::empty(),
            },
            None => Seq::empty(),
        }
    }
}

/// The texts of `parts`, joined in order.
pub open spec fn parts_text(parts: Seq<Json>) -> Seq<char>
    decreases parts.len(),
{
    if parts.len() == 0 {
        Seq::empty()
    } else {
        parts_text(parts.drop_last()) + part_text(parts.last())
    }
}

/// The parts of the first candidate, when they form an array.
pub open spec fn candidate_parts(body: Json) -> Option<Seq<Json>> {
    match at_path(body, parts_path()) {
        Some(v) => v.array_of(),
        None => None,
    }
}

/// What a generateContent response gives: the trimmed translation, or the
/// message of a bad response.
pub open spec fn outcome(body: Json) -> Result<Seq<char>, Seq<char>> {
    match candidate_parts(body) {
        None => Err(
            match error_message(body) {
                Some(m) => m,
                None => "unexpected response shape"@,
            },
        ),
        Some(parts) => {
            let t = trimmed(parts_text(parts));
            if t.len() == 0 {
                Err("empty translation"@)
            } else {
                Ok(t)
            }
        },
    }
}

fn part_text_of(part: &Json) -> (r: &str)
    ensures
        r@ == part_text(*part),
{
    proof {
        reveal_strlit("");
    }
    let thought = match part.get("thought") {
        Some(t) => t.as_bool() == Some(true),
        None => false,
    };
    if thought {
        return "";
    }
    match part.get("text") {
        Some(t) => match t.as_str() {
            Some(s) => s,
            None => "",
        },
        None => "",
    }
}

/// Reads a generateContent response.
pub fn parse_response(body: &Json) -> (r: Result<TranslateResponse, EngineError>)
    ensures
        match r {
            Ok(resp) => {
                &&& outcome(*body) == Ok::<Seq<char>, Seq<char>>(resp.text@)
                &&& resp.detected_source is None
                &&& resp.engine@ == "gemini"@
            },
            Err(e) => e matches EngineError::BadResponse(m) && outcome(*body) == Err::<
                Seq<char>,
                Seq<char>,
            >(m@),
        },
{
    let path: [&str; 4] = ["candidates", "0", "content", "parts"];
    assert(path@.map_values(|t: &str| t@) =~= parts_path());
    let parts = match pointer(body, &path) {
        Some(v) => v.as_array(),
        None => None,
    };
    let parts = match parts {
        Some(p) => p,
        None => {
            let epath: [&str; 2] = ["error", "message"];
            assert(epath@.map_values(|t: &str| t@) =~= error_path());
            let detail = match pointer(body, &epath) {
                Some(v) => match v.as_str() {
                    Some(m) => String::from_str(m),
                    None => String::from_str("unexpected response shape"),
                },
                None => String::from_str("unexpected response shape"),
            };
            return Err(EngineError::BadResponse(detail));
        },
    };
    let mut joined = String::new();
    let n = parts.len();
    for i in 0..n
        invariant
            n == parts@.len(),
            joined@ == parts_text(parts@.take(i as int)),
    {
        assert(parts@.take(i + 1).drop_last() =~= parts@.take(i as int));
        joined.append(part_text_of(&parts[i]));
    }
    assert(parts@.take(n as int) =~= parts@);
    let text = trim(joined.as_str());
    if text.as_str().unicode_len() == 0 {
        return Err(EngineError::BadResponse(String::from_str("empty translation")));
    }
    Ok(TranslateResponse { text, detected_source: None, engine: "gemini" })
}

/// A translation read from a response is never empty and neither starts nor
/// ends with whitespace.
pub proof fn law_translation_is_trimmed(body: Json)
    ensures
        outcome(body) matches Ok(t) ==> t.len() > 0 && !is_ws(t[0]) && !is_ws(t.last()),
{
    if let Some(parts) = candidate_parts(body) {
        lemma_trimmed_edges(parts_text(parts));
    }
}

/// Parts marked as the model's thinking never reach the translation: a part
/// with `"thought": true` contributes nothing, whatever text it carries.
pub proof fn law_thought_parts_skipped(parts: Seq<Json>, thought: Json)
    requires
        thought.get_key("thought"@) == Some(Json::Bool(true)),
    ensures
        parts_text(parts.push(thought)) == parts_text(parts),
{
    assert(parts.push(thought).drop_last() =~= parts);
}

/// A server error is retried exactly once: on the first answer any 5xx
/// status asks for a retry, on the second no status does.
pub proof fn law_server_error_retried_once(status: u16)
    ensures
        (status_step(status, false) == ResponseStep::Retry) == (status >= 500),
        status_step(status, true) != ResponseStep::Retry,
{
}

/// The parts' texts are concatenated unchanged: a part that is not marked as
/// thinking and whose `text` is the string `x` adds exactly `x`; a part
/// without a string `text` adds nothing.
pub proof fn law_parts_concatenate(parts: Seq<Json>, part: Json, x: String)
    ensures
        part.get_key("thought"@) != Some(Json::Bool(true)) && part.get_key("text"@) == Some(
            Json::Str(x),
        ) ==> parts_text(parts.push(part)) == parts_text(parts) + x@,
        part.get_key("text"@) is None || !(part.get_key("text"@).unwrap() is Str) ==> parts_text(
            parts.push(part),
        ) == parts_text(parts),
        parts_text(Seq::empty()) == Seq::<char>::empty(),
{
    assert(parts.push(part).drop_last() =~= parts);
}

/// How each class of HTTP status is answered: 401 and 403 are a bad key and
/// 429 rate limiting whether or not the request was retried; 2xx carries the
/// translation; a server error after the retry, and every other status
/// outside 2xx, needs the error body.
pub proof fn law_status_classes(status: u16, retried: bool)
    ensures
        status == 401 || status == 403 ==> status_step(status, retried) == ResponseStep::Fail(
            EngineError::InvalidApiKey(status),
        ),
        status == 429 ==> status_step(status, retried) == ResponseStep::Fail(EngineError::RateLimited),
        200 <= status < 300 ==> status_step(status, retried) == ResponseStep::ReadBody,
        status >= 500 && retried ==> status_step(status, retried) == ResponseStep::ReadErrorDetail,
        (status < 200 || 300 <= status < 500) && status != 401 && status != 403 && status != 429
            ==> status_step(status, retried) == ResponseStep::ReadErrorDetail,
{
}

} // verus!
