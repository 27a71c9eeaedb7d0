use vstd::prelude::*;

use super::{EngineError, ResponseStep, TranslateRequest, TranslateResponse, TranslationEngine};
use crate::json::Json;
use crate::text::{decimal, to_decimal};

verus! {

/// The free web endpoint.
pub const ENDPOINT: &'static str = "https://translate.googleapis.com/translate_a/single";

/// Google Translate's free web endpoint (client=gtx); needs no API key.
/// It is unofficial and may rate-limit (429).
#[derive(Debug, Clone, Copy, PartialEq, Eq, Structural)]
pub struct GoogleFreeEngine;

impl TranslationEngine for GoogleFreeEngine {
    fn id(&self) -> (r: &'static str)
        ensures
            r@ == "google"@,
    {
        "google"
    }

    fn display_name(&self) -> (r: &'static str)
        ensures
            r@ == "Google 翻譯"@,
    {
        "Google 翻譯"
    }

    fn requires_key(&self) -> (r: bool)
        ensures
            !r,
    {
        false
    }
}

/// The query string of a request for `req`, as name/value pairs in order:
/// client=gtx, sl=source, tl=target, dt=t, q=text.
pub fn query_params(req: &TranslateRequest) -> (r: Vec<(&'static str, String)>)
    ensures
        r@.len() == 5,
        r@[0].0@ == "client"@ && r@[0].1@ == "gtx"@,
        r@[1].0@ == "sl"@ && r@[1].1@ == req.source@,
        r@[2].0@ == "tl"@ && r@[2].1@ == req.target@,
        r@[3].0@ == "dt"@ && r@[3].1@ == "t"@,
        r@[4].0@ == "q"@ && r@[4].1@ == req.text@,
{
    let mut r: Vec<(&'static str, String)> = Vec::new();
    r.push(("client", String::from_str("gtx")));
    r.push(("sl", req.source.clone()));
    r.push(("tl", req.target.clone()));
    r.push(("dt", String::from_str("t")));
    r.push(("q", req.text.clone()));
    r
}

/// Decides what to do with a response of HTTP `status`: 429 is rate
/// limiting, any other status outside 2xx a bad response, 2xx carries the
/// translation.
pub fn on_status(status: u16) -> (r: ResponseStep)
    ensures
        status == 429 ==> r == ResponseStep::Fail(EngineError::RateLimited),
        status != 429 && !(200 <= status < 300) ==> (r matches ResponseStep::Fail(
            EngineError::BadResponse(m),
        ) && m@ == "HTTP "@ + decimal(status as nat)),
        200 <= status < 300 ==> r == ResponseStep::ReadBody,
{
    if status == 429 {
        return ResponseStep::Fail(EngineError::RateLimited);
    }
    if !(200 <= status && status < 300) {
        let code = to_decimal(status as u64);
        return ResponseStep::Fail(
            EngineError::BadResponse(String::from_str("HTTP ").concat(code.as_str())),
        );
    }
    ResponseStep::ReadBody
}

/// The text a segment contributes: its first element when that is a string.
pub open spec fn segment_text(seg: Json) -> Seq<char> {
    match seg.get_index(0) {
        Some(v) => match v.str_of() {
            Some(s) => s,
            None => Seq::empty(),
        },
        None => Seq::empty(),
    }
}

/// The texts of `segments`, joined in order.
pub open spec fn segments_text(segments: Seq<Json>) -> Seq<char>
    decreases segments.len(),
{
    if segments.len() == 0 {
        Seq::empty()
    } else {
        segments_text(segments.drop_last()) + segment_text(segments.last())
    }
}

/// The translated segments: the first element of the body, when an array.
pub open spec fn body_segments(body: Json) -> Option<Seq<Json>> {
    match body.get_index(0) {
        Some(v) => v.array_of(),
        None => None,
    }
}

/// The detected source language: the third element of the body, when a string.
pub open spec fn detected_language(body: Json) -> Option<Seq<char>> {
    match body.get_index(2) {
        Some(v) => v.str_of(),
        None => None,
    }
}

/// What a response body gives: the joined translation, or the message of a
/// bad response.
pub open spec fn outcome(body: Json) -> Result<Seq<char>, Seq<char>> {
    match body_segments(body) {
        None => Err("unexpected response shape"@),
        Some(segments) => {
            let t = segments_text(segments);
            if t.len() == 0 {
                Err("empty translation"@)
            } else {
                Ok(t)
            }
        },
    }
}

fn segment_text_of(seg: &Json) -> (r: &str)
    ensures
        r@ == segment_text(*seg),
{
    proof {
        reveal_strlit("");
    }
    match seg.at(0) {
        Some(v) => match v.as_str() {
            Some(s) => s,
            None => "",
        },
        None => "",
    }
}

/// Reads a response body: a nested array whose first element lists the
/// translated segments (each with its translation first) and whose third
/// element is the detected source language.
pub fn parse_response(body: &Json) -> (r: Result<TranslateResponse, EngineError>)
    ensures
        match r {
            Ok(resp) => {
                &&& outcome(*body) == Ok::<Seq<char>, Seq<char>>(resp.text@)
                &&& match resp.detected_source {
                    Some(d) => detected_language(*body) == Some(d@),
                    None => detected_language(*body) is None,
                }
                &&& resp.engine@ == "google"@
            },
            Err(e) => e matches EngineError::BadResponse(m) && outcome(*body) == Err::<
                Seq<char>,
                Seq<char>,
            >(m@),
        },
{
    let segments = match body.at(0) {
        Some(v) => v.as_array(),
        None => None,
    };
    let segments = match segments {
        Some(s) => s,
        None => {
            return Err(EngineError::BadResponse(String::from_str("unexpected response shape")));
        },
    };
    let mut text = String::new();
    let n = segments.len();
    for i in 0..n
        invariant
            n == segments@.len(),
            text@ == segments_text(segments@.take(i as int)),
    {
        assert(segments@.take(i + 1).drop_last() =~= segments@.take(i as int));
        text.append(segment_text_of(&segments[i]));
    }
    assert(segments@.take(n as int) =~= segments@);
    if text.as_str().unicode_len() == 0 {
        return Err(EngineError::BadResponse(String::from_str("empty translation")));
    }
    let detected_source = match body.at(2) {
        Some(v) => match v.as_str() {
            Some(d) => Some(String::from_str(d)),
            None => None,
        },
        None => None,
    };
    Ok(TranslateResponse { text, detected_source, engine: "google" })
}

/// The translation is the plain concatenation of the segments' translated
/// strings, unchanged (line breaks and spaces kept): a segment whose first
/// element is the string `x` adds exactly `x`; any other segment adds nothing.
pub proof fn law_segments_concatenate(segments: Seq<Json>, seg: Json, x: String)
    ensures
        seg.get_index(0) == Some(Json::Str(x)) ==> segments_text(segments.push(seg))
            == segments_text(segments) + x@,
        seg.get_index(0) is None || !(seg.get_index(0).unwrap() is Str) ==> segments_text(
            segments.push(seg),
        ) == segments_text(segments),
        segments_text(Seq::empty()) == Seq::<char>::empty(),
{
    assert(segments.push(seg).drop_last() =~= segments);
}

} // verus!
