use vstd::prelude::*;

pub mod gemini;
pub mod google;

pub use gemini::GeminiEngine;
pub use google::GoogleFreeEngine;

use crate::text::{decimal, str_eq, to_decimal};

verus! {

/// A translation request.
#[derive(Debug, Clone)]
pub struct TranslateRequest {
    pub text: String,
    /// Language code of the text; "auto" asks the engine to detect it.
    pub source: String,
    pub target: String,
}

/// A finished translation.
#[derive(Debug, Clone)]
pub struct TranslateResponse {
    pub text: String,
    pub detected_source: Option<String>,
    pub engine: &'static str,
}

/// What the engines need from the settings, resolved by the caller.
#[derive(Debug, Clone)]
pub struct EngineContext {
    pub api_key: Option<String>,
    pub model: Option<String>,
}

impl Default for EngineContext {
    fn default() -> (r: Self)
        ensures
            r.api_key is None,
            r.model is None,
    {
        EngineContext { api_key: None, model: None }
    }
}

/// Why a translation failed.
#[derive(Debug)]
pub enum EngineError {
    Network(String),
    MissingApiKey,
    InvalidApiKey(u16),
    RateLimited,
    BadResponse(String),
}

impl EngineError {
    /// The message shown to the user for this error.
    pub open spec fn message(&self) -> Seq<char> {
        match self {
            EngineError::Network(e) => "網路請求失敗："@ + e@,
            EngineError::MissingApiKey => "尚未設定 API key，請到設定頁填入"@,
            EngineError::InvalidApiKey(code) => "API key 無效或無權限（HTTP "@ + decimal(
                *code as nat,
            ) + "）"@,
            EngineError::RateLimited => "請求過於頻繁，請稍後再試或切換引擎"@,
            EngineError::BadResponse(detail) => "翻譯服務回應異常："@ + detail@,
        }
    }

    /// The message shown to the user for this error.
    pub fn to_string(&self) -> (r: String)
        ensures
            r@ == self.message(),
    {
        match self {
            EngineError::Network(e) => String::from_str("網路請求失敗：").concat(e.as_str()),
            EngineError::MissingApiKey => String::from_str("尚未設定 API key，請到設定頁填入"),
            EngineError::InvalidApiKey(code) => {
                let digits = to_decimal(*code as u64);
                String::from_str("API key 無效或無權限（HTTP ").concat(digits.as_str()).concat(
                    "）",
                )
            },
            EngineError::RateLimited => String::from_str("請求過於頻繁，請稍後再試或切換引擎"),
            EngineError::BadResponse(detail) => String::from_str("翻譯服務回應異常：").concat(
                detail.as_str(),
            ),
        }
    }
}

/// What a caller does next after seeing an HTTP status.
#[derive(Debug)]
pub enum ResponseStep {
    /// Send the same request once more.
    Retry,
    /// Read the error body and pass its detail on.
    ReadErrorDetail,
    /// Read the body as a translation.
    ReadBody,
    /// Give up with this error.
    Fail(EngineError),
}

/// A translation engine.
pub trait TranslationEngine {
    fn id(&self) -> &'static str;

    fn display_name(&self) -> &'static str;

    fn requires_key(&self) -> bool;
}

/// The engines the application offers.
#[derive(Debug, Clone, Copy, PartialEq, Eq, Structural)]
pub enum Engine {
    Google(GoogleFreeEngine),
    Gemini(GeminiEngine),
}

impl Engine {
    pub open spec fn spec_id(self) -> Seq<char> {
        match self {
            Engine::Google(_) => "google"@,
            Engine::Gemini(_) => "gemini"@,
        }
    }

    pub open spec fn spec_name(self) -> Seq<char> {
        match self {
            Engine::Google(_) => "Google 翻譯"@,
            Engine::Gemini(_) => "Gemini AI"@,
        }
    }

    pub open spec fn spec_requires_key(self) -> bool {
        match self {
            Engine::Google(_) => false,
            Engine::Gemini(_) => true,
        }
    }
}

impl TranslationEngine for Engine {
    fn id(&self) -> (r: &'static str)
        ensures
            r@ == self.spec_id(),
    {
        match self {
            Engine::Google(e) => e.id(),
            Engine::Gemini(e) => e.id(),
        }
    }

    fn display_name(&self) -> (r: &'static str)
        ensures
            r@ == self.spec_name(),
    {
        match self {
            Engine::Google(e) => e.display_name(),
            Engine::Gemini(e) => e.display_name(),
        }
    }

    fn requires_key(&self) -> (r: bool)
        ensures
            r == self.spec_requires_key(),
    {
        match self {
            Engine::Google(e) => e.requires_key(),
            Engine::Gemini(e) => e.requires_key(),
        }
    }
}

/// What the settings page shows of an engine.
#[derive(Debug, Clone)]
pub struct EngineInfo {
    pub id: &'static str,
    pub name: &'static str,
    pub requires_key: bool,
}

/// `i` is the first position in `engines` whose engine has the identifier `id`.
pub open spec fn first_with_id(engines: Seq<Engine>, id: Seq<char>, i: int) -> bool {
    &&& 0 <= i < engines.len()
    &&& engines[i].spec_id() == id
    &&& forall|j: int| 0 <= j < i ==> engines[j].spec_id() != id
}

/// The engines, looked up by identifier.
pub struct EngineRegistry {
    engines: Vec<Engine>,
}

impl EngineRegistry {
    /// The engines held, in order.
    pub closed spec fn engines(&self) -> Seq<Engine> {
        self.engines@
    }

    /// A registry always holds exactly the built-in engines.
    #[verifier::type_invariant]
    spec fn holds_builtin_engines(&self) -> bool {
        self.engines@ == builtin_engines()
    }

    /// The registry of the built-in engines: Google first, then Gemini.
    pub fn new() -> (r: Self)
        ensures
            r.engines() == builtin_engines(),
    {
        let mut engines: Vec<Engine> = Vec::new();
        engines.push(Engine::Google(GoogleFreeEngine));
        engines.push(Engine::Gemini(GeminiEngine));
        assert(engines@ =~= builtin_engines());
        EngineRegistry { engines }
    }

    /// The first engine with identifier `id`.
    pub fn get(&self, id: &str) -> (r: Option<&Engine>)
        ensures
            self.engines() == builtin_engines(),
            match r {
                Some(e) => exists|i: int| first_with_id(self.engines(), id@, i) && self.engines()[i] == *e,
                None => forall|i: int| 0 <= i < self.engines().len() ==> self.engines()[i].spec_id() != id@,
            },
    {
        proof {
            use_type_invariant(self);
        }
        let n = self.engines.len();
        for i in 0..n
            invariant
                n == self.engines@.len(),
                self.engines@ == builtin_engines(),
                forall|j: int| 0 <= j < i ==> self.engines@[j].spec_id() != id@,
        {
            let e = &self.engines[i];
            if str_eq(e.id(), id) {
                assert(first_with_id(self.engines(), id@, i as int));
                return Some(e);
            }
        }
        None
    }

    /// Identifier, display name and key requirement of each engine, in order.
    /// The identifiers are distinct, and looking one up gives back the engine
    /// it was listed for.
    pub fn list(&self) -> (r: Vec<EngineInfo>)
        ensures
            self.engines() == builtin_engines(),
            r@.len() == self.engines().len(),
            forall|i: int|
                0 <= i < r@.len() ==> first_with_id(self.engines(), (#[trigger] r@[i]).id@, i),
            forall|i: int, j: int|
                0 <= i < r@.len() && 0 <= j < r@.len() && i != j ==> (#[trigger] r@[i]).id@
                    != (#[trigger] r@[j]).id@,
            forall|i: int|
                0 <= i < r@.len() ==> {
                    &&& (#[trigger] r@[i]).id@ == self.engines()[i].spec_id()
                    &&& r@[i].name@ == self.engines()[i].spec_name()
                    &&& r@[i].requires_key == self.engines()[i].spec_requires_key()
                },
    {
        proof {
            use_type_invariant(self);
        }
        let mut out: Vec<EngineInfo> = Vec::new();
        let n = self.engines.len();
        for i in 0..n
            invariant
                n == self.engines@.len(),
                self.engines@ == builtin_engines(),
                out@.len() == i,
                forall|k: int|
                    0 <= k < i ==> {
                        &&& (#[trigger] out@[k]).id@ == self.engines@[k].spec_id()
                        &&& out@[k].name@ == self.engines@[k].spec_name()
                        &&& out@[k].requires_key == self.engines@[k].spec_requires_key()
                    },
        {
            let e = &self.engines[i];
            out.push(EngineInfo { id: e.id(), name: e.display_name(), requires_key: e.requires_key() });
        }
        proof {
            assert forall|i: int| 0 <= i < out@.len() implies first_with_id(
                self.engines(),
                (#[trigger] out@[i]).id@,
                i,
            ) by {
                law_builtin_lookup_by_listed_id(i);
            }
            assert forall|i: int, j: int|
                0 <= i < out@.len() && 0 <= j < out@.len() && i != j implies (#[trigger] out@[i]).id@
                != (#[trigger] out@[j]).id@ by {
                law_builtin_lookup_by_listed_id(i);
                law_builtin_lookup_by_listed_id(j);
            }
        }
        out
    }
}

/// The language name given to a language model for a code; unknown codes
/// are passed through unchanged.
pub open spec fn lang_name(code: Seq<char>) -> Seq<char> {
    if code == "zh-TW"@ {
        "Traditional Chinese (繁體中文)"@
    } else if code == "zh-CN"@ {
        "Simplified Chinese (简体中文)"@
    } else if code == "en"@ {
        "English"@
    } else if code == "ja"@ {
        "Japanese"@
    } else if code == "ko"@ {
        "Korean"@
    } else if code == "fr"@ {
        "French"@
    } else if code == "de"@ {
        "German"@
    } else if code == "es"@ {
        "Spanish"@
    } else {
        code
    }
}

/// The language name given to a language model for a code.
pub fn lang_display<'a>(code: &'a str) -> (r: &'a str)
    ensures
        r@ == lang_name(code@),
{
    if str_eq(code, "zh-TW") {
        "Traditional Chinese (繁體中文)"
    } else if str_eq(code, "zh-CN") {
        "Simplified Chinese (简体中文)"
    } else if str_eq(code, "en") {
        "English"
    } else if str_eq(code, "ja") {
        "Japanese"
    } else if str_eq(code, "ko") {
        "Korean"
    } else if str_eq(code, "fr") {
        "French"
    } else if str_eq(code, "de") {
        "German"
    } else if str_eq(code, "es") {
        "Spanish"
    } else {
        code
    }
}

/// The built-in engines, in the order the registry holds them.
pub open spec fn builtin_engines() -> Seq<Engine> {
    seq![Engine::Google(GoogleFreeEngine), Engine::Gemini(GeminiEngine)]
}

/// Every built-in engine is found again by its own identifier: the
/// identifiers are distinct, so a lookup by the identifier the list shows
/// gives back that engine.
pub proof fn law_builtin_lookup_by_listed_id(i: int)
    requires
        0 <= i < builtin_engines().len(),
    ensures
        first_with_id(builtin_engines(), builtin_engines()[i].spec_id(), i),
{
    reveal_strlit("google");
    reveal_strlit("gemini");
    assert(builtin_engines()[0].spec_id() != builtin_engines()[1].spec_id()) by {
        assert("google"@[1] != "gemini"@[1]);
    }
}

/// Error messages carry their detail: a network error and a bad response end
/// with what went wrong, a bad key names its HTTP status.
pub proof fn law_messages_carry_detail(e: EngineError)
    ensures
        e matches EngineError::Network(d) ==> e.message().subrange(
            e.message().len() - d@.len(),
            e.message().len() as int,
        ) == d@,
        e matches EngineError::BadResponse(d) ==> e.message().subrange(
            e.message().len() - d@.len(),
            e.message().len() as int,
        ) == d@,
        e matches EngineError::InvalidApiKey(code) ==> crate::text::contains_seq(
            e.message(),
            decimal(code as nat),
        ),
{
    match e {
        EngineError::Network(d) => {
            let p = "網路請求失敗："@;
            assert((p + d@).subrange(p.len() as int, (p + d@).len() as int) =~= d@);
        },
        EngineError::BadResponse(d) => {
            let p = "翻譯服務回應異常："@;
            assert((p + d@).subrange(p.len() as int, (p + d@).len() as int) =~= d@);
        },
        EngineError::InvalidApiKey(code) => {
            let p = "API key 無效或無權限（HTTP "@;
            let m = p + decimal(code as nat) + "）"@;
            assert(m.subrange(p.len() as int, (p.len() + decimal(code as nat).len()) as int) =~= decimal(
                code as nat,
            ));
            assert(crate::text::occurs_at(m, decimal(code as nat), p.len() as int));
        },
        _ => {},
    }
}

} // verus!
