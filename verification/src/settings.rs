use vstd::prelude::*;

use crate::engines::gemini::DEFAULT_MODEL;

verus! {

/// The file of the settings store.
pub const STORE_FILE: &'static str = "settings.json";

/// The key of the settings in their store.
pub const STORE_KEY: &'static str = "settings";

/// The service under which API keys are kept in the system's credential store.
pub const KEYRING_SERVICE: &'static str = "com.chienhua.mytranslator";

/// The user's settings.
#[derive(Debug, Clone)]
pub struct AppSettings {
    pub default_engine: String,
    pub target_lang: String,
    pub hotkey_enabled: bool,
    pub gemini_model: String,
}

impl Default for AppSettings {
    /// Google as the engine, Traditional Chinese as the target, the hotkey on,
    /// and the default Gemini model.
    fn default() -> (r: Self)
        ensures
            r.default_engine@ == "google"@,
            r.target_lang@ == "zh-TW"@,
            r.hotkey_enabled,
            r.gemini_model@ == DEFAULT_MODEL@,
    {
        AppSettings {
            default_engine: String::from_str("google"),
            target_lang: String::from_str("zh-TW"),
            hotkey_enabled: true,
            gemini_model: String::from_str(DEFAULT_MODEL),
        }
    }
}

/// A key read from the credential store counts only when it is not empty.
pub fn stored_key(read: Option<String>) -> (r: Option<String>)
    ensures
        match read {
            Some(k) => if k@.len() > 0 {
                r == Some(k)
            } else {
                r is None
            },
            None => r is None,
        },
{
    match read {
        Some(k) => if k.as_str().unicode_len() > 0 {
            Some(k)
        } else {
            None
        },
        None => None,
    }
}

/// How saving an API key changes the credential store.
#[derive(Debug, Clone, Copy, PartialEq, Eq, Structural)]
pub enum KeyChange {
    /// An empty key removes the stored one.
    Delete,
    /// Any other key replaces the stored one.
    Store,
}

/// What saving `key` does.
pub fn key_change(key: &str) -> (r: KeyChange)
    ensures
        r == (if key@.len() == 0 {
            KeyChange::Delete
        } else {
            KeyChange::Store
        }),
{
    if key.unicode_len() == 0 {
        KeyChange::Delete
    } else {
        KeyChange::Store
    }
}

/// Why the credential store refused an operation.
#[derive(Debug, Clone)]
pub enum CredentialError {
    /// There was no stored credential.
    NoEntry,
    /// Any other failure, with its message.
    Other(String),
}

/// The result of removing a key: a key that was not there counts as removed.
pub fn deletion_result(outcome: Result<(), CredentialError>) -> (r: Result<(), String>)
    ensures
        match outcome {
            Ok(()) => r is Ok,
            Err(CredentialError::NoEntry) => r is Ok,
            Err(CredentialError::Other(m)) => r == Err::<(), String>(m),
        },
{
    match outcome {
        Ok(()) => Ok(()),
        Err(CredentialError::NoEntry) => Ok(()),
        Err(CredentialError::Other(m)) => Err(m),
    }
}

} // verus!
