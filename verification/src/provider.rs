//! Decisions about the completion provider that need no I/O: which client
//! kind a provider name calls for, and what a provider error message means.
//! Building the actual client and rendering remediation text happen in the
//! surrounding process.

use vstd::prelude::*;

use crate::text::{contains_sub, spec_contains, spec_trim, str_eq, trim};

verus! {

/// The kind of client a configured provider name calls for.
#[derive(Debug, Clone, Copy, PartialEq, Eq, Structural)]
pub enum ProviderKind {
    /// A local Ollama server; needs no API key.
    Ollama,
    /// An OpenAI-compatible endpoint; needs an API key.
    OpenAiCompatible,
}

/// Why a provider selection was rejected.
#[derive(Debug, Clone, Copy, PartialEq, Eq, Structural)]
pub enum ProviderSelectError {
    /// The provider needs an API key and none was configured.
    MissingApiKey,
    /// The provider name is not one this tool supports.
    UnsupportedProvider,
}

/// Which client `name` calls for: `ollama` runs without a key; `openai`
/// and `deepseek` are OpenAI-compatible and demand a non-empty key; any
/// other name is rejected.
pub open spec fn spec_select_provider(name: Seq<char>, api_key: Seq<char>) -> Result<
    ProviderKind,
    ProviderSelectError,
> {
    if name == "ollama"@ {
        Ok(ProviderKind::Ollama)
    } else if name == "openai"@ || name == "deepseek"@ {
        if api_key.len() == 0 {
            Err(ProviderSelectError::MissingApiKey)
        } else {
            Ok(ProviderKind::OpenAiCompatible)
        }
    } else {
        Err(ProviderSelectError::UnsupportedProvider)
    }
}

/// Decide which client to build for a configured provider.
pub fn select_provider(name: &str, api_key: &str) -> (r: Result<
    ProviderKind,
    ProviderSelectError,
>)
    ensures
        r == spec_select_provider(name@, api_key@),
{
    if str_eq(name, "ollama") {
        Ok(ProviderKind::Ollama)
    } else if str_eq(name, "openai") || str_eq(name, "deepseek") {
        if api_key.unicode_len() == 0 {
            Err(ProviderSelectError::MissingApiKey)
        } else {
            Ok(ProviderKind::OpenAiCompatible)
        }
    } else {
        Err(ProviderSelectError::UnsupportedProvider)
    }
}

/// What a provider error message indicates, read from its lower-cased text.
#[derive(Debug, Clone, Copy, PartialEq, Eq, Structural)]
pub enum ProviderErrorKind {
    /// The configured model is not installed on the server.
    MissingModel,
    /// The server cannot be reached and may not even be installed.
    ServerMaybeMissing,
    /// The server cannot be reached but appears to exist.
    ServerNotRunning,
    /// Anything else: surface the provider's own text.
    Other,
}

/// The message names a missing model.
pub open spec fn indicates_missing_model(m: Seq<char>) -> bool {
    spec_contains(m, "model"@) && (spec_contains(m, "not found"@) || spec_contains(
        m,
        "not available"@,
    ) || spec_contains(m, "pull"@) || spec_contains(m, "does not exist"@) || spec_contains(
        m,
        "404"@,
    ))
}

/// The message looks like a failure to reach the server at all.
pub open spec fn indicates_no_connection(m: Seq<char>) -> bool {
    spec_contains(m, "connection"@) || spec_contains(m, "refused"@) || spec_contains(
        m,
        "connect"@,
    ) || spec_contains(m, "no such host"@) || spec_contains(m, "network is unreachable"@)
        || spec_contains(m, "connection reset"@) || spec_trim(m) == "unknown error:"@
        || spec_trim(m).len() == 0
}

/// The connection failure pattern that also fits a server that was never
/// installed.
pub open spec fn indicates_missing_server(m: Seq<char>) -> bool {
    spec_contains(m, "connection refused"@) || spec_contains(m, "no such host"@) || spec_trim(
        m,
    ) == "unknown error:"@ || spec_trim(m).len() == 0
}

/// The classification of a lower-cased provider error message.
pub open spec fn spec_classify(m: Seq<char>) -> ProviderErrorKind {
    if indicates_missing_model(m) {
        ProviderErrorKind::MissingModel
    } else if indicates_no_connection(m) {
        if indicates_missing_server(m) {
            ProviderErrorKind::ServerMaybeMissing
        } else {
            ProviderErrorKind::ServerNotRunning
        }
    } else {
        ProviderErrorKind::Other
    }
}

/// Classify a provider error message. `msg_lower` is the error text in
/// lower case, as the caller obtained it from the provider.
pub fn classify_provider_error(msg_lower: &str) -> (r: ProviderErrorKind)
    ensures
        r == spec_classify(msg_lower@),
{
    let t = trim(msg_lower);
    let trimmed_special = str_eq(t.as_str(), "unknown error:") || t.unicode_len() == 0;
    if contains_sub(msg_lower, "model") && (contains_sub(msg_lower, "not found") || contains_sub(
        msg_lower,
        "not available",
    ) || contains_sub(msg_lower, "pull") || contains_sub(msg_lower, "does not exist")
        || contains_sub(msg_lower, "404")) {
        ProviderErrorKind::MissingModel
    } else if contains_sub(msg_lower, "connection") || contains_sub(msg_lower, "refused")
        || contains_sub(msg_lower, "connect") || contains_sub(msg_lower, "no such host")
        || contains_sub(msg_lower, "network is unreachable") || contains_sub(
        msg_lower,
        "connection reset",
    ) || trimmed_special {
        if contains_sub(msg_lower, "connection refused") || contains_sub(
            msg_lower,
            "no such host",
        ) || trimmed_special {
            ProviderErrorKind::ServerMaybeMissing
        } else {
            ProviderErrorKind::ServerNotRunning
        }
    } else {
        ProviderErrorKind::Other
    }
}

} // verus!
