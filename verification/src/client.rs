//! The completion client's validated state, and the decoding of a completion
//! response down to the text that the loop consumes. The network transport
//! itself lives outside the library and hands values in and out.

use vstd::prelude::*;
use vstd::string::*;

verus! {

/// The name of the configuration value that must hold the API credential.
pub open spec fn credential_name() -> Seq<char> {
    "OPENAI_API_KEY"@
}

/// The fixed base endpoint.
pub open spec fn default_base_url() -> Seq<char> {
    "https://api.openai.com/v1/"@
}

/// The configured credential is absent. Fatal: construction fails before any
/// network call could be attempted.
#[derive(Clone, Debug)]
pub struct ConfigurationError {
    pub missing: String,
}

/// A failure between the client and the completion endpoint.
#[derive(Clone, Debug)]
pub enum UpstreamError {
    /// Timeout, connection reset, DNS failure: retryable.
    Transport { message: String },
    /// A non-2xx HTTP status: retryable.
    Api { status: u16, body: String },
    /// A malformed response body: a contract break, never retried.
    Decode { message: String },
}

impl UpstreamError {
    /// Only transport and API failures are retried; a decode failure is
    /// surfaced immediately.
    pub open spec fn is_retryable(&self) -> bool {
        !(self matches UpstreamError::Decode { .. })
    }
}

/// The validated state of a completion client: the credential it owns and the
/// base endpoint it calls. The credential is opaque and is never inspected.
pub struct CompletionClient {
    pub api_key: String,
    pub base_url: String,
}

impl CompletionClient {
    /// Construct a client from a resolved credential. Fails with
    /// `ConfigurationError` exactly when the credential is absent; no silent
    /// default.
    pub fn new(key: Option<String>) -> (r: Result<CompletionClient, ConfigurationError>)
        ensures
            match r {
                Ok(c) => key matches Some(k) && c.api_key == k && c.base_url@
                    == default_base_url(),
                Err(e) => key is None && e.missing@ == credential_name(),
            },
    {
        match key {
            Some(k) => Ok(
                CompletionClient {
                    api_key: k,
                    base_url: String::from_str("https://api.openai.com/v1/"),
                },
            ),
            None => Err(ConfigurationError { missing: String::from_str("OPENAI_API_KEY") }),
        }
    }
}

/// One choice of a completion response.
#[derive(Clone, Debug)]
pub struct CompletionChoice {
    pub text: String,
}

/// A decoded completion response. Only `choices[0].text` is consumed; the
/// other fields pass through unused.
#[derive(Clone, Debug)]
pub struct CompletionResponse {
    pub id: String,
    pub object: String,
    pub created: u64,
    pub model: String,
    pub choices: Vec<CompletionChoice>,
}

/// The first choice's text, verbatim: no trimming, no validation of content.
/// Fails with a decode error exactly when the response holds no choice.
pub fn first_choice_text(resp: &CompletionResponse) -> (r: Result<String, UpstreamError>)
    ensures
        match r {
            Ok(t) => resp.choices@.len() > 0 && t@ == resp.choices@[0].text@,
            Err(e) => resp.choices@.len() == 0 && e matches UpstreamError::Decode { .. },
        },
{
    if resp.choices.len() > 0 {
        Ok(resp.choices[0].text.clone())
    } else {
        Err(
            UpstreamError::Decode {
                message: String::from_str("the completion response holds no choice"),
            },
        )
    }
}

} // verus!
