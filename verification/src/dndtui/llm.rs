//! Requests sent to the language model that voices NPCs and interprets
//! free-form actions.
use vstd::prelude::*;

verus! {

#[derive(Clone, Copy, Debug, PartialEq, Eq, Structural)]
pub enum Provider {
    Openai,
    Ollama,
}

#[derive(Clone, Debug)]
pub struct ChatMessage {
    pub role: String,
    pub content: String,
}

#[derive(Clone, Debug)]
pub struct LlmRequest {
    pub id: u64,
    pub messages: Vec<ChatMessage>,
    pub stream: bool,
}

#[derive(Clone, Debug)]
pub enum LlmError {
    MissingApiKey,
    Request(String),
    Parse(String),
}

/// What a client is made from: the OpenAI service with its key, or an
/// Ollama server at its base URL; each with the model to ask.
#[derive(Clone, Debug)]
pub enum ClientConfig {
    OpenAi { api_key: String, model: String },
    Ollama { base_url: String, model: String },
}

impl LlmError {
    /// The error as a line of text.
    pub fn message(&self) -> (m: String)
        ensures
            m@ == match *self {
                LlmError::MissingApiKey => "missing OpenAI API key"@,
                LlmError::Request(e) => "request failed: "@ + e@,
                LlmError::Parse(e) => "response parse error: "@ + e@,
            },
    {
        match self {
            LlmError::MissingApiKey => crate::text::owned("missing OpenAI API key"),
            LlmError::Request(e) => {
                let mut m = crate::text::owned("request failed: ");
                crate::text::push_str(&mut m, e.as_str());
                m
            },
            LlmError::Parse(e) => {
                let mut m = crate::text::owned("response parse error: ");
                crate::text::push_str(&mut m, e.as_str());
                m
            },
        }
    }
}

/// The client for `provider`: OpenAI needs an API key; Ollama defaults to
/// a local server.
pub fn client_for(provider: Provider, model: String, api_key: Option<String>, base_url: Option<String>) -> (r: Result<
    ClientConfig,
    LlmError,
>)
    ensures
        match provider {
            Provider::Openai => match api_key {
                Some(k) => r matches Ok(ClientConfig::OpenAi { api_key: k2, model: m }) && k2 == k && m == model,
                None => r matches Err(LlmError::MissingApiKey),
            },
            Provider::Ollama => r matches Ok(ClientConfig::Ollama { base_url: b, model: m }) && m == model && b@ == match base_url {
                Some(u) => u@,
                None => "http://localhost:11434"@,
            },
        },
{
    match provider {
        Provider::Openai => match api_key {
            Some(key) => Ok(ClientConfig::OpenAi { api_key: key, model }),
            None => Err(LlmError::MissingApiKey),
        },
        Provider::Ollama => {
            let base = match base_url {
                Some(u) => u,
                None => crate::text::owned("http://localhost:11434"),
            };
            Ok(ClientConfig::Ollama { base_url: base, model })
        },
    }
}

} // verus!
