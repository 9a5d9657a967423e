//! Providers, targets and the dispatcher configuration.

use vstd::prelude::*;
use crate::ai_proxy::providers::Auth;
use crate::text::owned;

verus! {

/// An LLM provider.
pub enum Provider {
    OpenAI,
    Anthropic,
    Ollama,
}

impl Provider {
    pub open spec fn name_spec(&self) -> Seq<char> {
        match self {
            Provider::OpenAI => "openai"@,
            Provider::Anthropic => "anthropic"@,
            Provider::Ollama => "ollama"@,
        }
    }

    pub open spec fn base_url_spec(&self) -> Seq<char> {
        match self {
            Provider::OpenAI => "https://api.openai.com"@,
            Provider::Anthropic => "https://api.anthropic.com"@,
            Provider::Ollama => "http://localhost:11434"@,
        }
    }

    /// The provider's lowercase name.
    pub fn name(&self) -> (r: &'static str)
        ensures r@ == self.name_spec(),
    {
        match self {
            Provider::OpenAI => "openai",
            Provider::Anthropic => "anthropic",
            Provider::Ollama => "ollama",
        }
    }

    /// The provider's public API base URL.
    pub fn default_base_url(&self) -> (r: &'static str)
        ensures r@ == self.base_url_spec(),
    {
        match self {
            Provider::OpenAI => "https://api.openai.com",
            Provider::Anthropic => "https://api.anthropic.com",
            Provider::Ollama => "http://localhost:11434",
        }
    }

    /// OpenAI and Ollama speak the OpenAI wire format.
    pub fn is_openai_compatible(&self) -> (r: bool)
        ensures r == !(*self is Anthropic),
    {
        match self {
            Provider::Anthropic => false,
            _ => true,
        }
    }

    /// A copy.
    pub fn copy(&self) -> (r: Provider)
        ensures r == *self,
    {
        match self {
            Provider::OpenAI => Provider::OpenAI,
            Provider::Anthropic => Provider::Anthropic,
            Provider::Ollama => Provider::Ollama,
        }
    }
}

/// A named provider target: provider and credentials.
pub struct TargetConfig {
    pub provider: Provider,
    pub api_key: Option<String>,
    /// Custom base URL (Azure, self-hosted, remote Ollama).
    pub base_url: Option<String>,
    /// How the key is attached; the provider's convention when absent.
    pub auth: Option<Auth>,
}

/// The configured base URL, or the provider's default.
pub open spec fn effective_base_url_spec(t: TargetConfig) -> Seq<char> {
    match t.base_url {
        Some(u) => u@,
        None => t.provider.base_url_spec(),
    }
}

pub fn copy_opt_string(o: &Option<String>) -> (r: Option<String>)
    ensures r == *o,
{
    match o {
        Some(s) => Some(s.clone()),
        None => None,
    }
}

pub fn copy_auth(a: &Auth) -> (r: Auth)
    ensures r == *a,
{
    match a {
        Auth::Bearer => Auth::Bearer,
        Auth::ApiKey => Auth::ApiKey,
        Auth::Header(h) => Auth::Header(h.clone()),
        Auth::Query(q) => Auth::Query(q.clone()),
    }
}

impl TargetConfig {
    /// The base URL requests go to.
    pub fn effective_base_url(&self) -> (r: String)
        ensures r@ == effective_base_url_spec(*self),
    {
        match &self.base_url {
            Some(u) => u.clone(),
            None => owned(self.provider.default_base_url()),
        }
    }

    /// How the key is attached: the configured strategy, else `x-api-key`
    /// for Anthropic and a bearer token for the others.
    pub fn effective_auth(&self) -> (r: Auth)
        ensures
            r == match self.auth {
                Some(a) => a,
                None => if self.provider is Anthropic { Auth::ApiKey } else { Auth::Bearer },
            },
    {
        match &self.auth {
            Some(a) => copy_auth(a),
            None => if self.provider.is_openai_compatible() { Auth::Bearer } else { Auth::ApiKey },
        }
    }

    /// A copy.
    pub fn copy(&self) -> (r: TargetConfig)
        ensures r == *self,
    {
        TargetConfig {
            provider: self.provider.copy(),
            api_key: copy_opt_string(&self.api_key),
            base_url: copy_opt_string(&self.base_url),
            auth: match &self.auth { Some(a) => Some(copy_auth(a)), None => None },
        }
    }
}

/// A model-routing rule: requests whose model matches `pattern` go to the
/// provider it names.
pub struct Route {
    pub pattern: String,
    pub provider: Provider,
    pub api_key: Option<String>,
    pub base_url: Option<String>,
    pub auth: Option<Auth>,
}

/// AI proxy dispatcher configuration.
pub struct AiProxy {
    /// Flat single-provider configuration (used without `targets`).
    pub provider: Option<Provider>,
    pub api_key: Option<String>,
    pub base_url: Option<String>,
    pub auth: Option<Auth>,
    /// Request timeout in seconds.
    pub timeout: u64,
    /// `max_tokens` applied when the client omits it.
    pub max_tokens: Option<u32>,
    /// Targets tried in order after the primary on 5xx or connection error.
    pub fallback: Vec<TargetConfig>,
    /// Model-routing rules, in order.
    pub routes: Vec<Route>,
    /// Named targets, in the order the configuration map gives them (name
    /// order); a lookup takes the first entry with the name.
    pub targets: Vec<(String, TargetConfig)>,
    /// Target used when the context names none.
    pub default_target: Option<String>,
    /// Timeout of one `/v1/models` upstream call, in milliseconds.
    pub models_timeout_ms: u64,
}

pub fn default_timeout() -> (r: u64)
    ensures r == 120,
{
    120
}

pub fn default_models_timeout_ms() -> (r: u64)
    ensures r == 5000,
{
    5000
}

} // verus!
