//! Choosing and configuring the language-model backend, and framing prompts.

use vstd::prelude::*;

use crate::config::models::{AiConfig, OpenRouterConfig};
use crate::text::opt_chars;

verus! {

/// Model used when the configuration names none.
pub open spec fn default_model() -> Seq<char> {
    "google/gemini-2.5-flash"@
}

/// API root used when the configuration names none.
pub open spec fn default_base_url() -> Seq<char> {
    "https://openrouter.ai/api/v1/"@
}

/// Request timeout, in seconds, when the configuration sets none.
pub const DEFAULT_TIMEOUT_SECS: u64 = 60;

/// The settings an OpenRouter client is built with.
pub struct OpenRouterSettings {
    pub base_url: String,
    pub timeout_secs: u64,
    pub api_key: String,
    pub model: String,
    pub provider: Option<String>,
}

impl OpenRouterSettings {
    /// Fills in the defaults for what the configuration leaves out.
    pub fn from_config(config: &OpenRouterConfig) -> (res: Self)
        ensures
            res.base_url@ == match config.base_url {
                Some(u) => u@,
                None => default_base_url(),
            },
            res.timeout_secs == match config.timeout {
                Some(t) => t,
                None => DEFAULT_TIMEOUT_SECS,
            },
            res.api_key@ == config.api_key@,
            res.model@ == match config.model {
                Some(m) => m@,
                None => default_model(),
            },
            opt_chars(res.provider) == opt_chars(config.provider),
    {
        let base_url = match &config.base_url {
            Some(u) => u.clone(),
            None => "https://openrouter.ai/api/v1/".to_owned(),
        };
        let timeout_secs = match config.timeout {
            Some(t) => t,
            None => DEFAULT_TIMEOUT_SECS,
        };
        let model = match &config.model {
            Some(m) => m.clone(),
            None => "google/gemini-2.5-flash".to_owned(),
        };
        let provider = match &config.provider {
            Some(p) => Some(p.clone()),
            None => None,
        };
        OpenRouterSettings { base_url, timeout_secs, api_key: config.api_key.clone(), model, provider }
    }
}

/// Why no backend can be set up.
#[derive(Clone, Copy, Debug, PartialEq, Eq, Structural)]
pub enum AiSetupError {
    /// The AI features are switched off.
    NotEnabled,
    /// AI is on but no backend is configured.
    NoBackend,
}

/// Entry point of the AI features.
pub struct AIClient;

impl AIClient {
    /// The backend to use: OpenRouter with its configured settings, when AI is
    /// enabled and OpenRouter is configured.
    pub fn backend(ai: &AiConfig) -> (res: Result<OpenRouterSettings, AiSetupError>)
        ensures
            !ai.enabled ==> res == Err::<OpenRouterSettings, AiSetupError>(AiSetupError::NotEnabled),
            ai.enabled && ai.openrouter is None ==> res == Err::<OpenRouterSettings, AiSetupError>(
                AiSetupError::NoBackend,
            ),
            ai.enabled && ai.openrouter is Some ==> (res matches Ok(s) && s.api_key@
                == ai.openrouter->0.api_key@ && s.model@ == match ai.openrouter->0.model {
                Some(m) => m@,
                None => default_model(),
            }),
    {
        if !ai.enabled {
            return Err(AiSetupError::NotEnabled);
        }
        match &ai.openrouter {
            Some(c) => Ok(OpenRouterSettings::from_config(c)),
            None => Err(AiSetupError::NoBackend),
        }
    }
}

/// What `str::replace` gives: the occurrences of `from` found scanning from
/// the left, without overlap, each replaced by `to`. An empty `from` matches
/// before every character and at the end.
pub open spec fn replaced(s: Seq<char>, from: Seq<char>, to: Seq<char>) -> Seq<char>
    decreases s.len(),
{
    if from.len() == 0 {
        if s.len() == 0 {
            to
        } else {
            to + seq![s[0]] + replaced(s.drop_first(), from, to)
        }
    } else if s.len() < from.len() {
        s
    } else if s.subrange(0, from.len() as int) == from {
        to + replaced(s.subrange(from.len() as int, s.len() as int), from, to)
    } else {
        seq![s[0]] + replaced(s.drop_first(), from, to)
    }
}

/// `str::replace`: every match of `from`, left to right and without overlap,
/// replaced by `to`, as `replaced` states.
#[verifier::external_body]
fn replace_all(s: &str, from: &str, to: &str) -> (res: String)
    ensures
        res@ == replaced(s@, from@, to@),
{
    s.replace(from, to)
}

/// The frame of a prompt that carries JSON data.
pub open spec fn prompt_frame() -> Seq<char> {
    "\n    {PROMPT}\n\n    Input:\n    ```json\n    {DATA}\n    ```\n    "@
}

/// A prompt followed by its input data (already serialised as JSON), in the
/// frame the model expects.
pub fn prompt_with_data(prompt: &str, data_json: &str) -> (res: String)
    ensures
        res@ == replaced(replaced(prompt_frame(), "{PROMPT}"@, prompt@), "{DATA}"@, data_json@),
{
    let framed = replace_all("\n    {PROMPT}\n\n    Input:\n    ```json\n    {DATA}\n    ```\n    ", "{PROMPT}", prompt);
    replace_all(framed.as_str(), "{DATA}", data_json)
}

} // verus!
