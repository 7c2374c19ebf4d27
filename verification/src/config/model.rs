//! The earlier, flat configuration layout, kept for files that still use it.

use vstd::prelude::*;

verus! {

pub struct AppConfig {
    pub general: GeneralConfig,
    pub database: DatabaseConfig,
    pub providers: ProvidersConfig,
    pub ai: AiConfig,
}

pub struct GeneralConfig {
    pub base_dir: String,
}

pub struct DatabaseConfig {
    pub url: String,
}

pub struct ProvidersConfig {
    pub spotify: SpotifyConfig,
    pub youtube: Option<YoutubeConfig>,
}

pub struct SpotifyConfig {
    pub client_id: String,
    pub client_secret: String,
}

pub struct YoutubeConfig {
    pub invidious_instance: Option<String>,
}

pub struct AiConfig {
    pub enabled: bool,
    pub openrouter: Option<OpenRouterConfig>,
}

pub struct OpenRouterConfig {
    pub api_key: String,
    pub model: Option<String>,
    pub provider: Option<String>,
    pub base_url: Option<String>,
    pub timeout: Option<u64>,
}

} // verus!
