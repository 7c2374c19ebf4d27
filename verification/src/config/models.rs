//! Configuration sections and their defaults.

use vstd::prelude::*;

verus! {

pub struct Config {
    pub general: GeneralConfig,
    pub logs: LogsConfig,
    pub database: DatabaseConfig,
    pub providers: ProvidersConfig,
    pub ai: AiConfig,
    pub proxy: Option<ProxyConfig>,
    pub tagger: TaggerConfig,
    pub server: ServerConfig,
}

// ===============================================================================
// General
// ===============================================================================

pub struct GeneralConfig {
    pub base_library_dir: String,
    pub temp_download_dir: String,
}

impl GeneralConfig {
    /// `./library`
    pub fn default_base_library_dir() -> (res: String)
        ensures
            res@ == "./library"@,
    {
        "./library".to_owned()
    }

    /// `./temp`
    pub fn default_temp_download_dir() -> (res: String)
        ensures
            res@ == "./temp"@,
    {
        "./temp".to_owned()
    }
}

impl Default for GeneralConfig {
    fn default() -> (res: Self)
        ensures
            res.base_library_dir@ == "./library"@,
            res.temp_download_dir@ == "./temp"@,
    {
        GeneralConfig {
            base_library_dir: Self::default_base_library_dir(),
            temp_download_dir: Self::default_temp_download_dir(),
        }
    }
}

// ===============================================================================
// Logs
// ===============================================================================

pub struct LogsConfig {
    pub level: String,
    pub enable_reqwest_logging: bool,
}

impl LogsConfig {
    /// `info`
    pub fn default_level() -> (res: String)
        ensures
            res@ == "info"@,
    {
        "info".to_owned()
    }
}

impl Default for LogsConfig {
    fn default() -> (res: Self)
        ensures
            res.level@ == "info"@,
            !res.enable_reqwest_logging,
    {
        LogsConfig { level: Self::default_level(), enable_reqwest_logging: false }
    }
}

// ===============================================================================
// Database
// ===============================================================================

pub struct DatabaseConfig {
    pub url: String,
    pub pool_size: Option<u32>,
}

impl DatabaseConfig {
    /// `./data/soundome.db`
    pub fn default_url() -> (res: String)
        ensures
            res@ == "./data/soundome.db"@,
    {
        "./data/soundome.db".to_owned()
    }
}

impl Default for DatabaseConfig {
    fn default() -> (res: Self)
        ensures
            res.url@ == "./data/soundome.db"@,
            res.pool_size is None,
    {
        DatabaseConfig { url: Self::default_url(), pool_size: None }
    }
}

// ===============================================================================
// Providers
// ===============================================================================

pub struct ProvidersConfig {
    pub spotify: Option<SpotifyConfig>,
    pub youtube: Option<YoutubeConfig>,
}

impl Default for ProvidersConfig {
    fn default() -> (res: Self)
        ensures
            res.spotify is None,
            res.youtube is None,
    {
        ProvidersConfig { spotify: None, youtube: None }
    }
}

pub struct SpotifyConfig {
    pub client_id: String,
    pub client_secret: String,
}

pub struct YoutubeConfig {
    pub invidious_instance: Option<String>,
}

// ===============================================================================
// AI
// ===============================================================================

pub struct AiConfig {
    pub enabled: bool,
    pub openrouter: Option<OpenRouterConfig>,
}

impl Default for AiConfig {
    fn default() -> (res: Self)
        ensures
            !res.enabled,
            res.openrouter is None,
    {
        AiConfig { enabled: false, openrouter: None }
    }
}

pub struct OpenRouterConfig {
    pub api_key: String,
    pub model: Option<String>,
    pub provider: Option<String>,
    pub base_url: Option<String>,
    pub timeout: Option<u64>,
}

// ===============================================================================
// Tagger
// ===============================================================================

pub struct TaggerConfig {
    /// Enabled metadata provider names, in priority order.
    /// Supported values: "musicbrainz", "bandcamp", "spotify".
    pub metadata_providers: Vec<String>,
}

impl TaggerConfig {
    /// `musicbrainz`, then `bandcamp`, then `spotify`.
    pub fn default_providers() -> (res: Vec<String>)
        ensures
            res@.len() == 3,
            res@[0]@ == "musicbrainz"@,
            res@[1]@ == "bandcamp"@,
            res@[2]@ == "spotify"@,
    {
        let mut v: Vec<String> = Vec::new();
        v.push("musicbrainz".to_owned());
        v.push("bandcamp".to_owned());
        v.push("spotify".to_owned());
        v
    }
}

impl Default for TaggerConfig {
    fn default() -> (res: Self)
        ensures
            res.metadata_providers@.len() == 3,
            res.metadata_providers@[0]@ == "musicbrainz"@,
            res.metadata_providers@[1]@ == "bandcamp"@,
            res.metadata_providers@[2]@ == "spotify"@,
    {
        TaggerConfig { metadata_providers: Self::default_providers() }
    }
}

// ===============================================================================
// Proxy
// ===============================================================================

pub struct ProxyConfig {
    pub enabled: bool,
    /// Proxy URLs, with embedded credentials if needed.
    pub urls: Vec<String>,
    /// How requests are spread over the proxies.
    pub strategy: Option<ProxyStrategy>,
    /// Domains that bypass the proxy.
    pub no_proxy: Option<Vec<String>>,
}

#[derive(Clone, Copy, Debug, PartialEq, Eq, Structural)]
pub enum ProxyStrategy {
    RoundRobin,
    Random,
    StickyPerHour,
    FirstAvailable,
}

// ===============================================================================
// Server
// ===============================================================================

/// Optional server binding overrides.
pub struct ServerConfig {
    /// IP address or hostname to bind, e.g. "0.0.0.0" or "127.0.0.1".
    pub host: Option<String>,
    /// TCP port to listen on.
    pub port: Option<u16>,
}

impl Default for ServerConfig {
    fn default() -> (res: Self)
        ensures
            res.host is None,
            res.port is None,
    {
        ServerConfig { host: None, port: None }
    }
}

} // verus!
