use soundome::config::models::Config;
use soundome::config::ConfigError;
use soundome::services::ServiceLayer;
use std::sync::Arc;
use soundome::ai::{prompt_with_data, AIClient, AiSetupError, OpenRouterSettings};
use soundome::config::models::{
    AiConfig, DatabaseConfig, GeneralConfig, OpenRouterConfig, ServerConfig, TaggerConfig,
};
use soundome::database::repositories::sync_schedule::DieselSyncScheduleRepository;

fn openrouter(model: Option<&str>) -> OpenRouterConfig {
    OpenRouterConfig {
        api_key: "SECRET-REDACTED".to_string(),
        model: model.map(|m| m.to_string()),
        provider: None,
        base_url: None,
        timeout: None,
    }
}

#[test]
fn openrouter_defaults_fill_the_gaps() {
    let s = OpenRouterSettings::from_config(&openrouter(None));
    assert_eq!(s.base_url, "https://openrouter.ai/api/v1/");
    assert_eq!(s.timeout_secs, 60);
    assert_eq!(s.model, "google/gemini-2.5-flash");
    let s = OpenRouterSettings::from_config(&openrouter(Some("m/x")));
    assert_eq!(s.model, "m/x");
}

#[test]
fn backend_needs_ai_enabled_and_configured() {
    let off = AiConfig { enabled: false, openrouter: Some(openrouter(None)) };
    assert!(matches!(AIClient::backend(&off), Err(AiSetupError::NotEnabled)));
    let none = AiConfig { enabled: true, openrouter: None };
    assert!(matches!(AIClient::backend(&none), Err(AiSetupError::NoBackend)));
    let on = AiConfig { enabled: true, openrouter: Some(openrouter(None)) };
    assert!(AIClient::backend(&on).is_ok());
}

#[test]
fn prompts_frame_their_data() {
    let p = prompt_with_data("Clean these", "[1,2]");
    assert_eq!(p, "\n    Clean these\n\n    Input:\n    ```json\n    [1,2]\n    ```\n    ");
}

#[test]
fn a_data_marker_inside_the_prompt_is_filled_too() {
    let p = prompt_with_data("Use {DATA} well", "{}");
    assert_eq!(p, "\n    Use {} well\n\n    Input:\n    ```json\n    {}\n    ```\n    ");
}

#[test]
fn configuration_defaults() {
    let g = GeneralConfig::default();
    assert_eq!(g.base_library_dir, "./library");
    assert_eq!(g.temp_download_dir, "./temp");
    assert_eq!(DatabaseConfig::default().url, "./data/soundome.db");
    assert_eq!(TaggerConfig::default_providers(), vec!["musicbrainz", "bandcamp", "spotify"]);
    let s = ServerConfig::default();
    assert!(s.host.is_none() && s.port.is_none());
    assert!(!AiConfig::default().enabled);
}

#[test]
fn enabled_flags_round_trip_through_the_column() {
    assert_eq!(DieselSyncScheduleRepository::enabled_column(true), 1);
    assert_eq!(DieselSyncScheduleRepository::enabled_column(false), 0);
    assert!(DieselSyncScheduleRepository::enabled_flag(1));
    assert!(DieselSyncScheduleRepository::enabled_flag(-3));
    assert!(!DieselSyncScheduleRepository::enabled_flag(0));
}

fn sample_config(library_dir: &str) -> Config {
    let mut general = GeneralConfig::default();
    general.base_library_dir = library_dir.to_string();
    Config {
        general,
        logs: soundome::config::models::LogsConfig::default(),
        database: DatabaseConfig::default(),
        providers: soundome::config::models::ProvidersConfig::default(),
        ai: AiConfig::default(),
        proxy: None,
        tagger: TaggerConfig::default(),
        server: ServerConfig::default(),
    }
}

#[test]
fn configuration_is_installed_once() {
    let mut slot: Option<Config> = None;
    assert!(Config::init(&mut slot, Ok(sample_config("/music"))).is_ok());
    assert_eq!(Config::get(&slot).general.base_library_dir, "/music");
    match Config::init(&mut slot, Ok(sample_config("/other"))) {
        Err(ConfigError::Message(m)) => assert_eq!(m, "Failed to set global config"),
        Ok(()) => panic!("a second install must fail"),
    }
    assert_eq!(Config::get(&slot).general.base_library_dir, "/music");
}

#[test]
fn a_failed_load_leaves_the_slot_empty() {
    let mut slot: Option<Config> = None;
    match Config::init(&mut slot, Err(ConfigError::Message("missing file".to_string()))) {
        Err(ConfigError::Message(m)) => assert_eq!(m, "missing file"),
        Ok(()) => panic!("a load failure must be reported"),
    }
    assert!(slot.is_none());
}

#[test]
fn service_layer_bundles_the_services() {
    let layer = ServiceLayer::new(Arc::new(1u8), Arc::new("albums"), Arc::new(3i32));
    assert_eq!(*layer.track, 1u8);
    assert_eq!(*layer.album, "albums");
    assert_eq!(*layer.artist, 3i32);
}
