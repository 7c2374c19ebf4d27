//! Server metadata: version and the source providers available.

use vstd::prelude::*;

use crate::config::models::ProvidersConfig;

verus! {

pub struct VersionResponse {
    /// Application version, fixed when the server is built.
    pub version: &'static str,
}

pub struct ProvidersResponse {
    /// Source providers that are enabled and fully configured.
    pub providers: Vec<String>,
}

/// Spotify is offered only with both credentials set.
pub open spec fn spotify_configured(providers: ProvidersConfig) -> bool {
    match providers.spotify {
        Some(s) => s.client_id@.len() > 0 && s.client_secret@.len() > 0,
        None => false,
    }
}

/// The providers offered: Spotify when configured, then the ones that need no
/// credentials.
pub open spec fn available_provider_names(providers: ProvidersConfig) -> Seq<Seq<char>> {
    let open_ones = seq!["SoundCloud"@, "YouTube"@, "YouTube Music"@];
    if spotify_configured(providers) {
        seq!["Spotify"@] + open_ones
    } else {
        open_ones
    }
}

pub fn available_providers(providers: &ProvidersConfig) -> (res: ProvidersResponse)
    ensures
        res.providers@.map_values(|p: String| p@) == available_provider_names(*providers),
{
    let mut names: Vec<String> = Vec::new();
    let mut spotify = false;
    match &providers.spotify {
        Some(s) => {
            if s.client_id.unicode_len() > 0 && s.client_secret.unicode_len() > 0 {
                names.push("Spotify".to_owned());
                spotify = true;
            }
        },
        None => {},
    }
    names.push("SoundCloud".to_owned());
    names.push("YouTube".to_owned());
    names.push("YouTube Music".to_owned());
    assert(names@.map_values(|p: String| p@) =~= available_provider_names(*providers));
    ProvidersResponse { providers: names }
}

} // verus!
