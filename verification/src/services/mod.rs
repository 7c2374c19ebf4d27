//! The service layer: the three domain services the server hands to its
//! request handlers, bundled behind shared pointers.
//!
//! The services themselves wrap database repositories and are built by the
//! server; the bundle is generic over them so that it carries whatever the
//! server builds.

use std::sync::Arc;
use vstd::prelude::*;

verus! {

/// The track, album and artist services, shared between request handlers.
pub struct ServiceLayer<TrackService, AlbumService, ArtistService> {
    pub track: Arc<TrackService>,
    pub album: Arc<AlbumService>,
    pub artist: Arc<ArtistService>,
}

impl<TrackService, AlbumService, ArtistService> ServiceLayer<TrackService, AlbumService, ArtistService> {
    /// Bundles the three services; each field is the service handed in.
    pub fn new(
        track_service: Arc<TrackService>,
        album_service: Arc<AlbumService>,
        artist_service: Arc<ArtistService>,
    ) -> (res: Self)
        ensures
            res.track == track_service,
            res.album == album_service,
            res.artist == artist_service,
    {
        ServiceLayer { track: track_service, album: album_service, artist: artist_service }
    }
}

} // verus!
