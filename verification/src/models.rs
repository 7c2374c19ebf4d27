//! Vocabulary shared by the server routes and the storage layer.

use vstd::prelude::*;

verus! {

/// The kinds of library entity that data-quality checks look at.
#[derive(Clone, Copy, Debug, PartialEq, Eq, Structural)]
pub enum DataQualityEntityType {
    Artist,
    Album,
    Track,
}

impl DataQualityEntityType {
    /// The singular lowercase name under which the entity kind is stored.
    pub open spec fn name(self) -> Seq<char> {
        match self {
            DataQualityEntityType::Artist => "artist"@,
            DataQualityEntityType::Album => "album"@,
            DataQualityEntityType::Track => "track"@,
        }
    }

    pub fn as_str(&self) -> (res: &'static str)
        ensures
            res@ == self.name(),
    {
        match self {
            DataQualityEntityType::Artist => "artist",
            DataQualityEntityType::Album => "album",
            DataQualityEntityType::Track => "track",
        }
    }
}

/// The structural problems the reference audit reports.
#[derive(Clone, Copy, Debug, PartialEq, Eq, Structural)]
pub enum StructuralFindingKind {
    /// One external reference attached to several distinct entities.
    ConflictingReference,
    /// One entity holding several different ids for one platform and reference type.
    MultiplePlatformReferences,
    /// A reference whose URL points at another platform than the declared one.
    PlatformUrlMismatch,
    /// A track without any `Source` reference.
    TrackMissingSourceReference,
}

/// Direction of a sorted listing.
#[derive(Clone, Copy, Debug, PartialEq, Eq, Structural)]
pub enum SortDir {
    Asc,
    Desc,
}

impl SortDir {
    /// The SQL keyword of the direction.
    pub open spec fn keyword(self) -> Seq<char> {
        match self {
            SortDir::Asc => "ASC"@,
            SortDir::Desc => "DESC"@,
        }
    }

    pub fn as_sql(&self) -> (res: &'static str)
        ensures
            res@ == self.keyword(),
    {
        match self {
            SortDir::Asc => "ASC",
            SortDir::Desc => "DESC",
        }
    }
}

/// Sort keys of the album listing.
#[derive(Clone, Copy, Debug, PartialEq, Eq, Structural)]
pub enum AlbumSortBy {
    Title,
    Date,
    Artist,
    TrackCount,
}

/// Sort keys of the artist listing.
#[derive(Clone, Copy, Debug, PartialEq, Eq, Structural)]
pub enum ArtistSortBy {
    Name,
    TrackCount,
    AlbumCount,
}

/// What a sync subscription follows.
#[derive(Clone, Copy, Debug, PartialEq, Eq, Structural)]
pub enum SyncEntityType {
    Playlist,
    Artist,
}

impl SyncEntityType {
    /// The lowercase name under which the subscription kind is stored.
    pub open spec fn name(self) -> Seq<char> {
        match self {
            SyncEntityType::Playlist => "playlist"@,
            SyncEntityType::Artist => "artist"@,
        }
    }

    pub fn as_str(&self) -> (res: &'static str)
        ensures
            res@ == self.name(),
    {
        match self {
            SyncEntityType::Playlist => "playlist",
            SyncEntityType::Artist => "artist",
        }
    }
}

} // verus!
