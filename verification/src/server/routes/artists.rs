//! Artist resources: listing parameters, merge requests.

use vstd::prelude::*;

use crate::ids::contains_id;
use crate::models::{ArtistSortBy, SortDir};
use crate::server::routes::albums::{reference_dtos, references_carried, MergeRequestError};
use crate::server::routes::tracks::ArtistRecord;
use crate::server::routes::validations::ReferenceDto;
use crate::server::utils::response::{
    is_desc, normalize_search, normalized_search, offset_spec, page_size_spec, page_spec,
    resolve_offset, resolve_page, resolve_page_size,
};
use crate::text::{opt_chars, str_eq};

verus! {

pub struct ArtistDto {
    pub id: i32,
    pub name: String,
    pub icon: Option<String>,
    pub references: Vec<ReferenceDto>,
}

pub struct UpdateArtistBody {
    pub name: Option<String>,
    pub icon: Option<String>,
}

pub struct MergeArtistsBody {
    /// Artist ids to merge into `target_id`; they are deleted by the merge.
    pub source_ids: Vec<i32>,
    /// The artist to keep.
    pub target_id: i32,
}

pub struct NamePairDto {
    pub id: i32,
    pub name: String,
}

/// The sort key named by the `sort_by` parameter; names by default.
pub open spec fn artist_sort_named(sort_by: Option<Seq<char>>) -> ArtistSortBy {
    match sort_by {
        Some(s) => if s == "track_count"@ {
            ArtistSortBy::TrackCount
        } else if s == "album_count"@ {
            ArtistSortBy::AlbumCount
        } else {
            ArtistSortBy::Name
        },
        None => ArtistSortBy::Name,
    }
}

pub fn parse_artist_sort(sort_by: &Option<String>) -> (res: ArtistSortBy)
    ensures
        res == artist_sort_named(opt_chars(*sort_by)),
{
    match sort_by {
        Some(s) => if str_eq(s.as_str(), "track_count") {
            ArtistSortBy::TrackCount
        } else if str_eq(s.as_str(), "album_count") {
            ArtistSortBy::AlbumCount
        } else {
            ArtistSortBy::Name
        },
        None => ArtistSortBy::Name,
    }
}

/// One page of the artist listing, as asked for.
pub struct ArtistQuery {
    pub offset: i64,
    pub limit: i64,
    pub search: Option<String>,
    pub sort_by: ArtistSortBy,
    pub sort_dir: SortDir,
}

/// The query behind `GET /artists`: page and size resolved, search normalised,
/// sort key and direction read (descending only for `desc`).
pub fn artist_query(
    page: Option<i64>,
    page_size: Option<i64>,
    q: &Option<String>,
    sort_by: &Option<String>,
    sort_dir: &Option<String>,
) -> (res: ArtistQuery)
    requires
        i64::MIN <= offset_spec(page_spec(page) as int, page_size_spec(page_size) as int) <= i64::MAX,
    ensures
        res.offset == offset_spec(page_spec(page) as int, page_size_spec(page_size) as int),
        res.limit == page_size_spec(page_size),
        opt_chars(res.search) == normalized_search(opt_chars(*q)),
        res.sort_by == artist_sort_named(opt_chars(*sort_by)),
        res.sort_dir == if (sort_dir matches Some(d) && d@ == seq!['d', 'e', 's', 'c']) {
            SortDir::Desc
        } else {
            SortDir::Asc
        },
{
    let p = resolve_page(page);
    let size = resolve_page_size(page_size);
    ArtistQuery {
        offset: resolve_offset(p, size),
        limit: size,
        search: normalize_search(q),
        sort_by: parse_artist_sort(sort_by),
        sort_dir: if is_desc(sort_dir) {
            SortDir::Desc
        } else {
            SortDir::Asc
        },
    }
}

impl MergeArtistsBody {
    /// Checks a merge request: at least one source, and not the target.
    pub fn check(&self) -> (res: Result<(), MergeRequestError>)
        ensures
            self.source_ids@.len() == 0 ==> res == Err::<(), MergeRequestError>(MergeRequestError::NoSources),
            self.source_ids@.len() > 0 && self.source_ids@.contains(self.target_id) ==> res == Err::<
                (),
                MergeRequestError,
            >(MergeRequestError::TargetAmongSources),
            self.source_ids@.len() > 0 && !self.source_ids@.contains(self.target_id) ==> res == Ok::<
                (),
                MergeRequestError,
            >(()),
    {
        if self.source_ids.len() == 0 {
            Err(MergeRequestError::NoSources)
        } else if contains_id(self.source_ids.as_slice(), self.target_id) {
            Err(MergeRequestError::TargetAmongSources)
        } else {
            Ok(())
        }
    }
}

impl ArtistDto {
    /// The DTO of an artist; `None` for one without an id.
    pub fn from_artist(artist: ArtistRecord) -> (res: Option<Self>)
        ensures
            artist.id is None ==> res is None,
            artist.id is Some ==> (res matches Some(d) && d.id == artist.id->0 && d.name@ == artist.name@
                && opt_chars(d.icon) == opt_chars(artist.icon) && references_carried(
                d.references@,
                artist.references@,
            )),
    {
        match artist.id {
            None => None,
            Some(id) => {
                let references = reference_dtos(&artist.references);
                Some(ArtistDto { id, name: artist.name, icon: artist.icon, references })
            },
        }
    }
}

} // verus!
