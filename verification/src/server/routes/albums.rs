//! Album resources: listing parameters, merge requests.

use vstd::prelude::*;

use crate::ids::contains_id;
use crate::models::{AlbumSortBy, SortDir};
use crate::server::routes::tracks::{AlbumRecord, ReferenceRecord};
use crate::server::routes::validations::{reference_to_dto, ReferenceDto};
use crate::server::utils::response::{
    is_desc, normalize_search, normalized_search, offset_spec, page_size_spec, page_spec,
    resolve_offset, resolve_page, resolve_page_size,
};
use crate::text::{opt_chars, str_eq};

verus! {

pub struct AlbumArtistDto {
    pub id: Option<i32>,
    pub name: String,
}

pub struct AlbumDto {
    pub id: i32,
    pub title: String,
    pub artists: Vec<AlbumArtistDto>,
    pub album_type: String,
    pub cover: Option<String>,
    pub date: Option<String>,
    pub references: Vec<ReferenceDto>,
}

pub struct UpdateAlbumBody {
    pub title: Option<String>,
    pub date: Option<String>,
    pub cover: Option<String>,
}

pub struct MergeAlbumsBody {
    /// Album ids to merge into `target_id`; they are deleted by the merge.
    pub source_ids: Vec<i32>,
    /// The album to keep.
    pub target_id: i32,
}

pub struct NamePairDto {
    pub id: i32,
    pub title: String,
}

/// The sort key named by the `sort_by` parameter; titles by default.
pub open spec fn album_sort_named(sort_by: Option<Seq<char>>) -> AlbumSortBy {
    match sort_by {
        Some(s) => if s == "date"@ {
            AlbumSortBy::Date
        } else if s == "artist"@ {
            AlbumSortBy::Artist
        } else if s == "track_count"@ {
            AlbumSortBy::TrackCount
        } else {
            AlbumSortBy::Title
        },
        None => AlbumSortBy::Title,
    }
}

pub fn parse_album_sort(sort_by: &Option<String>) -> (res: AlbumSortBy)
    ensures
        res == album_sort_named(opt_chars(*sort_by)),
{
    match sort_by {
        Some(s) => if str_eq(s.as_str(), "date") {
            AlbumSortBy::Date
        } else if str_eq(s.as_str(), "artist") {
            AlbumSortBy::Artist
        } else if str_eq(s.as_str(), "track_count") {
            AlbumSortBy::TrackCount
        } else {
            AlbumSortBy::Title
        },
        None => AlbumSortBy::Title,
    }
}

/// One page of the album listing, as asked for.
pub struct AlbumQuery {
    pub offset: i64,
    pub limit: i64,
    pub search: Option<String>,
    pub sort_by: AlbumSortBy,
    pub sort_dir: SortDir,
}

/// The query behind `GET /albums`: page and size resolved, search normalised,
/// sort key and direction read (descending only for `desc`).
pub fn album_query(
    page: Option<i64>,
    page_size: Option<i64>,
    q: &Option<String>,
    sort_by: &Option<String>,
    sort_dir: &Option<String>,
) -> (res: AlbumQuery)
    requires
        i64::MIN <= offset_spec(page_spec(page) as int, page_size_spec(page_size) as int) <= i64::MAX,
    ensures
        res.offset == offset_spec(page_spec(page) as int, page_size_spec(page_size) as int),
        res.limit == page_size_spec(page_size),
        opt_chars(res.search) == normalized_search(opt_chars(*q)),
        res.sort_by == album_sort_named(opt_chars(*sort_by)),
        res.sort_dir == if (sort_dir matches Some(d) && d@ == seq!['d', 'e', 's', 'c']) {
            SortDir::Desc
        } else {
            SortDir::Asc
        },
{
    let p = resolve_page(page);
    let size = resolve_page_size(page_size);
    AlbumQuery {
        offset: resolve_offset(p, size),
        limit: size,
        search: normalize_search(q),
        sort_by: parse_album_sort(sort_by),
        sort_dir: if is_desc(sort_dir) {
            SortDir::Desc
        } else {
            SortDir::Asc
        },
    }
}

/// Why a merge request is refused (answered with 400 Bad Request).
#[derive(Clone, Copy, Debug, PartialEq, Eq, Structural)]
pub enum MergeRequestError {
    /// No album to merge.
    NoSources,
    /// The album to keep is also listed for deletion.
    TargetAmongSources,
}

impl MergeAlbumsBody {
    /// Checks a merge request: at least one source, and not the target.
    pub fn check(&self) -> (res: Result<(), MergeRequestError>)
        ensures
            self.source_ids@.len() == 0 ==> res == Err::<(), MergeRequestError>(MergeRequestError::NoSources),
            self.source_ids@.len() > 0 && self.source_ids@.contains(self.target_id) ==> res == Err::<
                (),
                MergeRequestError,
            >(MergeRequestError::TargetAmongSources),
            self.source_ids@.len() > 0 && !self.source_ids@.contains(self.target_id) ==> res == Ok::<
                (),
                MergeRequestError,
            >(()),
    {
        if self.source_ids.len() == 0 {
            Err(MergeRequestError::NoSources)
        } else if contains_id(self.source_ids.as_slice(), self.target_id) {
            Err(MergeRequestError::TargetAmongSources)
        } else {
            Ok(())
        }
    }
}

/// Every reference carried over to its DTO.
pub open spec fn references_carried(dtos: Seq<ReferenceDto>, refs: Seq<ReferenceRecord>) -> bool {
    &&& dtos.len() == refs.len()
    &&& forall|k: int|
        0 <= k < dtos.len() ==> (#[trigger] dtos[k]).id == refs[k].id && dtos[k].ref_type@
            == refs[k].ref_type@ && dtos[k].platform@ == refs[k].platform@ && opt_chars(
            dtos[k].external_id,
        ) == opt_chars(refs[k].external_id) && opt_chars(dtos[k].external_url) == opt_chars(
            refs[k].external_url,
        )
}

/// The DTOs of a list of references, in order.
pub fn reference_dtos(refs: &Vec<ReferenceRecord>) -> (res: Vec<ReferenceDto>)
    ensures
        references_carried(res@, refs@),
{
    let mut out: Vec<ReferenceDto> = Vec::new();
    let mut k: usize = 0;
    while k < refs.len()
        invariant
            k <= refs@.len(),
            references_carried(out@, refs@.take(k as int)),
        decreases refs@.len() - k,
    {
        out.push(reference_to_dto(&refs[k]));
        k = k + 1;
    }
    assert(refs@.take(refs@.len() as int) =~= refs@);
    out
}

impl AlbumDto {
    /// The DTO of an album; `None` for one without an id.
    pub fn from_album(album: AlbumRecord) -> (res: Option<Self>)
        ensures
            album.id is None ==> res is None,
            album.id is Some ==> (res matches Some(d) && d.id == album.id->0 && d.title@ == album.title@
                && d.artists@.len() == album.artists@.len() && (forall|k: int|
                0 <= k < d.artists@.len() ==> (#[trigger] d.artists@[k]).id == album.artists@[k].id
                    && d.artists@[k].name@ == album.artists@[k].name@) && d.album_type@
                == album.album_type@ && opt_chars(d.cover) == opt_chars(album.cover) && opt_chars(d.date)
                == opt_chars(album.date) && references_carried(d.references@, album.references@)),
    {
        let id = match album.id {
            Some(id) => id,
            None => return None,
        };
        let mut artists: Vec<AlbumArtistDto> = Vec::new();
        let mut k: usize = 0;
        while k < album.artists.len()
            invariant
                k <= album.artists@.len(),
                artists@.len() == k,
                forall|m: int| 0 <= m < k ==> (#[trigger] artists@[m]).id == album.artists@[m].id
                    && artists@[m].name@ == album.artists@[m].name@,
            decreases album.artists@.len() - k,
        {
            artists.push(AlbumArtistDto { id: album.artists[k].id, name: album.artists[k].name.clone() });
            k = k + 1;
        }
        let references = reference_dtos(&album.references);
        Some(
            AlbumDto {
                id,
                title: album.title,
                artists,
                album_type: album.album_type,
                cover: album.cover,
                date: album.date,
                references,
            },
        )
    }
}

} // verus!
