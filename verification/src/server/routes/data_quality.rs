//! Data-quality review: structural audit results and "not a duplicate" decisions.

use vstd::prelude::*;

use crate::models::{DataQualityEntityType, StructuralFindingKind};
use crate::text::str_eq;

verus! {

pub struct StructuralFindingEntityDto {
    pub entity_type: String,
    pub id: i32,
    pub name: String,
}

pub struct StructuralFindingDto {
    pub kind: String,
    pub message: String,
    pub entities: Vec<StructuralFindingEntityDto>,
    pub platform: Option<String>,
    pub reference_id: Option<i32>,
}

pub struct IgnoreDuplicateBody {
    pub id_a: i32,
    pub id_b: i32,
}

pub struct DedupIgnoreDto {
    pub entity_type: String,
    pub id_a: i32,
    pub id_b: i32,
}

/// Wire name of a finding kind.
pub open spec fn kind_name(kind: StructuralFindingKind) -> Seq<char> {
    match kind {
        StructuralFindingKind::ConflictingReference => "conflicting_reference"@,
        StructuralFindingKind::MultiplePlatformReferences => "multiple_platform_references"@,
        StructuralFindingKind::PlatformUrlMismatch => "platform_url_mismatch"@,
        StructuralFindingKind::TrackMissingSourceReference => "track_missing_source_reference"@,
    }
}

pub fn kind_as_str(kind: StructuralFindingKind) -> (res: &'static str)
    ensures
        res@ == kind_name(kind),
{
    match kind {
        StructuralFindingKind::ConflictingReference => "conflicting_reference",
        StructuralFindingKind::MultiplePlatformReferences => "multiple_platform_references",
        StructuralFindingKind::PlatformUrlMismatch => "platform_url_mismatch",
        StructuralFindingKind::TrackMissingSourceReference => "track_missing_source_reference",
    }
}

/// The entity kind named by a path segment: singular or plural, lowercase.
pub open spec fn entity_type_named(s: Seq<char>) -> Option<DataQualityEntityType> {
    if s == "artists"@ || s == "artist"@ {
        Some(DataQualityEntityType::Artist)
    } else if s == "albums"@ || s == "album"@ {
        Some(DataQualityEntityType::Album)
    } else if s == "tracks"@ || s == "track"@ {
        Some(DataQualityEntityType::Track)
    } else {
        None
    }
}

pub fn parse_entity_type(entity_type: &str) -> (res: Option<DataQualityEntityType>)
    ensures
        res == entity_type_named(entity_type@),
{
    if str_eq(entity_type, "artists") || str_eq(entity_type, "artist") {
        Some(DataQualityEntityType::Artist)
    } else if str_eq(entity_type, "albums") || str_eq(entity_type, "album") {
        Some(DataQualityEntityType::Album)
    } else if str_eq(entity_type, "tracks") || str_eq(entity_type, "track") {
        Some(DataQualityEntityType::Track)
    } else {
        None
    }
}

/// Why a duplicate-review request is refused (answered with 400 Bad Request).
#[derive(Clone, Copy, Debug, PartialEq, Eq, Structural)]
pub enum DuplicateRequestError {
    /// The path does not name artists, albums or tracks.
    UnknownEntityType,
    /// A pair made of one entity twice.
    SameIds,
}

/// Checks a "not a duplicate" request: the entity kind must be known, then the
/// two ids must differ. On success, the kind and the pair as given.
pub fn check_ignore_request(entity_type: &str, body: &IgnoreDuplicateBody) -> (res: Result<
    (DataQualityEntityType, i32, i32),
    DuplicateRequestError,
>)
    ensures
        entity_type_named(entity_type@) is None ==> res == Err::<
            (DataQualityEntityType, i32, i32),
            DuplicateRequestError,
        >(DuplicateRequestError::UnknownEntityType),
        entity_type_named(entity_type@) is Some && body.id_a == body.id_b ==> res == Err::<
            (DataQualityEntityType, i32, i32),
            DuplicateRequestError,
        >(DuplicateRequestError::SameIds),
        entity_type_named(entity_type@) is Some && body.id_a != body.id_b ==> res == Ok::<
            (DataQualityEntityType, i32, i32),
            DuplicateRequestError,
        >((entity_type_named(entity_type@)->0, body.id_a, body.id_b)),
{
    match parse_entity_type(entity_type) {
        None => Err(DuplicateRequestError::UnknownEntityType),
        Some(t) => {
            if body.id_a == body.id_b {
                Err(DuplicateRequestError::SameIds)
            } else {
                Ok((t, body.id_a, body.id_b))
            }
        },
    }
}

} // verus!
