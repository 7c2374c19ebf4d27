//! Download requests: one track right away, or a playlist as a background task.

use vstd::prelude::*;

use crate::text::{seq_contains, str_contains};

verus! {

pub struct DownloadRequest {
    pub url: String,
}

pub struct DownloadResult {
    pub title: String,
    pub artists: Vec<String>,
    pub needs_validation: bool,
}

pub struct PlaylistDownloadResult {
    pub downloaded: usize,
    pub skipped: usize,
    pub failed: usize,
}

/// A URL that names a collection (playlist, set, list or album) rather than one track.
pub open spec fn names_collection(url: Seq<char>) -> bool {
    seq_contains(url, "/playlist/"@) || seq_contains(url, "/sets/"@) || seq_contains(url, "list="@)
        || seq_contains(url, "/album/"@)
}

pub fn is_playlist_url(url: &str) -> (res: bool)
    ensures
        res == names_collection(url@),
{
    str_contains(url, "/playlist/") || str_contains(url, "/sets/") || str_contains(url, "list=")
        || str_contains(url, "/album/")
}

} // verus!
