//! Playlist repository.

use vstd::prelude::*;

verus! {

pub struct DieselPlaylistRepository {}

impl DieselPlaylistRepository {
    pub fn new() -> Self {
        DieselPlaylistRepository {  }
    }
}

} // verus!
