//! Artist repository.

use vstd::prelude::*;

verus! {

pub struct DieselArtistRepository {}

impl DieselArtistRepository {
    pub fn new() -> Self {
        DieselArtistRepository {  }
    }
}

} // verus!
