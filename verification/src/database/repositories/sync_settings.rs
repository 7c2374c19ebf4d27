//! Global schedule repository.

use vstd::prelude::*;

verus! {

/// The single row (`id == 1`) holding the global schedule.
pub const SETTINGS_ID: i32 = 1;

pub struct DieselSyncSettingsRepository {}

impl DieselSyncSettingsRepository {
    pub fn new() -> Self {
        DieselSyncSettingsRepository {  }
    }
}

} // verus!
