//! Sync subscription repository: the stored form of the `enabled` flag.

use vstd::prelude::*;

verus! {

pub struct DieselSyncScheduleRepository {}

impl DieselSyncScheduleRepository {
    pub fn new() -> Self {
        DieselSyncScheduleRepository {  }
    }

    /// The column value of a flag: 1 for enabled, 0 for disabled.
    pub fn enabled_column(enabled: bool) -> (res: i32)
        ensures
            res == column_of(enabled),
    {
        if enabled {
            1
        } else {
            0
        }
    }

    /// The flag a column value means: anything but 0 is enabled.
    pub fn enabled_flag(column: i32) -> (res: bool)
        ensures
            res == flag_of(column),
    {
        column != 0
    }
}

/// The stored value of a flag.
pub open spec fn column_of(enabled: bool) -> i32 {
    if enabled {
        1
    } else {
        0
    }
}

/// The flag a stored value means.
pub open spec fn flag_of(column: i32) -> bool {
    column != 0
}

/// A flag read back after being stored is the flag that was stored.
pub proof fn law_enabled_round_trip(enabled: bool)
    ensures
        flag_of(column_of(enabled)) == enabled,
{
}

} // verus!
