//! The single global schedule that runs every sync subscription.

use vstd::prelude::*;

use crate::text::opt_chars;

verus! {

/// The stored schedule; timestamps already rendered as text.
pub struct SyncSettings {
    pub cron_expression: String,
    pub enabled: bool,
    pub last_run: Option<String>,
    pub next_run: Option<String>,
}

pub struct SyncSettingsDto {
    pub cron_expression: String,
    pub enabled: bool,
    pub last_run: Option<String>,
    pub next_run: Option<String>,
}

pub struct UpdateSyncSettingsBody {
    pub cron_expression: Option<String>,
    pub enabled: Option<bool>,
}

impl SyncSettingsDto {
    pub fn from_model(s: SyncSettings) -> (res: Self)
        ensures
            res.cron_expression@ == s.cron_expression@,
            res.enabled == s.enabled,
            opt_chars(res.last_run) == opt_chars(s.last_run),
            opt_chars(res.next_run) == opt_chars(s.next_run),
    {
        SyncSettingsDto {
            cron_expression: s.cron_expression,
            enabled: s.enabled,
            last_run: s.last_run,
            next_run: s.next_run,
        }
    }
}

/// Applies a partial update (the expression has been validated beforehand):
/// each given field replaces the stored one.
pub fn apply_settings_update(settings: &mut SyncSettings, body: UpdateSyncSettingsBody)
    ensures
        final(settings).cron_expression@ == match body.cron_expression {
            Some(c) => c@,
            None => old(settings).cron_expression@,
        },
        final(settings).enabled == match body.enabled {
            Some(e) => e,
            None => old(settings).enabled,
        },
        opt_chars(final(settings).last_run) == opt_chars(old(settings).last_run),
        opt_chars(final(settings).next_run) == opt_chars(old(settings).next_run),
{
    match body.cron_expression {
        Some(c) => settings.cron_expression = c,
        None => {},
    }
    match body.enabled {
        Some(e) => settings.enabled = e,
        None => {},
    }
}

/// The scheduler runs every subscription when the schedule is enabled and its
/// next run is due (times in seconds; no next run yet counts as due).
pub fn schedule_is_due(enabled: bool, next_run: Option<i64>, now: i64) -> (res: bool)
    ensures
        res == (enabled && match next_run {
            Some(n) => n <= now,
            None => true,
        }),
{
    enabled && match next_run {
        Some(n) => n <= now,
        None => true,
    }
}

} // verus!
