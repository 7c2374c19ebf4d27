//! Sync subscriptions: playlists or artists re-synced on the global schedule.

use vstd::prelude::*;

use crate::models::SyncEntityType;
use crate::text::opt_chars;

verus! {

/// A stored subscription; timestamps already rendered as text.
pub struct SyncSchedule {
    pub id: Option<i32>,
    pub entity_type: SyncEntityType,
    pub artist_id: Option<i32>,
    pub reference_id: Option<i32>,
    pub url: String,
    pub label: Option<String>,
    pub enabled: bool,
    pub last_run: Option<String>,
    pub created_at: Option<String>,
}

pub struct SyncScheduleDto {
    pub id: i32,
    pub entity_type: String,
    pub artist_id: Option<i32>,
    pub reference_id: Option<i32>,
    pub url: String,
    pub label: Option<String>,
    pub enabled: bool,
    pub last_run: Option<String>,
    pub created_at: Option<String>,
}

pub struct CreateSyncScheduleBody {
    /// Manual "add link" path: a raw URL, entity type auto-detected. Mutually
    /// exclusive with `artist_id`/`reference_id`.
    pub url: Option<String>,
    pub label: Option<String>,
    /// One-click "subscribe from the artist page" path: an artist and one of
    /// its references. Mutually exclusive with `url`.
    pub artist_id: Option<i32>,
    pub reference_id: Option<i32>,
}

pub struct UpdateSyncScheduleBody {
    pub label: Option<String>,
    pub enabled: Option<bool>,
}

impl SyncScheduleDto {
    /// The DTO of a stored subscription; `None` for one without an id.
    pub fn from_model(s: SyncSchedule) -> (res: Option<Self>)
        ensures
            s.id is None ==> res is None,
            s.id is Some ==> (res matches Some(d) && d.id == s.id->0 && d.entity_type@
                == s.entity_type.name() && d.artist_id == s.artist_id && d.reference_id
                == s.reference_id && d.url@ == s.url@ && opt_chars(d.label) == opt_chars(s.label)
                && d.enabled == s.enabled && opt_chars(d.last_run) == opt_chars(s.last_run)
                && opt_chars(d.created_at) == opt_chars(s.created_at)),
    {
        match s.id {
            None => None,
            Some(id) => Some(
                SyncScheduleDto {
                    id,
                    entity_type: s.entity_type.as_str().to_owned(),
                    artist_id: s.artist_id,
                    reference_id: s.reference_id,
                    url: s.url,
                    label: s.label,
                    enabled: s.enabled,
                    last_run: s.last_run,
                    created_at: s.created_at,
                },
            ),
        }
    }
}

/// What a create request asks for.
pub enum SubscriptionRequest {
    /// Follow an artist through one of its references.
    Artist { artist_id: i32, reference_id: i32, label: Option<String> },
    /// Follow a raw URL; its kind is detected from the URL.
    Url { url: String, label: Option<String> },
}

/// Why a create request is refused (answered with 400 Bad Request).
#[derive(Clone, Copy, Debug, PartialEq, Eq, Structural)]
pub enum CreateSubscriptionError {
    /// Both a URL and artist fields were given.
    UrlWithArtistFields,
    /// Neither a URL nor both artist fields were given.
    NothingToFollow,
}

/// Reads a create request: a URL excludes the artist fields; an artist needs
/// both its id and a reference id; otherwise a URL is needed.
pub fn read_create_request(body: CreateSyncScheduleBody) -> (res: Result<
    SubscriptionRequest,
    CreateSubscriptionError,
>)
    ensures
        body.url is Some && (body.artist_id is Some || body.reference_id is Some) ==> res
            == Err::<SubscriptionRequest, CreateSubscriptionError>(
            CreateSubscriptionError::UrlWithArtistFields,
        ),
        body.url is None && body.artist_id is Some && body.reference_id is Some ==> (res matches Ok(
            SubscriptionRequest::Artist { artist_id, reference_id, label },
        ) && artist_id == body.artist_id->0 && reference_id == body.reference_id->0 && opt_chars(
            label,
        ) == opt_chars(body.label)),
        body.url is Some && body.artist_id is None && body.reference_id is None ==> (res matches Ok(
            SubscriptionRequest::Url { url, label },
        ) && url@ == body.url->0@ && opt_chars(label) == opt_chars(body.label)),
        body.url is None && !(body.artist_id is Some && body.reference_id is Some) ==> res
            == Err::<SubscriptionRequest, CreateSubscriptionError>(
            CreateSubscriptionError::NothingToFollow,
        ),
{
    let CreateSyncScheduleBody { url, label, artist_id, reference_id } = body;
    if url.is_some() && (artist_id.is_some() || reference_id.is_some()) {
        return Err(CreateSubscriptionError::UrlWithArtistFields);
    }
    match (artist_id, reference_id) {
        (Some(a), Some(r)) => Ok(SubscriptionRequest::Artist { artist_id: a, reference_id: r, label }),
        _ => match url {
            Some(u) => Ok(SubscriptionRequest::Url { url: u, label }),
            None => Err(CreateSubscriptionError::NothingToFollow),
        },
    }
}

/// The label of an artist subscription: the one given, else the artist's name.
pub fn artist_subscription_label(label: Option<String>, artist_name: &String) -> (res: Option<String>)
    ensures
        res is Some,
        label is Some ==> res->0@ == label->0@,
        label is None ==> res->0@ == artist_name@,
{
    match label {
        Some(l) => Some(l),
        None => Some(artist_name.clone()),
    }
}

/// Applies a partial update: a given label replaces the stored one, a given
/// flag replaces `enabled`; everything else stays.
pub fn apply_update(schedule: &mut SyncSchedule, body: UpdateSyncScheduleBody)
    ensures
        opt_chars(final(schedule).label) == match body.label {
            Some(l) => Some(l@),
            None => opt_chars(old(schedule).label),
        },
        final(schedule).enabled == match body.enabled {
            Some(e) => e,
            None => old(schedule).enabled,
        },
        final(schedule).id == old(schedule).id,
        final(schedule).entity_type == old(schedule).entity_type,
        final(schedule).artist_id == old(schedule).artist_id,
        final(schedule).reference_id == old(schedule).reference_id,
        final(schedule).url@ == old(schedule).url@,
        opt_chars(final(schedule).last_run) == opt_chars(old(schedule).last_run),
        opt_chars(final(schedule).created_at) == opt_chars(old(schedule).created_at),
{
    match body.label {
        Some(l) => schedule.label = Some(l),
        None => {},
    }
    match body.enabled {
        Some(e) => schedule.enabled = e,
        None => {},
    }
}

/// A subscription to run now: its id, kind, URL and label.
pub struct DueSubscription {
    pub id: i32,
    pub entity_type: SyncEntityType,
    pub url: String,
    pub label: Option<String>,
}

/// A subscription to run, as plain values.
pub type DueView = (i32, SyncEntityType, Seq<char>, Option<Seq<char>>);

pub open spec fn due_view(d: DueSubscription) -> DueView {
    (d.id, d.entity_type, d.url@, opt_chars(d.label))
}

/// The subscription to run for a stored one.
pub open spec fn as_due() -> spec_fn(SyncSchedule) -> DueView {
    |s: SyncSchedule| (s.id->0, s.entity_type, s.url@, opt_chars(s.label))
}

pub open spec fn has_id() -> spec_fn(SyncSchedule) -> bool {
    |s: SyncSchedule| s.id is Some
}

/// The subscriptions a "run all now" pass starts, in order: every enabled one
/// that has an id.
pub fn due_subscriptions(enabled: &Vec<SyncSchedule>) -> (res: Vec<DueSubscription>)
    ensures
        res@.map_values(|d: DueSubscription| due_view(d)) == enabled@.filter(has_id()).map_values(as_due()),
{
    let ghost src = enabled@;
    let mut out: Vec<DueSubscription> = Vec::new();
    let mut i: usize = 0;
    assert(src.take(0).filter(has_id()) =~= Seq::<SyncSchedule>::empty()) by {
        reveal(Seq::filter);
    }
    assert(out@.map_values(|d: DueSubscription| due_view(d)) =~= src.take(0).filter(has_id()).map_values(as_due()));
    while i < enabled.len()
        invariant
            src == enabled@,
            i <= src.len(),
            out@.map_values(|d: DueSubscription| due_view(d)) == src.take(i as int).filter(has_id()).map_values(as_due()),
        decreases src.len() - i,
    {
        let s = &enabled[i];
        let ghost before = src.take(i as int).filter(has_id());
        let ghost old_out = out@;
        proof {
            reveal(Seq::filter);
            assert(src.take(i + 1).drop_last() =~= src.take(i as int));
            assert(src.take(i + 1).last() == *s);
        }
        match s.id {
            Some(id) => {
                let label = match &s.label {
                    Some(l) => Some(l.clone()),
                    None => None,
                };
                let d = DueSubscription { id, entity_type: s.entity_type, url: s.url.clone(), label };
                out.push(d);
                proof {
                    assert(src.take(i + 1).filter(has_id()) == before.push(*s));
                    assert(before.push(*s).map_values(as_due()) =~= before.map_values(as_due()).push(as_due()(*s)));
                    assert(out@.map_values(|d: DueSubscription| due_view(d)) =~= old_out.map_values(|d: DueSubscription| due_view(d)).push(due_view(d)));
                }
            },
            None => {
                assert(src.take(i + 1).filter(has_id()) == before);
            },
        }
        i = i + 1;
    }
    assert(src.take(src.len() as int) =~= src);
    out
}

/// The background job a subscription starts.
#[derive(Clone, Copy, Debug, PartialEq, Eq, Structural)]
pub enum SyncJob {
    /// Re-sync a playlist from its URL.
    PlaylistSync,
    /// Fetch an artist's new releases from its URL.
    ArtistSync,
}

/// Playlists are re-synced, artists are followed.
pub fn sync_job(entity_type: SyncEntityType) -> (res: SyncJob)
    ensures
        res == match entity_type {
            SyncEntityType::Playlist => SyncJob::PlaylistSync,
            SyncEntityType::Artist => SyncJob::ArtistSync,
        },
{
    match entity_type {
        SyncEntityType::Playlist => SyncJob::PlaylistSync,
        SyncEntityType::Artist => SyncJob::ArtistSync,
    }
}

/// How far the scheduler has got with one due subscription, and what the last
/// step reported.
#[derive(Clone, Copy, Debug, PartialEq, Eq, Structural)]
pub enum SubscriptionProgress {
    /// Nothing done yet.
    NotStarted,
    /// Recording the run on the subscription failed.
    MarkRanFailed,
    /// The run is recorded on the subscription.
    MarkedRan,
    /// Creating the task failed.
    TaskCreationFailed,
    /// The task was created; its id, if the store gave one.
    TaskCreated(Option<i32>),
}

/// What the scheduler does next for one due subscription.
#[derive(Clone, Copy, Debug, PartialEq, Eq, Structural)]
pub enum SubscriptionAction {
    /// Record the run on the subscription with this id.
    MarkRan { subscription_id: i32 },
    /// Create a task of this kind for the subscription's URL and label.
    CreateTask { job: SyncJob },
    /// Register a cancellation flag for the task and hand the job to the executor.
    RegisterAndEnqueue { task_id: i32, job: SyncJob },
    /// Give up on this subscription and go on with the next one.
    SkipToNext,
}

/// The scheduler's step for one due subscription: record the run, then create
/// the task, then register its cancellation flag and enqueue it; any failure,
/// or a created task without an id, moves on to the next subscription.
pub fn next_subscription_action(sub: &DueSubscription, progress: SubscriptionProgress) -> (res:
    SubscriptionAction)
    ensures
        res == match progress {
            SubscriptionProgress::NotStarted => SubscriptionAction::MarkRan { subscription_id: sub.id },
            SubscriptionProgress::MarkedRan => SubscriptionAction::CreateTask {
                job: match sub.entity_type {
                    SyncEntityType::Playlist => SyncJob::PlaylistSync,
                    SyncEntityType::Artist => SyncJob::ArtistSync,
                },
            },
            SubscriptionProgress::TaskCreated(Some(task_id)) => SubscriptionAction::RegisterAndEnqueue {
                task_id,
                job: match sub.entity_type {
                    SyncEntityType::Playlist => SyncJob::PlaylistSync,
                    SyncEntityType::Artist => SyncJob::ArtistSync,
                },
            },
            _ => SubscriptionAction::SkipToNext,
        },
{
    match progress {
        SubscriptionProgress::NotStarted => SubscriptionAction::MarkRan { subscription_id: sub.id },
        SubscriptionProgress::MarkedRan => SubscriptionAction::CreateTask { job: sync_job(sub.entity_type) },
        SubscriptionProgress::TaskCreated(Some(task_id)) => SubscriptionAction::RegisterAndEnqueue {
            task_id,
            job: sync_job(sub.entity_type),
        },
        _ => SubscriptionAction::SkipToNext,
    }
}

/// Law: a "run all now" pass starts every enabled subscription that has an
/// id, whatever its kind, with its id, kind, URL and label; and it starts
/// nothing else.
pub proof fn law_every_enabled_subscription_is_due(enabled: Seq<SyncSchedule>, k: int, j: int)
    ensures
        0 <= k < enabled.len() && enabled[k].id is Some ==> exists|m: int|
            0 <= m < enabled.filter(has_id()).map_values(as_due()).len() && #[trigger] enabled.filter(
                has_id(),
            ).map_values(as_due())[m] == (enabled[k].id->0, enabled[k].entity_type, enabled[k].url@, opt_chars(
                enabled[k].label,
            )),
        0 <= j < enabled.filter(has_id()).map_values(as_due()).len() ==> exists|n: int|
            0 <= n < enabled.len() && (#[trigger] enabled[n]).id == Some(enabled.filter(has_id()).map_values(
                as_due(),
            )[j].0) && enabled.filter(has_id()).map_values(as_due())[j] == (
                enabled[n].id->0,
                enabled[n].entity_type,
                enabled[n].url@,
                opt_chars(enabled[n].label),
            ),
{
    let f = enabled.filter(has_id());
    let due = f.map_values(as_due());
    if 0 <= k < enabled.len() && enabled[k].id is Some {
        assert(has_id()(enabled[k]));
        enabled.lemma_filter_contains(has_id(), k);
        let m = choose|m: int| 0 <= m < f.len() && f[m] == enabled[k];
        assert(due[m] == as_due()(f[m]));
    }
    if 0 <= j < due.len() {
        assert(f.contains(f[j]));
        enabled.lemma_filter_contains_rev(has_id(), f[j]);
        let n = choose|n: int| 0 <= n < enabled.len() && enabled[n] == f[j];
        assert(due[j] == as_due()(f[j]));
        assert(enabled[n].id == Some(due[j].0));
    }
}

} // verus!
