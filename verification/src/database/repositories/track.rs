//! Track repository logic: what a duplicate merge keeps of the merged tracks.

use vstd::prelude::*;

use crate::ids::{contains_id, contains_id_before, first_occurrences, lemma_first_occurrences, push_unique};
use crate::text::{lowercase, opt_chars, str_eq, to_lowercase};

verus! {

pub struct DieselTrackRepository {}

impl DieselTrackRepository {
    pub fn new() -> Self {
        DieselTrackRepository {  }
    }
}

/// Why a track merge is refused before anything is written.
#[derive(Clone, Copy, Debug, PartialEq, Eq, Structural)]
pub enum TrackMergeError {
    /// No source, or the target among the sources.
    SourcesNotDistinctFromTarget,
    /// A source listed twice.
    DuplicateSources,
}

/// No id occurs twice in `s`.
pub open spec fn all_distinct(s: Seq<i32>) -> bool {
    forall|a: int, b: int| 0 <= a < b < s.len() ==> s[a] != s[b]
}

/// The ids of the artists that have one, in order.
pub open spec fn present_ids(s: Seq<Option<i32>>) -> Seq<i32>
    decreases s.len(),
{
    if s.len() == 0 {
        Seq::empty()
    } else {
        let rest = present_ids(s.drop_last());
        match s.last() {
            Some(id) => rest.push(id),
            None => rest,
        }
    }
}

/// One playlist membership: `(track_id, playlist_id, position)`.
pub type PlaylistLink = (i32, i32, Option<i32>);

/// The position that the last membership of `track` in `playlist` records, if any.
pub open spec fn last_position_of(rows: Seq<PlaylistLink>, track: i32, playlist: i32) -> Option<Option<i32>>
    decreases rows.len(),
{
    if rows.len() == 0 {
        None
    } else if rows.last().0 == track && rows.last().1 == playlist {
        Some(rows.last().2)
    } else {
        last_position_of(rows.drop_last(), track, playlist)
    }
}

/// The position that the first membership of any track in `playlist` records, if any.
pub open spec fn first_position_in(rows: Seq<PlaylistLink>, playlist: i32) -> Option<Option<i32>>
    decreases rows.len(),
{
    if rows.len() == 0 {
        None
    } else {
        let earlier = first_position_in(rows.drop_last(), playlist);
        if earlier is Some {
            earlier
        } else if rows.last().1 == playlist {
            Some(rows.last().2)
        } else {
            None
        }
    }
}

/// The merged track's position in `playlist`: the target's own position where
/// the target is a member, else the first position met among the rows.
pub open spec fn merged_position(rows: Seq<PlaylistLink>, target_id: i32, playlist: i32) -> Option<i32> {
    match last_position_of(rows, target_id, playlist) {
        Some(p) => p,
        None => match first_position_in(rows, playlist) {
            Some(p) => p,
            None => None,
        },
    }
}

/// The playlist of a membership, as a function.
pub open spec fn link_playlist() -> spec_fn(PlaylistLink) -> i32 {
    |r: PlaylistLink| r.1
}

/// The playlists of the rows, each once, in order of first appearance.
pub open spec fn playlists_of(rows: Seq<PlaylistLink>) -> Seq<i32> {
    first_occurrences(rows.map_values(link_playlist()))
}

impl DieselTrackRepository {
    /// Checks the sources of a merge: at least one, none equal to the target,
    /// none twice.
    pub fn check_merge_sources(source_ids: &Vec<i32>, target_id: i32) -> (res: Result<(), TrackMergeError>)
        ensures
            (source_ids@.len() == 0 || source_ids@.contains(target_id)) ==> res == Err::<
                (),
                TrackMergeError,
            >(TrackMergeError::SourcesNotDistinctFromTarget),
            !(source_ids@.len() == 0 || source_ids@.contains(target_id)) && !all_distinct(source_ids@)
                ==> res == Err::<(), TrackMergeError>(TrackMergeError::DuplicateSources),
            !(source_ids@.len() == 0 || source_ids@.contains(target_id)) && all_distinct(source_ids@)
                ==> res == Ok::<(), TrackMergeError>(()),
    {
        if source_ids.len() == 0 || contains_id(source_ids.as_slice(), target_id) {
            return Err(TrackMergeError::SourcesNotDistinctFromTarget);
        }
        let mut b: usize = 0;
        while b < source_ids.len()
            invariant
                b <= source_ids.len(),
                source_ids@.len() > 0 && !source_ids@.contains(target_id),
                all_distinct(source_ids@.take(b as int)),
            decreases source_ids.len() - b,
        {
            if contains_id_before(source_ids.as_slice(), b, source_ids[b]) {
                proof {
                    let a = choose|a: int| 0 <= a < b && source_ids@.take(b as int)[a] == source_ids@[b as int];
                    assert(source_ids@[a] == source_ids@[b as int]);
                }
                return Err(TrackMergeError::DuplicateSources);
            }
            proof {
                let t0 = source_ids@.take(b as int);
                let t1 = source_ids@.take(b + 1);
                assert forall|x: int, y: int| 0 <= x < y < b + 1 implies #[trigger] t1[x] != #[trigger] t1[y] by {
                    if y == b {
                        assert(t0[x] == t1[x]);
                        assert(!t0.contains(source_ids@[b as int]));
                    } else {
                        assert(t0[x] == t1[x]);
                        assert(t0[y] == t1[y]);
                    }
                }
            }
            b = b + 1;
        }
        assert(source_ids@.take(source_ids@.len() as int) =~= source_ids@);
        Ok(())
    }

    /// The artists the merged track keeps: the winner's artists that have an id,
    /// each once, in order.
    pub fn merged_artist_ids(artist_ids: &Vec<Option<i32>>) -> (res: Vec<i32>)
        ensures
            res@ == first_occurrences(present_ids(artist_ids@)),
    {
        let ghost s = artist_ids@;
        let mut out: Vec<i32> = Vec::new();
        let mut i: usize = 0;
        while i < artist_ids.len()
            invariant
                s == artist_ids@,
                i <= s.len(),
                out@ == first_occurrences(present_ids(s.take(i as int))),
            decreases s.len() - i,
        {
            proof {
                assert(s.take(i + 1).drop_last() =~= s.take(i as int));
            }
            match artist_ids[i] {
                Some(id) => {
                    proof {
                        let p = present_ids(s.take(i as int));
                        assert(present_ids(s.take(i + 1)) == p.push(id));
                        assert(p.push(id).drop_last() =~= p);
                    }
                    push_unique(&mut out, id);
                },
                None => {},
            }
            i = i + 1;
        }
        assert(s.take(s.len() as int) =~= s);
        out
    }

    /// The playlist memberships the merged track ends with, given every
    /// membership row of the target and the sources: one per playlist, in order
    /// of first appearance, keeping the target's position where it has one and
    /// otherwise the first position met.
    pub fn merged_playlist_links(target_id: i32, rows: &Vec<PlaylistLink>) -> (res: Vec<(i32, Option<i32>)>)
        ensures
            res@.len() == playlists_of(rows@).len(),
            forall|k: int|
                0 <= k < res@.len() ==> #[trigger] res@[k] == (
                    playlists_of(rows@)[k],
                    merged_position(rows@, target_id, playlists_of(rows@)[k]),
                ),
    {
        let ghost s = rows@;
        let ghost ms = s.map_values(link_playlist());
        let mut playlists: Vec<i32> = Vec::new();
        let mut i: usize = 0;
        while i < rows.len()
            invariant
                s == rows@,
                ms == s.map_values(link_playlist()),
                i <= s.len(),
                playlists@ == first_occurrences(ms.take(i as int)),
            decreases s.len() - i,
        {
            proof {
                assert(ms.take(i + 1).drop_last() =~= ms.take(i as int));
                assert(ms.take(i + 1).last() == rows@[i as int].1);
            }
            push_unique(&mut playlists, rows[i].1);
            i = i + 1;
        }
        assert(ms.take(ms.len() as int) =~= ms);
        let mut out: Vec<(i32, Option<i32>)> = Vec::new();
        let mut k: usize = 0;
        while k < playlists.len()
            invariant
                s == rows@,
                playlists@ == playlists_of(s),
                k <= playlists.len(),
                out@.len() == k,
                forall|m: int|
                    0 <= m < k ==> #[trigger] out@[m] == (
                        playlists@[m],
                        merged_position(s, target_id, playlists@[m]),
                    ),
            decreases playlists.len() - k,
        {
            let pl = playlists[k];
            let pos = Self::merged_position_of(target_id, rows, pl);
            out.push((pl, pos));
            k = k + 1;
        }
        out
    }

    fn merged_position_of(target_id: i32, rows: &Vec<PlaylistLink>, playlist: i32) -> (res: Option<i32>)
        ensures
            res == merged_position(rows@, target_id, playlist),
    {
        let ghost s = rows@;
        let mut own: Option<Option<i32>> = None;
        let mut first: Option<Option<i32>> = None;
        let mut j: usize = 0;
        while j < rows.len()
            invariant
                s == rows@,
                j <= s.len(),
                own == last_position_of(s.take(j as int), target_id, playlist),
                first == first_position_in(s.take(j as int), playlist),
            decreases s.len() - j,
        {
            let row = rows[j];
            proof {
                assert(s.take(j + 1).drop_last() =~= s.take(j as int));
                assert(s.take(j + 1).last() == row);
            }
            if row.0 == target_id && row.1 == playlist {
                own = Some(row.2);
            }
            if first.is_none() && row.1 == playlist {
                first = Some(row.2);
            }
            j = j + 1;
        }
        assert(s.take(s.len() as int) =~= s);
        match own {
            Some(p) => p,
            None => match first {
                Some(p) => p,
                None => None,
            },
        }
    }
}

// ------------------------------------------------------------------------------------------------
// Replacing a track's references
// ------------------------------------------------------------------------------------------------

/// A reference of a track: as stored, or as handed in by the caller with the
/// type and platform spelled as the domain names them.
pub struct ReferenceRow {
    pub ref_type: String,
    pub platform: String,
    pub external_id: Option<String>,
    pub external_url: Option<String>,
}

/// A reference row as plain text.
pub type RefView = (Seq<char>, Seq<char>, Option<Seq<char>>, Option<Seq<char>>);

pub open spec fn ref_view(r: ReferenceRow) -> RefView {
    (r.ref_type@, r.platform@, opt_chars(r.external_id), opt_chars(r.external_url))
}

pub open spec fn ref_views(s: Seq<ReferenceRow>) -> Seq<RefView> {
    s.map_values(|r: ReferenceRow| ref_view(r))
}

/// How a reference is stored: type and platform lowercased.
pub open spec fn stored_form(r: ReferenceRow) -> RefView {
    (lowercase(r.ref_type@), lowercase(r.platform@), opt_chars(r.external_id), opt_chars(r.external_url))
}

/// Reference types of which a track keeps a single row.
pub open spec fn is_single_kind(t: Seq<char>) -> bool {
    t == "source"@ || t == "provider"@
}

/// The reference points somewhere: it has an id or a url.
pub open spec fn names_target(r: ReferenceRow) -> bool {
    r.external_id is Some || r.external_url is Some
}

/// Rows whose type is not `t`.
pub open spec fn type_is_not(t: Seq<char>) -> spec_fn(RefView) -> bool {
    |v: RefView| v.0 != t
}

/// Rows whose type is `t`.
pub open spec fn type_is(t: Seq<char>) -> spec_fn(RefView) -> bool {
    |v: RefView| v.0 == t
}

/// The stored rows after the single-kind references of `refs` are applied in
/// order: each drops every stored row of its type, then is stored itself when
/// it points somewhere.
pub open spec fn after_replacements(rows: Seq<RefView>, refs: Seq<ReferenceRow>) -> Seq<RefView>
    decreases refs.len(),
{
    if refs.len() == 0 {
        rows
    } else {
        let prev = after_replacements(rows, refs.drop_last());
        let r = refs.last();
        let t = lowercase(r.ref_type@);
        if is_single_kind(t) {
            let kept = prev.filter(type_is_not(t));
            if names_target(r) {
                kept.push(stored_form(r))
            } else {
                kept
            }
        } else {
            prev
        }
    }
}

/// The stored row `e` already records the reference `r`.
pub open spec fn records(e: RefView, r: ReferenceRow) -> bool {
    &&& lowercase(e.0) == lowercase(r.ref_type@)
    &&& lowercase(e.1) == lowercase(r.platform@)
    &&& e.2 == opt_chars(r.external_id)
    &&& e.3 == opt_chars(r.external_url)
}

/// `r` is merged in: a pointing reference of another type that no row of
/// `existing` records yet.
pub open spec fn is_merged_in(existing: Seq<RefView>, r: ReferenceRow) -> bool {
    &&& !is_single_kind(lowercase(r.ref_type@))
    &&& names_target(r)
    &&& !(exists|k: int| 0 <= k < existing.len() && records(#[trigger] existing[k], r))
}

/// References that get merged into `existing`.
pub open spec fn merged_into(existing: Seq<RefView>) -> spec_fn(ReferenceRow) -> bool {
    |r: ReferenceRow| is_merged_in(existing, r)
}

/// The stored form, as a function.
pub open spec fn storing() -> spec_fn(ReferenceRow) -> RefView {
    |r: ReferenceRow| stored_form(r)
}

/// The stored references of a track after `refs` is set on it.
pub open spec fn references_after(rows: Seq<RefView>, refs: Seq<ReferenceRow>) -> Seq<RefView> {
    let existing = after_replacements(rows, refs);
    existing + refs.filter(merged_into(existing)).map_values(storing())
}

pub(crate) fn clone_opt(o: &Option<String>) -> (res: Option<String>)
    ensures
        opt_chars(res) == opt_chars(*o),
{
    match o {
        Some(s) => Some(s.clone()),
        None => None,
    }
}

pub(crate) fn opt_eq(a: &Option<String>, b: &Option<String>) -> (res: bool)
    ensures
        res == (opt_chars(*a) == opt_chars(*b)),
{
    match (a, b) {
        (Some(x), Some(y)) => str_eq(x.as_str(), y.as_str()),
        (None, None) => true,
        _ => false,
    }
}

pub(crate) fn stored_row(r: &ReferenceRow) -> (res: ReferenceRow)
    ensures
        ref_view(res) == stored_form(*r),
{
    ReferenceRow {
        ref_type: to_lowercase(r.ref_type.as_str()),
        platform: to_lowercase(r.platform.as_str()),
        external_id: clone_opt(&r.external_id),
        external_url: clone_opt(&r.external_url),
    }
}

fn clone_row(r: &ReferenceRow) -> (res: ReferenceRow)
    ensures
        ref_view(res) == ref_view(*r),
{
    ReferenceRow {
        ref_type: r.ref_type.clone(),
        platform: r.platform.clone(),
        external_id: clone_opt(&r.external_id),
        external_url: clone_opt(&r.external_url),
    }
}

pub(crate) proof fn lemma_views_push(s: Seq<ReferenceRow>, r: ReferenceRow)
    ensures
        ref_views(s.push(r)) == ref_views(s).push(ref_view(r)),
{
    assert(ref_views(s.push(r)) =~= ref_views(s).push(ref_view(r)));
}

/// The rows whose type is not `t`.
fn without_type(rows: Vec<ReferenceRow>, t: &str) -> (res: Vec<ReferenceRow>)
    ensures
        ref_views(res@) == ref_views(rows@).filter(type_is_not(t@)),
{
    let ghost s = ref_views(rows@);
    let ghost pred = type_is_not(t@);
    let mut out: Vec<ReferenceRow> = Vec::new();
    let mut i: usize = 0;
    assert(s.take(0).filter(pred) =~= Seq::<RefView>::empty()) by {
        reveal(Seq::filter);
    }
    assert(ref_views(out@) =~= Seq::<RefView>::empty());
    while i < rows.len()
        invariant
            s == ref_views(rows@),
            pred == type_is_not(t@),
            i <= rows.len(),
            ref_views(out@) == s.take(i as int).filter(pred),
        decreases rows.len() - i,
    {
        let r = &rows[i];
        proof {
            reveal(Seq::filter);
            assert(s.take(i + 1).drop_last() =~= s.take(i as int));
            assert(s.take(i + 1).last() == ref_view(*r));
        }
        if !str_eq(r.ref_type.as_str(), t) {
            proof {
                lemma_views_push(out@, *r);
            }
            out.push(clone_row(r));
            proof {
                lemma_views_push(out@.drop_last(), out@.last());
                assert(out@.drop_last().push(out@.last()) =~= out@);
            }
        }
        i = i + 1;
    }
    assert(s.take(s.len() as int) =~= s);
    out
}

/// Whether some row of `existing` records `r`.
pub(crate) fn is_recorded(existing: &Vec<ReferenceRow>, r: &ReferenceRow) -> (res: bool)
    ensures
        res == exists|k: int| 0 <= k < existing@.len() && records(#[trigger] ref_views(existing@)[k], *r),
{
    let t = to_lowercase(r.ref_type.as_str());
    let p = to_lowercase(r.platform.as_str());
    let mut k: usize = 0;
    while k < existing.len()
        invariant
            k <= existing.len(),
            t@ == lowercase(r.ref_type@),
            p@ == lowercase(r.platform@),
            forall|m: int| 0 <= m < k ==> !records(#[trigger] ref_views(existing@)[m], *r),
        decreases existing.len() - k,
    {
        let e = &existing[k];
        assert(ref_views(existing@)[k as int] == ref_view(*e));
        let et = to_lowercase(e.ref_type.as_str());
        let ep = to_lowercase(e.platform.as_str());
        if str_eq(et.as_str(), t.as_str()) && str_eq(ep.as_str(), p.as_str()) && opt_eq(
            &e.external_id,
            &r.external_id,
        ) && opt_eq(&e.external_url, &r.external_url) {
            return true;
        }
        k = k + 1;
    }
    false
}

impl DieselTrackRepository {
    /// The references a track ends with when `refs` is set on it: `Source` and
    /// `Provider` references replace the stored row of their type (and are
    /// dropped without one when they point nowhere); the others are added when
    /// they point somewhere and no row records them yet. An empty `refs` changes
    /// nothing.
    pub fn set_references(rows: Vec<ReferenceRow>, refs: &Vec<ReferenceRow>) -> (res: Vec<ReferenceRow>)
        ensures
            ref_views(res@) == references_after(ref_views(rows@), refs@),
    {
        let ghost rv = ref_views(rows@);
        let ghost rs = refs@;
        let mut current = rows;
        let mut i: usize = 0;
        assert(rs.take(0) =~= Seq::<ReferenceRow>::empty());
        while i < refs.len()
            invariant
                rs == refs@,
                i <= rs.len(),
                ref_views(current@) == after_replacements(rv, rs.take(i as int)),
            decreases rs.len() - i,
        {
            let r = &refs[i];
            proof {
                assert(rs.take(i + 1).drop_last() =~= rs.take(i as int));
                assert(rs.take(i + 1).last() == *r);
            }
            let t = to_lowercase(r.ref_type.as_str());
            if str_eq(t.as_str(), "source") || str_eq(t.as_str(), "provider") {
                let mut kept = without_type(current, t.as_str());
                proof {
                    let tt = lowercase(rs.take(i + 1).last().ref_type@);
                    assert(tt == t@);
                    assert(is_single_kind(tt));
                }
                if r.external_id.is_some() || r.external_url.is_some() {
                    let ghost before = kept@;
                    kept.push(stored_row(r));
                    proof {
                        lemma_views_push(before, kept@.last());
                        assert(before.push(kept@.last()) =~= kept@);
                    }
                }
                current = kept;
            }
            i = i + 1;
        }
        assert(rs.take(rs.len() as int) =~= rs);
        let ghost existing = ref_views(current@);
        let ghost pred = merged_into(existing);
        let ghost sf = storing();
        let mut added: Vec<ReferenceRow> = Vec::new();
        let mut j: usize = 0;
        assert(rs.take(0).filter(pred) =~= Seq::<ReferenceRow>::empty()) by {
            reveal(Seq::filter);
        }
        assert(ref_views(added@) =~= rs.take(0).filter(pred).map_values(sf));
        while j < refs.len()
            invariant
                rs == refs@,
                existing == ref_views(current@),
                existing == after_replacements(rv, rs),
                pred == merged_into(existing),
                sf == storing(),
                j <= rs.len(),
                ref_views(added@) == rs.take(j as int).filter(pred).map_values(sf),
            decreases rs.len() - j,
        {
            let r = &refs[j];
            let ghost before = rs.take(j as int).filter(pred);
            proof {
                reveal(Seq::filter);
                assert(rs.take(j + 1).drop_last() =~= rs.take(j as int));
                assert(rs.take(j + 1).last() == *r);
            }
            let t = to_lowercase(r.ref_type.as_str());
            let single = str_eq(t.as_str(), "source") || str_eq(t.as_str(), "provider");
            if !single && (r.external_id.is_some() || r.external_url.is_some()) && !is_recorded(
                &current,
                r,
            ) {
                let ghost old_added = added@;
                added.push(stored_row(r));
                proof {
                    assert(pred(*r));
                    assert(rs.take(j + 1).filter(pred) == before.push(*r));
                    lemma_views_push(old_added, added@.last());
                    assert(old_added.push(added@.last()) =~= added@);
                    assert(before.push(*r).map_values(sf) =~= before.map_values(sf).push(sf(*r)));
                }
            } else {
                proof {
                    assert(!pred(*r));
                    assert(rs.take(j + 1).filter(pred) == before);
                }
            }
            j = j + 1;
        }
        assert(rs.take(rs.len() as int) =~= rs);
        let ghost cur_views = ref_views(current@);
        let ghost add_views = ref_views(added@);
        current.append(&mut added);
        assert(ref_views(current@) =~= cur_views + add_views);
        current
    }
}

/// The rows of `s` whose type is `t`.
pub open spec fn rows_of_type(s: Seq<RefView>, t: Seq<char>) -> Seq<RefView> {
    s.filter(type_is(t))
}

proof fn lemma_filter_weaker(s: Seq<RefView>, p: spec_fn(RefView) -> bool, q: spec_fn(RefView) -> bool)
    requires
        forall|x: RefView| #[trigger] q(x) ==> p(x),
    ensures
        s.filter(p).filter(q) == s.filter(q),
    decreases s.len(),
{
    reveal(Seq::filter);
    if s.len() > 0 {
        lemma_filter_weaker(s.drop_last(), p, q);
        let f = s.drop_last().filter(p);
        assert(f.push(s.last()).drop_last() =~= f);
    }
}

proof fn lemma_filter_none(s: Seq<RefView>, q: spec_fn(RefView) -> bool)
    requires
        forall|k: int| 0 <= k < s.len() ==> !q(#[trigger] s[k]),
    ensures
        s.filter(q).len() == 0,
    decreases s.len(),
{
    reveal(Seq::filter);
    if s.len() > 0 {
        assert forall|k: int| 0 <= k < s.drop_last().len() implies !q(#[trigger] s.drop_last()[k]) by {
            assert(s.drop_last()[k] == s[k]);
        }
        lemma_filter_none(s.drop_last(), q);
    }
}

proof fn lemma_push_other_type(s: Seq<RefView>, x: RefView, t: Seq<char>)
    requires
        x.0 != t,
    ensures
        rows_of_type(s.push(x), t) == rows_of_type(s, t),
{
    reveal(Seq::filter);
    assert(s.push(x).drop_last() =~= s);
}

proof fn lemma_push_same_type(s: Seq<RefView>, x: RefView, t: Seq<char>)
    requires
        x.0 == t,
    ensures
        rows_of_type(s.push(x), t).len() == rows_of_type(s, t).len() + 1,
{
    reveal(Seq::filter);
    assert(s.push(x).drop_last() =~= s);
}

proof fn lemma_replaced_rows(rows: Seq<RefView>, refs: Seq<ReferenceRow>, i: int)
    requires
        0 <= i < refs.len(),
        is_single_kind(lowercase(refs[i].ref_type@)),
    ensures
        rows_of_type(after_replacements(rows, refs), lowercase(refs[i].ref_type@)).len() <= 1,
    decreases refs.len(),
{
    let t = lowercase(refs[i].ref_type@);
    let n = refs.len();
    let last = refs.last();
    let tl = lowercase(last.ref_type@);
    let prev = after_replacements(rows, refs.drop_last());
    let is_t = type_is(t);
    let not_tl = type_is_not(tl);
    if i < n - 1 {
        assert(refs.drop_last()[i] == refs[i]);
        lemma_replaced_rows(rows, refs.drop_last(), i);
    }
    if !is_single_kind(tl) {
        assert(after_replacements(rows, refs) == prev);
    }
    if is_single_kind(tl) {
        let kept = prev.filter(not_tl);
        if names_target(last) {
            assert(after_replacements(rows, refs) == kept.push(stored_form(last)));
        } else {
            assert(after_replacements(rows, refs) == kept);
        }
        if tl == t {
            assert forall|k: int| 0 <= k < kept.len() implies !is_t(#[trigger] kept[k]) by {
                prev.lemma_filter_pred(not_tl, k);
            }
            lemma_filter_none(kept, is_t);
        } else {
            lemma_filter_weaker(prev, not_tl, is_t);
        }
        if names_target(last) {
            if tl == t {
                lemma_push_same_type(kept, stored_form(last), t);
            } else {
                lemma_push_other_type(kept, stored_form(last), t);
            }
        }
    }
}

/// Setting references that include a `Source` (or `Provider`) reference leaves
/// the track with at most one row of that type: single-row types are replaced,
/// never accumulated.
pub proof fn law_single_kind_is_replaced(rows: Seq<RefView>, refs: Seq<ReferenceRow>, i: int)
    requires
        0 <= i < refs.len(),
        is_single_kind(lowercase(refs[i].ref_type@)),
    ensures
        rows_of_type(references_after(rows, refs), lowercase(refs[i].ref_type@)).len() <= 1,
{
    let t = lowercase(refs[i].ref_type@);
    let existing = after_replacements(rows, refs);
    let pred = merged_into(existing);
    let sf = storing();
    let merged = refs.filter(pred);
    let added = merged.map_values(sf);
    let is_t = type_is(t);
    lemma_replaced_rows(rows, refs, i);
    assert(references_after(rows, refs) == existing + added);
    assert forall|k: int| 0 <= k < added.len() implies !is_t(#[trigger] added[k]) by {
        refs.lemma_filter_pred(pred, k);
        assert(added[k] == stored_form(merged[k]));
    }
    lemma_filter_none(added, is_t);
    Seq::filter_distributes_over_add(existing, added, is_t);
}

/// Setting an empty list of references leaves the stored ones as they are.
pub proof fn law_setting_nothing_changes_nothing(rows: Seq<RefView>)
    ensures
        references_after(rows, Seq::<ReferenceRow>::empty()) == rows,
{
    let existing = after_replacements(rows, Seq::<ReferenceRow>::empty());
    assert(Seq::<ReferenceRow>::empty().filter(merged_into(existing)) =~= Seq::<ReferenceRow>::empty()) by {
        reveal(Seq::filter);
    }
    assert(references_after(rows, Seq::<ReferenceRow>::empty()) =~= rows);
}

proof fn lemma_last_position(rows: Seq<PlaylistLink>, target_id: i32, j: int)
    requires
        0 <= j < rows.len(),
        rows[j].0 == target_id,
        forall|j2: int|
            j < j2 < rows.len() ==> !(#[trigger] rows[j2].0 == target_id && rows[j2].1 == rows[j].1),
    ensures
        last_position_of(rows, target_id, rows[j].1) == Some(rows[j].2),
    decreases rows.len(),
{
    if j < rows.len() - 1 {
        assert(rows.drop_last()[j] == rows[j]);
        assert forall|j2: int| j < j2 < rows.drop_last().len() implies !(#[trigger] rows.drop_last()[j2].0
            == target_id && rows.drop_last()[j2].1 == rows.drop_last()[j].1) by {
            assert(rows.drop_last()[j2] == rows[j2]);
        }
        lemma_last_position(rows.drop_last(), target_id, j);
    }
}

/// A merge keeps every playlist that the target or a source belonged to, lists
/// each playlist once, and keeps the target's own position where the target was
/// a member.
pub proof fn law_merge_keeps_memberships(rows: Seq<PlaylistLink>, target_id: i32, j: int)
    requires
        0 <= j < rows.len(),
    ensures
        playlists_of(rows).contains(rows[j].1),
        forall|a: int, b: int|
            0 <= a < b < playlists_of(rows).len() ==> playlists_of(rows)[a] != playlists_of(rows)[b],
        rows[j].0 == target_id && (forall|j2: int|
            j < j2 < rows.len() ==> !(#[trigger] rows[j2].0 == target_id && rows[j2].1 == rows[j].1))
            ==> merged_position(rows, target_id, rows[j].1) == rows[j].2,
{
    let ms = rows.map_values(link_playlist());
    lemma_first_occurrences(ms);
    assert(ms[j] == rows[j].1);
    assert(ms.contains(rows[j].1));
    if rows[j].0 == target_id && (forall|j2: int|
        j < j2 < rows.len() ==> !(#[trigger] rows[j2].0 == target_id && rows[j2].1 == rows[j].1)) {
        lemma_last_position(rows, target_id, j);
    }
}

// ------------------------------------------------------------------------------------------------
// Loading a page of tracks in the requested order
// ------------------------------------------------------------------------------------------------

/// Ids found among the loaded rows.
pub open spec fn loaded_among(loaded_ids: Seq<i32>) -> spec_fn(i32) -> bool {
    |id: i32| loaded_ids.contains(id)
}

/// The ids of a page, in the requested order: each requested id once, when its
/// row was loaded.
pub open spec fn page_ids(ids: Seq<i32>, loaded_ids: Seq<i32>) -> Seq<i32> {
    first_occurrences(ids).filter(loaded_among(loaded_ids))
}

/// Index of the last loaded row with id `id`.
fn last_row_with(loaded_ids: &Vec<i32>, id: i32) -> (res: Option<usize>)
    ensures
        res is None ==> !loaded_ids@.contains(id),
        res matches Some(k) ==> k < loaded_ids@.len() && loaded_ids@[k as int] == id && forall|j: int|
            k < j < loaded_ids@.len() ==> loaded_ids@[j] != id,
{
    let mut found: Option<usize> = None;
    let mut j: usize = 0;
    while j < loaded_ids.len()
        invariant
            j <= loaded_ids@.len(),
            found is None ==> forall|m: int| 0 <= m < j ==> loaded_ids@[m] != id,
            found matches Some(k) ==> k < j && loaded_ids@[k as int] == id && forall|m: int|
                k < m < j ==> loaded_ids@[m] != id,
        decreases loaded_ids@.len() - j,
    {
        if loaded_ids[j] == id {
            found = Some(j);
        }
        j = j + 1;
    }
    found
}

impl DieselTrackRepository {
    /// The rows of a page in the requested order, as indices into the loaded
    /// rows: each requested id once, first request first, skipping ids with no
    /// row; of several rows with one id, the last loaded.
    pub fn hydration_order(ids: &Vec<i32>, loaded_ids: &Vec<i32>) -> (res: Vec<usize>)
        ensures
            res@.len() == page_ids(ids@, loaded_ids@).len(),
            forall|k: int|
                0 <= k < res@.len() ==> #[trigger] res@[k] < loaded_ids@.len() && loaded_ids@[res@[k] as int]
                    == page_ids(ids@, loaded_ids@)[k] && forall|j: int|
                    res@[k] < j < loaded_ids@.len() ==> loaded_ids@[j] != page_ids(ids@, loaded_ids@)[k],
    {
        let ghost s = ids@;
        let mut wanted: Vec<i32> = Vec::new();
        let mut i: usize = 0;
        while i < ids.len()
            invariant
                s == ids@,
                i <= s.len(),
                wanted@ == first_occurrences(s.take(i as int)),
            decreases s.len() - i,
        {
            proof {
                assert(s.take(i + 1).drop_last() =~= s.take(i as int));
            }
            push_unique(&mut wanted, ids[i]);
            i = i + 1;
        }
        assert(s.take(s.len() as int) =~= s);
        let ghost w = wanted@;
        let ghost pred = loaded_among(loaded_ids@);
        let mut out: Vec<usize> = Vec::new();
        let mut order: Vec<i32> = Vec::new();
        let mut k: usize = 0;
        assert(w.take(0).filter(pred) =~= Seq::<i32>::empty()) by {
            reveal(Seq::filter);
        }
        while k < wanted.len()
            invariant
                w == wanted@,
                pred == loaded_among(loaded_ids@),
                k <= w.len(),
                order@ == w.take(k as int).filter(pred),
                out@.len() == order@.len(),
                forall|m: int|
                    0 <= m < out@.len() ==> #[trigger] out@[m] < loaded_ids@.len() && loaded_ids@[out@[m] as int]
                        == order@[m] && forall|j: int|
                        out@[m] < j < loaded_ids@.len() ==> loaded_ids@[j] != order@[m],
            decreases w.len() - k,
        {
            let id = wanted[k];
            proof {
                reveal(Seq::filter);
                assert(w.take(k + 1).drop_last() =~= w.take(k as int));
                assert(w.take(k + 1).last() == id);
            }
            match last_row_with(loaded_ids, id) {
                Some(row) => {
                    out.push(row);
                    order.push(id);
                },
                None => {},
            }
            k = k + 1;
        }
        assert(w.take(w.len() as int) =~= w);
        out
    }
}

/// A merged track keeps each identified artist of the winner exactly once and
/// no other artist.
pub proof fn law_merged_artists_are_distinct(artist_ids: Seq<Option<i32>>)
    ensures
        forall|x: i32|
            first_occurrences(present_ids(artist_ids)).contains(x) <==> present_ids(artist_ids).contains(x),
        forall|a: int, b: int|
            0 <= a < b < first_occurrences(present_ids(artist_ids)).len() ==> first_occurrences(
                present_ids(artist_ids),
            )[a] != first_occurrences(present_ids(artist_ids))[b],
{
    lemma_first_occurrences(present_ids(artist_ids));
}

} // verus!
