//! Album repository logic: which artist links a duplicate merge moves onto the
//! surviving album, how references are merged, and how a new album is matched
//! against the library.

use vstd::prelude::*;

use crate::database::repositories::track::{
    page_ids, DieselTrackRepository, is_recorded, lemma_views_push, names_target, opt_eq, records, ref_views, storing, stored_row,
    ReferenceRow, RefView,
};
use crate::ids::{contains_id, first_occurrences, lemma_first_occurrences, push_unique};
use crate::text::{lowercase, opt_chars, str_eq, to_lowercase};

verus! {

pub struct DieselAlbumRepository {}

impl DieselAlbumRepository {
    pub fn new() -> Self {
        DieselAlbumRepository {  }
    }
}

/// For each source in order, its artists that the target did not have before
/// the merge (an artist two sources share is listed for each of them).
pub open spec fn planned_artist_links(target_artists: Seq<i32>, source_artists: Seq<Seq<i32>>) -> Seq<i32>
    decreases source_artists.len(),
{
    if source_artists.len() == 0 {
        Seq::empty()
    } else {
        planned_artist_links(target_artists, source_artists.drop_last()) + source_artists.last().filter(
            |a: i32| !target_artists.contains(a),
        )
    }
}

impl DieselAlbumRepository {
    /// The artist links that merging the sources into the target adds, given the
    /// target's artists and each source's artists: every artist of a source that
    /// the target lacks, once, in the order the sources first name it. The
    /// artist-album table is keyed by `(album_id, artist_id)`, so an artist two
    /// sources share is linked a single time.
    pub fn artist_links_to_add(target_artists: &Vec<i32>, source_artists: &Vec<Vec<i32>>) -> (res: Vec<i32>)
        ensures
            res@ == first_occurrences(
                planned_artist_links(target_artists@, source_artists@.map_values(|v: Vec<i32>| v@)),
            ),
    {
        let ghost ts = target_artists@;
        let ghost ss = source_artists@.map_values(|v: Vec<i32>| v@);
        let ghost pred = |a: i32| !ts.contains(a);
        let mut links: Vec<i32> = Vec::new();
        let mut s: usize = 0;
        while s < source_artists.len()
            invariant
                ts == target_artists@,
                ss == source_artists@.map_values(|v: Vec<i32>| v@),
                pred == (|a: i32| !ts.contains(a)),
                s <= source_artists.len(),
                links@ == planned_artist_links(ts, ss.take(s as int)),
            decreases source_artists.len() - s,
        {
            let src = &source_artists[s];
            let ghost cur = src@;
            assert(cur == ss[s as int]);
            let ghost base = links@;
            let mut j: usize = 0;
            assert(cur.take(0).filter(pred) =~= Seq::<i32>::empty()) by {
                reveal(Seq::filter);
            }
            assert(links@ =~= base + cur.take(0).filter(pred));
            while j < src.len()
                invariant
                    ts == target_artists@,
                    pred == (|a: i32| !ts.contains(a)),
                    cur == src@,
                    j <= cur.len(),
                    links@ == base + cur.take(j as int).filter(pred),
                decreases cur.len() - j,
            {
                let a = src[j];
                proof {
                    reveal(Seq::filter);
                    assert(cur.take(j + 1).drop_last() =~= cur.take(j as int));
                    assert(cur.take(j + 1).last() == a);
                }
                if !contains_id(target_artists.as_slice(), a) {
                    links.push(a);
                }
                j = j + 1;
            }
            proof {
                assert(cur.take(cur.len() as int) =~= cur);
                assert(ss.take(s + 1).drop_last() =~= ss.take(s as int));
                assert(ss.take(s + 1).last() == cur);
            }
            s = s + 1;
        }
        assert(ss.take(ss.len() as int) =~= ss);
        let ghost planned = links@;
        let mut out: Vec<i32> = Vec::new();
        let mut i: usize = 0;
        while i < links.len()
            invariant
                planned == links@,
                i <= links@.len(),
                out@ == first_occurrences(planned.take(i as int)),
            decreases links@.len() - i,
        {
            proof {
                assert(planned.take(i + 1).drop_last() =~= planned.take(i as int));
                assert(planned.take(i + 1).last() == planned[i as int]);
            }
            push_unique(&mut out, links[i]);
            i = i + 1;
        }
        assert(planned.take(planned.len() as int) =~= planned);
        out
    }
}

/// Some source names artist `x`.
pub open spec fn named_by_a_source(source_artists: Seq<Seq<i32>>, x: i32) -> bool {
    exists|k: int| 0 <= k < source_artists.len() && #[trigger] source_artists[k].contains(x)
}

proof fn lemma_planned_contains(target_artists: Seq<i32>, source_artists: Seq<Seq<i32>>, x: i32)
    ensures
        planned_artist_links(target_artists, source_artists).contains(x) <==> (!target_artists.contains(x)
            && named_by_a_source(source_artists, x)),
    decreases source_artists.len(),
{
    if source_artists.len() > 0 {
        let rest = source_artists.drop_last();
        lemma_planned_contains(target_artists, rest, x);
        let prev = planned_artist_links(target_artists, rest);
        let pred = |a: i32| !target_artists.contains(a);
        let last = source_artists.last();
        let added = last.filter(pred);
        assert(planned_artist_links(target_artists, source_artists) == prev + added);
        if (prev + added).contains(x) {
            let k = choose|k: int| 0 <= k < (prev + added).len() && (prev + added)[k] == x;
            if k < prev.len() {
                assert(prev[k] == x);
                let m = choose|m: int| 0 <= m < rest.len() && #[trigger] rest[m].contains(x);
                assert(source_artists[m] == rest[m]);
            } else {
                assert(added[k - prev.len()] == x);
                assert(added.contains(x));
                last.lemma_filter_contains_rev(pred, x);
                assert(source_artists[source_artists.len() - 1].contains(x));
            }
        }
        if !target_artists.contains(x) && named_by_a_source(source_artists, x) {
            let m = choose|m: int| 0 <= m < source_artists.len() && #[trigger] source_artists[m].contains(x);
            if m < source_artists.len() - 1 {
                assert(rest[m] == source_artists[m]);
                assert(named_by_a_source(rest, x));
                let k = choose|k: int| 0 <= k < prev.len() && prev[k] == x;
                assert((prev + added)[k] == x);
            } else {
                let i = choose|i: int| 0 <= i < last.len() && last[i] == x;
                last.lemma_filter_contains(pred, i);
                let k = choose|k: int| 0 <= k < added.len() && added[k] == x;
                assert((prev + added)[prev.len() + k] == x);
            }
        }
    }
}

/// A merge links every artist that some source has and the target lacks, each
/// exactly once, and no other artist.
pub proof fn law_missing_artists_are_linked_once(target_artists: Seq<i32>, source_artists: Seq<Seq<i32>>)
    ensures
        forall|x: i32|
            #[trigger] first_occurrences(planned_artist_links(target_artists, source_artists)).contains(x) <==> (
            !target_artists.contains(x) && named_by_a_source(source_artists, x)),
        forall|a: int, b: int|
            0 <= a < b < first_occurrences(planned_artist_links(target_artists, source_artists)).len()
                ==> first_occurrences(planned_artist_links(target_artists, source_artists))[a]
                != first_occurrences(planned_artist_links(target_artists, source_artists))[b],
{
    let planned = planned_artist_links(target_artists, source_artists);
    lemma_first_occurrences(planned);
    assert forall|x: i32| #[trigger] first_occurrences(planned).contains(x) <==> (!target_artists.contains(x)
        && named_by_a_source(source_artists, x)) by {
        lemma_planned_contains(target_artists, source_artists, x);
    }
}

// ------------------------------------------------------------------------------------------------
// References of an album
// ------------------------------------------------------------------------------------------------

/// References that get added to an album holding `existing`: those that point
/// somewhere and that no stored row records yet.
pub open spec fn added_to_album(existing: Seq<RefView>) -> spec_fn(ReferenceRow) -> bool {
    |r: ReferenceRow| names_target(r) && !(exists|k: int| 0 <= k < existing.len() && records(#[trigger] existing[k], r))
}

/// The stored references of an album after `refs` is merged in: the stored
/// rows stay, the new ones follow.
pub open spec fn album_references_after(rows: Seq<RefView>, refs: Seq<ReferenceRow>) -> Seq<RefView> {
    rows + refs.filter(added_to_album(rows)).map_values(storing())
}

impl DieselAlbumRepository {
    /// Merges references into an album: stored rows (and their ids) are kept;
    /// each given reference that points somewhere and is not recorded yet is
    /// added in its stored form.
    pub fn set_references(rows: Vec<ReferenceRow>, refs: &Vec<ReferenceRow>) -> (res: Vec<ReferenceRow>)
        ensures
            ref_views(res@) == album_references_after(ref_views(rows@), refs@),
    {
        let ghost existing = ref_views(rows@);
        let ghost rs = refs@;
        let ghost pred = added_to_album(existing);
        let ghost sf = storing();
        let mut added: Vec<ReferenceRow> = Vec::new();
        let mut j: usize = 0;
        assert(rs.take(0).filter(pred) =~= Seq::<ReferenceRow>::empty()) by {
            reveal(Seq::filter);
        }
        assert(ref_views(added@) =~= rs.take(0).filter(pred).map_values(sf));
        while j < refs.len()
            invariant
                rs == refs@,
                existing == ref_views(rows@),
                pred == added_to_album(existing),
                sf == storing(),
                j <= rs.len(),
                ref_views(added@) == rs.take(j as int).filter(pred).map_values(sf),
            decreases rs.len() - j,
        {
            let r = &refs[j];
            let ghost before = rs.take(j as int).filter(pred);
            proof {
                reveal(Seq::filter);
                assert(rs.take(j + 1).drop_last() =~= rs.take(j as int));
                assert(rs.take(j + 1).last() == *r);
            }
            if (r.external_id.is_some() || r.external_url.is_some()) && !is_recorded(&rows, r) {
                let ghost old_added = added@;
                added.push(stored_row(r));
                proof {
                    assert(pred(*r));
                    assert(rs.take(j + 1).filter(pred) == before.push(*r));
                    lemma_views_push(old_added, added@.last());
                    assert(old_added.push(added@.last()) =~= added@);
                    assert(before.push(*r).map_values(sf) =~= before.map_values(sf).push(sf(*r)));
                }
            } else {
                proof {
                    assert(!pred(*r));
                    assert(rs.take(j + 1).filter(pred) == before);
                }
            }
            j = j + 1;
        }
        assert(rs.take(rs.len() as int) =~= rs);
        let mut current = rows;
        let ghost cur_views = ref_views(current@);
        let ghost add_views = ref_views(added@);
        current.append(&mut added);
        assert(ref_views(current@) =~= cur_views + add_views);
        current
    }
}

// ------------------------------------------------------------------------------------------------
// Finding the album a new one duplicates
// ------------------------------------------------------------------------------------------------

/// A stored album reference: the album it belongs to and what it points at.
pub struct AlbumRefRow {
    pub album_id: i32,
    pub platform: String,
    pub external_id: Option<String>,
    pub external_url: Option<String>,
}

/// The first stored row on platform `p` whose id (or url, when `by_url`) is `v`.
pub open spec fn first_ref_match(rows: Seq<AlbumRefRow>, p: Seq<char>, v: Seq<char>, by_url: bool) -> Option<int>
    decreases rows.len(),
{
    if rows.len() == 0 {
        None
    } else {
        let earlier = first_ref_match(rows.drop_last(), p, v, by_url);
        let r = rows.last();
        let value = if by_url { opt_chars(r.external_url) } else { opt_chars(r.external_id) };
        if earlier is Some {
            earlier
        } else if r.platform@ == p && value == Some(v) {
            Some(rows.len() - 1)
        } else {
            None
        }
    }
}

/// The first stored row on platform `p` carrying `value`, when there is a value.
pub open spec fn first_match_of(rows: Seq<AlbumRefRow>, p: Seq<char>, value: Option<Seq<char>>, by_url: bool) -> Option<int> {
    match value {
        Some(v) => first_ref_match(rows, p, v, by_url),
        None => None,
    }
}

/// The album one reference points to: by its id first, then by its url, on
/// its platform (compared lowercased).
pub open spec fn album_for_reference(rows: Seq<AlbumRefRow>, r: ReferenceRow) -> Option<i32> {
    let p = lowercase(r.platform@);
    match first_match_of(rows, p, opt_chars(r.external_id), false) {
        Some(k) => Some(rows[k].album_id),
        None => match first_match_of(rows, p, opt_chars(r.external_url), true) {
            Some(k) => Some(rows[k].album_id),
            None => None,
        },
    }
}

/// The album the first matching reference points to, trying the references in order.
pub open spec fn album_for_references(rows: Seq<AlbumRefRow>, refs: Seq<ReferenceRow>) -> Option<i32>
    decreases refs.len(),
{
    if refs.len() == 0 {
        None
    } else {
        match album_for_references(rows, refs.drop_last()) {
            Some(a) => Some(a),
            None => album_for_reference(rows, refs.last()),
        }
    }
}

proof fn lemma_first_ref_match_bound(rows: Seq<AlbumRefRow>, p: Seq<char>, v: Seq<char>, by_url: bool)
    ensures
        first_ref_match(rows, p, v, by_url) matches Some(k) ==> 0 <= k < rows.len(),
    decreases rows.len(),
{
    if rows.len() > 0 {
        lemma_first_ref_match_bound(rows.drop_last(), p, v, by_url);
    }
}

proof fn lemma_found_stays(rows: Seq<AlbumRefRow>, refs: Seq<ReferenceRow>, j: int)
    requires
        0 <= j <= refs.len(),
        album_for_references(rows, refs.take(j)) is Some,
    ensures
        album_for_references(rows, refs) == album_for_references(rows, refs.take(j)),
    decreases refs.len(),
{
    if j < refs.len() {
        assert(refs.drop_last().take(j) =~= refs.take(j));
        lemma_found_stays(rows, refs.drop_last(), j);
    } else {
        assert(refs.take(j) =~= refs);
    }
}

fn find_ref_row(rows: &Vec<AlbumRefRow>, p: &str, v: &str, by_url: bool) -> (res: Option<usize>)
    ensures
        res is Some <==> first_ref_match(rows@, p@, v@, by_url) is Some,
        res matches Some(k) ==> first_ref_match(rows@, p@, v@, by_url) == Some(k as int) && k < rows@.len(),
{
    let ghost s = rows@;
    let mut found: Option<usize> = None;
    let mut i: usize = 0;
    while i < rows.len()
        invariant
            s == rows@,
            i <= s.len(),
            found is Some <==> first_ref_match(s.take(i as int), p@, v@, by_url) is Some,
            found matches Some(k) ==> first_ref_match(s.take(i as int), p@, v@, by_url) == Some(k as int) && k < i,
        decreases s.len() - i,
    {
        let r = &rows[i];
        proof {
            assert(s.take(i + 1).drop_last() =~= s.take(i as int));
            assert(s.take(i + 1).last() == *r);
        }
        if found.is_none() {
            let value = if by_url {
                &r.external_url
            } else {
                &r.external_id
            };
            let hit = match value {
                Some(x) => str_eq(r.platform.as_str(), p) && str_eq(x.as_str(), v),
                None => false,
            };
            if hit {
                found = Some(i);
            }
        }
        i = i + 1;
    }
    assert(s.take(s.len() as int) =~= s);
    proof {
        lemma_first_ref_match_bound(s, p@, v@, by_url);
    }
    found
}

fn lookup_ref_row(rows: &Vec<AlbumRefRow>, p: &str, value: &Option<String>, by_url: bool) -> (res: Option<usize>)
    ensures
        res is Some <==> first_match_of(rows@, p@, opt_chars(*value), by_url) is Some,
        res matches Some(k) ==> first_match_of(rows@, p@, opt_chars(*value), by_url) == Some(k as int)
            && k < rows@.len(),
{
    match value {
        Some(v) => find_ref_row(rows, p, v.as_str(), by_url),
        None => None,
    }
}

/// The album one reference points to (by id, then by url).
fn album_of_reference(rows: &Vec<AlbumRefRow>, r: &ReferenceRow) -> (res: Option<i32>)
    ensures
        res == album_for_reference(rows@, *r),
{
    let p = to_lowercase(r.platform.as_str());
    match lookup_ref_row(rows, p.as_str(), &r.external_id, false) {
        Some(k) => Some(rows[k].album_id),
        None => match lookup_ref_row(rows, p.as_str(), &r.external_url, true) {
            Some(k) => Some(rows[k].album_id),
            None => None,
        },
    }
}

impl DieselAlbumRepository {
    /// The stored album that one of `refs` already points to, if any: the
    /// references are tried in order, each by id then by url, on its platform.
    pub fn find_album_id_by_any_reference(rows: &Vec<AlbumRefRow>, refs: &Vec<ReferenceRow>) -> (res: Option<i32>)
        ensures
            res == album_for_references(rows@, refs@),
    {
        let ghost rs = refs@;
        let mut i: usize = 0;
        while i < refs.len()
            invariant
                rs == refs@,
                i <= rs.len(),
                album_for_references(rows@, rs.take(i as int)) is None,
            decreases rs.len() - i,
        {
            let r = &refs[i];
            proof {
                assert(rs.take(i + 1).drop_last() =~= rs.take(i as int));
                assert(rs.take(i + 1).last() == *r);
            }
            match album_of_reference(rows, r) {
                Some(album_id) => {
                    proof {
                        assert(album_for_references(rows@, rs.take(i + 1)) == Some(album_id));
                        lemma_found_stays(rows@, rs, i + 1);
                    }
                    return Some(album_id);
                },
                None => {},
            }
            i = i + 1;
        }
        assert(rs.take(rs.len() as int) =~= rs);
        None
    }
}

/// An album as the lookups see it: id, title and the names of its artists.
pub struct AlbumCandidate {
    pub id: i32,
    pub title: String,
    pub artist_names: Vec<String>,
}

/// Some artist of `a` has, lowercased, one of the lowercased `names`.
pub open spec fn shares_artist(a: AlbumCandidate, names: Seq<String>) -> bool {
    exists|i: int, j: int|
        0 <= i < a.artist_names@.len() && 0 <= j < names.len() && lowercase(
            #[trigger] a.artist_names@[i]@,
        ) == lowercase(#[trigger] names[j]@)
}

/// `a` is the album sought: same title, and, when artist names are given, one
/// of them among its artists.
pub open spec fn is_sought(a: AlbumCandidate, title: Seq<char>, names: Seq<String>) -> bool {
    a.title@ == title && (names.len() == 0 || shares_artist(a, names))
}

fn shares_any_artist(a: &AlbumCandidate, lowered: &Vec<String>, names: &Vec<String>) -> (res: bool)
    requires
        lowered@.len() == names@.len(),
        forall|j: int| 0 <= j < names@.len() ==> #[trigger] lowered@[j]@ == lowercase(names@[j]@),
    ensures
        res == shares_artist(*a, names@),
{
    let mut i: usize = 0;
    while i < a.artist_names.len()
        invariant
            i <= a.artist_names@.len(),
            lowered@.len() == names@.len(),
            forall|j: int| 0 <= j < names@.len() ==> #[trigger] lowered@[j]@ == lowercase(names@[j]@),
            forall|m: int, j: int|
                0 <= m < i && 0 <= j < names@.len() ==> lowercase(#[trigger] a.artist_names@[m]@)
                    != lowercase(#[trigger] names@[j]@),
        decreases a.artist_names@.len() - i,
    {
        let mine = to_lowercase(a.artist_names[i].as_str());
        let mut j: usize = 0;
        while j < lowered.len()
            invariant
                i < a.artist_names@.len(),
                j <= lowered@.len(),
                lowered@.len() == names@.len(),
                mine@ == lowercase(a.artist_names@[i as int]@),
                forall|k: int| 0 <= k < names@.len() ==> #[trigger] lowered@[k]@ == lowercase(names@[k]@),
                forall|k: int| 0 <= k < j ==> mine@ != lowercase(#[trigger] names@[k]@),
            decreases lowered@.len() - j,
        {
            if str_eq(mine.as_str(), lowered[j].as_str()) {
                assert(lowercase(a.artist_names@[i as int]@) == lowercase(names@[j as int]@));
                return true;
            }
            j = j + 1;
        }
        i = i + 1;
    }
    false
}

impl DieselAlbumRepository {
    /// The first album titled `title` (exactly) that has one of the named
    /// artists (names compared lowercased); without names, the first album
    /// with that title.
    pub fn find_by_title_and_artists(albums: &Vec<AlbumCandidate>, title: &str, artist_names: &Vec<String>) -> (res: Option<i32>)
        ensures
            match res {
                Some(id) => exists|k: int|
                    0 <= k < albums@.len() && albums@[k].id == id && is_sought(albums@[k], title@, artist_names@)
                        && forall|m: int| 0 <= m < k ==> !is_sought(#[trigger] albums@[m], title@, artist_names@),
                None => forall|k: int| 0 <= k < albums@.len() ==> !is_sought(#[trigger] albums@[k], title@, artist_names@),
            },
    {
        let mut lowered: Vec<String> = Vec::new();
        let mut j: usize = 0;
        while j < artist_names.len()
            invariant
                j <= artist_names@.len(),
                lowered@.len() == j,
                forall|k: int| 0 <= k < j ==> #[trigger] lowered@[k]@ == lowercase(artist_names@[k]@),
            decreases artist_names@.len() - j,
        {
            lowered.push(to_lowercase(artist_names[j].as_str()));
            j = j + 1;
        }
        let mut k: usize = 0;
        while k < albums.len()
            invariant
                k <= albums@.len(),
                lowered@.len() == artist_names@.len(),
                forall|m: int| 0 <= m < artist_names@.len() ==> #[trigger] lowered@[m]@ == lowercase(artist_names@[m]@),
                forall|m: int| 0 <= m < k ==> !is_sought(#[trigger] albums@[m], title@, artist_names@),
            decreases albums@.len() - k,
        {
            let a = &albums[k];
            if str_eq(a.title.as_str(), title) && (artist_names.len() == 0 || shares_any_artist(a, &lowered, artist_names)) {
                return Some(a.id);
            }
            k = k + 1;
        }
        None
    }
}

/// How a new album is settled against the library.
#[derive(Clone, Copy, Debug, PartialEq, Eq, Structural)]
pub enum AlbumResolution {
    /// The album already carries its id.
    Known(i32),
    /// A stored album shares one of its references; its references are merged in.
    SameReference(i32),
    /// A stored album has exactly its title; its references are merged in.
    SameTitle(i32),
    /// A stored album has its title up to case; its references are merged in.
    SameTitleIgnoringCase(i32),
    /// No stored album matches: the album is created with its references.
    New,
}

impl DieselAlbumRepository {
    /// The album whose title equals `title` once both are lowercased, first in order.
    pub fn find_title_ignoring_case(albums: &Vec<(i32, String)>, title: &str) -> (res: Option<i32>)
        ensures
            match res {
                Some(id) => exists|k: int|
                    0 <= k < albums@.len() && albums@[k].0 == id && lowercase(albums@[k].1@) == lowercase(title@)
                        && forall|m: int| 0 <= m < k ==> lowercase(#[trigger] albums@[m].1@) != lowercase(title@),
                None => forall|k: int| 0 <= k < albums@.len() ==> lowercase(#[trigger] albums@[k].1@) != lowercase(title@),
            },
    {
        let wanted = to_lowercase(title);
        let mut k: usize = 0;
        while k < albums.len()
            invariant
                k <= albums@.len(),
                wanted@ == lowercase(title@),
                forall|m: int| 0 <= m < k ==> lowercase(#[trigger] albums@[m].1@) != lowercase(title@),
            decreases albums@.len() - k,
        {
            let candidate = to_lowercase(albums[k].1.as_str());
            if str_eq(candidate.as_str(), wanted.as_str()) {
                return Some(albums[k].0);
            }
            k = k + 1;
        }
        None
    }

    /// Settles a new album: its own id first, then a shared reference, then the
    /// exact title, then the title ignoring case; else it is new. Each lookup is
    /// only consulted when the earlier ones found nothing.
    pub fn resolve_album(
        given_id: Option<i32>,
        by_reference: Option<i32>,
        by_exact_title: Option<i32>,
        by_title_ignoring_case: Option<i32>,
    ) -> (res: AlbumResolution)
        ensures
            res == match given_id {
                Some(id) => AlbumResolution::Known(id),
                None => match by_reference {
                    Some(id) => AlbumResolution::SameReference(id),
                    None => match by_exact_title {
                        Some(id) => AlbumResolution::SameTitle(id),
                        None => match by_title_ignoring_case {
                            Some(id) => AlbumResolution::SameTitleIgnoringCase(id),
                            None => AlbumResolution::New,
                        },
                    },
                },
            },
    {
        match given_id {
            Some(id) => AlbumResolution::Known(id),
            None => match by_reference {
                Some(id) => AlbumResolution::SameReference(id),
                None => match by_exact_title {
                    Some(id) => AlbumResolution::SameTitle(id),
                    None => match by_title_ignoring_case {
                        Some(id) => AlbumResolution::SameTitleIgnoringCase(id),
                        None => AlbumResolution::New,
                    },
                },
            },
        }
    }
}

impl DieselAlbumRepository {
    /// The rows of a page of albums in the requested order, as indices into the
    /// loaded rows; the same rule as for tracks.
    pub fn hydration_order(ids: &Vec<i32>, loaded_ids: &Vec<i32>) -> (res: Vec<usize>)
        ensures
            res@.len() == page_ids(ids@, loaded_ids@).len(),
            forall|k: int|
                0 <= k < res@.len() ==> #[trigger] res@[k] < loaded_ids@.len() && loaded_ids@[res@[k] as int]
                    == page_ids(ids@, loaded_ids@)[k] && forall|j: int|
                    res@[k] < j < loaded_ids@.len() ==> loaded_ids@[j] != page_ids(ids@, loaded_ids@)[k],
    {
        DieselTrackRepository::hydration_order(ids, loaded_ids)
    }
}

} // verus!
