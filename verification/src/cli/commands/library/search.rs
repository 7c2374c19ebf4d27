//! Client-side search filters over library listings.
//!
//! Every text filter is a case-insensitive substring match: the query and the
//! field are both lowercased, and the field must contain the query.

use vstd::prelude::*;

use crate::cli::api::models::{
    AlbumArtistDto, AlbumDto, ArtistDto, PlaylistDto, TrackArtistDto, TrackDto,
};
use crate::cli::commands::library::playlist::joined;
use crate::text::{lowercase, push_char, push_str, seq_contains, str_contains, to_lowercase};

verus! {

/// The characters of an optional string slice.
pub open spec fn opt_str_chars(o: Option<&str>) -> Option<Seq<char>> {
    match o {
        Some(s) => Some(s@),
        None => None,
    }
}

/// Case-insensitive substring match of `query` in `text`.
pub open spec fn matches_text(text: Seq<char>, query: Seq<char>) -> bool {
    seq_contains(lowercase(text), lowercase(query))
}

/// `text` matches the optional filter (no filter matches everything).
pub open spec fn matches_opt(text: Seq<char>, filter: Option<Seq<char>>) -> bool {
    match filter {
        Some(q) => matches_text(text, q),
        None => true,
    }
}

/// A playlist is kept when its name matches the query and its source matches
/// the source filter.
pub open spec fn playlist_kept(
    p: PlaylistDto,
    query: Option<Seq<char>>,
    source: Option<Seq<char>>,
) -> bool {
    matches_opt(p.name@, query) && matches_opt(p.source@, source)
}

/// An artist is kept when its name matches the query.
pub open spec fn artist_kept(a: ArtistDto, query: Option<Seq<char>>) -> bool {
    matches_opt(a.name@, query)
}

/// An album is kept when its title, or the name of one of its artists, matches the query.
pub open spec fn album_kept(a: AlbumDto, query: Option<Seq<char>>) -> bool {
    match query {
        Some(q) => matches_text(a.title@, q) || exists|i: int|
            0 <= i < a.artists@.len() && matches_text(#[trigger] a.artists@[i].name@, q),
        None => true,
    }
}

/// The query filter on tracks: title, an artist name, or the album title matches.
pub open spec fn track_matches_query(t: TrackDto, q: Seq<char>) -> bool {
    ||| matches_text(t.title@, q)
    ||| exists|i: int| 0 <= i < t.artists@.len() && matches_text(#[trigger] t.artists@[i].name@, q)
    ||| (t.album matches Some(a) && matches_text(a.title@, q))
}

/// A track is kept when it passes every requested filter: the text query,
/// the genre (tracks without a genre never match one), the validation flag
/// and the presence of a local file.
pub open spec fn track_kept(
    t: TrackDto,
    query: Option<Seq<char>>,
    genre: Option<Seq<char>>,
    needs_validation: bool,
    has_file: bool,
) -> bool {
    &&& (query matches Some(q) ==> track_matches_query(t, q))
    &&& (genre matches Some(g) ==> (t.genre matches Some(tg) && matches_text(tg@, g)))
    &&& (needs_validation ==> t.needs_validation)
    &&& (has_file ==> t.file_path is Some)
}

/// What remains of `len` rows once at most `limit` are kept.
pub open spec fn limited<T>(rows: Seq<T>, limit: Option<usize>) -> Seq<T> {
    match limit {
        Some(l) => if l < rows.len() {
            rows.take(l as int)
        } else {
            rows
        },
        None => rows,
    }
}

/// Whether `text` contains `needle_lower` once lowercased.
pub(crate) fn contains_lowercased(text: &str, needle_lower: &str) -> (res: bool)
    ensures
        res == seq_contains(lowercase(text@), needle_lower@),
{
    let t = to_lowercase(text);
    str_contains(t.as_str(), needle_lower)
}

/// Lowercases an optional filter once.
fn lower_filter(f: Option<&str>) -> (res: Option<String>)
    ensures
        match (f, res) {
            (Some(q), Some(l)) => l@ == lowercase(q@),
            (None, None) => true,
            _ => false,
        },
{
    match f {
        Some(q) => Some(to_lowercase(q)),
        None => None,
    }
}

/// Whether `text` passes an optional, already lowercased filter.
fn passes(text: &str, f: &Option<String>, Ghost(orig): Ghost<Option<Seq<char>>>) -> (res: bool)
    requires
        match (orig, f) {
            (Some(q), Some(l)) => l@ == lowercase(q),
            (None, None) => true,
            _ => false,
        },
    ensures
        res == matches_opt(text@, orig),
{
    match f {
        Some(l) => contains_lowercased(text, l.as_str()),
        None => true,
    }
}

/// Keeps exactly the rows whose flag is set, in order.
pub(crate) fn retain_flags<T>(rows: &mut Vec<T>, keep: &Vec<bool>, Ghost(pred): Ghost<spec_fn(T) -> bool>)
    requires
        keep@.len() == old(rows)@.len(),
        forall|j: int| 0 <= j < keep@.len() ==> keep@[j] == pred(old(rows)@[j]),
    ensures
        final(rows)@ == old(rows)@.filter(pred),
{
    let ghost s = rows@;
    let mut i: usize = 0;
    let mut j: usize = 0;
    assert(s.take(0).filter(pred) =~= Seq::<T>::empty());
    assert(rows@ =~= s.take(0).filter(pred) + s.skip(0));
    while j < keep.len()
        invariant
            keep@.len() == s.len(),
            forall|k: int| 0 <= k < keep@.len() ==> keep@[k] == pred(s[k]),
            j <= s.len(),
            rows@ == s.take(j as int).filter(pred) + s.skip(j as int),
            i == s.take(j as int).filter(pred).len(),
        decreases s.len() - j,
    {
        let ghost before = s.take(j as int).filter(pred);
        proof {
            reveal(Seq::filter);
            assert(s.take(j + 1).drop_last() =~= s.take(j as int));
            assert(s.take(j + 1).last() == s[j as int]);
            assert(s.skip(j as int) =~= seq![s[j as int]] + s.skip(j + 1));
        }
        if keep[j] {
            proof {
                assert(s.take(j + 1).filter(pred) == before.push(s[j as int]));
            }
            i = i + 1;
            assert(rows@ =~= before.push(s[j as int]) + s.skip(j + 1));
        } else {
            proof {
                assert(s.take(j + 1).filter(pred) == before);
            }
            rows.remove(i);
            assert(rows@ =~= before + s.skip(j + 1));
        }
        j = j + 1;
    }
    assert(s.take(s.len() as int) =~= s);
    assert(rows@ =~= s.filter(pred));
}

pub fn apply_playlist_filters(rows: &mut Vec<PlaylistDto>, query: Option<&str>, source: Option<&str>)
    ensures
        final(rows)@ == old(rows)@.filter(
            |p: PlaylistDto| playlist_kept(p, opt_str_chars(query), opt_str_chars(source)),
        ),
{
    let ghost pred = |p: PlaylistDto| playlist_kept(p, opt_str_chars(query), opt_str_chars(source));
    let q = lower_filter(query);
    let src = lower_filter(source);
    let mut keep: Vec<bool> = Vec::new();
    let mut i: usize = 0;
    while i < rows.len()
        invariant
            i <= rows@.len(),
            keep@.len() == i,
            forall|j: int| 0 <= j < i ==> keep@[j] == pred(rows@[j]),
            pred == (|p: PlaylistDto| playlist_kept(p, opt_str_chars(query), opt_str_chars(source))),
            match (query, q) {
                (Some(x), Some(l)) => l@ == lowercase(x@),
                (None, None) => true,
                _ => false,
            },
            match (source, src) {
                (Some(x), Some(l)) => l@ == lowercase(x@),
                (None, None) => true,
                _ => false,
            },
        decreases rows@.len() - i,
    {
        let p = &rows[i];
        let k = passes(p.name.as_str(), &q, Ghost(opt_str_chars(query))) && passes(
            p.source.as_str(),
            &src,
            Ghost(opt_str_chars(source)),
        );
        keep.push(k);
        i = i + 1;
    }
    retain_flags(rows, &keep, Ghost(pred));
}

pub fn apply_artist_filters(rows: &mut Vec<ArtistDto>, query: Option<&str>)
    ensures
        final(rows)@ == old(rows)@.filter(|a: ArtistDto| artist_kept(a, opt_str_chars(query))),
{
    let ghost pred = |a: ArtistDto| artist_kept(a, opt_str_chars(query));
    let q = lower_filter(query);
    let mut keep: Vec<bool> = Vec::new();
    let mut i: usize = 0;
    while i < rows.len()
        invariant
            i <= rows@.len(),
            keep@.len() == i,
            forall|j: int| 0 <= j < i ==> keep@[j] == pred(rows@[j]),
            pred == (|a: ArtistDto| artist_kept(a, opt_str_chars(query))),
            match (query, q) {
                (Some(x), Some(l)) => l@ == lowercase(x@),
                (None, None) => true,
                _ => false,
            },
        decreases rows@.len() - i,
    {
        let k = passes(rows[i].name.as_str(), &q, Ghost(opt_str_chars(query)));
        keep.push(k);
        i = i + 1;
    }
    retain_flags(rows, &keep, Ghost(pred));
}

/// Whether the album's title or one of its artist names contains the lowercased query.
fn album_matches(a: &AlbumDto, l: &str, Ghost(q): Ghost<Seq<char>>) -> (res: bool)
    requires
        l@ == lowercase(q),
    ensures
        res == album_kept(*a, Some(q)),
{
    if contains_lowercased(a.title.as_str(), l) {
        return true;
    }
    let mut i: usize = 0;
    while i < a.artists.len()
        invariant
            l@ == lowercase(q),
            i <= a.artists@.len(),
            forall|j: int| 0 <= j < i ==> !matches_text(#[trigger] a.artists@[j].name@, q),
        decreases a.artists@.len() - i,
    {
        if contains_lowercased(a.artists[i].name.as_str(), l) {
            return true;
        }
        i = i + 1;
    }
    false
}

pub fn apply_album_filters(rows: &mut Vec<AlbumDto>, query: Option<&str>)
    ensures
        final(rows)@ == old(rows)@.filter(|a: AlbumDto| album_kept(a, opt_str_chars(query))),
{
    let ghost pred = |a: AlbumDto| album_kept(a, opt_str_chars(query));
    match query {
        None => {
            let ghost s = rows@;
            proof {
                lemma_filter_all(s, pred);
            }
        },
        Some(qs) => {
            let l = to_lowercase(qs);
            let mut keep: Vec<bool> = Vec::new();
            let mut i: usize = 0;
            while i < rows.len()
                invariant
                    i <= rows@.len(),
                    keep@.len() == i,
                    forall|j: int| 0 <= j < i ==> keep@[j] == pred(rows@[j]),
            pred == (|a: AlbumDto| album_kept(a, opt_str_chars(query))),
                    l@ == lowercase(qs@),
                    query == Some(qs),
                decreases rows@.len() - i,
            {
                let k = album_matches(&rows[i], l.as_str(), Ghost(qs@));
                keep.push(k);
                i = i + 1;
            }
            retain_flags(rows, &keep, Ghost(pred));
        },
    }
}

/// Whether the track's title, an artist name or its album title contains the lowercased query.
fn track_query_matches(t: &TrackDto, l: &str, Ghost(q): Ghost<Seq<char>>) -> (res: bool)
    requires
        l@ == lowercase(q),
    ensures
        res == track_matches_query(*t, q),
{
    if contains_lowercased(t.title.as_str(), l) {
        return true;
    }
    let mut i: usize = 0;
    while i < t.artists.len()
        invariant
            l@ == lowercase(q),
            i <= t.artists@.len(),
            forall|j: int| 0 <= j < i ==> !matches_text(#[trigger] t.artists@[j].name@, q),
            !matches_text(t.title@, q),
        decreases t.artists@.len() - i,
    {
        if contains_lowercased(t.artists[i].name.as_str(), l) {
            return true;
        }
        i = i + 1;
    }
    match &t.album {
        Some(a) => contains_lowercased(a.title.as_str(), l),
        None => false,
    }
}

/// Whether a track passes every requested filter.
fn track_passes(
    t: &TrackDto,
    q: &Option<String>,
    g: &Option<String>,
    needs_validation: bool,
    has_file: bool,
    Ghost(query): Ghost<Option<Seq<char>>>,
    Ghost(genre): Ghost<Option<Seq<char>>>,
) -> (res: bool)
    requires
        match (query, q) {
            (Some(x), Some(l)) => l@ == lowercase(x),
            (None, None) => true,
            _ => false,
        },
        match (genre, g) {
            (Some(x), Some(l)) => l@ == lowercase(x),
            (None, None) => true,
            _ => false,
        },
    ensures
        res == track_kept(*t, query, genre, needs_validation, has_file),
{
    let query_ok = match q {
        Some(l) => track_query_matches(t, l.as_str(), Ghost(query->0)),
        None => true,
    };
    let genre_ok = match g {
        Some(l) => match &t.genre {
            Some(tg) => contains_lowercased(tg.as_str(), l.as_str()),
            None => false,
        },
        None => true,
    };
    let validation_ok = !needs_validation || t.needs_validation;
    let file_ok = !has_file || t.file_path.is_some();
    query_ok && genre_ok && validation_ok && file_ok
}

pub fn apply_track_filters(
    rows: &mut Vec<TrackDto>,
    query: Option<&str>,
    genre: Option<&str>,
    needs_validation: bool,
    has_file: bool,
)
    ensures
        final(rows)@ == old(rows)@.filter(
            |t: TrackDto|
                track_kept(
                    t,
                    opt_str_chars(query),
                    opt_str_chars(genre),
                    needs_validation,
                    has_file,
                ),
        ),
{
    let ghost pred = |t: TrackDto|
        track_kept(t, opt_str_chars(query), opt_str_chars(genre), needs_validation, has_file);
    let q = lower_filter(query);
    let g = lower_filter(genre);
    let mut keep: Vec<bool> = Vec::new();
    let mut i: usize = 0;
    while i < rows.len()
        invariant
            i <= rows@.len(),
            keep@.len() == i,
            forall|j: int| 0 <= j < i ==> keep@[j] == pred(rows@[j]),
            pred == (|t: TrackDto|
        track_kept(t, opt_str_chars(query), opt_str_chars(genre), needs_validation, has_file)),
            match (query, q) {
                (Some(x), Some(l)) => l@ == lowercase(x@),
                (None, None) => true,
                _ => false,
            },
            match (genre, g) {
                (Some(x), Some(l)) => l@ == lowercase(x@),
                (None, None) => true,
                _ => false,
            },
        decreases rows@.len() - i,
    {
        let k = track_passes(
            &rows[i],
            &q,
            &g,
            needs_validation,
            has_file,
            Ghost(opt_str_chars(query)),
            Ghost(opt_str_chars(genre)),
        );
        keep.push(k);
        i = i + 1;
    }
    retain_flags(rows, &keep, Ghost(pred));
}

/// Keeps at most `limit` rows (all of them when no limit is given).
pub fn apply_limit<T>(rows: &mut Vec<T>, limit: Option<usize>)
    ensures
        final(rows)@ == limited(old(rows)@, limit),
{
    if let Some(limit) = limit {
        rows.truncate(limit);
    }
}

/// Filtering with a predicate that holds everywhere keeps everything.
pub proof fn lemma_filter_all<A>(s: Seq<A>, pred: spec_fn(A) -> bool)
    requires
        forall|i: int| 0 <= i < s.len() ==> pred(s[i]),
    ensures
        s.filter(pred) == s,
    decreases s.len(),
{
    reveal(Seq::filter);
    if s.len() > 0 {
        assert forall|i: int| 0 <= i < s.drop_last().len() implies pred(s.drop_last()[i]) by {
            assert(s.drop_last()[i] == s[i]);
        }
        lemma_filter_all(s.drop_last(), pred);
        assert(pred(s[s.len() - 1]));
        assert(s.drop_last().push(s.last()) =~= s);
    }
}

/// Filtering twice with the same predicate is filtering once.
pub proof fn lemma_filter_idempotent<A>(s: Seq<A>, pred: spec_fn(A) -> bool)
    ensures
        s.filter(pred).filter(pred) == s.filter(pred),
{
    let f = s.filter(pred);
    assert forall|i: int| 0 <= i < f.len() implies pred(f[i]) by {
        s.lemma_filter_pred(pred, i);
    }
    lemma_filter_all(f, pred);
}

/// Law: applying the same playlist filters a second time changes nothing,
/// and with no filter every playlist is kept.
pub proof fn law_playlist_filters(
    rows: Seq<PlaylistDto>,
    query: Option<Seq<char>>,
    source: Option<Seq<char>>,
)
    ensures
        rows.filter(|p: PlaylistDto| playlist_kept(p, query, source)).filter(
            |p: PlaylistDto| playlist_kept(p, query, source),
        ) == rows.filter(|p: PlaylistDto| playlist_kept(p, query, source)),
        rows.filter(|p: PlaylistDto| playlist_kept(p, None, None)) == rows,
{
    lemma_filter_idempotent(rows, |p: PlaylistDto| playlist_kept(p, query, source));
    lemma_filter_all(rows, |p: PlaylistDto| playlist_kept(p, None, None));
}

/// Law: every kept track passes every filter, and every track that passes
/// every filter is kept; filtering again changes nothing.
pub proof fn law_track_filters(
    rows: Seq<TrackDto>,
    query: Option<Seq<char>>,
    genre: Option<Seq<char>>,
    needs_validation: bool,
    has_file: bool,
    t: TrackDto,
)
    ensures
        rows.filter(|x: TrackDto| track_kept(x, query, genre, needs_validation, has_file)).contains(
            t,
        ) <==> (rows.contains(t) && track_kept(t, query, genre, needs_validation, has_file)),
        rows.filter(|x: TrackDto| track_kept(x, query, genre, needs_validation, has_file)).filter(
            |x: TrackDto| track_kept(x, query, genre, needs_validation, has_file),
        ) == rows.filter(|x: TrackDto| track_kept(x, query, genre, needs_validation, has_file)),
{
    let pred = |x: TrackDto| track_kept(x, query, genre, needs_validation, has_file);
    lemma_filter_idempotent(rows, pred);
    if rows.contains(t) && pred(t) {
        let i = choose|i: int| 0 <= i < rows.len() && rows[i] == t;
        rows.lemma_filter_contains(pred, i);
    }
    if rows.filter(pred).contains(t) {
        rows.lemma_filter_contains_rev(pred, t);
        let i = choose|i: int| 0 <= i < rows.filter(pred).len() && rows.filter(pred)[i] == t;
        rows.lemma_filter_pred(pred, i);
    }
}

/// Law: the limit never yields more rows than asked for and keeps a prefix.
pub proof fn law_limit_is_prefix<T>(rows: Seq<T>, limit: usize)
    ensures
        limited(rows, Some(limit)).len() <= limit,
        limited(rows, Some(limit)).len() <= rows.len(),
        limited(rows, Some(limit)) == rows.take(limited(rows, Some(limit)).len() as int),
{
    if limit >= rows.len() {
        assert(rows.take(rows.len() as int) =~= rows);
    }
}

// ------------------------------------------------------------------------------------------------
// Table cells
// ------------------------------------------------------------------------------------------------

/// Appends `names` separated by `", "`.
fn push_joined(out: &mut String, names: &Vec<&str>)
    ensures
        final(out)@ == old(out)@ + joined(names@.map_values(|n: &str| n@), seq![',', ' ']),
{
    let ghost ns = names@.map_values(|n: &str| n@);
    let ghost start = out@;
    let mut i: usize = 0;
    while i < names.len()
        invariant
            i <= names@.len(),
            ns == names@.map_values(|n: &str| n@),
            out@ == start + joined(ns.take(i as int), seq![',', ' ']),
        decreases names@.len() - i,
    {
        proof {
            assert(ns.take(i + 1).drop_last() =~= ns.take(i as int));
            assert(ns.take(i + 1).last() == names@[i as int]@);
        }
        if i > 0 {
            push_char(out, ',');
            push_char(out, ' ');
        }
        push_str(out, names[i]);
        proof {
            if i == 0 {
                assert(out@ =~= start + joined(ns.take(1), seq![',', ' ']));
            } else {
                assert(out@ =~= start + joined(ns.take(i + 1), seq![',', ' ']));
            }
        }
        i = i + 1;
    }
    assert(ns.take(names@.len() as int) =~= ns);
}

/// The artists cell of an album row: the artist names separated by `", "`.
pub fn album_artists_cell(album: &AlbumDto) -> (res: String)
    ensures
        res@ == joined(album.artists@.map_values(|a: AlbumArtistDto| a.name@), seq![',', ' ']),
{
    let mut names: Vec<&str> = Vec::new();
    let mut k: usize = 0;
    while k < album.artists.len()
        invariant
            k <= album.artists@.len(),
            names@.map_values(|n: &str| n@) == album.artists@.take(k as int).map_values(|a: AlbumArtistDto| a.name@),
        decreases album.artists@.len() - k,
    {
        let ghost before = names@;
        let x = album.artists[k].name.as_str();
        names.push(x);
        proof {
            assert(names@ == before.push(x));
            assert(before.push(x).map_values(|n: &str| n@) =~= before.map_values(|n: &str| n@).push(x@));
            assert(album.artists@.take(k + 1) =~= album.artists@.take(k as int).push(album.artists@[k as int]));
            assert(album.artists@.take(k as int).push(album.artists@[k as int]).map_values(|a: AlbumArtistDto| a.name@)
                =~= album.artists@.take(k as int).map_values(|a: AlbumArtistDto| a.name@).push(album.artists@[k as int].name@));
        }
        k = k + 1;
    }
    assert(album.artists@.take(album.artists@.len() as int) =~= album.artists@);
    let mut s = String::new();
    push_joined(&mut s, &names);
    assert(s@ =~= joined(names@.map_values(|n: &str| n@), seq![',', ' ']));
    s
}

/// The artists cell of a track row: the artist names separated by `", "`.
pub fn track_artists_cell(track: &TrackDto) -> (res: String)
    ensures
        res@ == joined(track.artists@.map_values(|a: TrackArtistDto| a.name@), seq![',', ' ']),
{
    let mut names: Vec<&str> = Vec::new();
    let mut k: usize = 0;
    while k < track.artists.len()
        invariant
            k <= track.artists@.len(),
            names@.map_values(|n: &str| n@) == track.artists@.take(k as int).map_values(|a: TrackArtistDto| a.name@),
        decreases track.artists@.len() - k,
    {
        let ghost before = names@;
        let x = track.artists[k].name.as_str();
        names.push(x);
        proof {
            assert(names@ == before.push(x));
            assert(before.push(x).map_values(|n: &str| n@) =~= before.map_values(|n: &str| n@).push(x@));
            assert(track.artists@.take(k + 1) =~= track.artists@.take(k as int).push(track.artists@[k as int]));
            assert(track.artists@.take(k as int).push(track.artists@[k as int]).map_values(|a: TrackArtistDto| a.name@)
                =~= track.artists@.take(k as int).map_values(|a: TrackArtistDto| a.name@).push(track.artists@[k as int].name@));
        }
        k = k + 1;
    }
    assert(track.artists@.take(track.artists@.len() as int) =~= track.artists@);
    let mut s = String::new();
    push_joined(&mut s, &names);
    assert(s@ =~= joined(names@.map_values(|n: &str| n@), seq![',', ' ']));
    s
}

/// The genre cell of a track row: its genre, or `-`.
pub fn genre_cell(track: &TrackDto) -> (res: &str)
    ensures
        res@ == match track.genre {
            Some(g) => g@,
            None => "-"@,
        },
{
    match &track.genre {
        Some(g) => g.as_str(),
        None => "-",
    }
}

/// Law: a text query keeps exactly the albums whose title or some artist's
/// name contains it, ignoring case.
pub proof fn law_album_query_searches_title_and_artists(a: AlbumDto, q: Seq<char>)
    ensures
        album_kept(a, Some(q)) <==> (seq_contains(lowercase(a.title@), lowercase(q)) || exists|i: int|
            0 <= i < a.artists@.len() && seq_contains(lowercase(#[trigger] a.artists@[i].name@), lowercase(q))),
{
}

/// Law: an album one of whose artists' names contains the query, ignoring
/// case, is kept by the filter whatever its title.
pub proof fn law_album_found_by_artist(rows: Seq<AlbumDto>, q: Seq<char>, k: int, i: int)
    requires
        0 <= k < rows.len(),
        0 <= i < rows[k].artists@.len(),
        seq_contains(lowercase(rows[k].artists@[i].name@), lowercase(q)),
    ensures
        rows.filter(|a: AlbumDto| album_kept(a, Some(q))).contains(rows[k]),
{
    let p = |a: AlbumDto| album_kept(a, Some(q));
    assert(matches_text(rows[k].artists@[i].name@, q));
    assert(p(rows[k]));
    rows.lemma_filter_contains(p, k);
}

} // verus!
