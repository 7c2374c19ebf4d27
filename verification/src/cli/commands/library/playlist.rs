//! Playlist commands: resolving a playlist from an id or a name, and naming
//! the files a playlist download writes.

use vstd::prelude::*;

use crate::cli::api::models::{PlaylistDto, PlaylistTrackDto};
use crate::cli::commands::library::search::{contains_lowercased, retain_flags};
use crate::text::{
    str_eq, decimal, digit_char, is_slice_of, lowercase, opt_chars, push_char, push_str, push_zero_padded,
    repeat_char, seq_contains, to_lowercase, trim, trimmed, lemma_trimmed, zero_padded,
};

verus! {

// ------------------------------------------------------------------------------------------------
// Integer parsing
// ------------------------------------------------------------------------------------------------

/// `c` is an ASCII decimal digit.
pub open spec fn is_digit(c: char) -> bool {
    '0' <= c && c <= '9'
}

/// A non-empty run of ASCII decimal digits.
pub open spec fn all_digits(s: Seq<char>) -> bool {
    s.len() > 0 && forall|i: int| 0 <= i < s.len() ==> is_digit(#[trigger] s[i])
}

/// The value of a run of decimal digits.
pub open spec fn digits_value(s: Seq<char>) -> int
    decreases s.len(),
{
    if s.len() == 0 {
        0
    } else {
        digits_value(s.drop_last()) * 10 + (s.last() as int - '0' as int)
    }
}

/// `i32::from_str`: an optional `+` or `-` followed by one or more ASCII digits,
/// whose value fits in an `i32`; anything else is rejected.
pub open spec fn parse_i32_spec(s: Seq<char>) -> Option<i32> {
    let neg = s.len() > 0 && s[0] == '-';
    let body = if s.len() > 0 && (s[0] == '-' || s[0] == '+') {
        s.skip(1)
    } else {
        s
    };
    let v = if neg {
        -digits_value(body)
    } else {
        digits_value(body)
    };
    if all_digits(body) && i32::MIN <= v <= i32::MAX {
        Some(v as i32)
    } else {
        None
    }
}

/// `str::parse::<i32>`, successful exactly on an optional sign followed by
/// decimal digits whose value is in range.
#[verifier::external_body]
fn parse_i32(s: &str) -> (res: Option<i32>)
    ensures
        res == parse_i32_spec(s@),
{
    s.parse::<i32>().ok()
}

// ------------------------------------------------------------------------------------------------
// Resolving a playlist
// ------------------------------------------------------------------------------------------------

/// Outcome of looking a playlist up by id or by name.
pub enum PlaylistLookup {
    /// Exactly one playlist was identified.
    Found(PlaylistDto),
    /// The input was a number and no playlist has that id.
    NoSuchId(i32),
    /// The input was a name and no playlist name contains it.
    NoMatch,
    /// Several playlist names contain the input; the caller must pick one.
    Ambiguous(Vec<PlaylistDto>),
}

/// A playlist's name contains `needle`, ignoring case.
pub open spec fn name_contains(p: PlaylistDto, needle: Seq<char>) -> bool {
    seq_contains(lowercase(p.name@), lowercase(needle))
}

/// Index of the first playlist with the given id, if any.
pub open spec fn first_with_id(ps: Seq<PlaylistDto>, id: i32) -> Option<int> {
    if exists|i: int| 0 <= i < ps.len() && ps[i].id == id {
        Some(
            choose|i: int|
                0 <= i < ps.len() && ps[i].id == id && forall|j: int|
                    0 <= j < i ==> ps[j].id != id,
        )
    } else {
        None
    }
}

/// The lookup outcome the command acts on: a numeric input is an id, any
/// other input is a case-insensitive fragment of the name.
pub open spec fn lookup_spec(ps: Seq<PlaylistDto>, id_or_name: Seq<char>) -> PlaylistLookupSpec {
    match parse_i32_spec(id_or_name) {
        Some(id) => match first_with_id(ps, id) {
            Some(i) => PlaylistLookupSpec::Found(ps[i]),
            None => PlaylistLookupSpec::NoSuchId(id),
        },
        None => {
            let matched = ps.filter(|p: PlaylistDto| name_contains(p, id_or_name));
            if matched.len() == 0 {
                PlaylistLookupSpec::NoMatch
            } else if matched.len() == 1 {
                PlaylistLookupSpec::Found(matched[0])
            } else {
                PlaylistLookupSpec::Ambiguous(matched)
            }
        },
    }
}

proof fn lemma_filter_none<A>(s: Seq<A>, p: spec_fn(A) -> bool)
    requires
        forall|j: int| 0 <= j < s.len() ==> !p(#[trigger] s[j]),
    ensures
        s.filter(p).len() == 0,
{
    if s.filter(p).len() > 0 {
        assert(s.filter(p).contains(s.filter(p)[0]));
        s.lemma_filter_contains_rev(p, s.filter(p)[0]);
    }
}

proof fn lemma_filter_single<A>(s: Seq<A>, p: spec_fn(A) -> bool, k: int)
    requires
        0 <= k < s.len(),
        p(s[k]),
        forall|j: int| 0 <= j < s.len() && j != k ==> !p(#[trigger] s[j]),
    ensures
        s.filter(p) == seq![s[k]],
    decreases s.len(),
{
    reveal(Seq::filter);
    let rest = s.drop_last();
    if k == s.len() - 1 {
        assert forall|j: int| 0 <= j < rest.len() implies !p(#[trigger] rest[j]) by {
            assert(rest[j] == s[j]);
        }
        lemma_filter_none(rest, p);
        assert(rest.filter(p) =~= Seq::<A>::empty());
        assert(s.filter(p) =~= seq![s[k]]);
    } else {
        assert forall|j: int| 0 <= j < rest.len() && j != k implies !p(#[trigger] rest[j]) by {
            assert(rest[j] == s[j]);
        }
        assert(rest[k] == s[k]);
        lemma_filter_single(rest, p, k);
        assert(!p(s.last()));
    }
}

/// Law: looking a playlist up by name ignores case in the name and in the
/// input: two non-numeric inputs with the same lowercase form give the same
/// outcome.
pub proof fn law_name_lookup_ignores_case(ps: Seq<PlaylistDto>, x: Seq<char>, y: Seq<char>)
    requires
        parse_i32_spec(x) is None,
        parse_i32_spec(y) is None,
        lowercase(x) == lowercase(y),
    ensures
        lookup_spec(ps, x) == lookup_spec(ps, y),
{
    let fx = |p: PlaylistDto| name_contains(p, x);
    let fy = |p: PlaylistDto| name_contains(p, y);
    assert(fx =~= fy);
}

/// Law: a non-numeric input finds the one playlist whose lowercased name
/// contains the lowercased input, and finds nothing when no such name exists.
pub proof fn law_name_lookup_finds_the_only_match(ps: Seq<PlaylistDto>, x: Seq<char>, k: int)
    requires
        parse_i32_spec(x) is None,
    ensures
        (0 <= k < ps.len() && seq_contains(lowercase(ps[k].name@), lowercase(x)) && forall|j: int|
            0 <= j < ps.len() && j != k ==> !seq_contains(lowercase((#[trigger] ps[j]).name@), lowercase(x)))
            ==> lookup_spec(ps, x) == PlaylistLookupSpec::Found(ps[k]),
        (forall|j: int| 0 <= j < ps.len() ==> !seq_contains(lowercase((#[trigger] ps[j]).name@), lowercase(x)))
            ==> lookup_spec(ps, x) == PlaylistLookupSpec::NoMatch,
{
    let f = |p: PlaylistDto| name_contains(p, x);
    if 0 <= k < ps.len() && seq_contains(lowercase(ps[k].name@), lowercase(x)) && forall|j: int|
        0 <= j < ps.len() && j != k ==> !seq_contains(lowercase((#[trigger] ps[j]).name@), lowercase(x)) {
        assert forall|j: int| 0 <= j < ps.len() && j != k implies !f(#[trigger] ps[j]) by {
            assert(!seq_contains(lowercase(ps[j].name@), lowercase(x)));
        }
        lemma_filter_single(ps, f, k);
        assert(ps.filter(f)[0] == ps[k]);
    }
    if forall|j: int| 0 <= j < ps.len() ==> !seq_contains(lowercase((#[trigger] ps[j]).name@), lowercase(x)) {
        assert forall|j: int| 0 <= j < ps.len() implies !f(#[trigger] ps[j]) by {
            assert(!seq_contains(lowercase(ps[j].name@), lowercase(x)));
        }
        lemma_filter_none(ps, f);
    }
}

/// Law: when a name lookup is ambiguous, the candidates offered are exactly the
/// playlists whose lowercased name contains the lowercased input.
pub proof fn law_ambiguous_lookup_lists_every_match(ps: Seq<PlaylistDto>, x: Seq<char>, q: PlaylistDto)
    requires
        parse_i32_spec(x) is None,
        lookup_spec(ps, x) is Ambiguous,
    ensures
        lookup_spec(ps, x)->Ambiguous_0.contains(q) <==> (ps.contains(q) && seq_contains(
            lowercase(q.name@),
            lowercase(x),
        )),
{
    let f = |p: PlaylistDto| name_contains(p, x);
    let m = ps.filter(f);
    assert(lookup_spec(ps, x)->Ambiguous_0 == m);
    if m.contains(q) {
        ps.lemma_filter_contains_rev(f, q);
    }
    if ps.contains(q) && seq_contains(lowercase(q.name@), lowercase(x)) {
        let k = choose|k: int| 0 <= k < ps.len() && ps[k] == q;
        ps.lemma_filter_contains(f, k);
    }
}

/// The mathematical form of a [`PlaylistLookup`].
pub enum PlaylistLookupSpec {
    Found(PlaylistDto),
    NoSuchId(i32),
    NoMatch,
    Ambiguous(Seq<PlaylistDto>),
}

impl PlaylistLookup {
    pub open spec fn view(self) -> PlaylistLookupSpec {
        match self {
            PlaylistLookup::Found(p) => PlaylistLookupSpec::Found(p),
            PlaylistLookup::NoSuchId(id) => PlaylistLookupSpec::NoSuchId(id),
            PlaylistLookup::NoMatch => PlaylistLookupSpec::NoMatch,
            PlaylistLookup::Ambiguous(v) => PlaylistLookupSpec::Ambiguous(v@),
        }
    }
}

/// Index of the first playlist with the given id.
fn find_id(playlists: &Vec<PlaylistDto>, id: i32) -> (res: Option<usize>)
    ensures
        match res {
            Some(i) => first_with_id(playlists@, id) == Some(i as int) && i < playlists@.len(),
            None => first_with_id(playlists@, id) is None,
        },
{
    let ghost ps = playlists@;
    let mut i: usize = 0;
    while i < playlists.len()
        invariant
            playlists@ == ps,
            i <= ps.len(),
            forall|j: int| 0 <= j < i ==> ps[j].id != id,
        decreases ps.len() - i,
    {
        if playlists[i].id == id {
            proof {
                assert(0 <= i < ps.len() && ps[i as int].id == id && forall|j: int|
                    0 <= j < i ==> ps[j].id != id);
                let c = choose|k: int|
                    0 <= k < ps.len() && ps[k].id == id && forall|j: int|
                        0 <= j < k ==> ps[j].id != id;
                assert(c == i) by {
                    if c < i {
                        assert(ps[c].id != id);
                    } else if c > i {
                        assert(ps[i as int].id != id);
                    }
                }
            }
            return Some(i);
        }
        i = i + 1;
    }
    None
}

/// Resolves a playlist by id (if the input is numeric) or by name (a
/// case-insensitive fragment of it) among `playlists`.
pub fn lookup_playlist(playlists: Vec<PlaylistDto>, id_or_name: &str) -> (res: PlaylistLookup)
    ensures
        res.view() == lookup_spec(playlists@, id_or_name@),
{
    let ghost ps = playlists@;
    match parse_i32(id_or_name) {
        Some(id) => match find_id(&playlists, id) {
            Some(i) => {
                let mut playlists = playlists;
                let found = playlists.swap_remove(i);
                PlaylistLookup::Found(found)
            },
            None => PlaylistLookup::NoSuchId(id),
        },
        None => {
            let needle = to_lowercase(id_or_name);
            let ghost pred = |p: PlaylistDto| name_contains(p, id_or_name@);
            let mut keep: Vec<bool> = Vec::new();
            let mut i: usize = 0;
            while i < playlists.len()
                invariant
                    playlists@ == ps,
                    i <= ps.len(),
                    keep@.len() == i,
                    forall|j: int| 0 <= j < i ==> keep@[j] == pred(ps[j]),
                    needle@ == lowercase(id_or_name@),
                    pred == (|p: PlaylistDto| name_contains(p, id_or_name@)),
                decreases ps.len() - i,
            {
                let hit = contains_lowercased(playlists[i].name.as_str(), needle.as_str());
                keep.push(hit);
                i = i + 1;
            }
            let mut matched = playlists;
            retain_flags(&mut matched, &keep, Ghost(pred));
            if matched.len() == 0 {
                PlaylistLookup::NoMatch
            } else if matched.len() == 1 {
                let only = matched.pop().unwrap();
                PlaylistLookup::Found(only)
            } else {
                PlaylistLookup::Ambiguous(matched)
            }
        },
    }
}

// ------------------------------------------------------------------------------------------------
// File naming
// ------------------------------------------------------------------------------------------------

/// Characters that are unsafe in file names on common file systems.
pub open spec fn is_reserved_char(c: char) -> bool {
    c == '/' || c == '\\' || c == ':' || c == '*' || c == '?' || c == '"' || c == '<' || c == '>'
        || c == '|'
}

/// A reserved character is replaced by `_`; any other is kept.
pub open spec fn sanitize_char(c: char) -> char {
    if is_reserved_char(c) {
        '_'
    } else {
        c
    }
}

/// `name` with reserved characters replaced and surrounding whitespace removed.
pub open spec fn sanitized(name: Seq<char>) -> Seq<char> {
    trimmed(name.map_values(|c: char| sanitize_char(c)))
}

/// Makes a name safe to use as a file name.
pub fn sanitize_filename(name: &str) -> (res: String)
    ensures
        res@ == sanitized(name@),
        is_slice_of(res@, name@.map_values(|c: char| sanitize_char(c))),
{
    let mut mapped = String::new();
    for c in it: name.chars()
        invariant
            mapped@ == it.seq().take(it.index() as int).map_values(|c: char| sanitize_char(c)),
            it.seq() == name@,
    {
        let r = if c == '/' || c == '\\' || c == ':' || c == '*' || c == '?' || c == '"' || c
            == '<' || c == '>' || c == '|' {
            '_'
        } else {
            c
        };
        proof {
            assert(it.seq().take(it.index() + 1) =~= it.seq().take(it.index() as int).push(c));
        }
        push_char(&mut mapped, r);
        assert(mapped@ =~= it.seq().take(it.index() + 1).map_values(|c: char| sanitize_char(c)));
    }
    assert(name@.take(name@.len() as int) =~= name@);
    proof {
        lemma_trimmed(mapped@);
    }
    trim(mapped.as_str()).to_owned()
}

/// Elements of `list` separated by `sep`.
pub open spec fn joined(list: Seq<Seq<char>>, sep: Seq<char>) -> Seq<char>
    decreases list.len(),
{
    if list.len() == 0 {
        Seq::empty()
    } else if list.len() == 1 {
        list[0]
    } else {
        joined(list.drop_last(), sep) + sep + list.last()
    }
}

/// Width of the track-number prefix: enough digits for the playlist size.
pub open spec fn track_prefix_width(total_tracks: u32) -> nat {
    if total_tracks >= 1000 {
        4
    } else if total_tracks >= 100 {
        3
    } else {
        2
    }
}

/// The characters of a list of artist names.
pub open spec fn names_chars(artists: Seq<&str>) -> Seq<Seq<char>> {
    artists.map_values(|a: &str| a@)
}

/// `"NN - Title.ext"`, or `"NN - Artist, Artist - Title.ext"` when there are artists,
/// where `NN` is the zero-padded track number and names are sanitized.
pub open spec fn dest_file_name_spec(
    artists: Seq<Seq<char>>,
    title: Seq<char>,
    ext: Seq<char>,
    track_number: u32,
    total_tracks: u32,
) -> Seq<char> {
    let prefix = zero_padded(track_number as nat, track_prefix_width(total_tracks));
    let dash = seq![' ', '-', ' '];
    if artists.len() == 0 {
        prefix + dash + sanitized(title) + seq!['.'] + ext
    } else {
        prefix + dash + sanitized(joined(artists, seq![',', ' '])) + dash + sanitized(title) + seq![
            '.',
        ] + ext
    }
}

/// The artist names separated by `", "`.
fn join_names(artists: &[&str]) -> (res: String)
    ensures
        res@ == joined(names_chars(artists@), seq![',', ' ']),
{
    let ghost names = names_chars(artists@);
    let mut res = String::new();
    let mut i: usize = 0;
    while i < artists.len()
        invariant
            i <= artists@.len(),
            names == names_chars(artists@),
            res@ == joined(names.take(i as int), seq![',', ' ']),
        decreases artists@.len() - i,
    {
        proof {
            assert(names.take(i + 1).drop_last() =~= names.take(i as int));
            assert(names.take(i + 1).last() == artists@[i as int]@);
        }
        if i > 0 {
            push_char(&mut res, ',');
            push_char(&mut res, ' ');
        }
        push_str(&mut res, artists[i]);
        proof {
            if i == 0 {
                assert(res@ =~= joined(names.take(1), seq![',', ' ']));
            } else {
                assert(res@ =~= joined(names.take(i + 1), seq![',', ' ']));
            }
        }
        i = i + 1;
    }
    assert(names.take(artists@.len() as int) =~= names);
    res
}

/// The file name under which a downloaded playlist track is stored.
pub fn dest_file_name(
    artists: &[&str],
    title: &str,
    ext: &str,
    track_number: u32,
    total_tracks: u32,
) -> (res: String)
    ensures
        res@ == dest_file_name_spec(names_chars(artists@), title@, ext@, track_number, total_tracks),
        relative_name(res@),
        no_reserved(ext@) ==> safe_file_name(res@),
{
    let width: usize = if total_tracks >= 1000 {
        4
    } else if total_tracks >= 100 {
        3
    } else {
        2
    };
    let safe_title = sanitize_filename(title);
    let mut name = String::new();
    push_zero_padded(&mut name, track_number, width);
    push_char(&mut name, ' ');
    push_char(&mut name, '-');
    push_char(&mut name, ' ');
    let ghost mut mid: Seq<char> = Seq::empty();
    if artists.len() > 0 {
        let all = join_names(artists);
        let safe_artists = sanitize_filename(all.as_str());
        proof {
            law_sanitized_has_no_reserved_chars(all@, safe_artists@);
            mid = safe_artists@;
        }
        push_str(&mut name, safe_artists.as_str());
        push_char(&mut name, ' ');
        push_char(&mut name, '-');
        push_char(&mut name, ' ');
        assert(name@ =~= zero_padded(track_number as nat, width as nat) + seq![' ', '-', ' '] + mid
            + seq![' ', '-', ' ']);
    }
    let ghost head = name@;
    let ghost pre = zero_padded(track_number as nat, width as nat);
    let ghost dash = seq![' ', '-', ' '];
    push_str(&mut name, safe_title.as_str());
    push_char(&mut name, '.');
    push_str(&mut name, ext);
    proof {
        lemma_zero_padded_digits(track_number as nat, width as nat);
        lemma_digits_no_reserved(pre);
        law_sanitized_has_no_reserved_chars(title@, safe_title@);
        assert(no_reserved(dash));
        assert(no_reserved(seq!['.']));
        assert(no_reserved(mid));
        lemma_no_reserved_concat(pre, dash);
        assert(no_reserved(head)) by {
            if artists@.len() > 0 {
                assert(head =~= pre + dash + mid + dash);
                lemma_no_reserved_concat(pre + dash, mid);
                lemma_no_reserved_concat(pre + dash + mid, dash);
            } else {
                assert(head =~= pre + dash);
            }
        }
        assert(head[0] == pre[0]) by {
            if artists@.len() > 0 {
                assert(head =~= pre + dash + mid + dash);
            } else {
                assert(head =~= pre + dash);
            }
        }
        assert(name@ =~= head + safe_title@ + seq!['.'] + ext@);
        assert(name@[0] == head[0]);
        if no_reserved(ext@) {
            lemma_no_reserved_concat(head, safe_title@);
            lemma_no_reserved_concat(head + safe_title@, seq!['.']);
            lemma_no_reserved_concat(head + safe_title@ + seq!['.'], ext@);
            assert(name@ =~= head + safe_title@ + seq!['.'] + ext@);
            assert(name@[0] == head[0]);
        }
    }
    assert(name@ =~= dest_file_name_spec(
        names_chars(artists@),
        title@,
        ext@,
        track_number,
        total_tracks,
    ));
    name
}

/// Path text with no `\` and no `:`. Such a root carries no Windows prefix
/// (drive, UNC or verbatim), and its only separator is `/`, on every platform.
pub open spec fn plain_path(s: Seq<char>) -> bool {
    forall|i: int| 0 <= i < s.len() ==> #[trigger] s[i] != '\\' && s[i] != ':'
}

/// A path separator character: `/` everywhere, `\` on Windows.
pub open spec fn is_separator(c: char) -> bool {
    c == '/' || c == '\\'
}

/// A join puts a separator after a root that is non-empty and does not already
/// end with `/`.
pub open spec fn needs_separator(root: Seq<char>) -> bool {
    root.len() > 0 && root.last() != '/'
}

/// `res` is `name` placed under `root`: the root, one separator where the root
/// needs one, then the name.
pub open spec fn placed_under(res: Seq<char>, root: Seq<char>, name: Seq<char>) -> bool {
    if needs_separator(root) {
        &&& res.len() == root.len() + 1 + name.len()
        &&& is_separator(res[root.len() as int])
        &&& res == root + seq![res[root.len() as int]] + name
    } else {
        res == root + name
    }
}

/// `Path::join` (a `PathBuf::push` onto `root`) followed by a lossless
/// `to_string_lossy`, the inputs being UTF-8. `push` adds the platform's main
/// separator when `root` is non-empty and does not end with a separator, then
/// the name, which starts with a digit or `-` and so has no root or prefix of
/// its own. The contract is stated for plain roots (no `\`, no `:`), where no
/// Windows prefix or verbatim normalization applies; of other roots it says
/// nothing. Which of `/` and `\` the inserted separator is (the platform's
/// main separator) is left unsaid.
#[verifier::external_body]
fn join_path(root: &str, name: &str) -> (res: String)
    requires
        relative_name(name@),
    ensures
        plain_path(root@) ==> placed_under(res@, root@, name@),
{
    std::path::Path::new(root).join(name).to_string_lossy().into_owned()
}

/// The destination of a downloaded playlist track under `target_root`: the
/// root, a separator where the root needs one, then the file name.
pub fn build_dest_path(
    target_root: &str,
    artists: &[&str],
    title: &str,
    ext: &str,
    track_number: u32,
    total_tracks: u32,
) -> (res: String)
    ensures
        plain_path(target_root@) ==> placed_under(
            res@,
            target_root@,
            dest_file_name_spec(names_chars(artists@), title@, ext@, track_number, total_tracks),
        ),
{
    let name = dest_file_name(artists, title, ext, track_number, total_tracks);
    join_path(target_root, name.as_str())
}

/// A sanitized name holds no reserved character.
pub proof fn law_sanitized_has_no_reserved_chars(name: Seq<char>, out: Seq<char>)
    requires
        is_slice_of(out, name.map_values(|c: char| sanitize_char(c))),
    ensures
        forall|i: int| 0 <= i < out.len() ==> !is_reserved_char(#[trigger] out[i]),
{
    let m = name.map_values(|c: char| sanitize_char(c));
    let (a, b) = choose|a: int, b: int| 0 <= a <= b <= m.len() && out == m.subrange(a, b);
    assert forall|i: int| 0 <= i < out.len() implies !is_reserved_char(#[trigger] out[i]) by {
        assert(out[i] == m[a + i]);
    }
}

/// No character of `s` is reserved.
pub open spec fn no_reserved(s: Seq<char>) -> bool {
    forall|i: int| 0 <= i < s.len() ==> !is_reserved_char(#[trigger] s[i])
}

/// A name that `join_path` places below the root: non-empty and starting with a
/// digit or `-`, hence relative on every platform.
pub open spec fn relative_name(s: Seq<char>) -> bool {
    s.len() > 0 && (is_digit(s[0]) || s[0] == '-')
}

/// A file name that is relative and free of reserved characters: non-empty, starting with a digit,
/// without reserved characters.
pub open spec fn safe_file_name(s: Seq<char>) -> bool {
    s.len() > 0 && is_digit(s[0]) && no_reserved(s)
}

proof fn lemma_no_reserved_concat(a: Seq<char>, b: Seq<char>)
    requires
        no_reserved(a),
        no_reserved(b),
    ensures
        no_reserved(a + b),
{
    assert forall|i: int| 0 <= i < (a + b).len() implies !is_reserved_char(#[trigger] (a + b)[i]) by {
        if i < a.len() {
            assert((a + b)[i] == a[i]);
        } else {
            assert((a + b)[i] == b[i - a.len()]);
        }
    }
}

proof fn lemma_digit_char_is_digit(d: nat)
    ensures
        is_digit(digit_char(d)),
{
}

/// Every character of a decimal representation is a digit.
proof fn lemma_decimal_digits(n: nat)
    ensures
        forall|i: int| 0 <= i < decimal(n).len() ==> is_digit(#[trigger] decimal(n)[i]),
        decimal(n).len() > 0,
    decreases n,
{
    lemma_digit_char_is_digit(n % 10);
    lemma_digit_char_is_digit(n);
    if n >= 10 {
        lemma_decimal_digits(n / 10);
        let d = decimal(n / 10);
        assert forall|i: int| 0 <= i < decimal(n).len() implies is_digit(#[trigger] decimal(n)[i]) by {
            if i < d.len() {
                assert(decimal(n)[i] == d[i]);
            }
        }
    }
}

proof fn lemma_repeat_zero(k: nat)
    ensures
        repeat_char('0', k).len() == k,
        forall|i: int| 0 <= i < k ==> #[trigger] repeat_char('0', k)[i] == '0',
    decreases k,
{
    if k > 0 {
        lemma_repeat_zero((k - 1) as nat);
        assert forall|i: int| 0 <= i < k implies #[trigger] repeat_char('0', k)[i] == '0' by {
            if i < k - 1 {
                assert(repeat_char('0', k)[i] == repeat_char('0', (k - 1) as nat)[i]);
            }
        }
    }
}

/// A zero-padded number is a non-empty run of digits.
proof fn lemma_zero_padded_digits(n: nat, width: nat)
    ensures
        zero_padded(n, width).len() > 0,
        forall|i: int| 0 <= i < zero_padded(n, width).len() ==> is_digit(#[trigger] zero_padded(n, width)[i]),
{
    lemma_decimal_digits(n);
    let d = decimal(n);
    if d.len() < width {
        let z = repeat_char('0', (width - d.len()) as nat);
        lemma_repeat_zero((width - d.len()) as nat);
        assert forall|i: int| 0 <= i < (z + d).len() implies is_digit(#[trigger] (z + d)[i]) by {
            if i < z.len() {
                assert((z + d)[i] == z[i]);
            } else {
                assert((z + d)[i] == d[i - z.len()]);
            }
        }
    }
}

proof fn lemma_digits_no_reserved(s: Seq<char>)
    requires
        forall|i: int| 0 <= i < s.len() ==> is_digit(#[trigger] s[i]),
    ensures
        no_reserved(s),
{
    assert forall|i: int| 0 <= i < s.len() implies !is_reserved_char(#[trigger] s[i]) by {
        assert(is_digit(s[i]));
    }
}

// ------------------------------------------------------------------------------------------------
// A playlist download session
// ------------------------------------------------------------------------------------------------

/// An id as `{:04}` writes it: zero-padded to four characters, a minus sign
/// counting as one of them.
pub open spec fn padded_id(id: i32) -> Seq<char> {
    if id >= 0 {
        zero_padded(id as nat, 4)
    } else {
        seq!['-'] + zero_padded((-id) as nat, 3)
    }
}

/// `"NNNN - Name"`: the directory of a playlist download.
pub open spec fn playlist_dir_name_spec(id: i32, name: Seq<char>) -> Seq<char> {
    padded_id(id) + seq![' ', '-', ' '] + sanitized(name)
}

/// The name of the directory a playlist is downloaded into.
pub fn playlist_dir_name(id: i32, name: &str) -> (res: String)
    ensures
        res@ == playlist_dir_name_spec(id, name@),
        relative_name(res@),
{
    let mut out = String::new();
    if id >= 0 {
        push_zero_padded(&mut out, id as u32, 4);
        proof {
            lemma_zero_padded_digits(id as nat, 4);
        }
    } else {
        push_char(&mut out, '-');
        let magnitude: u32 = (-(id as i64)) as u32;
        push_zero_padded(&mut out, magnitude, 3);
    }
    let ghost head = out@;
    assert(head =~= padded_id(id));
    push_char(&mut out, ' ');
    push_char(&mut out, '-');
    push_char(&mut out, ' ');
    let safe = sanitize_filename(name);
    push_str(&mut out, safe.as_str());
    assert(out@ =~= padded_id(id) + seq![' ', '-', ' '] + sanitized(name@));
    assert(out@[0] == head[0]);
    out
}

/// Where a playlist's tracks are written: the output directory itself when
/// `flat`, else the playlist's own directory under it.
pub fn download_root(output: &str, flat: bool, playlist_id: i32, playlist_name: &str) -> (res: String)
    ensures
        flat ==> res@ == output@,
        !flat && plain_path(output@) ==> placed_under(
            res@,
            output@,
            playlist_dir_name_spec(playlist_id, playlist_name@),
        ),
{
    if flat {
        output.to_owned()
    } else {
        let dir = playlist_dir_name(playlist_id, playlist_name);
        join_path(output, dir.as_str())
    }
}

/// What `Path::extension` gives for a path, as text.
pub uninterp spec fn path_extension(path: Seq<char>) -> Option<Seq<char>>;

/// `Path::extension` followed by `OsStr::to_str`: the extension of the path's
/// file name. Its result is named by `path_extension`; which names have one is
/// left to std's documentation.
#[verifier::external_body]
fn file_extension(path: &str) -> (res: Option<String>)
    ensures
        opt_chars(res) == path_extension(path@),
{
    std::path::Path::new(path).extension().and_then(|e| e.to_str()).map(|e| e.to_owned())
}

/// The extension a downloaded track is saved with: its library file's, else `mp3`.
pub open spec fn track_extension_spec(file_path: Option<Seq<char>>) -> Seq<char> {
    match file_path {
        Some(p) => match path_extension(p) {
            Some(e) => e,
            None => "mp3"@,
        },
        None => "mp3"@,
    }
}

pub fn track_extension(file_path: &Option<String>) -> (res: String)
    ensures
        res@ == track_extension_spec(opt_chars(*file_path)),
{
    match file_path {
        Some(p) => match file_extension(p.as_str()) {
            Some(e) => e,
            None => "mp3".to_owned(),
        },
        None => "mp3".to_owned(),
    }
}

/// A track already on disk is skipped only when syncing.
pub fn should_skip(sync: bool, exists: bool) -> (res: bool)
    ensures
        res == (sync && exists),
{
    sync && exists
}

/// How the download of one track ended.
pub enum TrackOutcome {
    /// Skipped: the destination already existed while syncing.
    AlreadyPresent,
    /// Written; `tag_warning` says why the playlist order could not be tagged.
    Downloaded { tag_warning: Option<String> },
    /// Not written.
    Failed { error: String },
}

/// One line of the download manifest.
pub struct DownloadManifestEntry {
    pub index: usize,
    pub track_id: i32,
    pub track_title: String,
    pub artists: Vec<String>,
    pub destination: String,
    pub status: String,
    pub message: Option<String>,
}

/// The manifest written next to a playlist download.
pub struct DownloadManifest {
    pub playlist_id: i32,
    pub playlist_name: String,
    pub output_root: String,
    pub total_tracks: usize,
    pub downloaded: usize,
    pub skipped: usize,
    pub failed: usize,
    pub entries: Vec<DownloadManifestEntry>,
}

/// The manifest status of an outcome.
pub open spec fn outcome_status(o: TrackOutcome) -> Seq<char> {
    match o {
        TrackOutcome::AlreadyPresent => "skipped"@,
        TrackOutcome::Downloaded { .. } => "downloaded"@,
        TrackOutcome::Failed { .. } => "failed"@,
    }
}

/// The manifest message of an outcome.
pub open spec fn outcome_message(o: TrackOutcome) -> Option<Seq<char>> {
    match o {
        TrackOutcome::AlreadyPresent => Some("already exists"@),
        TrackOutcome::Downloaded { tag_warning } => opt_chars(tag_warning),
        TrackOutcome::Failed { error } => Some(error@),
    }
}

/// The names of a track's artists.
fn artist_names(track: &PlaylistTrackDto) -> (res: Vec<String>)
    ensures
        res@.len() == track.artists@.len(),
        forall|k: int| 0 <= k < res@.len() ==> #[trigger] res@[k]@ == track.artists@[k].name@,
{
    let mut out: Vec<String> = Vec::new();
    let mut k: usize = 0;
    while k < track.artists.len()
        invariant
            k <= track.artists@.len(),
            out@.len() == k,
            forall|m: int| 0 <= m < k ==> #[trigger] out@[m]@ == track.artists@[m].name@,
        decreases track.artists@.len() - k,
    {
        out.push(track.artists[k].name.clone());
        k = k + 1;
    }
    out
}

/// The manifest line for the track at `index` (counted from 0) of the playlist.
pub fn manifest_entry(index: usize, track: &PlaylistTrackDto, destination: String, outcome: TrackOutcome) -> (res:
    DownloadManifestEntry)
    requires
        index < usize::MAX,
    ensures
        res.index == index + 1,
        res.track_id == track.id,
        res.track_title@ == track.title@,
        res.artists@.len() == track.artists@.len(),
        forall|k: int| 0 <= k < res.artists@.len() ==> #[trigger] res.artists@[k]@ == track.artists@[k].name@,
        res.destination@ == destination@,
        res.status@ == outcome_status(outcome),
        opt_chars(res.message) == outcome_message(outcome),
{
    let (status, message) = match outcome {
        TrackOutcome::AlreadyPresent => ("skipped".to_owned(), Some("already exists".to_owned())),
        TrackOutcome::Downloaded { tag_warning } => ("downloaded".to_owned(), tag_warning),
        TrackOutcome::Failed { error } => ("failed".to_owned(), Some(error)),
    };
    DownloadManifestEntry {
        index: index + 1,
        track_id: track.id,
        track_title: track.title.clone(),
        artists: artist_names(track),
        destination,
        status,
        message,
    }
}

/// How many entries carry the manifest status `status`.
pub open spec fn status_count(entries: Seq<DownloadManifestEntry>, status: Seq<char>) -> nat
    decreases entries.len(),
{
    if entries.len() == 0 {
        0
    } else {
        status_count(entries.drop_last(), status) + if entries.last().status@ == status {
            1nat
        } else {
            0nat
        }
    }
}

/// Every entry has one of the three statuses an outcome gives.
pub open spec fn statuses_settled(entries: Seq<DownloadManifestEntry>) -> bool {
    forall|i: int|
        0 <= i < entries.len() ==> #[trigger] entries[i].status@ == "downloaded"@ || entries[i].status@
            == "skipped"@ || entries[i].status@ == "failed"@
}

proof fn lemma_status_count_bound(entries: Seq<DownloadManifestEntry>, status: Seq<char>)
    ensures
        status_count(entries, status) <= entries.len(),
    decreases entries.len(),
{
    if entries.len() > 0 {
        lemma_status_count_bound(entries.drop_last(), status);
    }
}

/// Entries with one of the three statuses are each counted under exactly one.
proof fn lemma_status_counts_sum(entries: Seq<DownloadManifestEntry>)
    requires
        statuses_settled(entries),
    ensures
        status_count(entries, "downloaded"@) + status_count(entries, "skipped"@) + status_count(
            entries,
            "failed"@,
        ) == entries.len(),
    decreases entries.len(),
{
    reveal_strlit("downloaded");
    reveal_strlit("skipped");
    reveal_strlit("failed");
    if entries.len() > 0 {
        let rest = entries.drop_last();
        assert forall|i: int| 0 <= i < rest.len() implies #[trigger] rest[i].status@ == "downloaded"@
            || rest[i].status@ == "skipped"@ || rest[i].status@ == "failed"@ by {
            assert(rest[i] == entries[i]);
        }
        lemma_status_counts_sum(rest);
        let last = entries.last().status@;
        assert(entries[entries.len() - 1].status@ == last);
        if last == "downloaded"@ {
            assert(last != "skipped"@ && last != "failed"@) by {
                assert(last.len() != "skipped"@.len());
                assert(last.len() != "failed"@.len());
            }
        } else if last == "skipped"@ {
            assert(last != "failed"@) by {
                assert(last[0] != "failed"@[0]);
            }
        }
    }
}

/// How many entries carry the status `status`.
fn count_status(entries: &Vec<DownloadManifestEntry>, status: &str) -> (res: usize)
    ensures
        res == status_count(entries@, status@),
{
    let mut n: usize = 0;
    let mut i: usize = 0;
    while i < entries.len()
        invariant
            i <= entries@.len(),
            n == status_count(entries@.take(i as int), status@),
        decreases entries@.len() - i,
    {
        proof {
            assert(entries@.take(i + 1).drop_last() =~= entries@.take(i as int));
            lemma_status_count_bound(entries@.take(i as int), status@);
        }
        if str_eq(entries[i].status.as_str(), status) {
            n = n + 1;
        }
        i = i + 1;
    }
    assert(entries@.take(entries@.len() as int) =~= entries@);
    n
}

/// The manifest of a finished session: its counts are those of the entries'
/// statuses, so with every entry from `manifest_entry` they add up to the
/// number of entries.
pub fn finish_manifest(
    playlist: &PlaylistDto,
    output_root: String,
    total_tracks: usize,
    entries: Vec<DownloadManifestEntry>,
) -> (res: DownloadManifest)
    ensures
        res.playlist_id == playlist.id,
        res.playlist_name@ == playlist.name@,
        res.output_root@ == output_root@,
        res.total_tracks == total_tracks,
        res.downloaded == status_count(entries@, "downloaded"@),
        res.skipped == status_count(entries@, "skipped"@),
        res.failed == status_count(entries@, "failed"@),
        statuses_settled(entries@) ==> res.downloaded + res.skipped + res.failed == entries@.len(),
        res.entries@ == entries@,
{
    let downloaded = count_status(&entries, "downloaded");
    let skipped = count_status(&entries, "skipped");
    let failed = count_status(&entries, "failed");
    proof {
        if statuses_settled(entries@) {
            lemma_status_counts_sum(entries@);
        }
    }
    DownloadManifest {
        playlist_id: playlist.id,
        playlist_name: playlist.name.clone(),
        output_root,
        total_tracks,
        downloaded,
        skipped,
        failed,
        entries,
    }
}

} // verus!
