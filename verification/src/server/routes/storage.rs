//! Library storage statistics: the bytes each artist's files take, and
//! human-readable byte sizes.

use vstd::prelude::*;

use crate::text::{decimal, digit_char, digit_to_char, push_char, push_decimal};

verus! {

/// 2^53: integers below it are exactly representable as `f64`.
pub open spec fn exact_f64_limit() -> nat {
    0x20_0000_0000_0000
}

/// Halves the significand `m` (doubling the quantum `q`) until it fits in the
/// 53 bits of an `f64` significand.
pub open spec fn f64_rescale(m: nat, q: nat) -> (nat, nat)
    decreases m,
{
    if m < exact_f64_limit() {
        (m, q)
    } else {
        f64_rescale(m / 2, q * 2)
    }
}

/// The value of `b as f64`: `b` rounded to the nearest integer representable
/// with a 53-bit significand, ties going to the even significand.
pub open spec fn f64_of(b: nat) -> nat {
    let (m, q) = f64_rescale(b, 1);
    let rem = b - m * q;
    if 2 * rem > q || (2 * rem == q && m % 2 == 1) {
        ((m + 1) * q) as nat
    } else {
        m * q
    }
}

/// Index into `B, KB, MB, GB, TB` of the unit used to display `r` bytes:
/// the largest power of 1024 not above `r`, capped at TB.
pub open spec fn unit_index(r: nat) -> nat {
    if r < 1024 {
        0
    } else if r < 1048576 {
        1
    } else if r < 1073741824 {
        2
    } else if r < 1099511627776 {
        3
    } else {
        4
    }
}

/// 1024 raised to the unit index.
pub open spec fn unit_divisor(k: nat) -> nat {
    if k == 0 {
        1
    } else if k == 1 {
        1024
    } else if k == 2 {
        1048576
    } else if k == 3 {
        1073741824
    } else {
        1099511627776
    }
}

/// The unit suffix for a unit index.
pub open spec fn unit_name(k: nat) -> Seq<char> {
    if k == 0 {
        seq!['B']
    } else if k == 1 {
        seq!['K', 'B']
    } else if k == 2 {
        seq!['M', 'B']
    } else if k == 3 {
        seq!['G', 'B']
    } else {
        seq!['T', 'B']
    }
}

/// `r / d` in tenths, rounded to nearest with ties to an even last digit
/// (the rounding of the `{:.1}` format specification on an exact value).
pub open spec fn rounded_tenths(r: nat, d: nat) -> nat {
    let t = r * 10 / d;
    let rem = r * 10 % d;
    if 2 * rem > d || (2 * rem == d && t % 2 == 1) {
        t + 1
    } else {
        t
    }
}

/// `b` bytes as text: `"<b> B"` below 1024 bytes, otherwise the size in the
/// largest fitting unit (up to TB) with one decimal, e.g. `"1.5 MB"`.
pub open spec fn format_bytes_spec(b: nat) -> Seq<char> {
    let r = f64_of(b);
    let k = unit_index(r);
    if k == 0 {
        decimal(b) + seq![' '] + unit_name(0)
    } else {
        let t = rounded_tenths(r, unit_divisor(k));
        decimal(t / 10) + seq!['.', digit_char(t % 10), ' '] + unit_name(k)
    }
}

proof fn lemma_halve_bounds(m: nat, q: nat, b: nat)
    requires
        m * q <= b,
        b < (m + 1) * q,
        q >= 1,
    ensures
        (m / 2) * (q * 2) <= b,
        b < (m / 2 + 1) * (q * 2),
{
    assert((m / 2) * (q * 2) <= m * q) by (nonlinear_arith)
        requires
            q >= 1,
    ;
    assert((m + 1) * q <= (m / 2 + 1) * (q * 2)) by (nonlinear_arith)
        requires
            q >= 1,
    ;
}

/// Computes `b as f64` exactly, as an integer.
fn f64_value(b: u64) -> (r: u128)
    ensures
        r == f64_of(b as nat),
        r <= 0x2_0000_0000_0000_0000,
{
    let mut m: u128 = b as u128;
    let mut q: u128 = 1;
    while m >= 0x20_0000_0000_0000
        invariant
            f64_rescale(m as nat, q as nat) == f64_rescale(b as nat, 1),
            m * q <= b,
            b < (m + 1) * q,
            1 <= q <= 0x1000,
        decreases m,
    {
        proof {
            lemma_halve_bounds(m as nat, q as nat, b as nat);
            assert(q * 0x20_0000_0000_0000 <= m * q) by (nonlinear_arith)
                requires
                    m >= 0x20_0000_0000_0000,
            ;
        }
        m = m / 2;
        q = q * 2;
    }
    let rem: u128 = b as u128 - m * q;
    if 2 * rem > q || (2 * rem == q && m % 2 == 1) {
        proof {
            assert((m + 1) * q <= 0x2_0000_0000_0000_0000) by (nonlinear_arith)
                requires
                    m < 0x20_0000_0000_0000,
                    q <= 0x1000,
            ;
        }
        (m + 1) * q
    } else {
        proof {
            assert(m * q <= 0x2_0000_0000_0000_0000) by (nonlinear_arith)
                requires
                    m < 0x20_0000_0000_0000,
                    q <= 0x1000,
            ;
        }
        m * q
    }
}

/// Appends the characters of a unit suffix.
fn push_unit(s: &mut String, k: usize)
    requires
        k <= 4,
    ensures
        final(s)@ == old(s)@ + unit_name(k as nat),
{
    if k == 0 {
        push_char(s, 'B');
    } else {
        if k == 1 {
            push_char(s, 'K');
        } else if k == 2 {
            push_char(s, 'M');
        } else if k == 3 {
            push_char(s, 'G');
        } else {
            push_char(s, 'T');
        }
        push_char(s, 'B');
    }
    assert(s@ =~= old(s)@ + unit_name(k as nat));
}

/// Formats a byte count into a human-readable size (B, KB, MB, GB, TB), as
/// `b as f64` divided by the largest fitting power of 1024 and printed with
/// one decimal; sizes below 1 KB are printed exactly.
pub fn format_bytes(bytes: u64) -> (res: String)
    ensures
        res@ == format_bytes_spec(bytes as nat),
{
    let r = f64_value(bytes);
    let (k, d): (usize, u128) = if r < 1024 {
        (0, 1)
    } else if r < 1048576 {
        (1, 1024)
    } else if r < 1073741824 {
        (2, 1048576)
    } else if r < 1099511627776 {
        (3, 1073741824)
    } else {
        (4, 1099511627776)
    };
    let mut s = String::new();
    if k == 0 {
        push_decimal(&mut s, bytes as u128);
        push_char(&mut s, ' ');
        push_unit(&mut s, 0);
        assert(s@ =~= format_bytes_spec(bytes as nat));
    } else {
        let t0: u128 = r * 10 / d;
        let rem: u128 = r * 10 % d;
        let t: u128 = if 2 * rem > d || (2 * rem == d && t0 % 2 == 1) {
            t0 + 1
        } else {
            t0
        };
        push_decimal(&mut s, t / 10);
        push_char(&mut s, '.');
        push_char(&mut s, digit_to_char((t % 10) as u8));
        push_char(&mut s, ' ');
        push_unit(&mut s, k);
        assert(s@ =~= format_bytes_spec(bytes as nat));
    }
    s
}

// ------------------------------------------------------------------------------------------------
// Per-artist breakdown
// ------------------------------------------------------------------------------------------------

/// A track's file as measured on disk: its size when it could be read, and the
/// ids of the track's artists (an artist without an id is `None`).
pub struct TrackFile {
    pub size: Option<u64>,
    pub artist_ids: Vec<Option<i32>>,
}

/// An artist of the library.
pub struct ArtistRef {
    pub id: Option<i32>,
    pub name: String,
}

/// Storage used by one artist.
pub struct ArtistUsage {
    pub id: i32,
    pub name: String,
    pub bytes: u64,
}

/// The library's storage: total size, as bytes and as text, and each artist's share.
pub struct StorageBreakdown {
    pub total_bytes: u64,
    pub total_formatted: String,
    /// Every artist with an id, largest first; equal sizes keep the artists' order.
    pub artists: Vec<ArtistUsage>,
}

/// Bytes counted for a file: its size, or nothing when it could not be read.
pub open spec fn file_bytes(t: TrackFile) -> nat {
    match t.size {
        Some(n) => n as nat,
        None => 0,
    }
}

pub open spec fn total_of(ts: Seq<TrackFile>) -> nat
    decreases ts.len(),
{
    if ts.len() == 0 {
        0
    } else {
        total_of(ts.drop_last()) + file_bytes(ts.last())
    }
}

/// How many times `id` is listed among a track's artists.
pub open spec fn occurrences(ids: Seq<Option<i32>>, id: i32) -> nat
    decreases ids.len(),
{
    if ids.len() == 0 {
        0
    } else {
        occurrences(ids.drop_last(), id) + if ids.last() == Some(id) {
            1nat
        } else {
            0nat
        }
    }
}

/// The bytes attributed to artist `id`: each file counts once per listing of the artist.
pub open spec fn artist_bytes(ts: Seq<TrackFile>, id: i32) -> nat
    decreases ts.len(),
{
    if ts.len() == 0 {
        0
    } else {
        artist_bytes(ts.drop_last(), id) + file_bytes(ts.last()) * occurrences(ts.last().artist_ids@, id)
    }
}

/// An artist's usage as plain values: id, name, bytes.
pub type UsageView = (i32, Seq<char>, nat);

pub open spec fn usage_view(u: ArtistUsage) -> UsageView {
    (u.id, u.name@, u.bytes as nat)
}

/// How many leading entries of `s` are at least `b` bytes.
pub open spec fn leading_at_least(s: Seq<UsageView>, b: nat) -> nat
    decreases s.len(),
{
    if s.len() == 0 || s[0].2 < b {
        0
    } else {
        1 + leading_at_least(s.drop_first(), b)
    }
}

/// `x` placed after every leading entry at least as large.
pub open spec fn insert_by_bytes(s: Seq<UsageView>, x: UsageView) -> Seq<UsageView> {
    s.insert(leading_at_least(s, x.2) as int, x)
}

/// `s` ordered by bytes, largest first, equal sizes in their order in `s`.
pub open spec fn sorted_by_bytes(s: Seq<UsageView>) -> Seq<UsageView>
    decreases s.len(),
{
    if s.len() == 0 {
        s
    } else {
        insert_by_bytes(sorted_by_bytes(s.drop_last()), s.last())
    }
}

pub open spec fn has_artist_id() -> spec_fn(ArtistRef) -> bool {
    |a: ArtistRef| a.id is Some
}

/// The usage of each artist with an id, in the artists' order.
pub open spec fn usages(ts: Seq<TrackFile>, artists: Seq<ArtistRef>) -> Seq<UsageView> {
    artists.filter(has_artist_id()).map_values(
        |a: ArtistRef| (a.id->0, a.name@, artist_bytes(ts, a.id->0)),
    )
}

/// No byte count overflows: neither the total nor any artist's share.
pub open spec fn fits_counters(ts: Seq<TrackFile>) -> bool {
    &&& total_of(ts) <= u64::MAX
    &&& forall|id: i32| #[trigger] artist_bytes(ts, id) <= u64::MAX
}

proof fn lemma_total_prefix(ts: Seq<TrackFile>, i: int)
    requires
        0 <= i <= ts.len(),
    ensures
        total_of(ts.take(i)) <= total_of(ts),
    decreases ts.len(),
{
    if i < ts.len() {
        assert(ts.drop_last().take(i) =~= ts.take(i));
        lemma_total_prefix(ts.drop_last(), i);
    } else {
        assert(ts.take(i) =~= ts);
    }
}

proof fn lemma_artist_prefix(ts: Seq<TrackFile>, id: i32, i: int)
    requires
        0 <= i <= ts.len(),
    ensures
        artist_bytes(ts.take(i), id) <= artist_bytes(ts, id),
    decreases ts.len(),
{
    if i < ts.len() {
        assert(ts.drop_last().take(i) =~= ts.take(i));
        lemma_artist_prefix(ts.drop_last(), id, i);
    } else {
        assert(ts.take(i) =~= ts);
    }
}

proof fn lemma_occurrences_prefix(ids: Seq<Option<i32>>, id: i32, i: int)
    requires
        0 <= i <= ids.len(),
    ensures
        occurrences(ids.take(i), id) <= occurrences(ids, id),
    decreases ids.len(),
{
    if i < ids.len() {
        assert(ids.drop_last().take(i) =~= ids.take(i));
        lemma_occurrences_prefix(ids.drop_last(), id, i);
    } else {
        assert(ids.take(i) =~= ids);
    }
}

/// The total size of the readable files.
fn total_size(tracks: &Vec<TrackFile>) -> (res: u64)
    requires
        total_of(tracks@) <= u64::MAX,
    ensures
        res == total_of(tracks@),
{
    let ghost ts = tracks@;
    let mut total: u64 = 0;
    let mut i: usize = 0;
    while i < tracks.len()
        invariant
            ts == tracks@,
            total_of(ts) <= u64::MAX,
            i <= ts.len(),
            total == total_of(ts.take(i as int)),
        decreases ts.len() - i,
    {
        proof {
            assert(ts.take(i + 1).drop_last() =~= ts.take(i as int));
            lemma_total_prefix(ts, i + 1);
        }
        match tracks[i].size {
            Some(n) => total = total + n,
            None => {},
        }
        i = i + 1;
    }
    assert(ts.take(ts.len() as int) =~= ts);
    total
}

/// The bytes attributed to artist `id`.
fn bytes_of_artist(tracks: &Vec<TrackFile>, id: i32) -> (res: u64)
    requires
        artist_bytes(tracks@, id) <= u64::MAX,
    ensures
        res == artist_bytes(tracks@, id),
{
    let ghost ts = tracks@;
    let mut sum: u64 = 0;
    let mut i: usize = 0;
    while i < tracks.len()
        invariant
            ts == tracks@,
            artist_bytes(ts, id) <= u64::MAX,
            i <= ts.len(),
            sum == artist_bytes(ts.take(i as int), id),
        decreases ts.len() - i,
    {
        let t = &tracks[i];
        let ghost base = sum as nat;
        proof {
            assert(ts.take(i + 1).drop_last() =~= ts.take(i as int));
            assert(ts.take(i + 1).last() == *t);
            lemma_artist_prefix(ts, id, i + 1);
        }
        let size: u64 = match t.size {
            Some(n) => n,
            None => 0,
        };
        let ghost ids = t.artist_ids@;
        let mut j: usize = 0;
        assert(ids.take(0) =~= Seq::<Option<i32>>::empty());
        assert(occurrences(ids.take(0), id) == 0);
        while j < t.artist_ids.len()
            invariant
                ids == t.artist_ids@,
                size == file_bytes(*t),
                j <= ids.len(),
                base + size * occurrences(ids, id) <= u64::MAX,
                sum == base + size * occurrences(ids.take(j as int), id),
            decreases ids.len() - j,
        {
            proof {
                assert(ids.take(j + 1).drop_last() =~= ids.take(j as int));
                lemma_occurrences_prefix(ids, id, j + 1);
                assert(size * occurrences(ids.take(j + 1), id) <= size * occurrences(ids, id)) by (nonlinear_arith)
                    requires
                        occurrences(ids.take(j + 1), id) <= occurrences(ids, id),
                ;
            }
            if t.artist_ids[j] == Some(id) {
                proof {
                    assert(size * occurrences(ids.take(j + 1), id) == size * occurrences(ids.take(j as int), id) + size) by (nonlinear_arith)
                        requires
                            occurrences(ids.take(j + 1), id) == occurrences(ids.take(j as int), id) + 1,
                    ;
                }
                sum = sum + size;
            }
            j = j + 1;
        }
        assert(ids.take(ids.len() as int) =~= ids);
        i = i + 1;
    }
    assert(ts.take(ts.len() as int) =~= ts);
    sum
}

/// Where `bytes` goes in a list ordered largest first: after every leading
/// entry at least as large.
fn insertion_point(sorted: &Vec<ArtistUsage>, bytes: u64) -> (res: usize)
    ensures
        res == leading_at_least(sorted@.map_values(|u: ArtistUsage| usage_view(u)), bytes as nat),
        res <= sorted@.len(),
{
    let ghost v = sorted@.map_values(|u: ArtistUsage| usage_view(u));
    let mut k: usize = 0;
    assert(v.subrange(0, v.len() as int) =~= v);
    while k < sorted.len() && sorted[k].bytes >= bytes
        invariant
            v == sorted@.map_values(|u: ArtistUsage| usage_view(u)),
            k <= sorted@.len(),
            leading_at_least(v, bytes as nat) == k + leading_at_least(v.subrange(k as int, v.len() as int), bytes as nat),
        decreases sorted@.len() - k,
    {
        proof {
            let rest = v.subrange(k as int, v.len() as int);
            assert(rest.drop_first() =~= v.subrange(k + 1, v.len() as int));
        }
        k = k + 1;
    }
    proof {
        let rest = v.subrange(k as int, v.len() as int);
        if k < sorted@.len() {
            assert(rest[0] == v[k as int]);
        }
    }
    k
}

/// The per-artist storage breakdown of the library.
pub fn storage_breakdown(tracks: &Vec<TrackFile>, artists: Vec<ArtistRef>) -> (res: StorageBreakdown)
    requires
        fits_counters(tracks@),
    ensures
        res.total_bytes == total_of(tracks@),
        res.total_formatted@ == format_bytes_spec(total_of(tracks@)),
        res.artists@.map_values(|u: ArtistUsage| usage_view(u)) == sorted_by_bytes(usages(tracks@, artists@)),
{
    let total = total_size(tracks);
    let ghost all = usages(tracks@, artists@);
    let ghost src = artists@;
    let ghost kept = src.filter(has_artist_id());
    let ghost f = |a: ArtistRef| (a.id->0, a.name@, artist_bytes(tracks@, a.id->0));
    let mut sorted: Vec<ArtistUsage> = Vec::new();
    let mut i: usize = 0;
    assert(src.take(0).filter(has_artist_id()) =~= Seq::<ArtistRef>::empty()) by {
        reveal(Seq::filter);
    }
    assert(sorted@.map_values(|u: ArtistUsage| usage_view(u)) =~= sorted_by_bytes(src.take(0).filter(has_artist_id()).map_values(f)));
    while i < artists.len()
        invariant
            src == artists@,
            f == (|a: ArtistRef| (a.id->0, a.name@, artist_bytes(tracks@, a.id->0))),
            fits_counters(tracks@),
            i <= src.len(),
            sorted@.map_values(|u: ArtistUsage| usage_view(u)) == sorted_by_bytes(src.take(i as int).filter(has_artist_id()).map_values(f)),
        decreases src.len() - i,
    {
        let a = &artists[i];
        let ghost before = src.take(i as int).filter(has_artist_id());
        let ghost old_view = sorted@.map_values(|u: ArtistUsage| usage_view(u));
        proof {
            reveal(Seq::filter);
            assert(src.take(i + 1).drop_last() =~= src.take(i as int));
            assert(src.take(i + 1).last() == *a);
        }
        match a.id {
            Some(id) => {
                let bytes = bytes_of_artist(tracks, id);
                let k = insertion_point(&sorted, bytes);
                let u = ArtistUsage { id, name: a.name.clone(), bytes };
                let ghost uv = usage_view(u);
                sorted.insert(k, u);
                proof {
                    let after = before.push(*a);
                    assert(src.take(i + 1).filter(has_artist_id()) == after);
                    assert(after.map_values(f) =~= before.map_values(f).push(f(*a)));
                    assert(after.map_values(f).drop_last() =~= before.map_values(f));
                    assert(f(*a) == uv);
                    assert(sorted@.map_values(|u: ArtistUsage| usage_view(u)) =~= old_view.insert(k as int, uv));
                }
            },
            None => {
                assert(src.take(i + 1).filter(has_artist_id()) == before);
            },
        }
        i = i + 1;
    }
    assert(src.take(src.len() as int) =~= src);
    StorageBreakdown { total_bytes: total, total_formatted: format_bytes(total), artists: sorted }
}

proof fn lemma_leading_bound(s: Seq<UsageView>, b: nat)
    ensures
        leading_at_least(s, b) <= s.len(),
        forall|j: int| 0 <= j < leading_at_least(s, b) ==> s[j].2 >= b,
        leading_at_least(s, b) < s.len() ==> s[leading_at_least(s, b) as int].2 < b,
    decreases s.len(),
{
    if s.len() > 0 && s[0].2 >= b {
        lemma_leading_bound(s.drop_first(), b);
        assert forall|j: int| 0 <= j < leading_at_least(s, b) implies s[j].2 >= b by {
            if j > 0 {
                assert(s[j] == s.drop_first()[j - 1]);
            }
        }
        if leading_at_least(s, b) < s.len() {
            assert(s[leading_at_least(s, b) as int] == s.drop_first()[leading_at_least(s.drop_first(), b) as int]);
        }
    }
}

/// Entries are ordered by bytes, largest first.
pub open spec fn descending(s: Seq<UsageView>) -> bool {
    forall|a: int, b: int| 0 <= a < b < s.len() ==> s[a].2 >= s[b].2
}

proof fn lemma_insert_keeps_descending(s: Seq<UsageView>, x: UsageView)
    requires
        descending(s),
    ensures
        descending(insert_by_bytes(s, x)),
        insert_by_bytes(s, x).to_multiset() == s.to_multiset().insert(x),
{
    let k = leading_at_least(s, x.2) as int;
    lemma_leading_bound(s, x.2);
    let t = s.insert(k, x);
    assert forall|a: int, b: int| 0 <= a < b < t.len() implies t[a].2 >= t[b].2 by {
        if b < k {
            assert(t[a] == s[a] && t[b] == s[b]);
        } else if b == k {
            assert(t[a] == s[a]);
        } else if a < k {
            assert(t[a] == s[a] && t[b] == s[b - 1]);
        } else if a == k {
            assert(t[b] == s[b - 1]);
            assert(s[k].2 < x.2);
        } else {
            assert(t[a] == s[a - 1] && t[b] == s[b - 1]);
        }
    }
    broadcast use vstd::seq_lib::group_to_multiset_ensures;
    assert(t.remove(k) =~= s);
    assert(t[k] == x);
    assert(t.to_multiset().remove(x) == s.to_multiset());
    assert(t.to_multiset().count(x) > 0) by {
        assert(t.contains(x));
    }
    assert(t.to_multiset() =~= s.to_multiset().insert(x));
}

/// The breakdown lists artists largest first, and lists exactly the artists
/// with an id, each with its share.
pub proof fn law_breakdown_is_sorted_permutation(s: Seq<UsageView>)
    ensures
        descending(sorted_by_bytes(s)),
        sorted_by_bytes(s).to_multiset() == s.to_multiset(),
    decreases s.len(),
{
    broadcast use vstd::seq_lib::group_to_multiset_ensures;
    if s.len() > 0 {
        law_breakdown_is_sorted_permutation(s.drop_last());
        lemma_insert_keeps_descending(sorted_by_bytes(s.drop_last()), s.last());
        assert(s.drop_last().push(s.last()) =~= s);
    }
}

} // verus!
