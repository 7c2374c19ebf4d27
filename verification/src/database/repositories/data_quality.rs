//! Structural reference audit over the reference rows of every entity kind,
//! and the normalised storage of "not a duplicate" pairs.

use vstd::prelude::*;

use crate::ids::{contains_id, insert_sorted, strictly_increasing};
use crate::database::repositories::track::opt_eq;
use crate::models::{DataQualityEntityType, StructuralFindingKind};
use crate::text::{
    eq_ignore_ascii_case, int_text, lemma_lex_lt_irreflexive, lemma_lex_lt_total, lemma_lex_lt_transitive, lex_lt, opt_chars, push_char, push_i32, str_eq, str_eq_ignore_ascii_case, str_lt,
};

verus! {

pub struct DieselDataQualityRepository {}

impl DieselDataQualityRepository {
    pub fn new() -> Self {
        DieselDataQualityRepository {  }
    }
}

/// One reference row of an artist, album or track, tagged with its owner.
pub struct RefRow {
    pub ref_id: i32,
    pub entity_type: DataQualityEntityType,
    pub entity_id: i32,
    pub ref_type: String,
    pub platform: String,
    pub external_id: Option<String>,
    pub external_url: Option<String>,
}

// ------------------------------------------------------------------------------------------------
// (A) one external reference attached to several entities
// ------------------------------------------------------------------------------------------------

/// The external value a row is keyed by: its url when `by_url`, else its id.
pub open spec fn ref_value(r: RefRow, by_url: bool) -> Option<Seq<char>> {
    if by_url {
        opt_chars(r.external_url)
    } else {
        opt_chars(r.external_id)
    }
}

/// Row `r` carries the reference `(t, p, v)`.
pub open spec fn has_key(
    r: RefRow,
    by_url: bool,
    t: DataQualityEntityType,
    p: Seq<char>,
    v: Seq<char>,
) -> bool {
    r.entity_type == t && r.platform@ == p && ref_value(r, by_url) == Some(v)
}

/// Entity `id` holds the reference `(t, p, v)` in one of the rows.
pub open spec fn holds_key(
    refs: Seq<RefRow>,
    by_url: bool,
    t: DataQualityEntityType,
    p: Seq<char>,
    v: Seq<char>,
    id: i32,
) -> bool {
    exists|i: int| 0 <= i < refs.len() && #[trigger] has_key(refs[i], by_url, t, p, v) && refs[i].entity_id == id
}

/// Two different entities hold the reference `(t, p, v)`.
pub open spec fn is_shared(
    refs: Seq<RefRow>,
    by_url: bool,
    t: DataQualityEntityType,
    p: Seq<char>,
    v: Seq<char>,
) -> bool {
    exists|a: int, b: int|
        0 <= a < refs.len() && 0 <= b < refs.len() && #[trigger] has_key(refs[a], by_url, t, p, v)
            && #[trigger] has_key(refs[b], by_url, t, p, v) && refs[a].entity_id != refs[b].entity_id
}

/// A reference held by several entities.
pub struct SharedReference {
    pub entity_type: DataQualityEntityType,
    pub platform: String,
    /// The shared external id, or url when `by_url`.
    pub value: String,
    pub by_url: bool,
    /// Every entity holding it, ascending.
    pub entity_ids: Vec<i32>,
}

/// `g` is the complete report of a reference shared in `refs`.
pub open spec fn describes_shared(refs: Seq<RefRow>, by_url: bool, g: SharedReference) -> bool {
    &&& g.by_url == by_url
    &&& strictly_increasing(g.entity_ids@)
    &&& g.entity_ids@.len() >= 2
    &&& forall|id: i32|
        g.entity_ids@.contains(id) <==> holds_key(
            refs,
            by_url,
            g.entity_type,
            g.platform@,
            g.value@,
            id,
        )
}

/// `g` reports the reference carried by row `r`.
pub open spec fn reports_row(g: SharedReference, r: RefRow) -> bool {
    has_key(r, g.by_url, g.entity_type, g.platform@, g.value@)
}

fn opt_str_eq(a: &Option<String>, b: &str) -> (res: bool)
    ensures
        res == (opt_chars(*a) == Some(b@)),
{
    match a {
        Some(s) => str_eq(s.as_str(), b),
        None => false,
    }
}

fn row_value(r: &RefRow, by_url: bool) -> (res: &Option<String>)
    ensures
        opt_chars(*res) == ref_value(*r, by_url),
{
    if by_url {
        &r.external_url
    } else {
        &r.external_id
    }
}

fn row_has_key(r: &RefRow, by_url: bool, t: DataQualityEntityType, p: &str, v: &str) -> (res: bool)
    ensures
        res == has_key(*r, by_url, t, p@, v@),
{
    r.entity_type == t && str_eq(r.platform.as_str(), p) && opt_str_eq(row_value(r, by_url), v)
}

/// Ascending ids of the entities holding the reference `(t, p, v)`.
fn holders(refs: &Vec<RefRow>, by_url: bool, t: DataQualityEntityType, p: &str, v: &str) -> (res:
    Vec<i32>)
    ensures
        strictly_increasing(res@),
        forall|id: i32| res@.contains(id) <==> holds_key(refs@, by_url, t, p@, v@, id),
{
    let mut ids: Vec<i32> = Vec::new();
    let mut i: usize = 0;
    while i < refs.len()
        invariant
            i <= refs.len(),
            strictly_increasing(ids@),
            forall|id: i32|
                ids@.contains(id) <==> exists|j: int|
                    0 <= j < i && #[trigger] has_key(refs@[j], by_url, t, p@, v@) && refs@[j].entity_id
                        == id,
        decreases refs.len() - i,
    {
        let ghost before = ids@;
        if row_has_key(&refs[i], by_url, t, p, v) {
            insert_sorted(&mut ids, refs[i].entity_id);
        }
        assert forall|id: i32|
            ids@.contains(id) <==> exists|j: int|
                0 <= j < i + 1 && #[trigger] has_key(refs@[j], by_url, t, p@, v@)
                    && refs@[j].entity_id == id by {
            if ids@.contains(id) && !before.contains(id) {
                assert(has_key(refs@[i as int], by_url, t, p@, v@));
            }
            if exists|j: int|
                0 <= j < i + 1 && #[trigger] has_key(refs@[j], by_url, t, p@, v@)
                    && refs@[j].entity_id == id {
                let j = choose|j: int|
                    0 <= j < i + 1 && #[trigger] has_key(refs@[j], by_url, t, p@, v@)
                        && refs@[j].entity_id == id;
                if j < i {
                    assert(before.contains(id));
                }
            }
        }
        i = i + 1;
    }
    ids
}

/// Whether a row before `i` carries the same reference as row `i`.
fn seen_before(refs: &Vec<RefRow>, i: usize, by_url: bool, p: &str, v: &str) -> (res: bool)
    requires
        i < refs.len(),
    ensures
        res == exists|j: int|
            0 <= j < i && #[trigger] has_key(refs@[j], by_url, refs@[i as int].entity_type, p@, v@),
{
    let t = refs[i].entity_type;
    let mut j: usize = 0;
    while j < i
        invariant
            i < refs.len(),
            j <= i,
            t == refs@[i as int].entity_type,
            forall|k: int| 0 <= k < j ==> !#[trigger] has_key(refs@[k], by_url, t, p@, v@),
        decreases i - j,
    {
        if row_has_key(&refs[j], by_url, t, p, v) {
            return true;
        }
        j = j + 1;
    }
    false
}

proof fn lemma_two_distinct_members(s: Seq<i32>, x: i32, y: i32)
    requires
        s.contains(x),
        s.contains(y),
        x != y,
    ensures
        s.len() >= 2,
{
}

/// `out` reports every reference of `refs` that is shared, exactly once each.
pub open spec fn reports_all_shared(refs: Seq<RefRow>, by_url: bool, out: Seq<SharedReference>) -> bool {
    &&& forall|k: int| 0 <= k < out.len() ==> describes_shared(refs, by_url, #[trigger] out[k])
    &&& forall|k1: int, k2: int|
        0 <= k1 < k2 < out.len() ==> !(#[trigger] out[k1].entity_type == #[trigger] out[k2].entity_type
            && out[k1].platform@ == out[k2].platform@ && out[k1].value@ == out[k2].value@)
    &&& forall|i: int|
        0 <= i < refs.len() && ref_value(#[trigger] refs[i], by_url) is Some && is_shared(
            refs,
            by_url,
            refs[i].entity_type,
            refs[i].platform@,
            ref_value(refs[i], by_url)->0,
        ) ==> exists|k: int| 0 <= k < out.len() && reports_row(#[trigger] out[k], refs[i])
}

/// Every external reference (by id, or by url when `by_url`) that two or more
/// distinct entities of one kind hold on one platform, once each, in the order
/// in which the rows first carry it.
#[verifier::rlimit(40)]
pub fn shared_references(refs: &Vec<RefRow>, by_url: bool) -> (res: Vec<SharedReference>)
    ensures
        reports_all_shared(refs@, by_url, res@),
{
    let mut out: Vec<SharedReference> = Vec::new();
    let mut i: usize = 0;
    while i < refs.len()
        invariant
            i <= refs.len(),
            forall|k: int| 0 <= k < out.len() ==> describes_shared(refs@, by_url, #[trigger] out@[k]),
            forall|k1: int, k2: int|
                0 <= k1 < k2 < out.len() ==> !(#[trigger] out@[k1].entity_type
                    == #[trigger] out@[k2].entity_type && out@[k1].platform@ == out@[k2].platform@
                    && out@[k1].value@ == out@[k2].value@),
            forall|k: int|
                0 <= k < out.len() ==> exists|j: int|
                    0 <= j < i && reports_row(#[trigger] out@[k], #[trigger] refs@[j]),
            forall|j: int|
                0 <= j < i && ref_value(#[trigger] refs@[j], by_url) is Some && is_shared(
                    refs@,
                    by_url,
                    refs@[j].entity_type,
                    refs@[j].platform@,
                    ref_value(refs@[j], by_url)->0,
                ) ==> exists|k: int| 0 <= k < out.len() && reports_row(#[trigger] out@[k], refs@[j]),
        decreases refs.len() - i,
    {
        let ghost old_out = out@;
        let r = &refs[i];
        let value = row_value(r, by_url);
        match value {
            None => {},
            Some(v) => {
                let ghost t = r.entity_type;
                let ghost p = r.platform@;
                let ghost vv = v@;
                if seen_before(refs, i, by_url, r.platform.as_str(), v.as_str()) {
                    proof {
                        let j = choose|j: int|
                            0 <= j < i && #[trigger] has_key(refs@[j], by_url, t, p, vv);
                        assert(ref_value(refs@[j], by_url) is Some);
                        if is_shared(refs@, by_url, t, p, vv) {
                            assert(is_shared(
                                refs@,
                                by_url,
                                refs@[j].entity_type,
                                refs@[j].platform@,
                                ref_value(refs@[j], by_url)->0,
                            ));
                            let k = choose|k: int|
                                0 <= k < out.len() && reports_row(#[trigger] out@[k], refs@[j]);
                            assert(reports_row(out@[k], refs@[i as int]));
                        }
                    }
                } else {
                    let ids = holders(refs, by_url, r.entity_type, r.platform.as_str(), v.as_str());
                    if ids.len() >= 2 {
                        let g = SharedReference {
                            entity_type: r.entity_type,
                            platform: r.platform.clone(),
                            value: v.clone(),
                            by_url,
                            entity_ids: ids,
                        };
                        let ghost old_out = out@;
                        out.push(g);
                        assert(reports_row(out@[out.len() - 1], refs@[i as int]));
                        assert forall|k1: int, k2: int|
                            0 <= k1 < k2 < out.len() implies !(#[trigger] out@[k1].entity_type
                            == #[trigger] out@[k2].entity_type && out@[k1].platform@
                            == out@[k2].platform@ && out@[k1].value@ == out@[k2].value@) by {
                            if k2 == out.len() - 1 {
                                assert(out@[k1] == old_out[k1]);
                                let j = choose|j: int|
                                    0 <= j < i && reports_row(#[trigger] old_out[k1], #[trigger] refs@[j]);
                                if out@[k1].entity_type == t && out@[k1].platform@ == p
                                    && out@[k1].value@ == vv {
                                    assert(has_key(refs@[j], by_url, t, p, vv));
                                }
                            }
                        }
                    } else {
                        proof {
                        if is_shared(refs@, by_url, t, p, vv) {
                            let (a, b) = choose|a: int, b: int|
                                0 <= a < refs.len() && 0 <= b < refs.len()
                                    && #[trigger] has_key(refs@[a], by_url, t, p, vv)
                                    && #[trigger] has_key(refs@[b], by_url, t, p, vv)
                                    && refs@[a].entity_id != refs@[b].entity_id;
                            assert(holds_key(refs@, by_url, t, p, vv, refs@[a].entity_id));
                            assert(holds_key(refs@, by_url, t, p, vv, refs@[b].entity_id));
                            lemma_two_distinct_members(
                                ids@,
                                refs@[a].entity_id,
                                refs@[b].entity_id,
                            );
                        }
                        }
                    }
                }
            },
        }
        proof {
            assert forall|k: int| 0 <= k < old_out.len() implies out@[k] == old_out[k] by {}
            assert forall|j: int|
                0 <= j < i + 1 && ref_value(#[trigger] refs@[j], by_url) is Some && is_shared(
                    refs@,
                    by_url,
                    refs@[j].entity_type,
                    refs@[j].platform@,
                    ref_value(refs@[j], by_url)->0,
                ) implies exists|k: int| 0 <= k < out.len() && reports_row(#[trigger] out@[k], refs@[j]) by {
                if j < i {
                    let k = choose|k: int|
                        0 <= k < old_out.len() && reports_row(#[trigger] old_out[k], refs@[j]);
                    assert(reports_row(out@[k], refs@[j]));
                }
            }
        }
        i = i + 1;
    }
    out
}

// ------------------------------------------------------------------------------------------------
// (B) one entity holding several ids for one platform and reference type
// ------------------------------------------------------------------------------------------------

/// Row `r` belongs to entity `(t, id)` and has platform `p` and type `rt`.
pub open spec fn in_slot(r: RefRow, t: DataQualityEntityType, id: i32, p: Seq<char>, rt: Seq<char>) -> bool {
    r.entity_type == t && r.entity_id == id && r.platform@ == p && r.ref_type@ == rt
}

/// Some row of the slot `(t, id, p, rt)` carries the external id `v`.
pub open spec fn slot_has_id(
    refs: Seq<RefRow>,
    t: DataQualityEntityType,
    id: i32,
    p: Seq<char>,
    rt: Seq<char>,
    v: Seq<char>,
) -> bool {
    exists|i: int|
        0 <= i < refs.len() && #[trigger] in_slot(refs[i], t, id, p, rt) && opt_chars(refs[i].external_id)
            == Some(v)
}

/// Two rows of the slot `(t, id, p, rt)` carry different external ids.
#[verifier::opaque]
pub open spec fn is_divergent(
    refs: Seq<RefRow>,
    t: DataQualityEntityType,
    id: i32,
    p: Seq<char>,
    rt: Seq<char>,
) -> bool {
    exists|a: int, b: int|
        0 <= a < refs.len() && 0 <= b < refs.len() && #[trigger] in_slot(refs[a], t, id, p, rt)
            && #[trigger] in_slot(refs[b], t, id, p, rt) && refs[a].external_id is Some
            && refs[b].external_id is Some && opt_chars(refs[a].external_id) != opt_chars(
            refs[b].external_id,
        )
}

/// An entity holding several different ids for one platform and reference type.
pub struct DivergentReference {
    pub entity_type: DataQualityEntityType,
    pub entity_id: i32,
    pub platform: String,
    pub ref_type: String,
    /// The different external ids, each once, in ascending order.
    pub external_ids: Vec<String>,
}

/// `g` is the complete report of a divergent slot of `refs`.
#[verifier::opaque]
pub open spec fn describes_divergent(refs: Seq<RefRow>, g: DivergentReference) -> bool {
    &&& g.external_ids@.len() >= 2
    &&& forall|a: int, b: int|
        0 <= a < b < g.external_ids@.len() ==> lex_lt(#[trigger] g.external_ids@[a]@, #[trigger] g.external_ids@[b]@)
    &&& forall|a: int, b: int|
        0 <= a < b < g.external_ids@.len() ==> #[trigger] g.external_ids@[a]@
            != #[trigger] g.external_ids@[b]@
    &&& forall|a: int|
        0 <= a < g.external_ids@.len() ==> slot_has_id(
            refs,
            g.entity_type,
            g.entity_id,
            g.platform@,
            g.ref_type@,
            #[trigger] g.external_ids@[a]@,
        )
    &&& forall|i: int|
        0 <= i < refs.len() && #[trigger] in_slot(
            refs[i],
            g.entity_type,
            g.entity_id,
            g.platform@,
            g.ref_type@,
        ) && refs[i].external_id is Some ==> exists|a: int|
            0 <= a < g.external_ids@.len() && Some(#[trigger] g.external_ids@[a]@) == opt_chars(
                refs[i].external_id,
            )
}

/// `g` reports the slot of row `r`.
pub open spec fn reports_slot(g: DivergentReference, r: RefRow) -> bool {
    in_slot(r, g.entity_type, g.entity_id, g.platform@, g.ref_type@)
}

fn row_in_slot(r: &RefRow, t: DataQualityEntityType, id: i32, p: &str, rt: &str) -> (res: bool)
    ensures
        res == in_slot(*r, t, id, p@, rt@),
{
    r.entity_type == t && r.entity_id == id && str_eq(r.platform.as_str(), p) && str_eq(
        r.ref_type.as_str(),
        rt,
    )
}

fn contains_str(v: &Vec<String>, x: &str) -> (res: bool)
    ensures
        res == exists|a: int| 0 <= a < v@.len() && #[trigger] v@[a]@ == x@,
{
    let mut a: usize = 0;
    while a < v.len()
        invariant
            a <= v.len(),
            forall|b: int| 0 <= b < a ==> #[trigger] v@[b]@ != x@,
        decreases v.len() - a,
    {
        if str_eq(v[a].as_str(), x) {
            return true;
        }
        a = a + 1;
    }
    false
}

/// The different external ids of the slot `(t, id, p, rt)`, in order of first appearance.
fn slot_ids_as_found(refs: &Vec<RefRow>, t: DataQualityEntityType, id: i32, p: &str, rt: &str) -> (res: Vec<
    String,
>)
    ensures
        forall|a: int, b: int| 0 <= a < b < res@.len() ==> #[trigger] res@[a]@ != #[trigger] res@[b]@,
        forall|a: int| 0 <= a < res@.len() ==> slot_has_id(refs@, t, id, p@, rt@, #[trigger] res@[a]@),
        forall|i: int|
            0 <= i < refs.len() && #[trigger] in_slot(refs@[i], t, id, p@, rt@)
                && refs@[i].external_id is Some ==> exists|a: int|
                0 <= a < res@.len() && Some(#[trigger] res@[a]@) == opt_chars(refs@[i].external_id),
{
    let mut out: Vec<String> = Vec::new();
    let mut i: usize = 0;
    while i < refs.len()
        invariant
            i <= refs.len(),
            forall|a: int, b: int| 0 <= a < b < out@.len() ==> #[trigger] out@[a]@ != #[trigger] out@[b]@,
            forall|a: int| 0 <= a < out@.len() ==> slot_has_id(refs@, t, id, p@, rt@, #[trigger] out@[a]@),
            forall|j: int|
                0 <= j < i && #[trigger] in_slot(refs@[j], t, id, p@, rt@)
                    && refs@[j].external_id is Some ==> exists|a: int|
                    0 <= a < out@.len() && Some(#[trigger] out@[a]@) == opt_chars(refs@[j].external_id),
        decreases refs.len() - i,
    {
        let ghost before = out@;
        let r = &refs[i];
        if row_in_slot(r, t, id, p, rt) {
            match &r.external_id {
                Some(x) => {
                    if !contains_str(&out, x.as_str()) {
                        out.push(x.clone());
                        assert(out@[out@.len() - 1]@ == x@);
                        assert(slot_has_id(refs@, t, id, p@, rt@, x@)) by {
                            assert(in_slot(refs@[i as int], t, id, p@, rt@));
                        }
                    }
                },
                None => {},
            }
        }
        assert forall|j: int|
            0 <= j < i + 1 && #[trigger] in_slot(refs@[j], t, id, p@, rt@)
                && refs@[j].external_id is Some implies exists|a: int|
                0 <= a < out@.len() && Some(#[trigger] out@[a]@) == opt_chars(refs@[j].external_id) by {
            if j < i {
                let a = choose|a: int|
                    0 <= a < before.len() && Some(#[trigger] before[a]@) == opt_chars(
                        refs@[j].external_id,
                    );
                assert(out@[a] == before[a]);
            } else {
                if out@.len() == before.len() {
                    let a = choose|a: int|
                        0 <= a < out@.len() && #[trigger] out@[a]@ == refs@[j].external_id->0@;
                    assert(Some(out@[a]@) == opt_chars(refs@[j].external_id));
                } else {
                    assert(Some(out@[before.len() as int]@) == opt_chars(refs@[j].external_id));
                }
            }
        }
        i = i + 1;
    }
    out
}

/// Each text of `s` sorts strictly before the ones after it.
spec fn ascending(s: Seq<String>) -> bool {
    forall|a: int, b: int| 0 <= a < b < s.len() ==> lex_lt(#[trigger] s[a]@, #[trigger] s[b]@)
}

/// Some string of `t` holds the text `y`.
spec fn text_in(t: Seq<String>, y: Seq<char>) -> bool {
    exists|j: int| 0 <= j < t.len() && #[trigger] t[j]@ == y
}

/// Every text of `s` occurs among the texts of `t`.
#[verifier::opaque]
spec fn texts_among(s: Seq<String>, t: Seq<String>) -> bool {
    forall|a: int| 0 <= a < s.len() ==> #[trigger] text_in(t, s[a]@)
}

/// Inserting `x` after the texts before it and before the texts after it keeps
/// a sequence ascending.
proof fn lemma_ascending_insert(before: Seq<String>, k: int, x: String)
    requires
        ascending(before),
        0 <= k <= before.len(),
        forall|a: int| 0 <= a < k ==> lex_lt(#[trigger] before[a]@, x@),
        k < before.len() ==> lex_lt(x@, before[k]@),
    ensures
        ascending(before.insert(k, x)),
{
    let out = before.insert(k, x);
    assert forall|a: int, b: int| 0 <= a < b < out.len() implies lex_lt(#[trigger] out[a]@, #[trigger] out[b]@) by {
        if b < k {
            assert(out[a] == before[a] && out[b] == before[b]);
        } else if b == k {
            assert(out[a] == before[a]);
        } else if a == k {
            assert(out[b] == before[b - 1]);
            if b - 1 > k {
                assert(lex_lt(before[k]@, before[b - 1]@));
                lemma_lex_lt_transitive(x@, before[k]@, before[b - 1]@);
            }
        } else if a < k {
            assert(out[a] == before[a] && out[b] == before[b - 1]);
            assert(lex_lt(before[a]@, x@));
            lemma_lex_lt_transitive(before[a]@, x@, before[k]@);
            if b - 1 > k {
                assert(lex_lt(before[k]@, before[b - 1]@));
                lemma_lex_lt_transitive(before[a]@, before[k]@, before[b - 1]@);
            }
        } else {
            assert(out[a] == before[a - 1] && out[b] == before[b - 1]);
        }
    }
}

/// Inserting `x` into `s` and appending it to `t` keeps each among the other.
proof fn lemma_among_insert(s: Seq<String>, t: Seq<String>, k: int, x: String)
    requires
        texts_among(s, t),
        texts_among(t, s),
        0 <= k <= s.len(),
    ensures
        texts_among(s.insert(k, x), t.push(x)),
        texts_among(t.push(x), s.insert(k, x)),
{
    reveal(texts_among);
    let s2 = s.insert(k, x);
    let t2 = t.push(x);
    assert forall|a: int| 0 <= a < s2.len() implies #[trigger] text_in(t2, s2[a]@) by {
        if a < k {
            assert(s2[a] == s[a]);
            assert(text_in(t, s[a]@));
            let j = choose|j: int| 0 <= j < t.len() && #[trigger] t[j]@ == s[a]@;
            assert(t2[j] == t[j]);
        } else if a == k {
            assert(t2[t.len() as int] == x);
        } else {
            assert(s2[a] == s[a - 1]);
            assert(text_in(t, s[a - 1]@));
            let j = choose|j: int| 0 <= j < t.len() && #[trigger] t[j]@ == s[a - 1]@;
            assert(t2[j] == t[j]);
        }
    }
    assert forall|j: int| 0 <= j < t2.len() implies #[trigger] text_in(s2, t2[j]@) by {
        if j < t.len() {
            assert(t2[j] == t[j]);
            assert(text_in(s, t[j]@));
            let a = choose|a: int| 0 <= a < s.len() && #[trigger] s[a]@ == t[j]@;
            if a < k {
                assert(s2[a] == s[a]);
            } else {
                assert(s2[a + 1] == s[a]);
            }
        } else {
            assert(s2[k] == x);
        }
    }
}

/// A text among the first `i` of `v` differs from `v[i]` when `v` repeats none.
proof fn lemma_among_prefix_differs(s: Seq<String>, v: Seq<String>, i: int, k: int)
    requires
        forall|a: int, b: int| 0 <= a < b < v.len() ==> #[trigger] v[a]@ != #[trigger] v[b]@,
        0 <= i < v.len(),
        0 <= k < s.len(),
        texts_among(s, v.take(i)),
    ensures
        s[k]@ != v[i]@,
{
    reveal(texts_among);
    assert(text_in(v.take(i), s[k]@));
    let j = choose|j: int| 0 <= j < v.take(i).len() && #[trigger] v.take(i)[j]@ == s[k]@;
    assert(v.take(i)[j] == v[j]);
}

/// The texts of `v`, which are all different, in ascending order.
fn sorted_texts(v: &Vec<String>) -> (res: Vec<String>)
    requires
        forall|a: int, b: int| 0 <= a < b < v@.len() ==> #[trigger] v@[a]@ != #[trigger] v@[b]@,
    ensures
        res@.len() == v@.len(),
        forall|a: int, b: int| 0 <= a < b < res@.len() ==> lex_lt(#[trigger] res@[a]@, #[trigger] res@[b]@),
        forall|a: int| 0 <= a < res@.len() ==> #[trigger] text_in(v@, res@[a]@),
        forall|j: int| 0 <= j < v@.len() ==> #[trigger] text_in(res@, v@[j]@),
{
    let mut out: Vec<String> = Vec::new();
    let mut i: usize = 0;
    proof {
        reveal(texts_among);
    }
    while i < v.len()
        invariant
            i <= v@.len(),
            out@.len() == i,
            forall|a: int, b: int| 0 <= a < b < v@.len() ==> #[trigger] v@[a]@ != #[trigger] v@[b]@,
            ascending(out@),
            texts_among(out@, v@.take(i as int)),
            texts_among(v@.take(i as int), out@),
        decreases v@.len() - i,
    {
        let x = &v[i];
        let mut k: usize = 0;
        while k < out.len() && str_lt(out[k].as_str(), x.as_str())
            invariant
                k <= out@.len(),
                forall|a: int| 0 <= a < k ==> lex_lt(#[trigger] out@[a]@, x@),
            decreases out@.len() - k,
        {
            k = k + 1;
        }
        let ghost before = out@;
        let y = x.clone();
        proof {
            if k < before.len() {
                lemma_among_prefix_differs(before, v@, i as int, k as int);
                lemma_lex_lt_total(x@, before[k as int]@);
            }
            lemma_ascending_insert(before, k as int, y);
            lemma_among_insert(before, v@.take(i as int), k as int, y);
            assert(v@.take(i as int).push(y) =~= v@.take(i + 1));
        }
        out.insert(k, y);
        i = i + 1;
    }
    proof {
        assert(v@.take(v@.len() as int) =~= v@);
        assert(texts_among(out@, v@));
        assert(texts_among(v@, out@));
        reveal(texts_among);
    }
    out
}

/// The different external ids of the slot `(t, id, p, rt)`, in ascending order.
fn slot_ids(refs: &Vec<RefRow>, t: DataQualityEntityType, id: i32, p: &str, rt: &str) -> (res: Vec<
    String,
>)
    ensures
        forall|a: int, b: int| 0 <= a < b < res@.len() ==> lex_lt(#[trigger] res@[a]@, #[trigger] res@[b]@),
        forall|a: int, b: int| 0 <= a < b < res@.len() ==> #[trigger] res@[a]@ != #[trigger] res@[b]@,
        forall|a: int| 0 <= a < res@.len() ==> slot_has_id(refs@, t, id, p@, rt@, #[trigger] res@[a]@),
        forall|i: int|
            0 <= i < refs.len() && #[trigger] in_slot(refs@[i], t, id, p@, rt@)
                && refs@[i].external_id is Some ==> exists|a: int|
                0 <= a < res@.len() && Some(#[trigger] res@[a]@) == opt_chars(refs@[i].external_id),
{
    let found = slot_ids_as_found(refs, t, id, p, rt);
    let res = sorted_texts(&found);
    proof {
        assert forall|a: int, b: int| 0 <= a < b < res@.len() implies #[trigger] res@[a]@ != #[trigger] res@[b]@ by {
            if res@[a]@ == res@[b]@ {
                lemma_lex_lt_irreflexive(res@[a]@);
            }
        }
        assert forall|a: int| 0 <= a < res@.len() implies slot_has_id(refs@, t, id, p@, rt@, #[trigger] res@[a]@) by {
            assert(text_in(found@, res@[a]@));
            let j = choose|j: int| 0 <= j < found@.len() && #[trigger] found@[j]@ == res@[a]@;
            assert(slot_has_id(refs@, t, id, p@, rt@, found@[j]@));
        }
        assert forall|i: int|
            0 <= i < refs.len() && #[trigger] in_slot(refs@[i], t, id, p@, rt@)
                && refs@[i].external_id is Some implies exists|a: int|
                0 <= a < res@.len() && Some(#[trigger] res@[a]@) == opt_chars(refs@[i].external_id) by {
            let j = choose|j: int| 0 <= j < found@.len() && Some(#[trigger] found@[j]@) == opt_chars(refs@[i].external_id);
            assert(text_in(res@, found@[j]@));
            let a = choose|a: int| 0 <= a < res@.len() && #[trigger] res@[a]@ == found@[j]@;
            assert(Some(res@[a]@) == opt_chars(refs@[i].external_id));
        }
    }
    res
}

/// Whether a row before `i` falls in the same slot as row `i` and carries an id.
fn slot_seen_before(refs: &Vec<RefRow>, i: usize) -> (res: bool)
    requires
        i < refs.len(),
    ensures
        res == exists|j: int|
            0 <= j < i && #[trigger] in_slot(
                refs@[j],
                refs@[i as int].entity_type,
                refs@[i as int].entity_id,
                refs@[i as int].platform@,
                refs@[i as int].ref_type@,
            ) && refs@[j].external_id is Some,
{
    let r = &refs[i];
    let mut j: usize = 0;
    while j < i
        invariant
            i < refs.len(),
            j <= i,
            r == refs@[i as int],
            forall|k: int|
                0 <= k < j ==> !(#[trigger] in_slot(
                    refs@[k],
                    r.entity_type,
                    r.entity_id,
                    r.platform@,
                    r.ref_type@,
                ) && refs@[k].external_id is Some),
        decreases i - j,
    {
        if row_in_slot(&refs[j], r.entity_type, r.entity_id, r.platform.as_str(), r.ref_type.as_str())
            && refs[j].external_id.is_some() {
            return true;
        }
        j = j + 1;
    }
    false
}

/// The report for the slot of row `i`, or `None` when that slot is not divergent.
fn divergent_group(refs: &Vec<RefRow>, i: usize) -> (res: Option<DivergentReference>)
    requires
        i < refs.len(),
        refs@[i as int].external_id is Some,
    ensures
        match res {
            Some(g) => describes_divergent(refs@, g) && reports_slot(g, refs@[i as int]),
            None => !is_divergent(
                refs@,
                refs@[i as int].entity_type,
                refs@[i as int].entity_id,
                refs@[i as int].platform@,
                refs@[i as int].ref_type@,
            ),
        },
{
    let r = &refs[i];
    let ghost t = r.entity_type;
    let ghost id = r.entity_id;
    let ghost p = r.platform@;
    let ghost rt = r.ref_type@;
    let ids = slot_ids(refs, r.entity_type, r.entity_id, r.platform.as_str(), r.ref_type.as_str());
    if ids.len() >= 2 {
        let g = DivergentReference {
            entity_type: r.entity_type,
            entity_id: r.entity_id,
            platform: r.platform.clone(),
            ref_type: r.ref_type.clone(),
            external_ids: ids,
        };
        proof {
            reveal(describes_divergent);
            let ext = g.external_ids@;
            assert(ext == ids@);
            assert(g.platform@ == p && g.ref_type@ == rt && g.entity_type == t && g.entity_id == id);
            assert forall|a: int| 0 <= a < ext.len() implies slot_has_id(
                refs@,
                g.entity_type,
                g.entity_id,
                g.platform@,
                g.ref_type@,
                #[trigger] ext[a]@,
            ) by {
                assert(slot_has_id(refs@, t, id, p, rt, ids@[a]@));
            }
            assert forall|j: int|
                0 <= j < refs.len() && #[trigger] in_slot(
                    refs@[j],
                    g.entity_type,
                    g.entity_id,
                    g.platform@,
                    g.ref_type@,
                ) && refs@[j].external_id is Some implies exists|a: int|
                    0 <= a < ext.len() && Some(#[trigger] ext[a]@) == opt_chars(refs@[j].external_id) by {
                assert(in_slot(refs@[j], t, id, p, rt));
            }
            assert(describes_divergent(refs@, g));
            assert(reports_slot(g, refs@[i as int]));
        }
        Some(g)
    } else {
        proof {
            reveal(is_divergent);
            if is_divergent(refs@, t, id, p, rt) {
                let (a, b) = choose|a: int, b: int|
                    0 <= a < refs.len() && 0 <= b < refs.len()
                        && #[trigger] in_slot(refs@[a], t, id, p, rt)
                        && #[trigger] in_slot(refs@[b], t, id, p, rt)
                        && refs@[a].external_id is Some && refs@[b].external_id is Some
                        && opt_chars(refs@[a].external_id) != opt_chars(refs@[b].external_id);
                let x = choose|x: int|
                    0 <= x < ids@.len() && Some(#[trigger] ids@[x]@) == opt_chars(
                        refs@[a].external_id,
                    );
                let y = choose|y: int|
                    0 <= y < ids@.len() && Some(#[trigger] ids@[y]@) == opt_chars(
                        refs@[b].external_id,
                    );
                assert(x != y);
            }
        }
        None
    }
}

/// `g` reports the slot of a row before `i` that carries an id.
#[verifier::opaque]
spec fn slot_of_earlier_row(refs: Seq<RefRow>, i: int, g: DivergentReference) -> bool {
    exists|j: int| 0 <= j < i && reports_slot(g, #[trigger] refs[j]) && refs[j].external_id is Some
}

/// `out` reports every divergent slot of `refs`, exactly once each.
pub open spec fn reports_all_divergent(refs: Seq<RefRow>, out: Seq<DivergentReference>) -> bool {
    &&& forall|k: int| 0 <= k < out.len() ==> describes_divergent(refs, #[trigger] out[k])
    &&& forall|k1: int, k2: int|
        0 <= k1 < k2 < out.len() ==> !(#[trigger] out[k1].entity_type == #[trigger] out[k2].entity_type
            && out[k1].entity_id == out[k2].entity_id && out[k1].platform@ == out[k2].platform@
            && out[k1].ref_type@ == out[k2].ref_type@)
    &&& forall|i: int|
        0 <= i < refs.len() && (#[trigger] refs[i]).external_id is Some && is_divergent(
            refs,
            refs[i].entity_type,
            refs[i].entity_id,
            refs[i].platform@,
            refs[i].ref_type@,
        ) ==> exists|k: int| 0 <= k < out.len() && reports_slot(#[trigger] out[k], refs[i])
}

/// Every entity that holds two or more different external ids for one platform
/// and reference type, once each, in the order in which the rows first show it.
#[verifier::rlimit(80)]
pub fn divergent_references(refs: &Vec<RefRow>) -> (res: Vec<DivergentReference>)
    ensures
        reports_all_divergent(refs@, res@),
{
    let mut out: Vec<DivergentReference> = Vec::new();
    let mut i: usize = 0;
    while i < refs.len()
        invariant
            i <= refs.len(),
            forall|k: int| 0 <= k < out.len() ==> describes_divergent(refs@, #[trigger] out@[k]),
            forall|k1: int, k2: int|
                0 <= k1 < k2 < out.len() ==> !(#[trigger] out@[k1].entity_type
                    == #[trigger] out@[k2].entity_type && out@[k1].entity_id == out@[k2].entity_id
                    && out@[k1].platform@ == out@[k2].platform@ && out@[k1].ref_type@
                    == out@[k2].ref_type@),
            forall|k: int| 0 <= k < out.len() ==> slot_of_earlier_row(refs@, i as int, #[trigger] out@[k]),
            forall|j: int|
                0 <= j < i && (#[trigger] refs@[j]).external_id is Some && is_divergent(
                    refs@,
                    refs@[j].entity_type,
                    refs@[j].entity_id,
                    refs@[j].platform@,
                    refs@[j].ref_type@,
                ) ==> exists|k: int| 0 <= k < out.len() && reports_slot(#[trigger] out@[k], refs@[j]),
        decreases refs.len() - i,
    {
        let ghost old_out = out@;
        let r = &refs[i];
        let ghost t = r.entity_type;
        let ghost id = r.entity_id;
        let ghost p = r.platform@;
        let ghost rt = r.ref_type@;
        if r.external_id.is_some() {
            if slot_seen_before(refs, i) {
                proof {
                    let j = choose|j: int|
                        0 <= j < i && #[trigger] in_slot(refs@[j], t, id, p, rt)
                            && refs@[j].external_id is Some;
                    if is_divergent(refs@, t, id, p, rt) {
                        assert(is_divergent(
                            refs@,
                            refs@[j].entity_type,
                            refs@[j].entity_id,
                            refs@[j].platform@,
                            refs@[j].ref_type@,
                        ));
                        let k = choose|k: int|
                            0 <= k < out.len() && reports_slot(#[trigger] out@[k], refs@[j]);
                        assert(reports_slot(out@[k], refs@[i as int]));
                    }
                }
            } else {
                match divergent_group(refs, i) {
                    Some(g) => {
                        out.push(g);
                        assert(reports_slot(out@[out.len() - 1], refs@[i as int]));
                        assert forall|k1: int, k2: int|
                            0 <= k1 < k2 < out.len() implies !(#[trigger] out@[k1].entity_type
                            == #[trigger] out@[k2].entity_type && out@[k1].entity_id
                            == out@[k2].entity_id && out@[k1].platform@ == out@[k2].platform@
                            && out@[k1].ref_type@ == out@[k2].ref_type@) by {
                            if k2 == out.len() - 1 {
                                assert(out@[k1] == old_out[k1]);
                                assert(slot_of_earlier_row(refs@, i as int, old_out[k1]));
                                reveal(slot_of_earlier_row);
                                let j = choose|j: int|
                                    0 <= j < i && reports_slot(old_out[k1], #[trigger] refs@[j])
                                        && refs@[j].external_id is Some;
                                if out@[k1].entity_type == t && out@[k1].entity_id == id
                                    && out@[k1].platform@ == p && out@[k1].ref_type@ == rt {
                                    assert(in_slot(refs@[j], t, id, p, rt));
                                }
                            }
                        }
                    },
                    None => {},
                }
            }
        }
        proof {
            assert forall|k: int| 0 <= k < old_out.len() implies out@[k] == old_out[k] by {}
            assert forall|k: int| 0 <= k < out.len() implies slot_of_earlier_row(
                refs@,
                i + 1,
                #[trigger] out@[k],
            ) by {
                reveal(slot_of_earlier_row);
                if k < old_out.len() {
                    assert(slot_of_earlier_row(refs@, i as int, old_out[k]));
                    let j = choose|j: int|
                        0 <= j < i && reports_slot(old_out[k], #[trigger] refs@[j])
                            && refs@[j].external_id is Some;
                    assert(reports_slot(out@[k], refs@[j]));
                } else {
                    assert(reports_slot(out@[k], refs@[i as int]));
                }
            }
            assert forall|j: int|
                0 <= j < i + 1 && (#[trigger] refs@[j]).external_id is Some && is_divergent(
                    refs@,
                    refs@[j].entity_type,
                    refs@[j].entity_id,
                    refs@[j].platform@,
                    refs@[j].ref_type@,
                ) implies exists|k: int| 0 <= k < out.len() && reports_slot(#[trigger] out@[k], refs@[j]) by {
                if j < i {
                    let k = choose|k: int|
                        0 <= k < old_out.len() && reports_slot(#[trigger] old_out[k], refs@[j]);
                    assert(reports_slot(out@[k], refs@[j]));
                }
            }
        }
        i = i + 1;
    }
    out
}

// ------------------------------------------------------------------------------------------------
// (C) a reference whose URL points at another platform than the declared one
// ------------------------------------------------------------------------------------------------

/// What the platform classifier makes of one reference row: the platform its
/// stored platform name denotes and the platform its URL's host denotes, each
/// by its canonical name, `None` standing for a platform it does not recognise.
pub struct PlatformReading {
    pub declared: Option<String>,
    pub detected: Option<String>,
}

/// Row `r`, read as `p`, has a URL whose host names a recognised platform
/// other than the declared one.
pub open spec fn is_url_mismatch(r: RefRow, p: PlatformReading) -> bool {
    r.external_url is Some && p.detected is Some && opt_chars(p.detected) != opt_chars(p.declared)
}

/// A reference whose URL points at another platform than the declared one.
pub struct UrlMismatch {
    pub ref_id: i32,
    pub entity_type: DataQualityEntityType,
    pub entity_id: i32,
    /// The declared platform, as the classifier read it.
    pub declared: Option<String>,
}

/// A mismatch as plain values.
pub open spec fn mismatch_view(m: UrlMismatch) -> (i32, DataQualityEntityType, i32, Option<Seq<char>>) {
    (m.ref_id, m.entity_type, m.entity_id, opt_chars(m.declared))
}

/// The mismatches among the rows, in row order; `readings[i]` reads `refs[i]`.
pub open spec fn url_mismatches(refs: Seq<RefRow>, readings: Seq<PlatformReading>) -> Seq<
    (i32, DataQualityEntityType, i32, Option<Seq<char>>),
>
    decreases refs.len(),
{
    if refs.len() == 0 {
        Seq::empty()
    } else {
        let rest = url_mismatches(refs.drop_last(), readings);
        let i = refs.len() - 1;
        if is_url_mismatch(refs[i], readings[i]) {
            rest.push((refs[i].ref_id, refs[i].entity_type, refs[i].entity_id, opt_chars(readings[i].declared)))
        } else {
            rest
        }
    }
}

/// Every row whose URL resolves to a recognised platform other than the
/// declared one, in row order. `readings` holds the classifier's reading of
/// each row, in the same order.
pub fn platform_url_mismatches(refs: &Vec<RefRow>, readings: &Vec<PlatformReading>) -> (res: Vec<UrlMismatch>)
    requires
        readings@.len() == refs@.len(),
    ensures
        res@.map_values(|m: UrlMismatch| mismatch_view(m)) == url_mismatches(refs@, readings@),
{
    let mut out: Vec<UrlMismatch> = Vec::new();
    let mut i: usize = 0;
    while i < refs.len()
        invariant
            readings@.len() == refs@.len(),
            i <= refs@.len(),
            out@.map_values(|m: UrlMismatch| mismatch_view(m)) == url_mismatches(refs@.take(i as int), readings@),
        decreases refs@.len() - i,
    {
        let ghost before = out@;
        proof {
            assert(refs@.take(i + 1).drop_last() =~= refs@.take(i as int));
            assert(refs@.take(i + 1)[i as int] == refs@[i as int]);
        }
        let r = &refs[i];
        let p = &readings[i];
        if r.external_url.is_some() && p.detected.is_some() && !opt_eq(&p.detected, &p.declared) {
            let declared = match &p.declared {
                Some(d) => Some(d.clone()),
                None => None,
            };
            let m = UrlMismatch { ref_id: r.ref_id, entity_type: r.entity_type, entity_id: r.entity_id, declared };
            out.push(m);
            assert(out@.map_values(|m: UrlMismatch| mismatch_view(m)) =~= before.map_values(
                |m: UrlMismatch| mismatch_view(m),
            ).push(mismatch_view(m)));
        }
        i = i + 1;
    }
    assert(refs@.take(refs@.len() as int) =~= refs@);
    out
}

// ------------------------------------------------------------------------------------------------
// (D) tracks without a Source reference
// ------------------------------------------------------------------------------------------------

/// Some row gives track `id` a reference of type `source`, in any ASCII case.
pub open spec fn has_source(refs: Seq<RefRow>, id: i32) -> bool {
    exists|i: int|
        0 <= i < refs.len() && (#[trigger] refs[i]).entity_type == DataQualityEntityType::Track
            && refs[i].entity_id == id && eq_ignore_ascii_case(refs[i].ref_type@, "source"@)
}

fn track_has_source(refs: &Vec<RefRow>, id: i32) -> (res: bool)
    ensures
        res == has_source(refs@, id),
{
    let mut i: usize = 0;
    while i < refs.len()
        invariant
            i <= refs.len(),
            forall|j: int|
                0 <= j < i ==> !((#[trigger] refs@[j]).entity_type == DataQualityEntityType::Track
                    && refs@[j].entity_id == id && eq_ignore_ascii_case(refs@[j].ref_type@, "source"@)),
        decreases refs.len() - i,
    {
        let r = &refs[i];
        if r.entity_type == DataQualityEntityType::Track && r.entity_id == id
            && str_eq_ignore_ascii_case(r.ref_type.as_str(), "source") {
            return true;
        }
        i = i + 1;
    }
    false
}

/// The tracks, in the given order, that no row gives a `Source` reference.
pub fn tracks_missing_source(track_ids: &Vec<i32>, refs: &Vec<RefRow>) -> (res: Vec<i32>)
    ensures
        res@ == track_ids@.filter(|id: i32| !has_source(refs@, id)),
{
    let ghost pred = |id: i32| !has_source(refs@, id);
    let ghost s = track_ids@;
    let mut out: Vec<i32> = Vec::new();
    let mut i: usize = 0;
    assert(s.take(0).filter(pred) =~= Seq::<i32>::empty()) by {
        reveal(Seq::filter);
    }
    while i < track_ids.len()
        invariant
            s == track_ids@,
            pred == (|id: i32| !has_source(refs@, id)),
            i <= s.len(),
            out@ == s.take(i as int).filter(pred),
        decreases s.len() - i,
    {
        let id = track_ids[i];
        let missing = !track_has_source(refs, id);
        proof {
            reveal(Seq::filter);
            assert(s.take(i + 1).drop_last() =~= s.take(i as int));
            assert(s.take(i + 1).last() == id);
        }
        if missing {
            out.push(id);
        }
        i = i + 1;
    }
    assert(s.take(s.len() as int) =~= s);
    out
}

/// Law: a track is reported as missing its `Source` reference exactly when it
/// is among the given tracks and no reference row of kind `Track` for that id
/// has the type `source` in any ASCII case, whatever else the track holds.
pub proof fn law_missing_source_is_exact(track_ids: Seq<i32>, refs: Seq<RefRow>, id: i32)
    ensures
        track_ids.filter(|x: i32| !has_source(refs, x)).contains(id) <==> (track_ids.contains(id) && !exists|i: int|
            0 <= i < refs.len() && (#[trigger] refs[i]).entity_type == DataQualityEntityType::Track
                && refs[i].entity_id == id && eq_ignore_ascii_case(refs[i].ref_type@, "source"@)),
{
    let p = |x: i32| !has_source(refs, x);
    if track_ids.filter(p).contains(id) {
        track_ids.lemma_filter_contains_rev(p, id);
    }
    if track_ids.contains(id) && !has_source(refs, id) {
        let k = choose|k: int| 0 <= k < track_ids.len() && track_ids[k] == id;
        track_ids.lemma_filter_contains(p, k);
    }
}

/// Law: more reference rows never make a track lose its `Source` reference: a
/// track that has one keeps it when any row is added before or after.
pub proof fn law_more_rows_keep_a_source(refs: Seq<RefRow>, extra: Seq<RefRow>, id: i32)
    requires
        exists|i: int|
            0 <= i < refs.len() && (#[trigger] refs[i]).entity_type == DataQualityEntityType::Track
                && refs[i].entity_id == id && eq_ignore_ascii_case(refs[i].ref_type@, "source"@),
    ensures
        has_source(refs + extra, id),
        has_source(extra + refs, id),
{
    let i = choose|i: int|
        0 <= i < refs.len() && (#[trigger] refs[i]).entity_type == DataQualityEntityType::Track
            && refs[i].entity_id == id && eq_ignore_ascii_case(refs[i].ref_type@, "source"@);
    assert((refs + extra)[i] == refs[i]);
    assert((extra + refs)[extra.len() + i] == refs[i]);
}

// ------------------------------------------------------------------------------------------------
// The audit as a whole
// ------------------------------------------------------------------------------------------------

/// The structural audit of a library: what every check found.
pub struct StructuralFindings {
    /// External ids attached to several entities.
    pub shared_ids: Vec<SharedReference>,
    /// External urls attached to several entities.
    pub shared_urls: Vec<SharedReference>,
    /// Entities with several ids for one platform and reference type.
    pub divergent: Vec<DivergentReference>,
    /// References whose URL points at another platform than the declared one.
    pub url_mismatches: Vec<UrlMismatch>,
    /// Tracks without a `Source` reference.
    pub missing_source: Vec<i32>,
}

impl DieselDataQualityRepository {
    /// Runs the reference checks over every reference row and every track id of
    /// the library; `readings` holds the platform classifier's reading of each
    /// row, in the same order.
    pub fn find_structural_findings(
        &self,
        refs: &Vec<RefRow>,
        readings: &Vec<PlatformReading>,
        track_ids: &Vec<i32>,
    ) -> (res: StructuralFindings)
        requires
            readings@.len() == refs@.len(),
        ensures
            res.url_mismatches@.map_values(|m: UrlMismatch| mismatch_view(m)) == url_mismatches(refs@, readings@),
            reports_all_shared(refs@, false, res.shared_ids@),
            reports_all_shared(refs@, true, res.shared_urls@),
            reports_all_divergent(refs@, res.divergent@),
            res.missing_source@ == track_ids@.filter(|id: i32| !has_source(refs@, id)),
    {
        let shared_ids = shared_references(refs, false);
        let shared_urls = shared_references(refs, true);
        let divergent = divergent_references(refs);
        let url_mismatches = platform_url_mismatches(refs, readings);
        let missing_source = tracks_missing_source(track_ids, refs);
        StructuralFindings { shared_ids, shared_urls, divergent, url_mismatches, missing_source }
    }

    /// The stored form of an unordered pair: smaller id first.
    pub fn ordered_pair(id_a: i32, id_b: i32) -> (res: (i32, i32))
        ensures
            res == ordered(id_a, id_b),
    {
        if id_a <= id_b {
            (id_a, id_b)
        } else {
            (id_b, id_a)
        }
    }
}

/// A pair with its smaller id first.
pub open spec fn ordered(id_a: i32, id_b: i32) -> (i32, i32) {
    if id_a <= id_b {
        (id_a, id_b)
    } else {
        (id_b, id_a)
    }
}

/// Marking `(a, b)` or `(b, a)` as "not a duplicate" stores the same row, so
/// either order of the pair also restores it; the stored pair holds the same
/// two ids, smaller first.
pub proof fn law_ignore_pair_is_unordered(id_a: i32, id_b: i32)
    ensures
        ordered(id_a, id_b) == ordered(id_b, id_a),
        ordered(id_a, id_b).0 <= ordered(id_a, id_b).1,
        (ordered(id_a, id_b).0 == id_a && ordered(id_a, id_b).1 == id_b) || (ordered(id_a, id_b).0
            == id_b && ordered(id_a, id_b).1 == id_a),
{
}

// ------------------------------------------------------------------------------------------------
// "Not a duplicate" pairs
// ------------------------------------------------------------------------------------------------

/// A stored "not a duplicate" pair.
pub struct DedupIgnoreRow {
    pub entity_type: String,
    pub id_a: i32,
    pub id_b: i32,
}

/// The pair concerns one of the entities a merge removes.
pub open spec fn is_stale_after_merge(row: DedupIgnoreRow, kind: DataQualityEntityType, source_ids: Seq<i32>) -> bool {
    row.entity_type@ == kind.name() && (source_ids.contains(row.id_a) || source_ids.contains(row.id_b))
}

/// Whether a merge of `source_ids` (entities of kind `kind`) drops the pair.
pub fn stale_after_merge(row: &DedupIgnoreRow, kind: DataQualityEntityType, source_ids: &Vec<i32>) -> (res: bool)
    ensures
        res == is_stale_after_merge(*row, kind, source_ids@),
{
    str_eq(row.entity_type.as_str(), kind.as_str()) && (contains_id(source_ids.as_slice(), row.id_a)
        || contains_id(source_ids.as_slice(), row.id_b))
}

// ------------------------------------------------------------------------------------------------
// Naming the entities of a finding
// ------------------------------------------------------------------------------------------------

/// An entity named in a finding.
pub struct StructuralFindingEntity {
    pub entity_type: DataQualityEntityType,
    pub id: i32,
    pub name: String,
}

/// The display name of entity `id`: the name of the last row with that id, or
/// `#<id>` when there is none.
pub open spec fn display_name(names: Seq<(i32, String)>, id: i32) -> Seq<char>
    decreases names.len(),
{
    if names.len() == 0 {
        seq!['#'] + int_text(id as int)
    } else if names.last().0 == id {
        names.last().1@
    } else {
        display_name(names.drop_last(), id)
    }
}

fn name_of(names: &Vec<(i32, String)>, id: i32) -> (res: String)
    ensures
        res@ == display_name(names@, id),
{
    let mut k: usize = names.len();
    assert(names@.take(k as int) =~= names@);
    while k > 0
        invariant
            k <= names@.len(),
            display_name(names@, id) == display_name(names@.take(k as int), id),
        decreases k,
    {
        proof {
            assert(names@.take(k as int).drop_last() =~= names@.take(k - 1));
            assert(names@.take(k as int).last() == names@[k - 1]);
        }
        if names[k - 1].0 == id {
            return names[k - 1].1.clone();
        }
        k = k - 1;
    }
    let mut s = String::new();
    push_char(&mut s, '#');
    push_i32(&mut s, id);
    assert(s@ =~= seq!['#'] + int_text(id as int));
    s
}

impl DieselDataQualityRepository {
    /// An entity of a finding with its display name, looked up among the
    /// `(id, name)` rows of its kind.
    pub fn finding_entity(entity_type: DataQualityEntityType, id: i32, names: &Vec<(i32, String)>) -> (res:
        StructuralFindingEntity)
        ensures
            res.entity_type == entity_type,
            res.id == id,
            res.name@ == display_name(names@, id),
    {
        StructuralFindingEntity { entity_type, id, name: name_of(names, id) }
    }
}

// ------------------------------------------------------------------------------------------------
// Findings with their entities named
// ------------------------------------------------------------------------------------------------

/// The `(id, name)` rows of each kind: artist names, album titles, track titles.
pub struct LibraryNames {
    pub artists: Vec<(i32, String)>,
    pub albums: Vec<(i32, String)>,
    pub tracks: Vec<(i32, String)>,
}

/// The name rows of one kind.
pub open spec fn names_of(n: LibraryNames, t: DataQualityEntityType) -> Seq<(i32, String)> {
    match t {
        DataQualityEntityType::Artist => n.artists@,
        DataQualityEntityType::Album => n.albums@,
        DataQualityEntityType::Track => n.tracks@,
    }
}

/// An entity as plain values.
pub open spec fn entity_view(e: StructuralFindingEntity) -> (DataQualityEntityType, i32, Seq<char>) {
    (e.entity_type, e.id, e.name@)
}

/// The entities `ids` of kind `t`, each with its display name.
pub open spec fn named(n: LibraryNames, t: DataQualityEntityType, ids: Seq<i32>) -> Seq<
    (DataQualityEntityType, i32, Seq<char>),
> {
    ids.map_values(|id: i32| (t, id, display_name(names_of(n, t), id)))
}

/// One finding of the audit with its entities named.
pub struct NamedFinding {
    pub kind: StructuralFindingKind,
    pub entities: Vec<StructuralFindingEntity>,
    /// The offending reference row, for a URL mismatch.
    pub reference_id: Option<i32>,
}

/// A named finding as plain values.
pub type NamedFindingView = (StructuralFindingKind, Seq<(DataQualityEntityType, i32, Seq<char>)>, Option<i32>);

/// A named finding as plain values.
pub open spec fn finding_view(f: NamedFinding) -> NamedFindingView {
    (f.kind, f.entities@.map_values(|e: StructuralFindingEntity| entity_view(e)), f.reference_id)
}

pub open spec fn shared_finding(n: LibraryNames) -> spec_fn(SharedReference) -> NamedFindingView {
    |g: SharedReference| (StructuralFindingKind::ConflictingReference, named(n, g.entity_type, g.entity_ids@), None)
}

pub open spec fn divergent_finding(n: LibraryNames) -> spec_fn(DivergentReference) -> NamedFindingView {
    |g: DivergentReference| (
        StructuralFindingKind::MultiplePlatformReferences,
        named(n, g.entity_type, seq![g.entity_id]),
        None,
    )
}

pub open spec fn mismatch_finding(n: LibraryNames) -> spec_fn(UrlMismatch) -> NamedFindingView {
    |m: UrlMismatch| (StructuralFindingKind::PlatformUrlMismatch, named(n, m.entity_type, seq![m.entity_id]), Some(m.ref_id))
}

pub open spec fn missing_source_finding(n: LibraryNames) -> spec_fn(i32) -> NamedFindingView {
    |id: i32| (
        StructuralFindingKind::TrackMissingSourceReference,
        named(n, DataQualityEntityType::Track, seq![id]),
        None,
    )
}

/// The audit's findings, named: shared ids, shared urls, divergent ids, URL
/// mismatches, then tracks without a `Source` reference.
pub open spec fn named_findings_spec(f: StructuralFindings, n: LibraryNames) -> Seq<NamedFindingView> {
    f.shared_ids@.map_values(shared_finding(n)) + f.shared_urls@.map_values(shared_finding(n))
        + f.divergent@.map_values(divergent_finding(n)) + f.url_mismatches@.map_values(mismatch_finding(n))
        + f.missing_source@.map_values(missing_source_finding(n))
}

fn names_for(names: &LibraryNames, t: DataQualityEntityType) -> (res: &Vec<(i32, String)>)
    ensures
        res@ == names_of(*names, t),
{
    match t {
        DataQualityEntityType::Artist => &names.artists,
        DataQualityEntityType::Album => &names.albums,
        DataQualityEntityType::Track => &names.tracks,
    }
}

/// The entities `ids` of kind `t`, each with its display name.
fn name_entities(t: DataQualityEntityType, ids: &Vec<i32>, names: &LibraryNames) -> (res: Vec<StructuralFindingEntity>)
    ensures
        res@.map_values(|e: StructuralFindingEntity| entity_view(e)) == named(*names, t, ids@),
{
    let rows = names_for(names, t);
    let mut out: Vec<StructuralFindingEntity> = Vec::new();
    let mut i: usize = 0;
    while i < ids.len()
        invariant
            rows@ == names_of(*names, t),
            i <= ids@.len(),
            out@.map_values(|e: StructuralFindingEntity| entity_view(e)) == named(*names, t, ids@.take(i as int)),
        decreases ids@.len() - i,
    {
        let ghost before = out@;
        let e = DieselDataQualityRepository::finding_entity(t, ids[i], rows);
        out.push(e);
        proof {
            assert(out@.map_values(|e: StructuralFindingEntity| entity_view(e)) =~= before.map_values(
                |e: StructuralFindingEntity| entity_view(e),
            ).push(entity_view(e)));
            assert(ids@.take(i + 1) =~= ids@.take(i as int).push(ids@[i as int]));
            assert(named(*names, t, ids@.take(i + 1)) =~= named(*names, t, ids@.take(i as int)).push(
                (t, ids@[i as int], display_name(names_of(*names, t), ids@[i as int])),
            ));
        }
        i = i + 1;
    }
    assert(ids@.take(ids@.len() as int) =~= ids@);
    out
}

fn one_id(id: i32) -> (res: Vec<i32>)
    ensures
        res@ == seq![id],
{
    let mut v: Vec<i32> = Vec::new();
    v.push(id);
    assert(v@ =~= seq![id]);
    v
}

fn name_shared(groups: &Vec<SharedReference>, names: &LibraryNames, out: &mut Vec<NamedFinding>)
    ensures
        final(out)@.map_values(|f: NamedFinding| finding_view(f)) == old(out)@.map_values(
            |f: NamedFinding| finding_view(f),
        ) + groups@.map_values(shared_finding(*names)),
{
    let ghost start = out@.map_values(|f: NamedFinding| finding_view(f));
    let mut i: usize = 0;
    while i < groups.len()
        invariant
            i <= groups@.len(),
            out@.map_values(|f: NamedFinding| finding_view(f)) == start + groups@.take(i as int).map_values(shared_finding(*names)),
        decreases groups@.len() - i,
    {
        let ghost before = out@;
        let g = &groups[i];
        let f = NamedFinding {
            kind: StructuralFindingKind::ConflictingReference,
            entities: name_entities(g.entity_type, &g.entity_ids, names),
            reference_id: None,
        };
        out.push(f);
        proof {
            assert(out@.map_values(|f: NamedFinding| finding_view(f)) =~= before.map_values(|f: NamedFinding| finding_view(f)).push(finding_view(f)));
            assert(groups@.take(i + 1).map_values(shared_finding(*names)) =~= groups@.take(i as int).map_values(shared_finding(*names)).push(shared_finding(*names)(groups@[i as int])));
        }
        i = i + 1;
    }
    assert(groups@.take(groups@.len() as int) =~= groups@);
}

fn name_divergent(groups: &Vec<DivergentReference>, names: &LibraryNames, out: &mut Vec<NamedFinding>)
    ensures
        final(out)@.map_values(|f: NamedFinding| finding_view(f)) == old(out)@.map_values(
            |f: NamedFinding| finding_view(f),
        ) + groups@.map_values(divergent_finding(*names)),
{
    let ghost start = out@.map_values(|f: NamedFinding| finding_view(f));
    let mut i: usize = 0;
    while i < groups.len()
        invariant
            i <= groups@.len(),
            out@.map_values(|f: NamedFinding| finding_view(f)) == start + groups@.take(i as int).map_values(divergent_finding(*names)),
        decreases groups@.len() - i,
    {
        let ghost before = out@;
        let g = &groups[i];
        let f = NamedFinding {
            kind: StructuralFindingKind::MultiplePlatformReferences,
            entities: name_entities(g.entity_type, &one_id(g.entity_id), names),
            reference_id: None,
        };
        out.push(f);
        proof {
            assert(out@.map_values(|f: NamedFinding| finding_view(f)) =~= before.map_values(|f: NamedFinding| finding_view(f)).push(finding_view(f)));
            assert(groups@.take(i + 1).map_values(divergent_finding(*names)) =~= groups@.take(i as int).map_values(divergent_finding(*names)).push(divergent_finding(*names)(groups@[i as int])));
        }
        i = i + 1;
    }
    assert(groups@.take(groups@.len() as int) =~= groups@);
}

fn name_mismatches(found: &Vec<UrlMismatch>, names: &LibraryNames, out: &mut Vec<NamedFinding>)
    ensures
        final(out)@.map_values(|f: NamedFinding| finding_view(f)) == old(out)@.map_values(
            |f: NamedFinding| finding_view(f),
        ) + found@.map_values(mismatch_finding(*names)),
{
    let ghost start = out@.map_values(|f: NamedFinding| finding_view(f));
    let mut i: usize = 0;
    while i < found.len()
        invariant
            i <= found@.len(),
            out@.map_values(|f: NamedFinding| finding_view(f)) == start + found@.take(i as int).map_values(mismatch_finding(*names)),
        decreases found@.len() - i,
    {
        let ghost before = out@;
        let m = &found[i];
        let f = NamedFinding {
            kind: StructuralFindingKind::PlatformUrlMismatch,
            entities: name_entities(m.entity_type, &one_id(m.entity_id), names),
            reference_id: Some(m.ref_id),
        };
        out.push(f);
        proof {
            assert(out@.map_values(|f: NamedFinding| finding_view(f)) =~= before.map_values(|f: NamedFinding| finding_view(f)).push(finding_view(f)));
            assert(found@.take(i + 1).map_values(mismatch_finding(*names)) =~= found@.take(i as int).map_values(mismatch_finding(*names)).push(mismatch_finding(*names)(found@[i as int])));
        }
        i = i + 1;
    }
    assert(found@.take(found@.len() as int) =~= found@);
}

fn name_missing_source(ids: &Vec<i32>, names: &LibraryNames, out: &mut Vec<NamedFinding>)
    ensures
        final(out)@.map_values(|f: NamedFinding| finding_view(f)) == old(out)@.map_values(
            |f: NamedFinding| finding_view(f),
        ) + ids@.map_values(missing_source_finding(*names)),
{
    let ghost start = out@.map_values(|f: NamedFinding| finding_view(f));
    let mut i: usize = 0;
    while i < ids.len()
        invariant
            i <= ids@.len(),
            out@.map_values(|f: NamedFinding| finding_view(f)) == start + ids@.take(i as int).map_values(missing_source_finding(*names)),
        decreases ids@.len() - i,
    {
        let ghost before = out@;
        let f = NamedFinding {
            kind: StructuralFindingKind::TrackMissingSourceReference,
            entities: name_entities(DataQualityEntityType::Track, &one_id(ids[i]), names),
            reference_id: None,
        };
        out.push(f);
        proof {
            assert(out@.map_values(|f: NamedFinding| finding_view(f)) =~= before.map_values(|f: NamedFinding| finding_view(f)).push(finding_view(f)));
            assert(ids@.take(i + 1).map_values(missing_source_finding(*names)) =~= ids@.take(i as int).map_values(missing_source_finding(*names)).push(missing_source_finding(*names)(ids@[i as int])));
        }
        i = i + 1;
    }
    assert(ids@.take(ids@.len() as int) =~= ids@);
}

impl DieselDataQualityRepository {
    /// The audit's findings as the report lists them, each entity with its
    /// display name: shared ids, shared urls, divergent ids, URL mismatches,
    /// then tracks without a `Source` reference.
    pub fn named_findings(findings: &StructuralFindings, names: &LibraryNames) -> (res: Vec<NamedFinding>)
        ensures
            res@.map_values(|f: NamedFinding| finding_view(f)) == named_findings_spec(*findings, *names),
    {
        let mut out: Vec<NamedFinding> = Vec::new();
        assert(out@.map_values(|f: NamedFinding| finding_view(f)) =~= Seq::<NamedFindingView>::empty());
        name_shared(&findings.shared_ids, names, &mut out);
        name_shared(&findings.shared_urls, names, &mut out);
        name_divergent(&findings.divergent, names, &mut out);
        name_mismatches(&findings.url_mismatches, names, &mut out);
        name_missing_source(&findings.missing_source, names, &mut out);
        assert(out@.map_values(|f: NamedFinding| finding_view(f)) =~= named_findings_spec(*findings, *names));
        out
    }
}

} // verus!
