//! Response envelopes and pagination query-parameter helpers.

use vstd::prelude::*;

use crate::text::{lemma_trimmed, law_trim_is_idempotent, opt_chars, str_eq, trim, trimmed, untrimmable};

verus! {

/// `{ success }` envelope.
pub struct Success {
    pub success: bool,
}

/// `{ message }` envelope.
pub struct Message {
    pub message: String,
}

/// Generic pagination envelope returned by every paginated library list.
pub struct PageDto<T> {
    pub items: Vec<T>,
    pub total: i64,
    pub page: i64,
    pub page_size: i64,
}

/// Simple `{ count }` envelope for cheap polling endpoints.
pub struct CountDto {
    pub count: i64,
}

/// Page size used when the client does not ask for one.
pub const DEFAULT_PAGE_SIZE: i64 = 60;

/// Largest page size a client may ask for.
pub const MAX_PAGE_SIZE: i64 = 500;

/// The requested page (1-based), defaulting to the first and never below it.
pub open spec fn page_spec(page: Option<i64>) -> i64 {
    match page {
        Some(p) => if p < 1 {
            1
        } else {
            p
        },
        None => 1,
    }
}

/// The requested page size, defaulting to 60 and clamped to `1..=500`.
pub open spec fn page_size_spec(page_size: Option<i64>) -> i64 {
    let s = match page_size {
        Some(s) => s,
        None => DEFAULT_PAGE_SIZE,
    };
    if s < 1 {
        1
    } else if s > MAX_PAGE_SIZE {
        MAX_PAGE_SIZE
    } else {
        s
    }
}

/// Number of rows to skip before the given page.
pub open spec fn offset_spec(page: int, page_size: int) -> int {
    (page - 1) * page_size
}

pub fn resolve_page(page: Option<i64>) -> (res: i64)
    ensures
        res == page_spec(page),
        res >= 1,
{
    let p = match page {
        Some(p) => p,
        None => 1,
    };
    if p < 1 {
        1
    } else {
        p
    }
}

pub fn resolve_page_size(page_size: Option<i64>) -> (res: i64)
    ensures
        res == page_size_spec(page_size),
        1 <= res <= MAX_PAGE_SIZE,
{
    let s = match page_size {
        Some(s) => s,
        None => DEFAULT_PAGE_SIZE,
    };
    if s < 1 {
        1
    } else if s > MAX_PAGE_SIZE {
        MAX_PAGE_SIZE
    } else {
        s
    }
}

pub fn resolve_offset(page: i64, page_size: i64) -> (res: i64)
    requires
        i64::MIN <= offset_spec(page as int, page_size as int) <= i64::MAX,
        page - 1 >= i64::MIN,
    ensures
        res == offset_spec(page as int, page_size as int),
{
    (page - 1) * page_size
}

/// `true` when `sort_dir=desc` was requested; defaults to ascending.
pub fn is_desc(sort_dir: &Option<String>) -> (res: bool)
    ensures
        res == (sort_dir matches Some(d) && d@ == seq!['d', 'e', 's', 'c']),
{
    match sort_dir {
        Some(d) => {
            let lit = "desc";
            proof {
                reveal_strlit("desc");
                assert(lit@ =~= seq!['d', 'e', 's', 'c']);
            }
            str_eq(d.as_str(), lit)
        },
        None => false,
    }
}

/// What a search box holds once trimmed: nothing when it is blank.
pub open spec fn normalized_search(q: Option<Seq<char>>) -> Option<Seq<char>> {
    match q {
        Some(s) => if trimmed(s).len() == 0 {
            None
        } else {
            Some(trimmed(s))
        },
        None => None,
    }
}

/// Trims a raw `q` query parameter and turns blank input into `None`, so an
/// empty search box adds no filter.
pub fn normalize_search(q: &Option<String>) -> (res: Option<String>)
    ensures
        opt_chars(res) == normalized_search(opt_chars(*q)),
{
    match q {
        Some(s) => {
            let t = trim(s.as_str());
            if t.is_empty() {
                None
            } else {
                Some(t.to_owned())
            }
        },
        None => None,
    }
}

/// Law: pages tile the result set. The first requested page starts at row 0
/// and every page starts exactly where the previous one ended.
pub proof fn law_pages_are_contiguous(page: Option<i64>, page_size: Option<i64>)
    ensures
        offset_spec(page_spec(page) as int, page_size_spec(page_size) as int) >= 0,
        offset_spec(1, page_size_spec(page_size) as int) == 0,
        offset_spec(page_spec(page) + 1, page_size_spec(page_size) as int) == offset_spec(
            page_spec(page) as int,
            page_size_spec(page_size) as int,
        ) + page_size_spec(page_size),
{
    let p = page_spec(page) as int;
    let s = page_size_spec(page_size) as int;
    assert((p - 1) * s >= 0) by (nonlinear_arith)
        requires
            p >= 1,
            s >= 1,
    ;
    assert(p * s == (p - 1) * s + s) by (nonlinear_arith);
}

/// Law: a normalized search is never blank, carries no surrounding whitespace,
/// and normalizing it again changes nothing.
pub proof fn law_search_normalization_is_idempotent(q: Option<Seq<char>>)
    ensures
        normalized_search(normalized_search(q)) == normalized_search(q),
        normalized_search(q) matches Some(t) ==> t.len() > 0 && untrimmable(t),
{
    if let Some(s) = q {
        law_trim_is_idempotent(s);
        lemma_trimmed(s);
    }
}

} // verus!
