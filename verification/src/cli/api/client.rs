//! Addresses of the server endpoints the client calls.

use vstd::prelude::*;

use crate::text::{int_text, push_i32, push_str};

verus! {

/// `s` without its trailing `/` characters.
pub open spec fn without_trailing_slashes(s: Seq<char>) -> Seq<char>
    decreases s.len(),
{
    if s.len() > 0 && s.last() == '/' {
        without_trailing_slashes(s.drop_last())
    } else {
        s
    }
}

/// The base URL the client joins endpoint paths to: the configured one without
/// trailing slashes.
pub fn api_base_url(configured: &str) -> (res: String)
    ensures
        res@ == without_trailing_slashes(configured@),
{
    let n = configured.unicode_len();
    let mut end: usize = n;
    assert(configured@.take(n as int) =~= configured@);
    while end > 0 && configured.get_char(end - 1) == '/'
        invariant
            n == configured@.len(),
            end <= n,
            without_trailing_slashes(configured@.take(end as int)) == without_trailing_slashes(configured@),
        decreases end,
    {
        assert(configured@.take(end as int).drop_last() =~= configured@.take(end - 1));
        end = end - 1;
    }
    let mut out = String::new();
    let mut i: usize = 0;
    while i < end
        invariant
            n == configured@.len(),
            end <= n,
            i <= end,
            out@ == configured@.take(i as int),
        decreases end - i,
    {
        let c = configured.get_char(i);
        crate::text::push_char(&mut out, c);
        assert(configured@.take(i + 1) =~= configured@.take(i as int).push(c));
        i = i + 1;
    }
    proof {
        let t = configured@.take(end as int);
        if t.len() > 0 {
            assert(t.last() == configured@[end - 1]);
        }
    }
    out
}

/// `base` followed by `path`.
pub fn endpoint(base: &str, path: &str) -> (res: String)
    ensures
        res@ == base@ + path@,
{
    let mut s = String::new();
    push_str(&mut s, base);
    push_str(&mut s, path);
    s
}

/// `<base>/api/<collection>/<id>/<tail>`.
pub open spec fn item_endpoint(base: Seq<char>, collection: Seq<char>, id: i32, tail: Seq<char>) -> Seq<char> {
    base + "/api/"@ + collection + seq!['/'] + int_text(id as int) + seq!['/'] + tail
}

/// The address of a sub-resource of one item, such as a playlist's tracks or a
/// track's file.
pub fn item_endpoint_url(base: &str, collection: &str, id: i32, tail: &str) -> (res: String)
    ensures
        res@ == item_endpoint(base@, collection@, id, tail@),
{
    let mut s = String::new();
    push_str(&mut s, base);
    push_str(&mut s, "/api/");
    push_str(&mut s, collection);
    crate::text::push_char(&mut s, '/');
    push_i32(&mut s, id);
    crate::text::push_char(&mut s, '/');
    push_str(&mut s, tail);
    assert(s@ =~= item_endpoint(base@, collection@, id, tail@));
    s
}

} // verus!
