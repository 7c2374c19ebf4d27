//! The `ingest` command: how the outcome of an ingest is summarised.

use vstd::prelude::*;

use crate::cli::api::models::IngestResult;
use crate::text::{push_str};

verus! {

/// The artists of an ingested file, separated by `", "`.
pub open spec fn artists_joined(names: Seq<Seq<char>>) -> Seq<char>
    decreases names.len(),
{
    if names.len() == 0 {
        Seq::empty()
    } else if names.len() == 1 {
        names[0]
    } else {
        artists_joined(names.drop_last()) + ", "@ + names.last()
    }
}

pub fn artists_line(result: &IngestResult) -> (res: String)
    ensures
        res@ == artists_joined(result.artists@.map_values(|a: String| a@)),
{
    let ghost names = result.artists@.map_values(|a: String| a@);
    let mut s = String::new();
    let mut i: usize = 0;
    while i < result.artists.len()
        invariant
            i <= result.artists@.len(),
            names == result.artists@.map_values(|a: String| a@),
            s@ == artists_joined(names.take(i as int)),
        decreases result.artists@.len() - i,
    {
        proof {
            assert(names.take(i + 1).drop_last() =~= names.take(i as int));
            assert(names.take(i + 1).last() == result.artists@[i as int]@);
        }
        if i > 0 {
            push_str(&mut s, ", ");
        }
        push_str(&mut s, result.artists[i].as_str());
        proof {
            if i == 0 {
                assert(s@ =~= artists_joined(names.take(1)));
            } else {
                assert(s@ =~= artists_joined(names.take(i + 1)));
            }
        }
        i = i + 1;
    }
    assert(names.take(result.artists@.len() as int) =~= names);
    s
}

/// The status line: whether the file awaits manual validation.
pub fn ingest_status(result: &IngestResult) -> (res: &'static str)
    ensures
        res@ == if result.needs_validation {
            "pending manual validation"@
        } else {
            "ingested successfully"@
        },
{
    if result.needs_validation {
        "pending manual validation"
    } else {
        "ingested successfully"
    }
}

} // verus!
