//! The `scan` command: which lines of a scan report are worth showing.

use vstd::prelude::*;

use crate::cli::api::models::{ScanCategory, ScanReport};

verus! {

/// Positions of the report entries that need attention: every entry whose file
/// is not consistent with the library.
pub fn entries_to_show(report: &ScanReport) -> (res: Vec<usize>)
    ensures
        forall|k: int| 0 <= k < res@.len() ==> #[trigger] res@[k] < report.entries@.len()
            && report.entries@[res@[k] as int].category != ScanCategory::Consistent,
        forall|a: int, b: int| 0 <= a < b < res@.len() ==> res@[a] < res@[b],
        forall|j: int|
            0 <= j < report.entries@.len() && (#[trigger] report.entries@[j]).category
                != ScanCategory::Consistent ==> res@.contains(j as usize),
{
    let mut out: Vec<usize> = Vec::new();
    let mut j: usize = 0;
    while j < report.entries.len()
        invariant
            j <= report.entries@.len(),
            forall|k: int| 0 <= k < out@.len() ==> #[trigger] out@[k] < j
                && report.entries@[out@[k] as int].category != ScanCategory::Consistent,
            forall|a: int, b: int| 0 <= a < b < out@.len() ==> out@[a] < out@[b],
            forall|m: int|
                0 <= m < j && (#[trigger] report.entries@[m]).category != ScanCategory::Consistent
                    ==> out@.contains(m as usize),
        decreases report.entries@.len() - j,
    {
        if report.entries[j].category != ScanCategory::Consistent {
            let ghost before = out@;
            out.push(j);
            assert forall|m: int|
                0 <= m < j + 1 && (#[trigger] report.entries@[m]).category != ScanCategory::Consistent
                    implies out@.contains(m as usize) by {
                if m < j {
                    let k = choose|k: int| 0 <= k < before.len() && before[k] == m as usize;
                    assert(out@[k] == m as usize);
                } else {
                    assert(out@[out@.len() - 1] == j);
                }
            }
        }
        j = j + 1;
    }
    out
}

} // verus!
