//! Library scan requests.

use vstd::prelude::*;

verus! {

pub struct ScanRequest {
    /// Override of the library root to scan. Defaults to `general.base_library_dir`.
    pub library_root: Option<String>,
    /// When `true`, no mutations are applied to the database.
    pub dry_run: bool,
}

/// The directory a scan walks: the requested root, else the configured library.
pub fn scan_root(request: &ScanRequest, base_library_dir: &String) -> (res: String)
    ensures
        res@ == match request.library_root {
            Some(r) => r@,
            None => base_library_dir@,
        },
{
    match &request.library_root {
        Some(r) => r.clone(),
        None => base_library_dir.clone(),
    }
}

} // verus!
