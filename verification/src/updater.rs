//! The update-check result record. The updater service itself is external
//! machinery owned by the surrounding application.

use vstd::prelude::*;

verus! {

/// What an update check found.
#[derive(Debug, Clone)]
pub struct UpdateInfo {
    pub available: bool,
    pub version: Option<String>,
    pub notes: Option<String>,
    pub date: Option<String>,
}

impl UpdateInfo {
    /// The record for "no update available".
    pub fn none_available() -> (r: UpdateInfo)
        ensures
            !r.available,
            r.version is None,
            r.notes is None,
            r.date is None,
    {
        UpdateInfo { available: false, version: None, notes: None, date: None }
    }
}

} // verus!
