//! Attribution of a clipboard change to the frontmost application.
//!
//! The platform-native query lives with the surrounding application; the
//! engine itself only knows the portable fallback, which attributes to
//! "Unknown". Attribution is best-effort metadata and never a reason to
//! drop a clipboard item.

use vstd::prelude::*;

verus! {

/// Information about the detected source application.
#[derive(Debug, Clone)]
pub struct AppInfo {
    pub name: String,
    pub bundle_id: Option<String>,
}

impl AppInfo {
    /// The default attribution used whenever the platform query fails or no
    /// platform binding exists.
    pub open spec fn is_default(self) -> bool {
        self.name@ == "Unknown"@ && self.bundle_id is None
    }
}

impl Default for AppInfo {
    fn default() -> (r: AppInfo)
        ensures
            r.is_default(),
    {
        AppInfo { name: "Unknown".to_owned(), bundle_id: None }
    }
}

/// The frontmost-application query on platforms without a native binding:
/// the default attribution.
pub fn get_frontmost_app() -> (r: AppInfo)
    ensures
        r.is_default(),
{
    AppInfo { name: "Unknown".to_owned(), bundle_id: None }
}

} // verus!
