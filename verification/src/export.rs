//! Export and import support: the statistics record shown before an
//! export. The file reading and writing, and the current time, come from
//! the surrounding application.

use vstd::prelude::*;

verus! {

/// The header of an exported history file.
#[derive(Debug, Clone)]
pub struct ExportData {
    pub version: String,
    pub export_date: String,
    pub item_count: usize,
}

/// The statistics template handed to the UI before an export: format
/// version 1.0, stamped with the given date, with the item count left for
/// the frontend to fill in.
pub fn get_export_stats(export_date: String) -> (r: ExportData)
    ensures
        r.version@ == "1.0"@,
        r.export_date == export_date,
        r.item_count == 0,
{
    ExportData { version: "1.0".to_owned(), export_date, item_count: 0 }
}

} // verus!
