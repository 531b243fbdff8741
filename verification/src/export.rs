//! Exporting every parked note as a JSON file under the user data directory.
//!
//! The file's place and name are decided here; turning the notes into JSON
//! and writing the file is done by the application.
use vstd::prelude::*;

use crate::paths::{join_path, spec_join};

verus! {

/// The directory of the exports inside the application's data directory.
pub const EXPORTS_DIR_NAME: &'static str = "exports";

/// The beginning of an export's file name.
pub const EXPORT_FILE_PREFIX: &'static str = "parkplatz_notizen_";

/// The end of an export's file name.
pub const EXPORT_FILE_SUFFIX: &'static str = ".json";

/// The local time stamp in an export's file name: year, month, day, `_`,
/// hour, minute, second.
pub const EXPORT_TIMESTAMP_FORMAT: &'static str = "%Y%m%d_%H%M%S";

/// The exports directory inside the application's data directory.
pub open spec fn spec_exports_dir(data_dir: Seq<char>) -> Seq<char> {
    spec_join(data_dir, EXPORTS_DIR_NAME@)
}

/// The export file in `dir` for the time stamp `timestamp`.
pub open spec fn spec_export_file_path(dir: Seq<char>, timestamp: Seq<char>) -> Seq<char> {
    spec_join(dir, EXPORT_FILE_PREFIX@ + timestamp + EXPORT_FILE_SUFFIX@)
}

/// The shape of a time stamp written after `EXPORT_TIMESTAMP_FORMAT`: the
/// year (at least four digits, a sign before years beyond 9999), then month,
/// day, `_`, hour, minute and second in two digits each; so its last fifteen
/// characters are digits but for the `_` seventh from the end.
pub open spec fn is_export_timestamp(ts: Seq<char>) -> bool {
    &&& ts.len() >= 15
    &&& forall|i: int|
        ts.len() - 15 <= i < ts.len() ==> if i == ts.len() - 7 {
            #[trigger] ts[i] == '_'
        } else {
            '0' <= ts[i] <= '9'
        }
}

/// `chrono::Local::now().format(pattern)`: the current local time written
/// out after `pattern`, which is the export's and formats without error.
/// Which time it is depends on the clock and the time zone; its shape is
/// what chrono documents for `%Y%m%d_%H%M%S` (zero-padded fields of fixed
/// width, the year of at least four digits).
#[verifier::external_body]
fn local_now_formatted(pattern: &str) -> (r: String)
    requires
        pattern@ == EXPORT_TIMESTAMP_FORMAT@,
    ensures
        is_export_timestamp(r@),
{
    chrono::Local::now().format(pattern).to_string()
}

/// The exports directory inside the application's data directory.
pub fn exports_dir(data_dir: &str) -> (r: String)
    ensures
        r@ == spec_exports_dir(data_dir@),
{
    join_path(data_dir, EXPORTS_DIR_NAME)
}

/// The export file in `dir` for the time stamp `timestamp`:
/// `parkplatz_notizen_<timestamp>.json`.
pub fn export_file_path(dir: &str, timestamp: &str) -> (r: String)
    ensures
        r@ == spec_export_file_path(dir@, timestamp@),
{
    let mut name = String::from_str(EXPORT_FILE_PREFIX);
    name.append(timestamp);
    name.append(EXPORT_FILE_SUFFIX);
    join_path(dir, name.as_str())
}

/// The export file in `dir` for the current local time.
pub fn new_export_file_path(dir: &str) -> (r: String)
    ensures
        exists|timestamp: Seq<char>|
            is_export_timestamp(timestamp) && r@ == spec_export_file_path(dir@, timestamp),
{
    let timestamp = local_now_formatted(EXPORT_TIMESTAMP_FORMAT);
    let r = export_file_path(dir, timestamp.as_str());
    assert(r@ == spec_export_file_path(dir@, timestamp@));
    r
}

} // verus!
