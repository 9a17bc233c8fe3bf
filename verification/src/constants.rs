//! Unit conversions, reporting thresholds and fixed texts. Sizes are whole
//! bytes throughout.

use vstd::prelude::*;

verus! {

/// Bytes in one gigabyte (2^30).
pub const GB_TO_BYTES: u64 = 1_073_741_824;

/// Bytes in one megabyte (2^20).
pub const MB_TO_BYTES: u64 = 1_048_576;

/// A folder is reported only if it holds more than this many bytes: a tenth
/// of a gigabyte, rounded down to whole bytes.
pub const MIN_FOLDER_SIZE_BYTES: u64 = 107_374_182;

/// A file type is reported only if its files hold more than this many
/// bytes: a hundredth of a gigabyte, rounded down to whole bytes.
pub const MIN_FILE_TYPE_SIZE_BYTES: u64 = 10_737_418;

/// How a time is written in a file record.
pub const DATE_FORMAT: &'static str = "%Y-%m-%d %H:%M:%S";

/// Seconds in one day.
pub const SECONDS_PER_DAY: i64 = 86_400;

/// A file counts as recent if it was modified within this many days.
pub const RECENT_DAYS: u32 = 30;

/// A file counts as old if it was last modified more than this many days ago.
pub const OLD_DAYS: u32 = 180;

/// How many lines a report shows of each list.
pub const TOP_COUNT: usize = 10;

/// The deepest level, counted from the volume's root, at which a folder is
/// still reported.
pub const MAX_FOLDER_DEPTH: usize = 3;

/// A folder whose name starts with this character is hidden.
pub const HIDDEN_MARKER: char = '.';

/// The file type of a file whose name has no extension.
pub const NO_EXTENSION: &'static str = "(No Extension)";

} // verus!
