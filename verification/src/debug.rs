//! The debug run: the two views by time of modification of one fixed
//! volume.

use crate::analyzer::{is_old_view, is_recent_view, StorageAnalyzer};
use crate::types::FileInfo;
use vstd::prelude::*;

verus! {

/// The volume that the debug run looks at.
pub const DEBUG_DRIVE: &'static str = "C:\\";

/// The two lists are views of the files by time of modification: the first
/// ranks the files modified lately, the second those not modified for long,
/// each as of some moment.
pub open spec fn are_debug_views(
    recent: Seq<FileInfo>,
    old: Seq<FileInfo>,
    files: Seq<FileInfo>,
) -> bool {
    &&& exists|now: i64| is_recent_view(recent, files, now)
    &&& exists|now: i64| is_old_view(old, files, now)
}

/// What the debug run shows: the files of `DEBUG_DRIVE` that were modified
/// lately, and those that were not modified for long, each list largest
/// first. `None` where that volume has no snapshot.
pub fn debug_test(analyzer: &StorageAnalyzer) -> (views: Option<(Vec<FileInfo>, Vec<FileInfo>)>)
    ensures
        views is Some <==> analyzer@.contains_key(DEBUG_DRIVE@),
        views matches Some(lists) ==> are_debug_views(
            lists.0@,
            lists.1@,
            analyzer@[DEBUG_DRIVE@].files(),
        ),
{
    let recent = analyzer.get_recent_large_files(DEBUG_DRIVE);
    let old = analyzer.get_old_large_files(DEBUG_DRIVE);
    match (recent, old) {
        (Some(recent_list), Some(old_list)) => {
            Some((recent_list, old_list))
        },
        _ => None,
    }
}

} // verus!
