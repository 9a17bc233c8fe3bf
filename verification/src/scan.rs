//! What one scan of a volume brought: its files, and the summaries of the
//! folders that a report may list.

use crate::file_types::{lemma_group_concat, total_bytes};
use crate::folders::{folder_sizes, summaries_add_up, summarises};
use crate::types::{FileInfo, FolderCandidate, FolderSize};
use vstd::prelude::*;

verus! {

/// Tells whether the sizes of all the files add up to a number of bytes
/// that a `u64` holds.
pub fn sizes_fit(files: &Vec<FileInfo>) -> (fit: bool)
    ensures
        fit == (total_bytes(files@) <= u64::MAX),
{
    let mut sum: u64 = 0;
    let mut i: usize = 0;
    while i < files.len()
        invariant
            i <= files.len(),
            sum == total_bytes(files@.take(i as int)),
        decreases files.len() - i,
    {
        proof {
            let done = files@.take(i + 1);
            assert(done.drop_last() =~= files@.take(i as int));
            assert(files@ =~= done + files@.skip(i + 1));
            lemma_group_concat(done, files@.skip(i + 1), Seq::empty());
        }
        if files[i].size_bytes > u64::MAX - sum {
            return false;
        }
        sum = sum + files[i].size_bytes;
        i = i + 1;
    }
    assert(files@.take(files@.len() as int) =~= files@);
    true
}

/// The snapshot of one volume. Its files hold no more bytes together than a
/// `u64` counts, and each of its folder summaries says what the files of
/// this same snapshot add up to beneath the folder.
pub struct DriveScan {
    files: Vec<FileInfo>,
    folders: Vec<FolderSize>,
}

impl DriveScan {
    #[verifier::type_invariant]
    spec fn sizes_add_up(self) -> bool {
        total_bytes(self.files@) <= u64::MAX && summaries_add_up(self.folders@, self.files@)
    }

    /// The files of the snapshot, in the order in which the scan met them.
    pub closed spec fn files(&self) -> Seq<FileInfo> {
        self.files@
    }

    /// The summaries of the folders that a report may list.
    pub closed spec fn folders(&self) -> Seq<FolderSize> {
        self.folders@
    }

    /// Makes the snapshot from what a scan met: every file, and every
    /// folder down to the depth that the scan lists. There is none where
    /// the files hold more bytes together than a `u64` counts.
    pub fn new(files: Vec<FileInfo>, candidates: &Vec<FolderCandidate>) -> (scan: Option<DriveScan>)
        ensures
            scan is Some <==> total_bytes(files@) <= u64::MAX,
            scan matches Some(made) ==> made.files() == files@ && summarises(
                made.folders(),
                candidates@,
                files@,
            ) && summaries_add_up(made.folders(), made.files()),
    {
        if !sizes_fit(&files) {
            return None;
        }
        let folders = folder_sizes(candidates, &files);
        Some(DriveScan { files, folders })
    }

    /// The files of the snapshot.
    pub fn file_list(&self) -> (files: &Vec<FileInfo>)
        ensures
            files@ == self.files(),
            total_bytes(files@) <= u64::MAX,
    {
        proof {
            use_type_invariant(self);
        }
        &self.files
    }

    /// The summaries of the folders that a report may list, each with what
    /// the files of this snapshot add up to beneath its folder.
    pub fn folder_list(&self) -> (folders: &Vec<FolderSize>)
        ensures
            folders@ == self.folders(),
            summaries_add_up(folders@, self.files()),
    {
        proof {
            use_type_invariant(self);
        }
        &self.folders
    }
}

} // verus!
