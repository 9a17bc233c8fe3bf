//! Folders: what the files beneath a folder add up to, which folders are
//! reported, and the largest of them.

use crate::constants::{HIDDEN_MARKER, MAX_FOLDER_DEPTH, MIN_FOLDER_SIZE_BYTES};
use crate::file_types::{lemma_group_concat, total_bytes};
use crate::ranking::{is_ranked, is_ranking_of, lemma_filter_keeps_rank, rank};
use crate::types::{FileInfo, FolderCandidate, FolderSize};
use vstd::prelude::*;
use vstd::seq_lib::to_multiset_contains;
use vstd::string::StrSliceExecFns;
use vstd::utf8::encode_utf8;

verus! {

/// The byte separates the parts of a path: `/` or `\`. In UTF-8 neither
/// byte occurs inside the encoding of another character.
pub open spec fn is_separator(byte: u8) -> bool {
    byte == 0x2f || byte == 0x5c
}

/// The path, given by its bytes, lies beneath the folder: it begins with
/// the folder's path, goes on after it, and a separator stands between the
/// two.
pub open spec fn bytes_beneath(path: Seq<u8>, folder: Seq<u8>) -> bool {
    &&& folder.len() < path.len()
    &&& path.take(folder.len() as int) == folder
    &&& (is_separator(path[folder.len() as int]) || (folder.len() > 0 && is_separator(
        folder[folder.len() - 1],
    )))
}

/// The path lies beneath the folder, at whatever depth.
pub open spec fn is_beneath(path: Seq<char>, folder: Seq<char>) -> bool {
    bytes_beneath(encode_utf8(path), encode_utf8(folder))
}

/// What a file adds to the bytes of a folder: its size if it lies beneath
/// the folder.
pub open spec fn bytes_beneath_added(file: FileInfo, folder: Seq<char>) -> nat {
    if is_beneath(file.full_path@, folder) {
        file.size_bytes as nat
    } else {
        0
    }
}

/// What a file adds to the count of a folder.
pub open spec fn count_beneath_added(file: FileInfo, folder: Seq<char>) -> nat {
    if is_beneath(file.full_path@, folder) {
        1
    } else {
        0
    }
}

/// The bytes of all the files that lie beneath the folder.
pub open spec fn folder_bytes(files: Seq<FileInfo>, folder: Seq<char>) -> nat
    decreases files.len(),
{
    if files.len() == 0 {
        0
    } else {
        folder_bytes(files.drop_last(), folder) + bytes_beneath_added(files.last(), folder)
    }
}

/// The number of the files that lie beneath the folder.
pub open spec fn folder_count(files: Seq<FileInfo>, folder: Seq<char>) -> nat
    decreases files.len(),
{
    if files.len() == 0 {
        0
    } else {
        folder_count(files.drop_last(), folder) + count_beneath_added(files.last(), folder)
    }
}

/// A folder holds no more than all the files hold, and no more files than
/// there are.
pub proof fn lemma_folder_bounds(files: Seq<FileInfo>, folder: Seq<char>)
    ensures
        folder_bytes(files, folder) <= total_bytes(files),
        folder_count(files, folder) <= files.len(),
    decreases files.len(),
{
    if files.len() > 0 {
        lemma_folder_bounds(files.drop_last(), folder);
    }
}

/// Tells whether the path, given by its bytes, lies beneath the folder.
pub fn lies_beneath_bytes(path: &[u8], folder: &[u8]) -> (beneath: bool)
    ensures
        beneath == bytes_beneath(path@, folder@),
{
    let n = folder.len();
    if n >= path.len() {
        return false;
    }
    let mut i: usize = 0;
    while i < n
        invariant
            i <= n,
            n == folder.len(),
            n < path.len(),
            forall|j: int| 0 <= j < i ==> path@[j] == folder@[j],
        decreases n - i,
    {
        if path[i] != folder[i] {
            assert(path@.take(n as int)[i as int] != folder@[i as int]);
            return false;
        }
        i = i + 1;
    }
    assert(path@.take(n as int) =~= folder@);
    let next = path[n];
    if next == 0x2f || next == 0x5c {
        return true;
    }
    if n == 0 {
        return false;
    }
    let last = folder[n - 1];
    last == 0x2f || last == 0x5c
}

/// Tells whether the path lies beneath the folder.
pub fn lies_beneath(path: &str, folder: &str) -> (beneath: bool)
    ensures
        beneath == is_beneath(path@, folder@),
{
    lies_beneath_bytes(path.as_bytes(), folder.as_bytes())
}

/// Adds up the files that lie beneath the folder, at whatever depth and
/// whether or not a hidden folder lies in between.
pub fn calculate_folder_size(folder: &str, files: &Vec<FileInfo>) -> (summary: FolderSize)
    requires
        total_bytes(files@) <= u64::MAX,
    ensures
        summary.folder@ == folder@,
        summary.size_bytes == folder_bytes(files@, folder@),
        summary.file_count == folder_count(files@, folder@),
{
    let mut size: u64 = 0;
    let mut count: usize = 0;
    let mut i: usize = 0;
    while i < files.len()
        invariant
            i <= files.len(),
            size == folder_bytes(files@.take(i as int), folder@),
            count == folder_count(files@.take(i as int), folder@),
            total_bytes(files@) <= u64::MAX,
        decreases files.len() - i,
    {
        proof {
            let done = files@.take(i + 1);
            assert(done.drop_last() =~= files@.take(i as int));
            assert(files@ =~= done + files@.skip(i + 1));
            lemma_group_concat(done, files@.skip(i + 1), Seq::empty());
            lemma_folder_bounds(done, folder@);
        }
        if lies_beneath(files[i].full_path.as_str(), folder) {
            size = size + files[i].size_bytes;
            count = count + 1;
        }
        i = i + 1;
    }
    assert(files@.take(files@.len() as int) =~= files@);
    FolderSize { folder: folder.to_owned(), size_bytes: size, file_count: count }
}

/// The name is that of a hidden folder: it starts with `HIDDEN_MARKER`.
pub open spec fn is_hidden_name(name: Seq<char>) -> bool {
    name.len() > 0 && name[0] == HIDDEN_MARKER
}

/// The folder is one that a report may list: it lies at depth 1 to
/// `MAX_FOLDER_DEPTH` and its own name is not hidden.
pub open spec fn is_reportable(candidate: FolderCandidate) -> bool {
    1 <= candidate.depth <= MAX_FOLDER_DEPTH && !is_hidden_name(candidate.name@)
}

/// Tells whether a name is that of a hidden folder.
pub fn is_hidden(name: &str) -> (hidden: bool)
    ensures
        hidden == is_hidden_name(name@),
{
    !name.is_empty() && name.get_char(0) == HIDDEN_MARKER
}

/// Tells whether a report may list the folder.
pub fn may_be_reported(candidate: &FolderCandidate) -> (reportable: bool)
    ensures
        reportable == is_reportable(*candidate),
{
    1 <= candidate.depth && candidate.depth <= MAX_FOLDER_DEPTH && !is_hidden(
        candidate.name.as_str(),
    )
}

/// The summary says what the files beneath the folder add up to.
pub open spec fn is_summary_of(
    summary: FolderSize,
    candidate: FolderCandidate,
    files: Seq<FileInfo>,
) -> bool {
    &&& summary.folder@ == candidate.path@
    &&& summary.size_bytes == folder_bytes(files, candidate.path@)
    &&& summary.file_count == folder_count(files, candidate.path@)
}

/// Each summary says what the files beneath its own folder add up to:
/// every file at whatever depth, whether or not a hidden folder lies in
/// between.
pub open spec fn summaries_add_up(summaries: Seq<FolderSize>, files: Seq<FileInfo>) -> bool {
    forall|i: int|
        0 <= i < summaries.len() ==> (#[trigger] summaries[i]).size_bytes == folder_bytes(
            files,
            summaries[i].folder@,
        ) && summaries[i].file_count == folder_count(files, summaries[i].folder@)
}

/// The folders that a report may list.
pub open spec fn reportable() -> spec_fn(FolderCandidate) -> bool {
    |candidate: FolderCandidate| is_reportable(candidate)
}

/// The summaries are those of the folders that a report may list, in the
/// order in which the folders were met.
pub open spec fn summarises(
    summaries: Seq<FolderSize>,
    candidates: Seq<FolderCandidate>,
    files: Seq<FileInfo>,
) -> bool {
    &&& summaries.len() == candidates.filter(reportable()).len()
    &&& forall|i: int|
        0 <= i < summaries.len() ==> is_summary_of(
            #[trigger] summaries[i],
            candidates.filter(reportable())[i],
            files,
        )
}

/// The summaries of the folders that a report may list, in the order in
/// which the folders were met. A hidden folder gets no summary of its own;
/// its files still count for the folders above it.
pub fn folder_sizes(candidates: &Vec<FolderCandidate>, files: &Vec<FileInfo>) -> (summaries: Vec<
    FolderSize,
>)
    requires
        total_bytes(files@) <= u64::MAX,
    ensures
        summarises(summaries@, candidates@, files@),
        summaries_add_up(summaries@, files@),
{
    let ghost listed = reportable();
    let mut summaries: Vec<FolderSize> = Vec::new();
    let mut i: usize = 0;
    proof {
        reveal(Seq::filter);
    }
    while i < candidates.len()
        invariant
            i <= candidates.len(),
            listed == reportable(),
            total_bytes(files@) <= u64::MAX,
            summaries@.len() == candidates@.take(i as int).filter(listed).len(),
            forall|j: int|
                0 <= j < summaries@.len() ==> is_summary_of(
                    #[trigger] summaries@[j],
                    candidates@.take(i as int).filter(listed)[j],
                    files@,
                ),
        decreases candidates.len() - i,
    {
        proof {
            reveal(Seq::filter);
            assert(candidates@.take(i + 1).drop_last() =~= candidates@.take(i as int));
        }
        if may_be_reported(&candidates[i]) {
            summaries.push(calculate_folder_size(candidates[i].path.as_str(), files));
        }
        i = i + 1;
    }
    assert(candidates@.take(candidates@.len() as int) =~= candidates@);
    summaries
}

/// The folders that hold more than `MIN_FOLDER_SIZE_BYTES`.
pub open spec fn large_enough() -> spec_fn(FolderSize) -> bool {
    |summary: FolderSize| summary.size_bytes > MIN_FOLDER_SIZE_BYTES
}

/// The folders that hold more than `MIN_FOLDER_SIZE_BYTES`, the largest
/// first, equal sizes by path. A folder that holds exactly that much is
/// left out. From a list that is ranked already the folders come in the
/// order in which they stand there.
pub fn get_largest_folders(summaries: &Vec<FolderSize>) -> (ranked: Vec<FolderSize>)
    ensures
        is_ranking_of(ranked@, summaries@.filter(large_enough())),
        is_ranked(summaries@) ==> ranked@ == summaries@.filter(large_enough()),
        forall|i: int| 0 <= i < ranked@.len() ==> summaries@.contains(#[trigger] ranked@[i]),
{
    let ghost kept_if = large_enough();
    let mut kept: Vec<FolderSize> = Vec::new();
    let mut i: usize = 0;
    proof {
        reveal(Seq::filter);
    }
    while i < summaries.len()
        invariant
            i <= summaries.len(),
            kept_if == large_enough(),
            kept@ == summaries@.take(i as int).filter(kept_if),
        decreases summaries.len() - i,
    {
        proof {
            reveal(Seq::filter);
            assert(summaries@.take(i + 1).drop_last() =~= summaries@.take(i as int));
        }
        if summaries[i].size_bytes > MIN_FOLDER_SIZE_BYTES {
            kept.push(summaries[i].duplicate());
        }
        i = i + 1;
    }
    assert(summaries@.take(summaries@.len() as int) =~= summaries@);
    let ghost chosen = kept@;
    proof {
        if is_ranked(summaries@) {
            lemma_filter_keeps_rank(summaries@, kept_if);
        }
    }
    let ranked = rank(kept);
    proof {
        assert forall|i: int| 0 <= i < ranked@.len() implies summaries@.contains(
            #[trigger] ranked@[i],
        ) by {
            assert(ranked@.contains(ranked@[i]));
            to_multiset_contains(ranked@, ranked@[i]);
            to_multiset_contains(chosen, ranked@[i]);
            summaries@.lemma_filter_contains_rev(kept_if, ranked@[i]);
        }
    }
    ranked
}

} // verus!
