//! The views of a file list: the largest files, and the large files that
//! were modified lately or long ago.

use crate::ranking::{is_ranked, is_ranking_of, lemma_filter_keeps_rank, rank};
use crate::timestamps::{
    is_before_window, is_within_window, modification_time, modified_at, stamp_before,
    stamp_within,
};
use crate::types::FileInfo;
use vstd::prelude::*;

verus! {

/// The files that were modified within the `days` days before `now`.
pub open spec fn modified_within(now: i64, days: u32) -> spec_fn(FileInfo) -> bool {
    |file: FileInfo| stamp_within(modified_at(file), now, days)
}

/// The files that were last modified more than `days` days before `now`.
pub open spec fn modified_before(now: i64, days: u32) -> spec_fn(FileInfo) -> bool {
    |file: FileInfo| stamp_before(modified_at(file), now, days)
}

/// A copy of a file list.
pub fn duplicate_files(files: &Vec<FileInfo>) -> (copy: Vec<FileInfo>)
    ensures
        copy@ == files@,
{
    let mut copy: Vec<FileInfo> = Vec::new();
    let mut i: usize = 0;
    while i < files.len()
        invariant
            i <= files.len(),
            copy@ == files@.take(i as int),
        decreases files.len() - i,
    {
        copy.push(files[i].duplicate());
        assert(files@.take(i + 1) =~= files@.take(i as int).push(files@[i as int]));
        i = i + 1;
    }
    assert(files@.take(files.len() as int) =~= files@);
    copy
}

/// All files, largest first; files of one size by path. A list that is
/// ranked already comes back as it is.
pub fn largest_files(files: &Vec<FileInfo>) -> (ranked: Vec<FileInfo>)
    ensures
        is_ranking_of(ranked@, files@),
        is_ranked(files@) ==> ranked@ == files@,
{
    rank(duplicate_files(files))
}

/// The files on one side of the window of `days` days before `now`:
/// inside it where `within` is set, before it otherwise.
pub open spec fn on_side(now: i64, days: u32, within: bool) -> spec_fn(FileInfo) -> bool {
    if within {
        modified_within(now, days)
    } else {
        modified_before(now, days)
    }
}

/// Copies of the files on one side of the window, in the order given.
fn files_on_side(files: &Vec<FileInfo>, now: i64, days: u32, within: bool) -> (kept: Vec<FileInfo>)
    ensures
        kept@ == files@.filter(on_side(now, days, within)),
{
    let ghost kept_if = on_side(now, days, within);
    let mut kept: Vec<FileInfo> = Vec::new();
    let mut i: usize = 0;
    proof {
        reveal(Seq::filter);
    }
    while i < files.len()
        invariant
            i <= files.len(),
            kept_if == on_side(now, days, within),
            kept@ == files@.take(i as int).filter(kept_if),
        decreases files.len() - i,
    {
        proof {
            reveal(Seq::filter);
            assert(files@.take(i + 1).drop_last() =~= files@.take(i as int));
        }
        let stamp = modification_time(&files[i]);
        let keep = if within {
            is_within_window(stamp, now, days)
        } else {
            is_before_window(stamp, now, days)
        };
        if keep {
            kept.push(files[i].duplicate());
        }
        i = i + 1;
    }
    assert(files@.take(files.len() as int) =~= files@);
    kept
}

/// The files that were modified within the `days` days before `now`,
/// largest first; files of one size by path. A file without a readable time
/// of modification is left out. From a list that is ranked already the
/// files come in the order in which they stand there.
pub fn files_modified_within(files: &Vec<FileInfo>, now: i64, days: u32) -> (ranked: Vec<
    FileInfo,
>)
    ensures
        is_ranking_of(ranked@, files@.filter(modified_within(now, days))),
        is_ranked(files@) ==> ranked@ == files@.filter(modified_within(now, days)),
{
    proof {
        if is_ranked(files@) {
            lemma_filter_keeps_rank(files@, modified_within(now, days));
        }
    }
    rank(files_on_side(files, now, days, true))
}

/// The files that were last modified more than `days` days before `now`,
/// largest first; files of one size by path. A file without a readable time
/// of modification is left out. From a list that is ranked already the
/// files come in the order in which they stand there.
pub fn files_modified_before(files: &Vec<FileInfo>, now: i64, days: u32) -> (ranked: Vec<
    FileInfo,
>)
    ensures
        is_ranking_of(ranked@, files@.filter(modified_before(now, days))),
        is_ranked(files@) ==> ranked@ == files@.filter(modified_before(now, days)),
{
    proof {
        if is_ranked(files@) {
            lemma_filter_keeps_rank(files@, modified_before(now, days));
        }
    }
    rank(files_on_side(files, now, days, false))
}

} // verus!
