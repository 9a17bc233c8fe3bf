//! The distribution by file type of a file list.

use crate::constants::MIN_FILE_TYPE_SIZE_BYTES;
use crate::file_types::{
    bytes_added, bytes_in, count_in, file_type, file_type_of, group_bytes, group_count,
    lemma_tally_concat, lemma_tally_order_independent, merged, tally_of, total_bytes, total_of,
    with_added, Total,
};
use crate::ranking::{holds_equal, lemma_ranked_agree, ranks_equal};
use crate::tally::{distinct_types, has_type, is_distribution_of, ExtensionTally};
use crate::types::{FileInfo, FileTypeEntry};
use rayon::iter::{IntoParallelRefIterator, ParallelIterator};
use vstd::prelude::*;

verus! {

/// The parts of a split list laid end to end again.
pub open spec fn joined(parts: Seq<Seq<FileInfo>>) -> Seq<FileInfo>
    decreases parts.len(),
{
    if parts.len() == 0 {
        Seq::empty()
    } else {
        joined(parts.drop_last()) + parts.last()
    }
}

/// The tallies of the parts of a split list, put together one after the
/// other.
pub open spec fn tally_of_parts(parts: Seq<Seq<FileInfo>>) -> Map<Seq<char>, Total>
    decreases parts.len(),
{
    if parts.len() == 0 {
        Map::empty()
    } else {
        merged(tally_of_parts(parts.drop_last()), tally_of(parts.last()))
    }
}

/// The tally is what some split of the list into parts gives: the tallies
/// of the parts, put together one after the other.
pub open spec fn tallies_some_split(tally: Map<Seq<char>, Total>, files: Seq<FileInfo>) -> bool {
    exists|parts: Seq<Seq<FileInfo>>|
        joined(parts) == files && tally == #[trigger] tally_of_parts(parts)
}

/// However a list is split into parts, the tallies of the parts put
/// together are the tally of the whole list.
pub proof fn lemma_tally_of_parts(parts: Seq<Seq<FileInfo>>)
    ensures
        tally_of_parts(parts) == tally_of(joined(parts)),
    decreases parts.len(),
{
    if parts.len() == 0 {
        assert(tally_of(Seq::<FileInfo>::empty()) =~= Map::<Seq<char>, Total>::empty());
    } else {
        lemma_tally_of_parts(parts.drop_last());
        lemma_tally_concat(joined(parts.drop_last()), parts.last());
    }
}

/// The tally with one more file counted.
fn tally_with_file(tally: ExtensionTally, file: &FileInfo) -> (counted: ExtensionTally)
    requires
        bytes_in(tally@, file_type_of(file.full_path@)) + file.size_bytes <= u64::MAX,
        count_in(tally@, file_type_of(file.full_path@)) < usize::MAX,
    ensures
        counted@ == with_added(
            tally@,
            file_type_of(file.full_path@),
            Total { bytes: file.size_bytes as nat, count: 1 },
        ),
{
    tally.record(file_type(file.full_path.as_str()), file.size_bytes)
}

/// Tallies the files with rayon's `par_iter`, `fold` and `reduce`: rayon
/// splits the list into parts where it sees fit, each part is tallied file
/// by file from the empty tally, and the tallies of the parts are put
/// together. Claimed of it, not proved: the result is what the tallies of
/// the parts of some split of the list give when they are put together one
/// after the other. That tallying a part file by file gives the tally of
/// the part is `lemma_tally_with_file`. Rayon may put the tallies together
/// in another grouping, and with empty tallies in between;
/// `lemma_merged_monoid` shows that this gives the same.
#[verifier::external_body]
fn par_tally(files: &Vec<FileInfo>) -> (tally: ExtensionTally)
    requires
        total_bytes(files@) <= u64::MAX,
    ensures
        tallies_some_split(tally@, files@),
{
    files.par_iter().fold(ExtensionTally::new, |tally, file| tally_with_file(tally, file)).reduce(
        ExtensionTally::new,
        |a, b| a.merge(b),
    )
}

/// Two lists of lines say the same: they have the same length, and place by
/// place the same file type with the same totals.
pub open spec fn same_lines(first: Seq<FileTypeEntry>, second: Seq<FileTypeEntry>) -> bool {
    &&& first.len() == second.len()
    &&& forall|i: int|
        0 <= i < first.len() ==> (#[trigger] first[i]).extension@ == second[i].extension@
            && first[i].stats == second[i].stats
}

/// A tally has one distribution only: two lists of lines that both say what
/// the tally holds say the same.
pub proof fn lemma_distribution_settled(
    first: Seq<FileTypeEntry>,
    second: Seq<FileTypeEntry>,
    tally: Map<Seq<char>, Total>,
)
    requires
        is_distribution_of(first, tally),
        is_distribution_of(second, tally),
    ensures
        same_lines(first, second),
{
    assert forall|i: int| 0 <= i < first.len() implies holds_equal(
        second,
        #[trigger] first[i],
    ) by {
        let file_type = first[i].extension@;
        assert(tally.dom().contains(first[i].extension@));
        assert(has_type(second, file_type));
        let j = choose|j: int| 0 <= j < second.len() && second[j].extension@ == file_type;
        assert(tally[second[j].extension@] == total_of(second[j].stats));
        assert(ranks_equal(second[j], first[i]));
    }
    assert forall|j: int| 0 <= j < second.len() implies holds_equal(
        first,
        #[trigger] second[j],
    ) by {
        let file_type = second[j].extension@;
        assert(tally.dom().contains(second[j].extension@));
        assert(has_type(first, file_type));
        let i = choose|i: int| 0 <= i < first.len() && first[i].extension@ == file_type;
        assert(tally[first[i].extension@] == total_of(first[i].stats));
        assert(ranks_equal(first[i], second[j]));
    }
    lemma_ranked_agree(first, second);
    assert forall|i: int| 0 <= i < first.len() implies (#[trigger] first[i]).extension@
        == second[i].extension@ && first[i].stats == second[i].stats by {
        assert(ranks_equal(first[i], second[i]));
        assert(tally[first[i].extension@] == total_of(first[i].stats));
        assert(tally[second[i].extension@] == total_of(second[i].stats));
    }
}

/// The distribution does not depend on the order in which the files are
/// met: the distributions of two lists of the same files say the same.
pub proof fn lemma_distribution_order_independent(
    files: Seq<FileInfo>,
    reordered: Seq<FileInfo>,
    lines: Seq<FileTypeEntry>,
    other_lines: Seq<FileTypeEntry>,
)
    requires
        files.to_multiset() == reordered.to_multiset(),
        is_distribution_of(lines, tally_of(files)),
        is_distribution_of(other_lines, tally_of(reordered)),
    ensures
        same_lines(lines, other_lines),
{
    lemma_tally_order_independent(files, reordered);
    lemma_distribution_settled(lines, other_lines, tally_of(files));
}

/// The bytes that the lines of a distribution list together.
pub open spec fn listed_bytes(lines: Seq<FileTypeEntry>) -> nat
    decreases lines.len(),
{
    if lines.len() == 0 {
        0
    } else {
        listed_bytes(lines.drop_last()) + lines.last().stats.total_size as nat
    }
}

/// The bytes that the files hold in the file types of the given lines.
pub open spec fn bytes_in_types(lines: Seq<FileTypeEntry>, files: Seq<FileInfo>) -> nat
    decreases lines.len(),
{
    if lines.len() == 0 {
        0
    } else {
        bytes_in_types(lines.drop_last(), files) + group_bytes(files, lines.last().extension@)
    }
}

/// What one file adds to the bytes of the file types of the given lines.
pub open spec fn bytes_added_to_types(lines: Seq<FileTypeEntry>, file: FileInfo) -> nat
    decreases lines.len(),
{
    if lines.len() == 0 {
        0
    } else {
        bytes_added_to_types(lines.drop_last(), file) + bytes_added(file, lines.last().extension@)
    }
}

/// Among lines of different types a file is counted once at most: it adds
/// its size where its type has a line, and nothing otherwise.
pub proof fn lemma_file_counted_once(lines: Seq<FileTypeEntry>, file: FileInfo)
    requires
        distinct_types(lines),
    ensures
        bytes_added_to_types(lines, file) == if has_type(lines, file_type_of(file.full_path@)) {
            file.size_bytes as nat
        } else {
            0
        },
    decreases lines.len(),
{
    let file_type = file_type_of(file.full_path@);
    if lines.len() > 0 {
        let front = lines.drop_last();
        lemma_file_counted_once(front, file);
        if has_type(front, file_type) {
            let i = choose|i: int| 0 <= i < front.len() && front[i].extension@ == file_type;
            assert(lines[i].extension@ == file_type);
            assert(lines[i].extension@ != lines[lines.len() - 1].extension@);
        } else if lines.last().extension@ == file_type {
            assert(lines[lines.len() - 1].extension@ == file_type);
        } else if has_type(lines, file_type) {
            let i = choose|i: int| 0 <= i < lines.len() && lines[i].extension@ == file_type;
            assert(front[i].extension@ == file_type);
        }
    }
}

/// One file more adds to the bytes of the listed types what it adds to them.
pub proof fn lemma_bytes_in_types_step(lines: Seq<FileTypeEntry>, files: Seq<FileInfo>)
    requires
        files.len() > 0,
    ensures
        bytes_in_types(lines, files) == bytes_in_types(lines, files.drop_last())
            + bytes_added_to_types(lines, files.last()),
    decreases lines.len(),
{
    if lines.len() > 0 {
        lemma_bytes_in_types_step(lines.drop_last(), files);
    }
}

/// The listed types hold no more than all the files hold, and as much
/// where every file is of a listed type.
pub proof fn lemma_bytes_in_types_bound(lines: Seq<FileTypeEntry>, files: Seq<FileInfo>)
    requires
        distinct_types(lines),
    ensures
        bytes_in_types(lines, files) <= total_bytes(files),
        (forall|i: int|
            0 <= i < files.len() ==> has_type(lines, file_type_of(#[trigger] files[i].full_path@)))
            ==> bytes_in_types(lines, files) == total_bytes(files),
    decreases files.len(),
{
    if files.len() == 0 {
        assert(files =~= Seq::<FileInfo>::empty());
        lemma_bytes_in_types_empty(lines);
    } else {
        let front = files.drop_last();
        lemma_bytes_in_types_bound(lines, front);
        lemma_bytes_in_types_step(lines, files);
        lemma_file_counted_once(lines, files.last());
        if forall|i: int|
            0 <= i < files.len() ==> has_type(lines, file_type_of(#[trigger] files[i].full_path@)) {
            assert forall|i: int| 0 <= i < front.len() implies has_type(
                lines,
                file_type_of(#[trigger] front[i].full_path@),
            ) by {
                assert(front[i] == files[i]);
            }
            assert(has_type(lines, file_type_of(files[files.len() - 1].full_path@)));
        }
    }
}

/// No files hold no bytes, whatever the types.
pub proof fn lemma_bytes_in_types_empty(lines: Seq<FileTypeEntry>)
    ensures
        bytes_in_types(lines, Seq::<FileInfo>::empty()) == 0,
    decreases lines.len(),
{
    if lines.len() > 0 {
        lemma_bytes_in_types_empty(lines.drop_last());
    }
}

/// Where each line gives the bytes of its file type, the lines list the
/// bytes that the files hold in those types.
pub proof fn lemma_listed_bytes(lines: Seq<FileTypeEntry>, files: Seq<FileInfo>)
    requires
        forall|i: int|
            0 <= i < lines.len() ==> (#[trigger] lines[i]).stats.total_size == group_bytes(
                files,
                lines[i].extension@,
            ),
    ensures
        listed_bytes(lines) == bytes_in_types(lines, files),
    decreases lines.len(),
{
    if lines.len() > 0 {
        let front = lines.drop_last();
        assert forall|i: int| 0 <= i < front.len() implies (#[trigger] front[i]).stats.total_size
            == group_bytes(files, front[i].extension@) by {
            assert(front[i] == lines[i]);
        }
        lemma_listed_bytes(front, files);
        assert(lines.last() == lines[lines.len() - 1]);
    }
}

/// Every file is of a file type that the tally of its list holds.
pub proof fn lemma_type_occurs(files: Seq<FileInfo>, at: int)
    requires
        0 <= at < files.len(),
    ensures
        group_count(files, file_type_of(files[at].full_path@)) > 0,
    decreases files.len(),
{
    if at < files.len() - 1 {
        lemma_type_occurs(files.drop_last(), at);
    }
}

/// Every file type that occurs among the files holds more than
/// `MIN_FILE_TYPE_SIZE_BYTES`, so that the distribution drops none.
pub open spec fn nothing_dropped(files: Seq<FileInfo>) -> bool {
    forall|file_type: Seq<char>|
        group_count(files, file_type) > 0 ==> group_bytes(files, file_type)
            > MIN_FILE_TYPE_SIZE_BYTES
}

/// The distribution lists no more bytes than the files hold together, and
/// exactly as many where no file type falls under the threshold.
pub proof fn lemma_distribution_within_total(lines: Seq<FileTypeEntry>, files: Seq<FileInfo>)
    requires
        is_distribution_of(lines, tally_of(files)),
    ensures
        listed_bytes(lines) <= total_bytes(files),
        nothing_dropped(files) ==> listed_bytes(lines) == total_bytes(files),
{
    let tally = tally_of(files);
    assert forall|i: int| 0 <= i < lines.len() implies (#[trigger] lines[i]).stats.total_size
        == group_bytes(files, lines[i].extension@) by {
        assert(tally.dom().contains(lines[i].extension@));
        assert(tally[lines[i].extension@] == total_of(lines[i].stats));
    }
    lemma_listed_bytes(lines, files);
    lemma_bytes_in_types_bound(lines, files);
    if nothing_dropped(files) {
        assert forall|i: int| 0 <= i < files.len() implies has_type(
            lines,
            file_type_of(#[trigger] files[i].full_path@),
        ) by {
            let file_type = file_type_of(files[i].full_path@);
            lemma_type_occurs(files, i);
            assert(tally.dom().contains(file_type));
            assert(tally[file_type].bytes > MIN_FILE_TYPE_SIZE_BYTES);
        }
    }
}

/// The distribution by file type of a file list: a line for each file type
/// whose files hold more than `MIN_FILE_TYPE_SIZE_BYTES` together, with the
/// bytes and the number of those files; the largest type first, equal sizes
/// by the name of the type. The lines list no more bytes than the files
/// hold.
pub fn get_file_type_distribution(files: &Vec<FileInfo>) -> (lines: Vec<FileTypeEntry>)
    requires
        total_bytes(files@) <= u64::MAX,
    ensures
        is_distribution_of(lines@, tally_of(files@)),
        listed_bytes(lines@) <= total_bytes(files@),
        nothing_dropped(files@) ==> listed_bytes(lines@) == total_bytes(files@),
{
    let tally = par_tally(files);
    proof {
        let parts = choose|parts: Seq<Seq<FileInfo>>|
            joined(parts) == files@ && tally@ == #[trigger] tally_of_parts(parts);
        lemma_tally_of_parts(parts);
    }
    let lines = tally.into_distribution();
    proof {
        lemma_distribution_within_total(lines@, files@);
    }
    lines
}

} // verus!
