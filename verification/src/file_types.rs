//! File types: the type of a file is the extension of its name in lower
//! case. This file says what the files of each type add up to.

use crate::constants::NO_EXTENSION;
use crate::types::{text_of, FileInfo, FileTypeStats};
use std::path::Path;
use vstd::prelude::*;
use vstd::seq_lib::{to_multiset_contains, to_multiset_len, to_multiset_remove};

verus! {

/// The extension of the last component of a path, as the standard library
/// takes a path apart on the system at hand; `None` where that component
/// has none.
pub uninterp spec fn extension_of(path: Seq<char>) -> Option<Seq<char>>;

/// A text in lower case, as the standard library puts it.
pub uninterp spec fn lowercase_of(text: Seq<char>) -> Seq<char>;

/// Asks the standard library's `Path::extension` for the extension of a
/// path. Claimed of it, not proved: the result depends on the path alone,
/// which is what `extension_of` names.
#[verifier::external_body]
fn path_extension(path: &str) -> (extension: Option<String>)
    ensures
        text_of(extension) == extension_of(path@),
{
    match Path::new(path).extension() {
        Some(text) => Some(text.to_string_lossy().into_owned()),
        None => None,
    }
}

/// Puts a text in lower case with the standard library's
/// `str::to_lowercase`. Claimed of it, not proved: the result depends on the
/// text alone, which is what `lowercase_of` names.
#[verifier::external_body]
pub(crate) fn lowercase(text: &str) -> (lower: String)
    ensures
        lower@ == lowercase_of(text@),
{
    text.to_lowercase()
}

/// The file type that goes with an extension: the extension in lower case,
/// and `NO_EXTENSION` where there is none.
pub open spec fn file_type_for(extension: Option<Seq<char>>) -> Seq<char> {
    match extension {
        Some(text) => lowercase_of(text),
        None => NO_EXTENSION@,
    }
}

/// The file type of the file at a path.
pub open spec fn file_type_of(path: Seq<char>) -> Seq<char> {
    file_type_for(extension_of(path))
}

/// Names the file type that goes with an extension.
pub fn file_type_label(extension: Option<String>) -> (label: String)
    ensures
        label@ == file_type_for(text_of(extension)),
{
    match extension {
        Some(text) => lowercase(text.as_str()),
        None => NO_EXTENSION.to_owned(),
    }
}

/// Names the file type of the file at a path.
pub fn file_type(path: &str) -> (label: String)
    ensures
        label@ == file_type_of(path@),
{
    file_type_label(path_extension(path))
}

/// What the files of one type add up to: bytes and number of files.
pub struct Total {
    pub bytes: nat,
    pub count: nat,
}

/// What a file adds to the bytes of a file type: its size if it is of that
/// type, nothing otherwise.
pub open spec fn bytes_added(file: FileInfo, file_type: Seq<char>) -> nat {
    if file_type_of(file.full_path@) == file_type {
        file.size_bytes as nat
    } else {
        0
    }
}

/// What a file adds to the count of a file type: one if it is of that type.
pub open spec fn count_added(file: FileInfo, file_type: Seq<char>) -> nat {
    if file_type_of(file.full_path@) == file_type {
        1
    } else {
        0
    }
}

/// The bytes that the files of one type hold together.
pub open spec fn group_bytes(files: Seq<FileInfo>, file_type: Seq<char>) -> nat
    decreases files.len(),
{
    if files.len() == 0 {
        0
    } else {
        group_bytes(files.drop_last(), file_type) + bytes_added(files.last(), file_type)
    }
}

/// The number of files of one type.
pub open spec fn group_count(files: Seq<FileInfo>, file_type: Seq<char>) -> nat
    decreases files.len(),
{
    if files.len() == 0 {
        0
    } else {
        group_count(files.drop_last(), file_type) + count_added(files.last(), file_type)
    }
}

/// The bytes that all the files hold together.
pub open spec fn total_bytes(files: Seq<FileInfo>) -> nat
    decreases files.len(),
{
    if files.len() == 0 {
        0
    } else {
        total_bytes(files.drop_last()) + files.last().size_bytes as nat
    }
}

/// The tally of a file list: for each file type that occurs, what its files
/// add up to.
pub open spec fn tally_of(files: Seq<FileInfo>) -> Map<Seq<char>, Total> {
    Map::new(
        |file_type: Seq<char>| group_count(files, file_type) > 0,
        |file_type: Seq<char>|
            Total {
                bytes: group_bytes(files, file_type),
                count: group_count(files, file_type),
            },
    )
}

/// The bytes that a tally holds for a file type; none where the type does
/// not occur.
pub open spec fn bytes_in(tally: Map<Seq<char>, Total>, file_type: Seq<char>) -> nat {
    if tally.dom().contains(file_type) {
        tally[file_type].bytes
    } else {
        0
    }
}

/// The number of files that a tally holds for a file type.
pub open spec fn count_in(tally: Map<Seq<char>, Total>, file_type: Seq<char>) -> nat {
    if tally.dom().contains(file_type) {
        tally[file_type].count
    } else {
        0
    }
}

/// A tally after more files of one type came in: the totals of that type
/// grow by what came, the other types stay.
pub open spec fn with_added(
    tally: Map<Seq<char>, Total>,
    file_type: Seq<char>,
    added: Total,
) -> Map<Seq<char>, Total> {
    tally.insert(
        file_type,
        Total {
            bytes: bytes_in(tally, file_type) + added.bytes,
            count: count_in(tally, file_type) + added.count,
        },
    )
}

/// Two tallies put together: every file type of either, with the sums.
pub open spec fn merged(a: Map<Seq<char>, Total>, b: Map<Seq<char>, Total>) -> Map<
    Seq<char>,
    Total,
> {
    Map::new(
        |file_type: Seq<char>| a.dom().contains(file_type) || b.dom().contains(file_type),
        |file_type: Seq<char>|
            Total {
                bytes: bytes_in(a, file_type) + bytes_in(b, file_type),
                count: count_in(a, file_type) + count_in(b, file_type),
            },
    )
}

/// The totals as the record of a file type holds them.
pub open spec fn total_of(stats: FileTypeStats) -> Total {
    Total { bytes: stats.total_size as nat, count: stats.count as nat }
}

/// Counting one file more: the tally of a list with one file added at its
/// end is the tally of the list with that file's size and one file added to
/// the file's type.
pub proof fn lemma_tally_with_file(files: Seq<FileInfo>, file: FileInfo)
    ensures
        tally_of(files.push(file)) == with_added(
            tally_of(files),
            file_type_of(file.full_path@),
            Total { bytes: file.size_bytes as nat, count: 1 },
        ),
{
    let longer = files.push(file);
    assert(longer.drop_last() =~= files);
    assert forall|file_type: Seq<char>| group_count(files, file_type) == 0 implies group_bytes(
        files,
        file_type,
    ) == 0 by {
        lemma_group_bounds(files, file_type);
    }
    assert(tally_of(longer) =~= with_added(
        tally_of(files),
        file_type_of(file.full_path@),
        Total { bytes: file.size_bytes as nat, count: 1 },
    ));
}

/// A group is part of the whole: its bytes are at most all bytes, its files
/// at most all files, and a group without files holds no bytes.
pub proof fn lemma_group_bounds(files: Seq<FileInfo>, file_type: Seq<char>)
    ensures
        group_bytes(files, file_type) <= total_bytes(files),
        group_count(files, file_type) <= files.len(),
        group_count(files, file_type) == 0 ==> group_bytes(files, file_type) == 0,
    decreases files.len(),
{
    if files.len() > 0 {
        lemma_group_bounds(files.drop_last(), file_type);
    }
}

/// The groups of two lists laid end to end are the sums of their groups.
pub proof fn lemma_group_concat(a: Seq<FileInfo>, b: Seq<FileInfo>, file_type: Seq<char>)
    ensures
        group_bytes(a + b, file_type) == group_bytes(a, file_type) + group_bytes(b, file_type),
        group_count(a + b, file_type) == group_count(a, file_type) + group_count(b, file_type),
        total_bytes(a + b) == total_bytes(a) + total_bytes(b),
    decreases b.len(),
{
    if b.len() == 0 {
        assert(a + b =~= a);
    } else {
        assert((a + b).drop_last() =~= a + b.drop_last());
        assert((a + b).last() == b.last());
        lemma_group_concat(a, b.drop_last(), file_type);
    }
}

/// Splitting does not matter: the tallies of two lists, put together, are
/// the tally of the two lists laid end to end.
pub proof fn lemma_tally_concat(a: Seq<FileInfo>, b: Seq<FileInfo>)
    ensures
        merged(tally_of(a), tally_of(b)) == tally_of(a + b),
{
    assert forall|file_type: Seq<char>|
        group_bytes(a + b, file_type) == group_bytes(a, file_type) + group_bytes(b, file_type)
            && group_count(a + b, file_type) == group_count(a, file_type) + group_count(
            b,
            file_type,
        ) && (group_count(a, file_type) == 0 ==> group_bytes(a, file_type) == 0) && (group_count(
            b,
            file_type,
        ) == 0 ==> group_bytes(b, file_type) == 0) by {
        lemma_group_concat(a, b, file_type);
        lemma_group_bounds(a, file_type);
        lemma_group_bounds(b, file_type);
    }
    assert(merged(tally_of(a), tally_of(b)) =~= tally_of(a + b));
}

/// Putting tallies together is a commutative monoid: the empty tally
/// changes nothing, and neither the order nor the grouping matters.
pub proof fn lemma_merged_monoid(
    a: Map<Seq<char>, Total>,
    b: Map<Seq<char>, Total>,
    c: Map<Seq<char>, Total>,
)
    ensures
        merged(a, Map::empty()) == a,
        merged(Map::empty(), a) == a,
        merged(a, b) == merged(b, a),
        merged(merged(a, b), c) == merged(a, merged(b, c)),
{
    assert(merged(a, Map::empty()) =~= a);
    assert(merged(Map::empty(), a) =~= a);
    assert(merged(a, b) =~= merged(b, a));
    assert(merged(merged(a, b), c) =~= merged(a, merged(b, c)));
}

/// Taking one file out of a list takes out of each group what that file
/// added to it.
pub proof fn lemma_group_remove(files: Seq<FileInfo>, at: int, file_type: Seq<char>)
    requires
        0 <= at < files.len(),
    ensures
        group_bytes(files, file_type) == group_bytes(files.remove(at), file_type) + bytes_added(
            files[at],
            file_type,
        ),
        group_count(files, file_type) == group_count(files.remove(at), file_type) + count_added(
            files[at],
            file_type,
        ),
        total_bytes(files) == total_bytes(files.remove(at)) + files[at].size_bytes,
{
    let front = files.take(at);
    let one = seq![files[at]];
    let back = files.skip(at + 1);
    assert(files =~= front + one + back);
    assert(files.remove(at) =~= front + back);
    lemma_group_concat(front, one, file_type);
    lemma_group_concat(front + one, back, file_type);
    lemma_group_concat(front, back, file_type);
    assert(one.drop_last() =~= Seq::<FileInfo>::empty());
    assert(group_bytes(one.drop_last(), file_type) == 0);
    assert(group_count(one.drop_last(), file_type) == 0);
    assert(total_bytes(one.drop_last()) == 0);
    assert(group_bytes(one, file_type) == bytes_added(files[at], file_type));
    assert(group_count(one, file_type) == count_added(files[at], file_type));
    assert(total_bytes(one) == files[at].size_bytes);
}

/// The order of the files does not matter: two lists of the same files have
/// the same groups and the same tally.
pub proof fn lemma_tally_order_independent(a: Seq<FileInfo>, b: Seq<FileInfo>)
    requires
        a.to_multiset() == b.to_multiset(),
    ensures
        tally_of(a) == tally_of(b),
        total_bytes(a) == total_bytes(b),
        forall|file_type: Seq<char>|
            group_bytes(a, file_type) == group_bytes(b, file_type) && group_count(a, file_type)
                == group_count(b, file_type),
    decreases a.len(),
{
    to_multiset_len(a);
    to_multiset_len(b);
    if a.len() > 0 {
        let last = a.last();
        assert(a.contains(last));
        to_multiset_contains(a, last);
        to_multiset_contains(b, last);
        let at = choose|at: int| 0 <= at < b.len() && b[at] == last;
        assert(a.drop_last() =~= a.remove(a.len() - 1));
        to_multiset_remove(a, a.len() - 1);
        to_multiset_remove(b, at);
        lemma_tally_order_independent(a.drop_last(), b.remove(at));
        assert forall|file_type: Seq<char>|
            group_bytes(a, file_type) == group_bytes(b, file_type) && group_count(a, file_type)
                == group_count(b, file_type) by {
            lemma_group_remove(b, at, file_type);
        }
        lemma_group_remove(b, at, NO_EXTENSION@);
    }
    assert(tally_of(a) =~= tally_of(b));
}

} // verus!
