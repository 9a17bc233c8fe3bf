//! The running tally of file types, from which the distribution by file
//! type is read off.

use crate::constants::MIN_FILE_TYPE_SIZE_BYTES;
use crate::file_types::{bytes_in, count_in, merged, total_of, with_added, Total};
use crate::ranking::{is_ranked, rank};
use crate::types::{FileTypeEntry, FileTypeStats};
use vstd::hash_map::StringHashMap;
use vstd::prelude::*;
use vstd::seq_lib::to_multiset_contains;

verus! {

/// The tally that a list of lines stands for: each line gives the totals of
/// its file type, a later line replacing an earlier one of the same type.
pub open spec fn lines_tally(lines: Seq<FileTypeEntry>) -> Map<Seq<char>, Total>
    decreases lines.len(),
{
    if lines.len() == 0 {
        Map::empty()
    } else {
        lines_tally(lines.drop_last()).insert(lines.last().extension@, total_of(lines.last().stats))
    }
}

/// No file type has two lines.
pub open spec fn distinct_types(lines: Seq<FileTypeEntry>) -> bool {
    forall|i: int, j: int|
        0 <= i < j < lines.len() ==> lines[i].extension@ != lines[j].extension@
}

/// Some line is of the given file type.
pub open spec fn has_type(lines: Seq<FileTypeEntry>, file_type: Seq<char>) -> bool {
    exists|i: int| 0 <= i < lines.len() && lines[i].extension@ == file_type
}

/// In a list without repeated types, the tally holds exactly the types of
/// the lines, each with the totals of its line.
pub proof fn lemma_lines_tally(lines: Seq<FileTypeEntry>)
    requires
        distinct_types(lines),
    ensures
        forall|file_type: Seq<char>|
            lines_tally(lines).dom().contains(file_type) <==> has_type(lines, file_type),
        forall|i: int|
            0 <= i < lines.len() ==> lines_tally(lines).dom().contains(
                #[trigger] lines[i].extension@,
            ) && lines_tally(lines)[lines[i].extension@] == total_of(lines[i].stats),
    decreases lines.len(),
{
    if lines.len() > 0 {
        let front = lines.drop_last();
        lemma_lines_tally(front);
        assert forall|file_type: Seq<char>|
            lines_tally(lines).dom().contains(file_type) <==> has_type(lines, file_type) by {
            if has_type(lines, file_type) {
                let i = choose|i: int| 0 <= i < lines.len() && lines[i].extension@ == file_type;
                if i < front.len() {
                    assert(front[i].extension@ == file_type);
                    assert(has_type(front, file_type));
                }
            }
            if lines_tally(lines).dom().contains(file_type) {
                if file_type == lines.last().extension@ {
                    assert(lines[lines.len() - 1].extension@ == file_type);
                } else {
                    assert(has_type(front, file_type));
                    let i = choose|i: int| 0 <= i < front.len() && front[i].extension@ == file_type;
                    assert(lines[i].extension@ == file_type);
                }
            }
        }
        assert forall|i: int| 0 <= i < lines.len() implies lines_tally(lines).dom().contains(
            #[trigger] lines[i].extension@,
        ) && lines_tally(lines)[lines[i].extension@] == total_of(lines[i].stats) by {
            if i < front.len() {
                assert(front[i] == lines[i]);
                assert(lines[i].extension@ != lines[lines.len() - 1].extension@);
            }
        }
    }
}

/// Replacing the totals of one line replaces the totals of its file type.
pub proof fn lemma_lines_tally_update(lines: Seq<FileTypeEntry>, at: int, line: FileTypeEntry)
    requires
        distinct_types(lines),
        0 <= at < lines.len(),
        line.extension@ == lines[at].extension@,
    ensures
        distinct_types(lines.update(at, line)),
        lines_tally(lines.update(at, line)) == lines_tally(lines).insert(
            line.extension@,
            total_of(line.stats),
        ),
{
    let changed = lines.update(at, line);
    assert(distinct_types(changed)) by {
        assert forall|i: int, j: int| 0 <= i < j < changed.len() implies changed[i].extension@
            != changed[j].extension@ by {
            assert(changed[i].extension@ == lines[i].extension@);
            assert(changed[j].extension@ == lines[j].extension@);
        }
    }
    lemma_lines_tally(lines);
    lemma_lines_tally(changed);
    let before = lines_tally(lines).insert(line.extension@, total_of(line.stats));
    let after = lines_tally(changed);
    assert forall|file_type: Seq<char>| before.dom().contains(file_type) <==> after.dom().contains(
        file_type,
    ) by {
        if has_type(lines, file_type) {
            let i = choose|i: int| 0 <= i < lines.len() && lines[i].extension@ == file_type;
            assert(changed[i].extension@ == file_type);
        }
        if has_type(changed, file_type) {
            let i = choose|i: int| 0 <= i < changed.len() && changed[i].extension@ == file_type;
            assert(lines[i].extension@ == file_type);
        }
        if file_type == line.extension@ {
            assert(changed[at].extension@ == file_type);
        }
    }
    assert forall|file_type: Seq<char>| before.dom().contains(file_type) implies before[file_type]
        == after[file_type] by {
        if file_type == line.extension@ {
            assert(after[changed[at].extension@] == total_of(changed[at].stats));
        } else {
            assert(has_type(lines, file_type));
            let i = choose|i: int| 0 <= i < lines.len() && lines[i].extension@ == file_type;
            assert(changed[i] == lines[i]);
            assert(after[changed[i].extension@] == total_of(changed[i].stats));
            assert(lines_tally(lines)[lines[i].extension@] == total_of(lines[i].stats));
        }
    }
    assert(before =~= after);
}

/// The lines say what the tally holds: they are ranked, no file type has
/// two lines, each line gives the tally's totals of its type, and the types
/// with a line are those that hold more than `MIN_FILE_TYPE_SIZE_BYTES`.
pub open spec fn is_distribution_of(
    lines: Seq<FileTypeEntry>,
    tally: Map<Seq<char>, Total>,
) -> bool {
    &&& is_ranked(lines)
    &&& distinct_types(lines)
    &&& forall|i: int|
        0 <= i < lines.len() ==> tally.dom().contains(#[trigger] lines[i].extension@)
            && tally[lines[i].extension@] == total_of(lines[i].stats) && lines[i].stats.total_size
            > MIN_FILE_TYPE_SIZE_BYTES
    &&& forall|file_type: Seq<char>|
        tally.dom().contains(file_type) && tally[file_type].bytes > MIN_FILE_TYPE_SIZE_BYTES
            ==> has_type(lines, file_type)
}

/// Putting lines in another order leaves them lines of different types, and
/// each list holds the lines of the other.
pub proof fn lemma_reordered_lines(kept: Seq<FileTypeEntry>, lines: Seq<FileTypeEntry>)
    requires
        distinct_types(kept),
        lines.to_multiset() == kept.to_multiset(),
    ensures
        distinct_types(lines),
        forall|i: int| 0 <= i < lines.len() ==> kept.contains(#[trigger] lines[i]),
        forall|i: int| 0 <= i < kept.len() ==> lines.contains(#[trigger] kept[i]),
{
    assert forall|i: int| 0 <= i < lines.len() implies kept.contains(#[trigger] lines[i]) by {
        assert(lines.contains(lines[i]));
        to_multiset_contains(lines, lines[i]);
        to_multiset_contains(kept, lines[i]);
    }
    assert forall|i: int| 0 <= i < kept.len() implies lines.contains(#[trigger] kept[i]) by {
        assert(kept.contains(kept[i]));
        to_multiset_contains(lines, kept[i]);
        to_multiset_contains(kept, kept[i]);
    }
    assert(kept.no_duplicates());
    kept.lemma_multiset_has_no_duplicates();
    lines.lemma_multiset_has_no_duplicates_conv();
    assert forall|i: int, j: int| 0 <= i < j < lines.len() implies lines[i].extension@
        != lines[j].extension@ by {
        assert(kept.contains(lines[i]));
        assert(kept.contains(lines[j]));
        let p = choose|p: int| 0 <= p < kept.len() && kept[p] == lines[i];
        let q = choose|q: int| 0 <= q < kept.len() && kept[q] == lines[j];
        assert(lines[i] != lines[j]);
        assert(p != q);
        if p < q {
            assert(kept[p].extension@ != kept[q].extension@);
        } else {
            assert(kept[q].extension@ != kept[p].extension@);
        }
    }
}

/// The line stands in the source below the given position.
pub open spec fn taken_from(line: FileTypeEntry, source: Seq<FileTypeEntry>, below: int) -> bool {
    exists|at: int| 0 <= at < below && at < source.len() && source[at] == line
}

/// A tally of file types: for each type met so far, the bytes and the
/// number of its files. The lines hold the totals, one line for each type;
/// the index says where the line of a type stands.
pub struct ExtensionTally {
    lines: Vec<FileTypeEntry>,
    index: StringHashMap<usize>,
}

/// The index says of each line where it stands, and of nothing else.
spec fn indexes(index: Map<Seq<char>, usize>, lines: Seq<FileTypeEntry>) -> bool {
    &&& forall|i: int|
        0 <= i < lines.len() ==> index.contains_key(#[trigger] lines[i].extension@)
            && index[lines[i].extension@] == i
    &&& forall|file_type: Seq<char>| #[trigger]
        index.contains_key(file_type) ==> index[file_type] < lines.len()
            && lines[index[file_type] as int].extension@ == file_type
}

impl View for ExtensionTally {
    type V = Map<Seq<char>, Total>;

    /// What the tally holds for each file type. The index is no part of
    /// it: it only says where the line of a type stands.
    closed spec fn view(&self) -> Map<Seq<char>, Total> {
        lines_tally(self.lines@)
    }
}

impl ExtensionTally {
    #[verifier::type_invariant]
    spec fn well_formed(self) -> bool {
        distinct_types(self.lines@) && indexes(self.index@, self.lines@)
    }

    /// The empty tally.
    pub fn new() -> (tally: ExtensionTally)
        ensures
            tally@ == Map::<Seq<char>, Total>::empty(),
    {
        ExtensionTally { lines: Vec::new(), index: StringHashMap::new() }
    }

    /// Where the line of a file type stands, if it has one.
    fn find(&self, file_type: &str) -> (found: Option<usize>)
        ensures
            match found {
                Some(at) => at < self.lines@.len() && self.lines@[at as int].extension@
                    == file_type@,
                None => !has_type(self.lines@, file_type@),
            },
    {
        proof {
            use_type_invariant(self);
        }
        match self.index.get(file_type) {
            Some(at) => Some(*at),
            None => {
                assert(!has_type(self.lines@, file_type@)) by {
                    if has_type(self.lines@, file_type@) {
                        let i = choose|i: int|
                            0 <= i < self.lines@.len() && self.lines@[i].extension@
                                == file_type@;
                        assert(self.index@.contains_key(self.lines@[i].extension@));
                    }
                }
                None
            },
        }
    }

    /// The tally with the files of one type added: `stats` says how many
    /// they are and how large.
    pub fn add(self, file_type: String, stats: FileTypeStats) -> (tally: ExtensionTally)
        requires
            bytes_in(self@, file_type@) + stats.total_size <= u64::MAX,
            count_in(self@, file_type@) + stats.count <= usize::MAX,
        ensures
            tally@ == with_added(self@, file_type@, total_of(stats)),
    {
        proof {
            use_type_invariant(&self);
            lemma_lines_tally(self.lines@);
        }
        let found = self.find(file_type.as_str());
        let mut lines = self.lines;
        let mut index = self.index;
        match found {
            Some(at) => {
                let held = lines[at].stats;
                assert(self@[lines@[at as int].extension@] == total_of(held));
                let line = FileTypeEntry {
                    extension: file_type,
                    stats: FileTypeStats {
                        total_size: held.total_size + stats.total_size,
                        count: held.count + stats.count,
                    },
                };
                proof {
                    lemma_lines_tally_update(lines@, at as int, line);
                    let changed = lines@.update(at as int, line);
                    assert forall|i: int| 0 <= i < changed.len() implies index@.contains_key(
                        #[trigger] changed[i].extension@,
                    ) && index@[changed[i].extension@] == i by {
                        assert(changed[i].extension@ == lines@[i].extension@);
                    }
                    assert forall|other: Seq<char>| #[trigger]
                        index@.contains_key(other) implies index@[other] < changed.len()
                        && changed[index@[other] as int].extension@ == other by {
                        let at = index@[other] as int;
                        assert(changed[at].extension@ == lines@[at].extension@);
                    }
                }
                lines[at] = line;
            },
            None => {
                let place = lines.len();
                let name = file_type.clone();
                let line = FileTypeEntry { extension: file_type, stats };
                proof {
                    let longer = lines@.push(line);
                    let grown = index@.insert(name@, place);
                    assert(longer.drop_last() =~= lines@);
                    assert forall|i: int, j: int|
                        0 <= i < j < longer.len() implies longer[i].extension@
                        != longer[j].extension@ by {
                        if j == lines@.len() {
                            assert(lines@[i].extension@ != file_type@);
                        }
                    }
                    assert forall|i: int| 0 <= i < longer.len() implies grown.contains_key(
                        #[trigger] longer[i].extension@,
                    ) && grown[longer[i].extension@] == i by {
                        if i < lines@.len() {
                            assert(lines@[i].extension@ != file_type@);
                            assert(index@.contains_key(lines@[i].extension@));
                        }
                    }
                    assert forall|other: Seq<char>| #[trigger]
                        grown.contains_key(other) implies grown[other] < longer.len()
                        && longer[grown[other] as int].extension@ == other by {
                        if other != name@ {
                            assert(index@.contains_key(other));
                        }
                    }
                }
                index.insert(name, place);
                lines.push(line);
            },
        }
        ExtensionTally { lines, index }
    }

    /// The tally with one file of the given type and size added.
    pub fn record(self, file_type: String, size: u64) -> (tally: ExtensionTally)
        requires
            bytes_in(self@, file_type@) + size <= u64::MAX,
            count_in(self@, file_type@) < usize::MAX,
        ensures
            tally@ == with_added(self@, file_type@, Total { bytes: size as nat, count: 1 }),
    {
        self.add(file_type, FileTypeStats { total_size: size, count: 1 })
    }

    /// The two tallies put together.
    pub fn merge(self, other: ExtensionTally) -> (tally: ExtensionTally)
        requires
            forall|file_type: Seq<char>|
                bytes_in(self@, file_type) + bytes_in(other@, file_type) <= u64::MAX && count_in(
                    self@,
                    file_type,
                ) + count_in(other@, file_type) <= usize::MAX,
        ensures
            tally@ == merged(self@, other@),
    {
        proof {
            use_type_invariant(&other);
            lemma_lines_tally(other.lines@);
        }
        let mut tally = self;
        let mut i: usize = 0;
        assert(merged(self@, Map::empty()) =~= self@);
        while i < other.lines.len()
            invariant
                i <= other.lines.len(),
                distinct_types(other.lines@),
                other@ == lines_tally(other.lines@),
                tally@ == merged(self@, lines_tally(other.lines@.take(i as int))),
                forall|file_type: Seq<char>|
                    bytes_in(self@, file_type) + bytes_in(other@, file_type) <= u64::MAX
                        && count_in(self@, file_type) + count_in(other@, file_type) <= usize::MAX,
            decreases other.lines.len() - i,
        {
            let ghost done = other.lines@.take(i as int);
            let ghost line = other.lines@[i as int];
            proof {
                lemma_lines_tally(other.lines@);
                lemma_lines_tally(done);
                assert(other.lines@.take(i + 1).drop_last() =~= done);
                assert(!has_type(done, line.extension@)) by {
                    if has_type(done, line.extension@) {
                        let j = choose|j: int| 0 <= j < done.len() && done[j].extension@
                            == line.extension@;
                        assert(other.lines@[j].extension@ != other.lines@[i as int].extension@);
                    }
                }
                assert(other@[line.extension@] == total_of(line.stats));
                assert(bytes_in(self@, line.extension@) + bytes_in(other@, line.extension@)
                    <= u64::MAX);
                let longer = lines_tally(done).insert(line.extension@, total_of(line.stats));
                assert(merged(self@, longer) =~= with_added(
                    merged(self@, lines_tally(done)),
                    line.extension@,
                    total_of(line.stats),
                ));
            }
            tally = tally.add(other.lines[i].extension.clone(), other.lines[i].stats);
            i = i + 1;
        }
        assert(other.lines@.take(other.lines@.len() as int) =~= other.lines@);
        tally
    }

    /// The distribution by file type: a line for each type that holds more
    /// than `MIN_FILE_TYPE_SIZE_BYTES`, the largest first, equal sizes by
    /// the name of the type.
    pub fn into_distribution(self) -> (lines: Vec<FileTypeEntry>)
        ensures
            is_distribution_of(lines@, self@),
    {
        proof {
            use_type_invariant(&self);
            lemma_lines_tally(self.lines@);
        }
        let ghost source = self.lines@;
        let mut kept: Vec<FileTypeEntry> = Vec::new();
        let mut i: usize = 0;
        while i < self.lines.len()
            invariant
                i <= self.lines.len(),
                source == self.lines@,
                distinct_types(source),
                distinct_types(kept@),
                forall|p: int|
                    0 <= p < kept@.len() ==> taken_from(#[trigger] kept@[p], source, i as int)
                        && kept@[p].stats.total_size > MIN_FILE_TYPE_SIZE_BYTES,
                forall|e: int|
                    0 <= e < i && source[e].stats.total_size > MIN_FILE_TYPE_SIZE_BYTES
                        ==> kept@.contains(#[trigger] source[e]),
            decreases self.lines.len() - i,
        {
            if self.lines[i].stats.total_size > MIN_FILE_TYPE_SIZE_BYTES {
                let line = self.lines[i].duplicate();
                proof {
                    let longer = kept@.push(line);
                    assert forall|p: int, q: int|
                        0 <= p < q < longer.len() implies longer[p].extension@
                        != longer[q].extension@ by {
                        if q == kept@.len() {
                            assert(taken_from(kept@[p], source, i as int));
                            let at = choose|at: int|
                                0 <= at < i && at < source.len() && source[at] == kept@[p];
                            assert(source[at].extension@ != source[i as int].extension@);
                        }
                    }
                    assert forall|p: int| 0 <= p < longer.len() implies taken_from(
                        #[trigger] longer[p],
                        source,
                        i + 1,
                    ) by {
                        if p < kept@.len() {
                            assert(taken_from(kept@[p], source, i as int));
                            let at = choose|at: int|
                                0 <= at < i && at < source.len() && source[at] == kept@[p];
                            assert(source[at] == longer[p]);
                        } else {
                            assert(source[i as int] == longer[p]);
                        }
                    }
                    assert forall|e: int|
                        0 <= e < i + 1 && source[e].stats.total_size
                            > MIN_FILE_TYPE_SIZE_BYTES implies longer.contains(
                        #[trigger] source[e],
                    ) by {
                        if e < i {
                            assert(kept@.contains(source[e]));
                            let p = choose|p: int| 0 <= p < kept@.len() && kept@[p] == source[e];
                            assert(longer[p] == source[e]);
                        } else {
                            assert(longer[kept@.len() as int] == source[e]);
                        }
                    }
                }
                kept.push(line);
            } else {
                proof {
                    assert forall|p: int| 0 <= p < kept@.len() implies taken_from(
                        #[trigger] kept@[p],
                        source,
                        i + 1,
                    ) by {
                        assert(taken_from(kept@[p], source, i as int));
                        let at = choose|at: int|
                            0 <= at < i && at < source.len() && source[at] == kept@[p];
                        assert(source[at] == kept@[p]);
                    }
                }
            }
            i = i + 1;
        }
        let ghost chosen = kept@;
        let lines = rank(kept);
        proof {
            lemma_reordered_lines(chosen, lines@);
            assert forall|i: int| 0 <= i < lines@.len() implies self@.dom().contains(
                #[trigger] lines@[i].extension@,
            ) && self@[lines@[i].extension@] == total_of(lines@[i].stats)
                && lines@[i].stats.total_size > MIN_FILE_TYPE_SIZE_BYTES by {
                assert(chosen.contains(lines@[i]));
                let p = choose|p: int| 0 <= p < chosen.len() && chosen[p] == lines@[i];
                assert(taken_from(chosen[p], source, source.len() as int));
                let at = choose|at: int|
                    0 <= at < source.len() && at < source.len() && source[at] == chosen[p];
                assert(self@[source[at].extension@] == total_of(source[at].stats));
            }
            assert forall|file_type: Seq<char>|
                self@.dom().contains(file_type) && self@[file_type].bytes
                    > MIN_FILE_TYPE_SIZE_BYTES implies has_type(lines@, file_type) by {
                assert(has_type(source, file_type));
                let e = choose|e: int| 0 <= e < source.len() && source[e].extension@ == file_type;
                assert(self@[source[e].extension@] == total_of(source[e].stats));
                assert(chosen.contains(source[e]));
                let p = choose|p: int| 0 <= p < chosen.len() && chosen[p] == source[e];
                assert(lines@.contains(chosen[p]));
                let q = choose|q: int| 0 <= q < lines@.len() && lines@[q] == chosen[p];
                assert(lines@[q].extension@ == file_type);
            }
        }
        lines
    }
}

} // verus!
