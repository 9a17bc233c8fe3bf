//! Ranking: largest first, and among equal sizes by name.

use crate::order::{compare_name_before, lemma_name_order_total, name_before};
use crate::types::{FileInfo, FileTypeEntry, FolderSize};
use rayon::slice::ParallelSliceMut;
use std::cmp::Ordering;
use vstd::prelude::*;
use vstd::seq_lib::{to_multiset_contains, to_multiset_len, to_multiset_remove};

verus! {

/// What can be ranked: anything with a size and a name.
pub trait Ranked {
    /// The size by which the item is ranked.
    spec fn rank_size(&self) -> u64;

    /// The name that decides between items of one size.
    spec fn rank_name(&self) -> Seq<char>;

    /// Reads the size by which the item is ranked.
    fn size_for_rank(&self) -> (size: u64)
        ensures
            size == self.rank_size(),
    ;

    /// Reads the name that decides between items of one size.
    fn name_for_rank(&self) -> (name: &str)
        ensures
            name@ == self.rank_name(),
    ;
}

impl Ranked for FileInfo {
    open spec fn rank_size(&self) -> u64 {
        self.size_bytes
    }

    open spec fn rank_name(&self) -> Seq<char> {
        self.full_path@
    }

    fn size_for_rank(&self) -> (size: u64) {
        self.size_bytes
    }

    fn name_for_rank(&self) -> (name: &str) {
        self.full_path.as_str()
    }
}

impl Ranked for FolderSize {
    open spec fn rank_size(&self) -> u64 {
        self.size_bytes
    }

    open spec fn rank_name(&self) -> Seq<char> {
        self.folder@
    }

    fn size_for_rank(&self) -> (size: u64) {
        self.size_bytes
    }

    fn name_for_rank(&self) -> (name: &str) {
        self.folder.as_str()
    }
}

impl Ranked for FileTypeEntry {
    open spec fn rank_size(&self) -> u64 {
        self.stats.total_size
    }

    open spec fn rank_name(&self) -> Seq<char> {
        self.extension@
    }

    fn size_for_rank(&self) -> (size: u64) {
        self.stats.total_size
    }

    fn name_for_rank(&self) -> (name: &str) {
        self.extension.as_str()
    }
}

/// `a` has its place strictly before `b`: it is larger, or as large with
/// the earlier name.
pub open spec fn ranks_before<T: Ranked>(a: T, b: T) -> bool {
    a.rank_size() > b.rank_size() || (a.rank_size() == b.rank_size() && name_before(
        a.rank_name(),
        b.rank_name(),
    ))
}

/// `a` and `b` have the same size and the same name.
pub open spec fn ranks_equal<T: Ranked>(a: T, b: T) -> bool {
    a.rank_size() == b.rank_size() && a.rank_name() == b.rank_name()
}

/// The list is ranked: no item has its place strictly before an earlier one.
pub open spec fn is_ranked<T: Ranked>(items: Seq<T>) -> bool {
    forall|i: int, j: int| 0 <= i < j < items.len() ==> !ranks_before(items[j], items[i])
}

/// `ranked` holds the items of `items`, each as often, and is ranked.
pub open spec fn is_ranking_of<T: Ranked>(ranked: Seq<T>, items: Seq<T>) -> bool {
    is_ranked(ranked) && ranked.to_multiset() == items.to_multiset()
}

/// The first `n` items of a list, or all of them where it has fewer.
pub open spec fn first_of<T>(items: Seq<T>, n: usize) -> Seq<T> {
    items.take(
        if n <= items.len() {
            n as int
        } else {
            items.len() as int
        },
    )
}

/// `top` is the head of a ranking of `items`: its first `n` items.
pub open spec fn is_top_of<T: Ranked>(top: Seq<T>, items: Seq<T>, n: usize) -> bool {
    exists|ranked: Seq<T>| is_ranking_of(ranked, items) && top == #[trigger] first_of(ranked, n)
}

/// What the comparison of `a` with `b` gives.
pub open spec fn rank_order_of<T: Ranked>(a: T, b: T) -> Ordering {
    if ranks_before(a, b) {
        Ordering::Less
    } else if ranks_before(b, a) {
        Ordering::Greater
    } else {
        Ordering::Equal
    }
}

/// Tells whether `a` has its place strictly before `b`.
pub fn comes_before<T: Ranked>(a: &T, b: &T) -> (before: bool)
    ensures
        before == ranks_before(*a, *b),
{
    let size_a = a.size_for_rank();
    let size_b = b.size_for_rank();
    size_a > size_b || (size_a == size_b && compare_name_before(
        a.name_for_rank(),
        b.name_for_rank(),
    ))
}

/// Compares two items for ranking.
pub fn rank_order<T: Ranked>(a: &T, b: &T) -> (order: Ordering)
    ensures
        order == rank_order_of(*a, *b),
{
    if comes_before(a, b) {
        Ordering::Less
    } else if comes_before(b, a) {
        Ordering::Greater
    } else {
        Ordering::Equal
    }
}

/// Sorts the list in place with rayon's `par_sort_unstable_by`, handing it
/// `rank_order` as the comparison. Claimed of it, not proved: the list
/// afterwards holds the same items as before, each as often, and is ranked.
/// The sort is unstable, so nothing is said of the order among items that
/// compare equal.
#[verifier::external_body]
fn par_sort_ranked<T: Ranked + Send>(items: &mut Vec<T>)
    ensures
        is_ranked(final(items)@),
        final(items)@.to_multiset() == old(items)@.to_multiset(),
{
    items.par_sort_unstable_by(|a, b| rank_order(a, b));
}

/// No two different items of the list have the same size and the same name.
pub open spec fn distinct_by_rank<T: Ranked>(items: Seq<T>) -> bool {
    forall|i: int, j: int|
        0 <= i < items.len() && 0 <= j < items.len() && ranks_equal(items[i], items[j])
            ==> items[i] == items[j]
}

/// The comparison is a total order on sizes and names: of two items exactly
/// one of "before", "equal" and "after" holds, and "before" and "equal" are
/// transitive. This is what the sort asks of its comparison.
pub proof fn lemma_rank_order_total<T: Ranked>(a: T, b: T, c: T)
    ensures
        ranks_before(a, b) ==> !ranks_before(b, a) && !ranks_equal(a, b),
        ranks_equal(a, b) ==> !ranks_before(a, b) && !ranks_before(b, a),
        ranks_before(a, b) || ranks_equal(a, b) || ranks_before(b, a),
        ranks_before(a, b) && ranks_before(b, c) ==> ranks_before(a, c),
        ranks_equal(a, b) && ranks_equal(b, c) ==> ranks_equal(a, c),
{
    lemma_name_order_total(a.rank_name(), b.rank_name(), c.rank_name());
    lemma_name_order_total(b.rank_name(), a.rank_name(), c.rank_name());
}

/// Ranking settles the order: two ranked lists of the same items are the
/// same list, as long as no two different items share size and name.
pub proof fn lemma_ranked_unique<T: Ranked>(first: Seq<T>, second: Seq<T>)
    requires
        is_ranked(first),
        is_ranked(second),
        first.to_multiset() == second.to_multiset(),
        distinct_by_rank(first),
    ensures
        first == second,
    decreases first.len(),
{
    to_multiset_len(first);
    to_multiset_len(second);
    if first.len() == 0 {
        assert(first =~= second);
    } else {
        let head = first[0];
        let other = second[0];
        assert(first.contains(head));
        to_multiset_contains(first, head);
        to_multiset_contains(second, head);
        let k = choose|k: int| 0 <= k < second.len() && second[k] == head;
        assert(second.contains(other));
        to_multiset_contains(second, other);
        to_multiset_contains(first, other);
        let m = choose|m: int| 0 <= m < first.len() && first[m] == other;
        assert(head == other) by {
            lemma_rank_order_total(head, other, head);
            if k != 0 && m != 0 {
                assert(!ranks_before(second[k], second[0]));
                assert(!ranks_before(first[m], first[0]));
                assert(ranks_equal(first[0], first[m]));
            }
        }
        let rest_first = first.remove(0);
        let rest_second = second.remove(0);
        to_multiset_remove(first, 0);
        to_multiset_remove(second, 0);
        assert forall|i: int, j: int| 0 <= i < j < rest_first.len() implies !ranks_before(
            rest_first[j],
            rest_first[i],
        ) by {
            assert(rest_first[i] == first[i + 1] && rest_first[j] == first[j + 1]);
        }
        assert forall|i: int, j: int| 0 <= i < j < rest_second.len() implies !ranks_before(
            rest_second[j],
            rest_second[i],
        ) by {
            assert(rest_second[i] == second[i + 1] && rest_second[j] == second[j + 1]);
        }
        assert forall|i: int, j: int|
            0 <= i < rest_first.len() && 0 <= j < rest_first.len() && ranks_equal(
                rest_first[i],
                rest_first[j],
            ) implies rest_first[i] == rest_first[j] by {
            assert(rest_first[i] == first[i + 1] && rest_first[j] == first[j + 1]);
        }
        lemma_ranked_unique(rest_first, rest_second);
        assert(first =~= seq![head] + rest_first);
        assert(second =~= seq![other] + rest_second);
    }
}

/// Ranking does not depend on the order in which the items come: rankings
/// of two lists of the same items are the same list, as long as no two
/// different items share size and name.
pub proof fn lemma_ranking_order_independent<T: Ranked>(
    items: Seq<T>,
    reordered: Seq<T>,
    ranked: Seq<T>,
    other: Seq<T>,
)
    requires
        items.to_multiset() == reordered.to_multiset(),
        is_ranking_of(ranked, items),
        is_ranking_of(other, reordered),
        distinct_by_rank(items),
    ensures
        ranked == other,
{
    assert forall|i: int, j: int|
        0 <= i < ranked.len() && 0 <= j < ranked.len() && ranks_equal(
            ranked[i],
            ranked[j],
        ) implies ranked[i] == ranked[j] by {
        assert(ranked.contains(ranked[i]));
        assert(ranked.contains(ranked[j]));
        to_multiset_contains(ranked, ranked[i]);
        to_multiset_contains(items, ranked[i]);
        to_multiset_contains(ranked, ranked[j]);
        to_multiset_contains(items, ranked[j]);
        let p = choose|p: int| 0 <= p < items.len() && items[p] == ranked[i];
        let q = choose|q: int| 0 <= q < items.len() && items[q] == ranked[j];
        assert(ranks_equal(items[p], items[q]));
    }
    lemma_ranked_unique(ranked, other);
}

/// Some item of the list has the size and the name of `item`.
pub open spec fn holds_equal<T: Ranked>(items: Seq<T>, item: T) -> bool {
    exists|j: int| 0 <= j < items.len() && ranks_equal(items[j], item)
}

/// No two items of the list, at different places, have the same size and
/// the same name.
pub open spec fn no_equal_ranks<T: Ranked>(items: Seq<T>) -> bool {
    forall|i: int, j: int| 0 <= i < j < items.len() ==> !ranks_equal(items[i], items[j])
}

/// Two ranked lists whose items carry the same sizes and names, none of
/// them twice, agree place by place on size and name.
pub proof fn lemma_ranked_agree<T: Ranked>(first: Seq<T>, second: Seq<T>)
    requires
        is_ranked(first),
        is_ranked(second),
        no_equal_ranks(first),
        no_equal_ranks(second),
        forall|i: int| 0 <= i < first.len() ==> holds_equal(second, #[trigger] first[i]),
        forall|j: int| 0 <= j < second.len() ==> holds_equal(first, #[trigger] second[j]),
    ensures
        first.len() == second.len(),
        forall|i: int| 0 <= i < first.len() ==> ranks_equal(#[trigger] first[i], second[i]),
    decreases first.len(),
{
    if first.len() == 0 {
        if second.len() > 0 {
            assert(holds_equal(first, second[0]));
        }
    } else if second.len() == 0 {
        assert(holds_equal(second, first[0]));
    } else {
        let head = first[0];
        let other = second[0];
        assert(holds_equal(second, first[0]));
        let k = choose|k: int| 0 <= k < second.len() && ranks_equal(second[k], head);
        assert(holds_equal(first, second[0]));
        let m = choose|m: int| 0 <= m < first.len() && ranks_equal(first[m], other);
        assert(ranks_equal(head, other)) by {
            lemma_rank_order_total(head, other, head);
            if k != 0 && m != 0 {
                assert(!ranks_before(second[k], second[0]));
                assert(!ranks_before(first[m], first[0]));
            }
        }
        let rest_first = first.remove(0);
        let rest_second = second.remove(0);
        assert forall|i: int, j: int| 0 <= i < j < rest_first.len() implies !ranks_before(
            rest_first[j],
            rest_first[i],
        ) && !ranks_equal(rest_first[i], rest_first[j]) by {
            assert(rest_first[i] == first[i + 1] && rest_first[j] == first[j + 1]);
        }
        assert forall|i: int, j: int| 0 <= i < j < rest_second.len() implies !ranks_before(
            rest_second[j],
            rest_second[i],
        ) && !ranks_equal(rest_second[i], rest_second[j]) by {
            assert(rest_second[i] == second[i + 1] && rest_second[j] == second[j + 1]);
        }
        assert forall|i: int| 0 <= i < rest_first.len() implies holds_equal(
            rest_second,
            #[trigger] rest_first[i],
        ) by {
            assert(rest_first[i] == first[i + 1]);
            assert(holds_equal(second, first[i + 1]));
            let j = choose|j: int| 0 <= j < second.len() && ranks_equal(second[j], first[i + 1]);
            if j == 0 {
                assert(ranks_equal(first[0], first[i + 1]));
            }
            assert(rest_second[j - 1] == second[j]);
        }
        assert forall|j: int| 0 <= j < rest_second.len() implies holds_equal(
            rest_first,
            #[trigger] rest_second[j],
        ) by {
            assert(rest_second[j] == second[j + 1]);
            assert(holds_equal(first, second[j + 1]));
            let i = choose|i: int| 0 <= i < first.len() && ranks_equal(first[i], second[j + 1]);
            if i == 0 {
                assert(ranks_equal(second[0], second[j + 1]));
            }
            assert(rest_first[i - 1] == first[i]);
        }
        lemma_ranked_agree(rest_first, rest_second);
        assert forall|i: int| 0 <= i < first.len() implies ranks_equal(
            #[trigger] first[i],
            second[i],
        ) by {
            if i > 0 {
                assert(rest_first[i - 1] == first[i]);
                assert(rest_second[i - 1] == second[i]);
            }
        }
    }
}

/// Each item of the list has its place no later than the one that follows
/// it.
pub open spec fn neighbours_ranked<T: Ranked>(items: Seq<T>) -> bool {
    forall|i: int| 0 < i < items.len() ==> !ranks_before(#[trigger] items[i], items[i - 1])
}

/// A list in which each item and the next are in order is ranked
/// throughout.
pub proof fn lemma_neighbours_ranked<T: Ranked>(items: Seq<T>, i: int, j: int)
    requires
        neighbours_ranked(items),
        0 <= i < j < items.len(),
    ensures
        !ranks_before(items[j], items[i]),
    decreases j - i,
{
    if j - 1 > i {
        lemma_neighbours_ranked(items, i, j - 1);
        assert(!ranks_before(items[j], items[j - 1]));
        lemma_rank_order_total(items[j - 1], items[j], items[i]);
    }
}

/// Leaving items out of a ranked list leaves it ranked.
pub proof fn lemma_filter_keeps_rank<T: Ranked>(items: Seq<T>, kept_if: spec_fn(T) -> bool)
    requires
        is_ranked(items),
    ensures
        is_ranked(items.filter(kept_if)),
    decreases items.len(),
{
    reveal(Seq::filter);
    if items.len() > 0 {
        let front = items.drop_last();
        let kept = front.filter(kept_if);
        assert forall|i: int, j: int| 0 <= i < j < front.len() implies !ranks_before(
            front[j],
            front[i],
        ) by {
            assert(front[i] == items[i] && front[j] == items[j]);
        }
        lemma_filter_keeps_rank(front, kept_if);
        if kept_if(items.last()) {
            let longer = kept.push(items.last());
            assert forall|i: int, j: int| 0 <= i < j < longer.len() implies !ranks_before(
                longer[j],
                longer[i],
            ) by {
                if j == kept.len() {
                    assert(kept.contains(kept[i]));
                    front.lemma_filter_contains_rev(kept_if, kept[i]);
                    let at = choose|at: int| 0 <= at < front.len() && front[at] == kept[i];
                    assert(items[at] == kept[i]);
                    assert(!ranks_before(items[items.len() - 1], items[at]));
                } else {
                    assert(longer[i] == kept[i] && longer[j] == kept[j]);
                }
            }
        }
    }
}

/// Tells whether the list is ranked already.
pub fn is_in_rank_order<T: Ranked>(items: &Vec<T>) -> (ranked: bool)
    ensures
        ranked == is_ranked(items@),
{
    let mut i: usize = 1;
    while i < items.len()
        invariant
            1 <= i,
            forall|k: int| 0 < k < i && k < items@.len() ==> !ranks_before(
                #[trigger] items@[k],
                items@[k - 1],
            ),
        decreases items.len() - i,
    {
        if comes_before(&items[i], &items[i - 1]) {
            return false;
        }
        i = i + 1;
    }
    proof {
        assert forall|a: int, b: int| 0 <= a < b < items@.len() implies !ranks_before(
            items@[b],
            items@[a],
        ) by {
            lemma_neighbours_ranked(items@, a, b);
        }
    }
    true
}

/// Ranks the list: largest first, equal sizes by name. A list that is
/// ranked already comes back as it is, so that ranking twice gives what
/// ranking once gives.
pub fn rank<T: Ranked + Send>(items: Vec<T>) -> (ranked: Vec<T>)
    ensures
        is_ranking_of(ranked@, items@),
        ranked@.len() == items@.len(),
        is_ranked(items@) ==> ranked@ == items@,
{
    if is_in_rank_order(&items) {
        return items;
    }
    let mut ranked = items;
    par_sort_ranked(&mut ranked);
    proof {
        to_multiset_len(items@);
        to_multiset_len(ranked@);
    }
    ranked
}

/// The first `n` items of a list, or all of them where it has fewer.
pub fn first_n<T>(items: Vec<T>, n: usize) -> (top: Vec<T>)
    ensures
        top@ == first_of(items@, n),
{
    let mut top = items;
    top.truncate(n);
    assert(items@.take(items@.len() as int) =~= items@);
    top
}

} // verus!
