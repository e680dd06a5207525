//! Ranking stack traces by how many bytes they account for.
use vstd::prelude::*;

verus! {

/// Whether the second components never increase.
pub open spec fn descending(items: Seq<(u64, u64)>) -> bool {
    forall|i: int, j: int| 0 <= i <= j < items.len() ==> #[trigger] items[i].1 >= #[trigger] items[j].1
}

/// Whether `items` lists every stack trace once, as its hash and its measured bytes, from most bytes
/// to least.
pub open spec fn is_ranking(
    stats: Map<u64, crate::stack_stats::StackStatsView>,
    measurement: crate::stack_stats::Measurement,
    items: Seq<(u64, u64)>,
) -> bool {
    &&& descending(items)
    &&& lists_stacks(stats, measurement, items)
}

/// Whether `items` lists every stack trace once, as its hash and its measured bytes.
pub open spec fn lists_stacks(
    stats: Map<u64, crate::stack_stats::StackStatsView>,
    measurement: crate::stack_stats::Measurement,
    items: Seq<(u64, u64)>,
) -> bool {
    &&& forall|i: int|
        0 <= i < items.len() ==> stats.contains_key((#[trigger] items[i]).0) && items[i].1
            == stats[items[i].0].measured(measurement)
    &&& forall|i: int, j: int| 0 <= i < j < items.len() ==> (#[trigger] items[i]).0 != (
    #[trigger] items[j]).0
    &&& forall|hash: u64| #[trigger]
        stats.contains_key(hash) ==> items.contains((hash, stats[hash].measured(measurement)))
}

/// Whether `hashes` are the `k` stack traces with the most bytes, or all where there are fewer, from
/// most bytes to least.  Among equals it is open which come first, and which are left out.
pub open spec fn is_top_k(
    stats: Map<u64, crate::stack_stats::StackStatsView>,
    measurement: crate::stack_stats::Measurement,
    k: nat,
    hashes: Seq<u64>,
) -> bool {
    &&& stats.dom().finite()
    &&& hashes.no_duplicates()
    &&& hashes.len() == (if k <= stats.len() {
        k
    } else {
        stats.len()
    })
    &&& forall|i: int| 0 <= i < hashes.len() ==> stats.contains_key(#[trigger] hashes[i])
    &&& forall|i: int, j: int|
        0 <= i <= j < hashes.len() ==> stats[#[trigger] hashes[i]].measured(measurement)
            >= stats[#[trigger] hashes[j]].measured(measurement)
    &&& forall|hash: u64, i: int|
        #![trigger stats.contains_key(hash), hashes[i]]
        stats.contains_key(hash) && !hashes.contains(hash) && 0 <= i < hashes.len()
            ==> stats[hash].measured(measurement) <= stats[hashes[i]].measured(measurement)
}

fn merged(a: &Vec<(u64, u64)>, b: &Vec<(u64, u64)>) -> (r: Vec<(u64, u64)>)
    requires
        descending(a@),
        descending(b@),
    ensures
        descending(r@),
        r@.to_multiset() == a@.to_multiset().add(b@.to_multiset()),
{
    broadcast use vstd::seq_lib::to_multiset_build;

    let mut r: Vec<(u64, u64)> = Vec::new();
    let mut i: usize = 0;
    let mut j: usize = 0;
    assert(a@.take(0) =~= Seq::empty());
    assert(b@.take(0) =~= Seq::empty());
    assert(r@.to_multiset() =~= a@.take(0).to_multiset().add(b@.take(0).to_multiset())) by {
        r@.to_multiset_ensures();
    }
    while i < a.len() || j < b.len()
        invariant
            descending(a@),
            descending(b@),
            i <= a@.len(),
            j <= b@.len(),
            descending(r@),
            forall|m: int, n: int|
                #![trigger r@[m], a@[n]]
                0 <= m < r@.len() && i <= n < a@.len() ==> r@[m].1 >= a@[n].1,
            forall|m: int, n: int|
                #![trigger r@[m], b@[n]]
                0 <= m < r@.len() && j <= n < b@.len() ==> r@[m].1 >= b@[n].1,
            r@.to_multiset() == a@.take(i as int).to_multiset().add(
                b@.take(j as int).to_multiset(),
            ),
        decreases a.len() - i + b.len() - j,
    {
        broadcast use vstd::seq_lib::to_multiset_build;

        if j >= b.len() || (i < a.len() && a[i].1 >= b[j].1) {
            assert(a@.take(i + 1) =~= a@.take(i as int).push(a@[i as int]));
            r.push(a[i]);
            i += 1;
        } else {
            assert(b@.take(j + 1) =~= b@.take(j as int).push(b@[j as int]));
            r.push(b[j]);
            j += 1;
        }
        assert(r@.to_multiset() =~= a@.take(i as int).to_multiset().add(
            b@.take(j as int).to_multiset(),
        ));
    }
    assert(a@.take(i as int) =~= a@);
    assert(b@.take(j as int) =~= b@);
    r
}

/// Sorts by the second component, from highest to lowest.  Equal ones come in no particular order.
pub fn sort_descending(items: Vec<(u64, u64)>) -> (r: Vec<(u64, u64)>)
    ensures
        descending(r@),
        r@.to_multiset() == items@.to_multiset(),
    decreases items@.len(),
{
    let mut left = items;
    if left.len() < 2 {
        return left;
    }
    let middle: usize = left.len() / 2;
    let right = left.split_off(middle);
    proof {
        assert(items@ =~= left@ + right@);
        vstd::seq_lib::lemma_multiset_commutative(left@, right@);
    }
    let left_sorted = sort_descending(left);
    let right_sorted = sort_descending(right);
    merged(&left_sorted, &right_sorted)
}

/// Sorting keeps what a list of stack traces lists.
pub(crate) proof fn lemma_sorted_lists_stacks(
    stats: Map<u64, crate::stack_stats::StackStatsView>,
    measurement: crate::stack_stats::Measurement,
    items: Seq<(u64, u64)>,
    sorted: Seq<(u64, u64)>,
)
    requires
        lists_stacks(stats, measurement, items),
        sorted.to_multiset() == items.to_multiset(),
    ensures
        lists_stacks(stats, measurement, sorted),
{
    items.to_multiset_ensures();
    sorted.to_multiset_ensures();
    assert forall|x: (u64, u64)| #[trigger] sorted.contains(x) <==> items.contains(x) by {
        assert(sorted.contains(x) <==> sorted.to_multiset().count(x) > 0);
        assert(items.contains(x) <==> items.to_multiset().count(x) > 0);
    }
    assert(items.no_duplicates());
    items.lemma_multiset_has_no_duplicates();
    sorted.lemma_multiset_has_no_duplicates_conv();
    assert forall|i: int| 0 <= i < sorted.len() implies stats.contains_key((#[trigger] sorted[i]).0)
        && sorted[i].1 == stats[sorted[i].0].measured(measurement) by {
        assert(sorted.contains(sorted[i]));
        assert(items.contains(sorted[i]));
    }
}

/// The first `k` of a ranking are the top `k`.
pub(crate) proof fn lemma_top_of_ranking(
    stats: Map<u64, crate::stack_stats::StackStatsView>,
    measurement: crate::stack_stats::Measurement,
    items: Seq<(u64, u64)>,
    k: nat,
    hashes: Seq<u64>,
)
    requires
        is_ranking(stats, measurement, items),
        hashes.len() == (if k <= items.len() {
            k
        } else {
            items.len()
        }),
        forall|i: int| 0 <= i < hashes.len() ==> #[trigger] hashes[i] == items[i].0,
    ensures
        items.len() == stats.len(),
        is_top_k(stats, measurement, k, hashes),
{
    let all = items.map_values(|item: (u64, u64)| item.0);
    assert(all.no_duplicates());
    all.unique_seq_to_set();
    assert(all.to_set() =~= stats.dom()) by {
        assert forall|hash: u64| stats.contains_key(hash) implies all.to_set().contains(hash) by {
            let i = choose|i: int|
                0 <= i < items.len() && items[i] == (hash, stats[hash].measured(measurement));
            assert(all[i] == hash);
        }
    }
    assert forall|hash: u64, i: int|
        #![trigger stats.contains_key(hash), hashes[i]]
        stats.contains_key(hash) && !hashes.contains(hash) && 0 <= i < hashes.len() implies stats[hash].measured(
    measurement) <= stats[hashes[i]].measured(measurement) by {
        assert(items.contains((hash, stats[hash].measured(measurement))));
        let j = choose|j: int|
            0 <= j < items.len() && items[j] == (hash, stats[hash].measured(measurement));
        if j < hashes.len() {
            assert(hashes[j] == hash);
        }
        assert(items[i].1 >= items[j].1);
    }
}

proof fn lemma_top_k_at_most(
    stats: Map<u64, crate::stack_stats::StackStatsView>,
    measurement: crate::stack_stats::Measurement,
    k: nat,
    a: Seq<u64>,
    b: Seq<u64>,
    i: int,
)
    requires
        is_top_k(stats, measurement, k, a),
        is_top_k(stats, measurement, k, b),
        0 <= i < a.len(),
    ensures
        stats[a[i]].measured(measurement) <= stats[b[i]].measured(measurement),
{
    if stats[a[i]].measured(measurement) > stats[b[i]].measured(measurement) {
        // Each of the first i + 1 of `a` has more bytes than the ith of `b`, so they all have to be
        // among the i before it
        let first = a.take(i + 1);
        let before = b.take(i);
        assert(first.no_duplicates());
        assert(before.no_duplicates());
        assert forall|hash: u64| first.to_set().contains(hash) implies before.to_set().contains(
            hash,
        ) by {
            let j = choose|j: int| 0 <= j < first.len() && first[j] == hash;
            assert(a[j] == hash);
            assert(stats[a[j]].measured(measurement) >= stats[a[i]].measured(measurement));
            assert(stats.contains_key(a[j]));
            assert(b.contains(hash));
            let l = choose|l: int| 0 <= l < b.len() && b[l] == hash;
            if l >= i {
                assert(stats[b[i]].measured(measurement) >= stats[b[l]].measured(measurement));
            }
            assert(before[l] == hash);
        }
        first.unique_seq_to_set();
        before.unique_seq_to_set();
        vstd::seq_lib::seq_to_set_is_finite(before);
        vstd::set_lib::lemma_len_subset(first.to_set(), before.to_set());
    }
}

/// Whichever of equals are chosen for the top `k`, and in whatever order, the bytes at each rank are
/// the same.
pub proof fn law_bytes_at_each_rank_are_the_same(
    stats: Map<u64, crate::stack_stats::StackStatsView>,
    measurement: crate::stack_stats::Measurement,
    k: nat,
    a: Seq<u64>,
    b: Seq<u64>,
)
    requires
        is_top_k(stats, measurement, k, a),
        is_top_k(stats, measurement, k, b),
    ensures
        a.len() == b.len(),
        forall|i: int|
            0 <= i < a.len() ==> stats[#[trigger] a[i]].measured(measurement)
                == stats[b[i]].measured(measurement),
{
    assert forall|i: int| 0 <= i < a.len() implies stats[#[trigger] a[i]].measured(measurement)
        == stats[b[i]].measured(measurement) by {
        lemma_top_k_at_most(stats, measurement, k, a, b, i);
        lemma_top_k_at_most(stats, measurement, k, b, a, i);
    }
}

} // verus!
