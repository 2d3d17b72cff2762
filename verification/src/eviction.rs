//! Which cached files go first when a cache is over its limit: the least recently modified,
//! ties kept in the order the files were listed.
use vstd::prelude::*;

verus! {

/// Entry `a` comes before entry `b`: it was modified earlier, or at the same time and listed
/// first.
pub open spec fn listed_before(modified: Seq<u64>, a: int, b: int) -> bool {
    modified[a] < modified[b] || (modified[a] == modified[b] && a < b)
}

/// `order` lists entries (by index into `modified`) strictly from the least recently
/// modified on, ties in listing order.
pub open spec fn in_age_order(modified: Seq<u64>, order: Seq<usize>) -> bool {
    &&& forall|k: int| 0 <= k < order.len() ==> #[trigger] order[k] < modified.len()
    &&& forall|a: int, b: int|
        0 <= a < b < order.len() ==> listed_before(modified, #[trigger] order[a] as int, #[trigger] order[b] as int)
}

/// The indices of all entries, least recently modified first (a stable sort by modification
/// time).
pub fn oldest_first(modified: &Vec<u64>) -> (r: Vec<usize>)
    ensures
        r.len() == modified.len(),
        in_age_order(modified@, r@),
{
    let n = modified.len();
    let mut r: Vec<usize> = Vec::new();
    let mut i: usize = 0;
    while i < n
        invariant
            i <= n == modified.len(),
            r.len() == i,
            forall|k: int| 0 <= k < r.len() ==> #[trigger] r@[k] < i,
            in_age_order(modified@, r@),
        decreases n - i,
    {
        let mut p: usize = 0;
        while p < r.len() && modified[r[p]] <= modified[i]
            invariant
                i < n == modified.len(),
                p <= r.len() == i,
                forall|k: int| 0 <= k < r.len() ==> #[trigger] r@[k] < i,
                forall|k: int| 0 <= k < p ==> modified@[#[trigger] r@[k] as int] <= modified@[i as int],
            decreases r.len() - p,
        {
            p = p + 1;
        }
        let ghost old_r = r@;
        proof {
            assert forall|k: int| p <= k < old_r.len() implies modified@[i as int] < modified@[#[trigger] old_r[k] as int] by {
                if k > p {
                    assert(listed_before(modified@, old_r[p as int] as int, old_r[k] as int));
                }
            }
        }
        r.insert(p, i);
        proof {
            assert(r@ =~= old_r.take(p as int).push(i).add(old_r.skip(p as int)));
            assert forall|a: int, b: int| 0 <= a < b < r@.len() implies listed_before(
                modified@,
                #[trigger] r@[a] as int,
                #[trigger] r@[b] as int,
            ) by {
                if b < p {
                    assert(r@[a] == old_r[a] && r@[b] == old_r[b]);
                } else if b == p {
                    assert(r@[a] == old_r[a]);
                } else if a < p {
                    assert(r@[a] == old_r[a] && r@[b] == old_r[b - 1]);
                    assert(listed_before(modified@, old_r[a] as int, old_r[b - 1] as int));
                } else if a == p {
                    assert(r@[b] == old_r[b - 1]);
                } else {
                    assert(r@[a] == old_r[a - 1] && r@[b] == old_r[b - 1]);
                    assert(listed_before(modified@, old_r[a - 1] as int, old_r[b - 1] as int));
                }
            }
            assert forall|k: int| 0 <= k < r@.len() implies #[trigger] r@[k] < i + 1 by {
                if k < p {
                    assert(r@[k] == old_r[k]);
                } else if k > p {
                    assert(r@[k] == old_r[k - 1]);
                }
            }
        }
        i = i + 1;
    }
    r
}

/// The entries to remove from a cache of `modified.len()` entries that may hold at most
/// `max_entries`: none when it is within the limit, else the surplus least recently modified
/// ones, oldest first.
pub fn entries_to_evict(modified: &Vec<u64>, max_entries: usize) -> (r: Vec<usize>)
    ensures
        r.len() == if modified.len() > max_entries { modified.len() - max_entries } else { 0 },
        in_age_order(modified@, r@),
        forall|j: int, k: int|
            0 <= j < modified.len() && 0 <= k < r.len() && !r@.contains(j as usize)
                ==> #[trigger] listed_before(modified@, r@[k] as int, j),
{
    if modified.len() <= max_entries {
        return Vec::new();
    }
    let order = oldest_first(modified);
    let count = modified.len() - max_entries;
    let mut r: Vec<usize> = Vec::new();
    let mut k: usize = 0;
    while k < count
        invariant
            count <= order.len() == modified.len(),
            k <= count,
            r@ == order@.take(k as int),
            in_age_order(modified@, order@),
        decreases count - k,
    {
        r.push(order[k]);
        k = k + 1;
        assert(r@ =~= order@.take(k as int));
    }
    proof {
        lemma_prefix_is_oldest(modified@, order@, count as int);
    }
    r
}

/// In a complete age order, the entries outside a prefix come after every entry in it.
proof fn lemma_prefix_is_oldest(modified: Seq<u64>, order: Seq<usize>, count: int)
    requires
        in_age_order(modified, order),
        order.len() == modified.len(),
        modified.len() <= usize::MAX,
        0 <= count <= order.len(),
    ensures
        forall|j: int, k: int|
            0 <= j < modified.len() && 0 <= k < count && !order.take(count).contains(j as usize)
                ==> #[trigger] listed_before(modified, order.take(count)[k] as int, j),
{
    assert forall|j: int, k: int|
        0 <= j < modified.len() && 0 <= k < count && !order.take(count).contains(j as usize)
        implies #[trigger] listed_before(modified, order.take(count)[k] as int, j) by {
        lemma_age_order_covers(modified, order, j);
        let pos = choose|q: int| 0 <= q < order.len() && order[q] == j as usize;
        if pos < count {
            assert(order.take(count)[pos] == j as usize);
            assert(order.take(count).contains(j as usize));
        }
        assert(order.take(count)[k] == order[k]);
        assert(listed_before(modified, order[k] as int, order[pos] as int));
    }
}

/// A complete age order lists every entry.
proof fn lemma_age_order_covers(modified: Seq<u64>, order: Seq<usize>, j: int)
    requires
        in_age_order(modified, order),
        order.len() == modified.len(),
        modified.len() <= usize::MAX,
        0 <= j < modified.len(),
    ensures
        exists|q: int| 0 <= q < order.len() && order[q] == j as usize,
{
    let n = order.len();
    let s = order.to_set();
    if !(exists|q: int| 0 <= q < order.len() && order[q] == j as usize) {
        // The entries are distinct and lie in 0..n without j: too many for n - 1 places.
        let slots = Set::new(|x: usize| (x as int) < n && x as int != j);
        assert forall|x: usize| s.contains(x) implies slots.contains(x) by {
            let q = choose|q: int| 0 <= q < order.len() && order[q] == x;
            assert(order[q] < modified.len());
        }
        lemma_distinct(modified, order);
        order.unique_seq_to_set();
        lemma_slots_len(n as int, j);
        vstd::set_lib::lemma_len_subset(s, slots);
    }
}

/// The entries of an age order are distinct.
proof fn lemma_distinct(modified: Seq<u64>, order: Seq<usize>)
    requires
        in_age_order(modified, order),
    ensures
        order.no_duplicates(),
{
    assert forall|a: int, b: int| 0 <= a < order.len() && 0 <= b < order.len() && a != b implies order[a] != order[b] by {
        if a < b {
            assert(listed_before(modified, order[a] as int, order[b] as int));
        } else {
            assert(listed_before(modified, order[b] as int, order[a] as int));
        }
    }
}

/// The indices below `n` other than `j` are `n - 1`.
proof fn lemma_slots_len(n: int, j: int)
    requires
        0 <= j < n,
        n <= usize::MAX + 1,
    ensures
        Set::new(|x: usize| (x as int) < n && x as int != j).len() == n - 1,
        Set::new(|x: usize| (x as int) < n && x as int != j).finite(),
    decreases n,
{
    let slots = Set::new(|x: usize| (x as int) < n && x as int != j);
    if n - 1 == j {
        lemma_below_len(j);
        assert(slots =~= Set::new(|x: usize| (x as int) < j));
    } else {
        lemma_slots_len(n - 1, j);
        let smaller = Set::new(|x: usize| (x as int) < n - 1 && x as int != j);
        assert(slots =~= smaller.insert((n - 1) as usize));
    }
}

/// The indices below `n` are `n`.
proof fn lemma_below_len(n: int)
    requires
        0 <= n <= usize::MAX + 1,
    ensures
        Set::new(|x: usize| (x as int) < n).len() == n,
        Set::new(|x: usize| (x as int) < n).finite(),
    decreases n,
{
    if n == 0 {
        assert(Set::new(|x: usize| (x as int) < n) =~= Set::empty());
    } else {
        lemma_below_len(n - 1);
        assert(Set::new(|x: usize| (x as int) < n) =~= Set::new(|x: usize| (x as int) < n - 1).insert(
            (n - 1) as usize,
        ));
    }
}

} // verus!
