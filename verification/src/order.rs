//! The order in which a changelog lists things that carry a time: the newest
//! first, and of two with the same time the one that came first.

use vstd::prelude::*;

verus! {

/// Whether the item at index `a` is listed before the item at index `b`:
/// it is newer, or as new and earlier in the input.
pub open spec fn listed_before(keys: Seq<i64>, a: int, b: int) -> bool {
    keys[a] > keys[b] || (keys[a] == keys[b] && a < b)
}

/// The first position at or after `p` of `order` whose item is older than `key`,
/// or the length of `order`.
pub open spec fn first_older(keys: Seq<i64>, order: Seq<usize>, key: i64, p: int) -> int
    decreases order.len() - p,
{
    if p < 0 || p >= order.len() {
        order.len() as int
    } else if keys[order[p] as int] < key {
        p
    } else {
        first_older(keys, order, key, p + 1)
    }
}

/// The indices `0..n` in the order of listing. Each index is put behind
/// the items listed so far that are as new or newer.
pub open spec fn newest_first(keys: Seq<i64>, n: nat) -> Seq<usize>
    decreases n,
{
    if n == 0 {
        Seq::<usize>::empty()
    } else {
        let before = newest_first(keys, (n - 1) as nat);
        before.insert(first_older(keys, before, keys[n - 1], 0), (n - 1) as usize)
    }
}

/// The order of listing for all of `keys`.
pub open spec fn listing_order(keys: Seq<i64>) -> Seq<usize> {
    newest_first(keys, keys.len())
}

/// `order` holds each of the indices `0..n` once, and lists them newest first.
pub open spec fn is_listing(keys: Seq<i64>, n: nat, order: Seq<usize>) -> bool {
    &&& order.len() == n
    &&& forall|p: int| 0 <= p < n ==> 0 <= #[trigger] order[p] < n
    &&& forall|p: int, q: int|
        0 <= p < q < n ==> listed_before(keys, #[trigger] order[p] as int, #[trigger] order[q] as int)
    &&& forall|i: usize| i < n ==> #[trigger] order.contains(i)
}

/// The items in the order that `order` gives.
pub open spec fn rearranged<T>(items: Seq<T>, order: Seq<usize>) -> Seq<T> {
    Seq::new(order.len(), |p: int| items[order[p] as int])
}

proof fn lemma_first_older(keys: Seq<i64>, order: Seq<usize>, key: i64, p: int)
    requires
        0 <= p <= order.len(),
    ensures
        p <= first_older(keys, order, key, p) <= order.len(),
        forall|q: int|
            p <= q < first_older(keys, order, key, p) ==> keys[#[trigger] order[q] as int] >= key,
        first_older(keys, order, key, p) < order.len() ==> keys[order[first_older(
            keys,
            order,
            key,
            p,
        )] as int] < key,
    decreases order.len() - p,
{
    if p < order.len() && keys[order[p] as int] >= key {
        lemma_first_older(keys, order, key, p + 1);
    }
}

proof fn lemma_first_older_unique(keys: Seq<i64>, order: Seq<usize>, key: i64, p: int, r: int)
    requires
        0 <= p <= r <= order.len(),
        forall|q: int| p <= q < r ==> keys[#[trigger] order[q] as int] >= key,
        r < order.len() ==> keys[order[r] as int] < key,
    ensures
        first_older(keys, order, key, p) == r,
    decreases r - p,
{
    if p < r {
        lemma_first_older_unique(keys, order, key, p + 1, r);
    }
}

/// The order of listing holds every index once, newest first, and keeps
/// the order of the input among items of the same time.
pub proof fn lemma_newest_first(keys: Seq<i64>, n: nat)
    requires
        n <= keys.len(),
        n <= usize::MAX,
    ensures
        is_listing(keys, n, newest_first(keys, n)),
    decreases n,
{
    if n > 0 {
        let m = (n - 1) as nat;
        let before = newest_first(keys, m);
        lemma_newest_first(keys, m);
        let key = keys[n - 1];
        let slot = first_older(keys, before, key, 0);
        lemma_first_older(keys, before, key, 0);
        let order = before.insert(slot, m as usize);
        assert(order == newest_first(keys, n));
        assert(order.len() == n);
        assert forall|p: int| 0 <= p < n implies 0 <= #[trigger] order[p] < n by {
            if p < slot {
                assert(order[p] == before[p]);
            } else if p > slot {
                assert(order[p] == before[p - 1]);
            }
        }
        assert forall|p: int, q: int| 0 <= p < q < n implies listed_before(
            keys,
            #[trigger] order[p] as int,
            #[trigger] order[q] as int,
        ) by {
            if q < slot {
                assert(order[p] == before[p] && order[q] == before[q]);
            } else if q == slot {
                assert(order[p] == before[p]);
                assert(order[q] == m);
            } else if p < slot {
                assert(order[p] == before[p] && order[q] == before[q - 1]);
            } else if p == slot {
                assert(order[q] == before[q - 1]);
                assert(order[p] == m);
                if slot < q - 1 {
                    assert(listed_before(keys, before[slot] as int, before[q - 1] as int));
                }
            } else {
                assert(order[p] == before[p - 1] && order[q] == before[q - 1]);
            }
        }
        assert forall|i: usize| i < n implies #[trigger] order.contains(i) by {
            if i < m {
                assert(before.contains(i));
                let p = choose|p: int| 0 <= p < before.len() && before[p] == i;
                if p < slot {
                    assert(order[p] == i);
                } else {
                    assert(order[p + 1] == before[p]);
                }
            } else {
                assert(order[slot] == i);
            }
        }
    }
}

/// Computes the order of listing: the indices of `keys`, newest first, and
/// among equal times in the order of the input.
pub fn order_newest_first(keys: &Vec<i64>) -> (order: Vec<usize>)
    ensures
        order@ == listing_order(keys@),
        is_listing(keys@, keys@.len(), order@),
{
    let mut order: Vec<usize> = Vec::new();
    let mut i: usize = 0;
    while i < keys.len()
        invariant
            i <= keys.len(),
            order@ == newest_first(keys@, i as nat),
        decreases keys.len() - i,
    {
        proof {
            lemma_newest_first(keys@, i as nat);
        }
        let key = keys[i];
        let mut p: usize = 0;
        while p < order.len() && keys[order[p]] >= key
            invariant
                p <= order.len(),
                i < keys.len(),
                key == keys@[i as int],
                is_listing(keys@, i as nat, order@),
                forall|q: int| 0 <= q < p ==> keys@[#[trigger] order@[q] as int] >= key,
            decreases order.len() - p,
        {
            p += 1;
        }
        proof {
            lemma_first_older_unique(keys@, order@, key, 0, p as int);
        }
        order.insert(p, i);
        i += 1;
    }
    proof {
        lemma_newest_first(keys@, keys@.len());
    }
    order
}

} // verus!
