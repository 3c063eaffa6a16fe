//! Bounded top-K selection over a stream of keyed entries, backed by a min-heap of
//! `binary_heap_plus`.

use binary_heap_plus::{BinaryHeap, MinComparator};
use vstd::multiset::Multiset;
use vstd::prelude::*;

verus! {

#[verifier::external_type_specification]
#[verifier::external_body]
#[verifier::reject_recursive_types(T)]
#[verifier::reject_recursive_types(C)]
pub struct ExBinaryHeap<T, C>(BinaryHeap<T, C>);

#[verifier::external_type_specification]
#[verifier::external_body]
pub struct ExMinComparator(MinComparator);

/// A heap entry: a ranking key and a tie-breaker.
pub type Entry = (u64, u64);

/// What a min-heap of entries holds.
pub uninterp spec fn heap_items(h: BinaryHeap<Entry, MinComparator>) -> Multiset<Entry>;

/// The order that std gives tuples: by the first field, then by the second.
pub open spec fn entry_le(a: Entry, b: Entry) -> bool {
    a.0 < b.0 || (a.0 == b.0 && a.1 <= b.1)
}

pub open spec fn entry_lt(a: Entry, b: Entry) -> bool {
    a.0 < b.0 || (a.0 == b.0 && a.1 < b.1)
}

/// Relies on `BinaryHeap::with_capacity_min`: an empty min-heap.
#[verifier::external_body]
fn heap_with_capacity_min(capacity: usize) -> (r: BinaryHeap<Entry, MinComparator>)
    ensures
        heap_items(r) =~= Multiset::<Entry>::empty(),
{
    BinaryHeap::with_capacity_min(capacity)
}

/// Relies on `BinaryHeap::push`: the entry is added.
#[verifier::external_body]
fn heap_push(h: &mut BinaryHeap<Entry, MinComparator>, item: Entry)
    ensures
        heap_items(*final(h)) == heap_items(*old(h)).insert(item),
{
    h.push(item);
}

/// Relies on `BinaryHeap::pop` under `MinComparator`: a least entry leaves the heap.
#[verifier::external_body]
fn heap_pop(h: &mut BinaryHeap<Entry, MinComparator>) -> (r: Option<Entry>)
    ensures
        heap_items(*old(h)).len() == 0 ==> r is None && heap_items(*final(h)) == heap_items(
            *old(h),
        ),
        heap_items(*old(h)).len() > 0 ==> {
            &&& r is Some
            &&& heap_items(*old(h)).contains(r->Some_0)
            &&& forall|y: Entry| #[trigger]
                heap_items(*old(h)).contains(y) ==> entry_le(r->Some_0, y)
            &&& heap_items(*final(h)) == heap_items(*old(h)).remove(r->Some_0)
        },
{
    h.pop()
}

/// Relies on `BinaryHeap::len`: the number of entries held.
#[verifier::external_body]
fn heap_len(h: &BinaryHeap<Entry, MinComparator>) -> (r: usize)
    ensures
        r as nat == heap_items(*h).len(),
{
    h.len()
}

/// Entry `i` of `keys` ranks above entry `j`: a larger key, or the same key met earlier.
pub open spec fn outranks(keys: Seq<u64>, i: int, j: int) -> bool {
    keys[i] > keys[j] || (keys[i] == keys[j] && i < j)
}

/// `order` lists the `min(k, n)` highest-ranked positions of `keys`, best first.
pub open spec fn is_top_k(keys: Seq<u64>, k: nat, order: Seq<usize>) -> bool {
    &&& order.len() == if k <= keys.len() { k } else { keys.len() }
    &&& forall|i: int| 0 <= i < order.len() ==> #[trigger] order[i] < keys.len()
    &&& forall|i: int, j: int|
        0 <= i < j < order.len() ==> outranks(keys, #[trigger] order[i] as int, #[trigger] order[j] as int)
    &&& forall|j: int, i: int|
        0 <= j < keys.len() && !order.contains(j as usize) && 0 <= i < order.len()
            ==> #[trigger] outranks(keys, order[i] as int, j)
}

/// The heap entry standing for position `i` of `keys`.
pub open spec fn encode(keys: Seq<u64>, i: int) -> Entry {
    (keys[i], (u64::MAX - i) as u64)
}

pub open spec fn decode(e: Entry) -> int {
    u64::MAX - e.1
}

/// Keeps the `k` highest-ranked of the keys offered so far, in a heap that never
/// holds more than `k + 1` entries.
pub struct TopKRanker {
    heap: BinaryHeap<Entry, MinComparator>,
    k: usize,
    count: usize,
    keys: Ghost<Seq<u64>>,
}

impl TopKRanker {
    /// The keys offered so far, in order.
    pub closed spec fn view(&self) -> Seq<u64> {
        self.keys@
    }

    pub closed spec fn spec_k(&self) -> nat {
        self.k as nat
    }

    pub closed spec fn held(&self) -> Multiset<Entry> {
        heap_items(self.heap)
    }

    pub closed spec fn wf(&self) -> bool {
        let h = heap_items(self.heap);
        let n = self.keys@.len();
        &&& self.count as nat == n
        &&& h.len() == if self.k <= n { self.k as nat } else { n }
        &&& forall|x: Entry| #[trigger]
            h.contains(x) ==> 0 <= decode(x) < n && x == encode(self.keys@, decode(x))
        &&& forall|x: Entry| #[trigger] h.count(x) <= 1
        &&& n <= self.k ==> forall|j: int| 0 <= j < n ==> h.contains(#[trigger] encode(self.keys@, j))
        &&& forall|j: int, y: Entry|
            0 <= j < n && !h.contains(encode(self.keys@, j)) && #[trigger] h.contains(y)
                ==> entry_lt(#[trigger] encode(self.keys@, j), y)
    }

    /// A ranker that keeps the `k` highest keys.
    pub fn new(k: usize) -> (r: Self)
        ensures
            r.wf(),
            r@ == Seq::<u64>::empty(),
            r.spec_k() == k,
    {
        TopKRanker {
            heap: heap_with_capacity_min(if k < usize::MAX { k + 1 } else { k }),
            k,
            count: 0,
            keys: Ghost(Seq::empty()),
        }
    }

    /// Offers the next key: it enters the heap, and once the heap holds `k + 1`
    /// entries the lowest-ranked one leaves.
    pub fn offer(&mut self, key: u64)
        requires
            old(self).wf(),
            old(self)@.len() < usize::MAX,
        ensures
            final(self).wf(),
            final(self)@ == old(self)@.push(key),
            final(self).spec_k() == old(self).spec_k(),
            final(self).held().len() <= final(self).spec_k(),
    {
        let ghost old_keys = self.keys@;
        let ghost h0 = heap_items(self.heap);
        let ghost n = old_keys.len() as int;
        let item: Entry = (key, u64::MAX - self.count as u64);
        self.keys = Ghost(self.keys@.push(key));
        let ghost keys = self.keys@;
        proof {
            assert(item == encode(keys, n));
            assert forall|x: Entry| #[trigger] h0.contains(x) implies x == encode(keys, decode(x))
                && decode(x) < n by {
                assert(keys[decode(x)] == old_keys[decode(x)]);
            }
            assert(!h0.contains(item));
        }
        heap_push(&mut self.heap, item);
        self.count = self.count + 1;
        let ghost h1 = heap_items(self.heap);
        proof {
            // The one moment the heap holds more than `k`: at most `k + 1`.
            assert(h1.len() <= self.k + 1);
            assert forall|j: int| 0 <= j < n implies #[trigger] encode(keys, j) == encode(
                old_keys,
                j,
            ) by {}
            assert forall|x: Entry| #[trigger]
                h1.contains(x) implies 0 <= decode(x) < n + 1 && x == encode(keys, decode(x)) by {
                if x != item {
                    assert(h0.contains(x));
                }
            }
            assert forall|x: Entry| #[trigger] h1.count(x) <= 1 by {
                if x != item {
                    assert(h0.count(x) <= 1);
                }
            }
        }
        if heap_len(&self.heap) > self.k {
            let popped = heap_pop(&mut self.heap);
            let ghost m = popped->Some_0;
            let ghost h2 = heap_items(self.heap);
            proof {
                assert forall|x: Entry| #[trigger] h2.count(x) <= 1 by {
                    assert(h1.count(x) <= 1);
                }
                assert forall|x: Entry| #[trigger]
                    h2.contains(x) implies 0 <= decode(x) < n + 1 && x == encode(keys, decode(x)) by {
                    assert(h1.contains(x));
                }
                assert forall|j: int, y: Entry|
                    0 <= j < n + 1 && !h2.contains(encode(keys, j)) && #[trigger] h2.contains(
                        y,
                    ) implies entry_lt(#[trigger] encode(keys, j), y) by {
                    assert(h1.contains(y));
                    assert(y != m);
                    if encode(keys, j) == m {
                    } else if j == n {
                    } else {
                        assert(!h0.contains(encode(old_keys, j)));
                        if y == item {
                            assert(h0.contains(m));
                            assert(entry_lt(encode(old_keys, j), m));
                        } else {
                            assert(h0.contains(y));
                        }
                    }
                }
            }
        } else {
            proof {
                assert forall|j: int| 0 <= j < n + 1 implies h1.contains(
                    #[trigger] encode(keys, j),
                ) by {
                    if j < n {
                        assert(h0.contains(encode(old_keys, j)));
                    }
                }
                assert forall|j: int, y: Entry|
                    0 <= j < n + 1 && !h1.contains(encode(keys, j)) && #[trigger] h1.contains(
                        y,
                    ) implies entry_lt(#[trigger] encode(keys, j), y) by {
                    assert(j != n);
                    assert(h0.contains(encode(old_keys, j)));
                }
            }
        }
    }

    /// The number of entries the heap holds between offers: never more than `k`.
    pub fn held_count(&self) -> (r: usize)
        requires
            self.wf(),
        ensures
            r as nat == self.held().len(),
            r <= self.spec_k(),
            r as nat == if self.spec_k() <= self@.len() { self.spec_k() } else { self@.len() },
    {
        heap_len(&self.heap)
    }

    /// The positions of the `min(k, n)` highest-ranked keys offered, best first.
    pub fn into_ranked(self) -> (r: Vec<usize>)
        requires
            self.wf(),
        ensures
            is_top_k(self@, self.spec_k(), r@),
    {
        let ghost keys = self.keys@;
        let ghost h = heap_items(self.heap);
        let ghost n = keys.len() as int;
        let mut heap = self.heap;
        let mut asc: Vec<usize> = Vec::new();
        while heap_len(&heap) > 0
            invariant
                n <= usize::MAX,
                forall|x: Entry| #[trigger]
                    h.contains(x) ==> 0 <= decode(x) < n && x == encode(keys, decode(x)),
                forall|x: Entry| #[trigger] h.count(x) <= 1,
                forall|x: Entry| #[trigger] heap_items(heap).contains(x) ==> h.contains(x),
                forall|x: Entry| #[trigger] heap_items(heap).count(x) <= 1,
                heap_items(heap).len() + asc.len() == h.len(),
                forall|i: int|
                    0 <= i < asc.len() ==> #[trigger] asc[i] < n && h.contains(
                        encode(keys, asc[i] as int),
                    ) && !heap_items(heap).contains(encode(keys, asc[i] as int)),
                forall|i: int, j: int|
                    0 <= i < j < asc.len() ==> entry_lt(
                        encode(keys, #[trigger] asc[i] as int),
                        encode(keys, #[trigger] asc[j] as int),
                    ),
                forall|i: int, y: Entry|
                    0 <= i < asc.len() && #[trigger] heap_items(heap).contains(y) ==> entry_lt(
                        encode(keys, #[trigger] asc[i] as int),
                        y,
                    ),
                forall|x: Entry|
                    #[trigger] h.contains(x) && !heap_items(heap).contains(x) ==> asc@.contains(
                        decode(x) as usize,
                    ),
            decreases heap_items(heap).len(),
        {
            let ghost before = heap_items(heap);
            let ghost asc0 = asc@;
            let popped = heap_pop(&mut heap);
            let e = popped.unwrap();
            let ghost after = heap_items(heap);
            proof {
                assert(h.contains(e));
                assert(decode(e) < n);
            }
            let idx = (u64::MAX - e.1) as usize;
            asc.push(idx);
            proof {
                assert(encode(keys, idx as int) == e);
                assert(before.count(e) == 1);
                assert(!after.contains(e));
                assert forall|x: Entry| #[trigger] after.contains(x) implies before.contains(x)
                    && x != e by {}
                assert forall|x: Entry| #[trigger] after.count(x) <= 1 by {
                    assert(before.count(x) <= 1);
                }
                assert forall|i: int, y: Entry|
                    0 <= i < asc.len() && #[trigger] after.contains(y) implies entry_lt(
                        encode(keys, #[trigger] asc[i] as int),
                        y,
                    ) by {
                    assert(before.contains(y));
                    if i < asc0.len() {
                        assert(asc[i] == asc0[i]);
                    }
                }
                assert forall|i: int|
                    0 <= i < asc.len() implies #[trigger] asc[i] < n && h.contains(
                        encode(keys, asc[i] as int),
                    ) && !after.contains(encode(keys, asc[i] as int)) by {
                    if i < asc0.len() {
                        assert(asc[i] == asc0[i]);
                    }
                }
                assert forall|i: int, j: int|
                    0 <= i < j < asc.len() implies entry_lt(
                        encode(keys, #[trigger] asc[i] as int),
                        encode(keys, #[trigger] asc[j] as int),
                    ) by {
                    assert(asc[i] == asc0[i]);
                    if j < asc0.len() {
                        assert(asc[j] == asc0[j]);
                    }
                }
                assert forall|x: Entry|
                    #[trigger] h.contains(x) && !after.contains(x) implies asc@.contains(
                        decode(x) as usize,
                    ) by {
                    if x == e {
                        assert(asc@[asc0.len() as int] == decode(x) as usize);
                    } else {
                        assert(!before.contains(x));
                        let t = choose|t: int| 0 <= t < asc0.len() && asc0[t] == decode(x) as usize;
                        assert(asc@[t] == decode(x) as usize);
                    }
                }
            }
        }
        let mut r: Vec<usize> = Vec::new();
        let mut i: usize = asc.len();
        while i > 0
            invariant
                i <= asc.len(),
                r.len() + i == asc.len(),
                forall|t: int| 0 <= t < r.len() ==> #[trigger] r[t] == asc[asc.len() - 1 - t],
            decreases i,
        {
            i = i - 1;
            r.push(asc[i]);
        }
        proof {
            let l = asc.len() as int;
            assert forall|i: int| 0 <= i < r.len() implies #[trigger] r[i] < keys.len() by {
                assert(asc[l - 1 - i] < n);
            }
            assert forall|i: int, j: int|
                0 <= i < j < r.len() implies outranks(
                keys,
                #[trigger] r[i] as int,
                #[trigger] r[j] as int,
            ) by {
                assert(entry_lt(
                    encode(keys, asc[l - 1 - j] as int),
                    encode(keys, asc[l - 1 - i] as int),
                ));
            }
            assert forall|j: int, i: int|
                0 <= j < keys.len() && !r@.contains(j as usize) && 0 <= i < r.len() implies
                #[trigger] outranks(keys, r[i] as int, j) by {
                let a = asc[l - 1 - i];
                assert(h.contains(encode(keys, a as int)));
                if h.contains(encode(keys, j)) {
                    assert(decode(encode(keys, j)) == j);
                    let t = choose|t: int| 0 <= t < asc.len() && asc[t] == j as usize;
                    assert(r[l - 1 - t] == j as usize);
                }
                assert(entry_lt(encode(keys, j), encode(keys, a as int)));
            }
        }
        r
    }
}


/// The positions of the `min(k, n)` highest keys, best first; equal keys keep
/// the order in which they appear.
pub fn top_k_indices(keys: &Vec<u64>, k: usize) -> (r: Vec<usize>)
    ensures
        is_top_k(keys@, k as nat, r@),
{
    let mut ranker = TopKRanker::new(k);
    let mut i: usize = 0;
    while i < keys.len()
        invariant
            ranker.wf(),
            ranker.spec_k() == k,
            i <= keys.len(),
            ranker@ == keys@.take(i as int),
        decreases keys.len() - i,
    {
        proof {
            assert(keys@.take(i as int).push(keys@[i as int]) == keys@.take(i as int + 1));
        }
        ranker.offer(keys[i]);
        i = i + 1;
    }
    proof {
        assert(keys@.take(keys.len() as int) == keys@);
    }
    ranker.into_ranked()
}

proof fn lemma_top_k_agree_upto(keys: Seq<u64>, k: nat, a: Seq<usize>, b: Seq<usize>, t: int)
    requires
        is_top_k(keys, k, a),
        is_top_k(keys, k, b),
        0 <= t <= a.len(),
    ensures
        forall|s: int| 0 <= s < t ==> a[s] == b[s],
    decreases t,
{
    if t > 0 {
        lemma_top_k_agree_upto(keys, k, a, b, t - 1);
        let s = t - 1;
        let x = a[s];
        let y = b[s];
        if x != y {
            assert(x < keys.len() && y < keys.len());
            if outranks(keys, x as int, y as int) {
                if b.contains(x) {
                    let p = choose|p: int| 0 <= p < b.len() && b[p] == x;
                    if p < s {
                        assert(a[p] == b[p]);
                        assert(outranks(keys, a[p] as int, a[s] as int));
                    } else {
                        assert(outranks(keys, b[s] as int, b[p] as int));
                    }
                } else {
                    assert(outranks(keys, b[s] as int, x as int));
                }
            } else {
                assert(outranks(keys, y as int, x as int));
                if a.contains(y) {
                    let p = choose|p: int| 0 <= p < a.len() && a[p] == y;
                    if p < s {
                        assert(a[p] == b[p]);
                        assert(outranks(keys, b[p] as int, b[s] as int));
                    } else {
                        assert(outranks(keys, a[s] as int, a[p] as int));
                    }
                } else {
                    assert(outranks(keys, a[s] as int, y as int));
                }
            }
        }
    }
}

/// There is only one way to list the `min(k, n)` highest-ranked positions best first.
pub proof fn lemma_top_k_unique(keys: Seq<u64>, k: nat, a: Seq<usize>, b: Seq<usize>)
    requires
        is_top_k(keys, k, a),
        is_top_k(keys, k, b),
    ensures
        a == b,
{
    lemma_top_k_agree_upto(keys, k, a, b, a.len() as int);
    assert(a =~= b);
}

/// A top-K ranking is the first `k` positions of the whole list sorted by key,
/// descending, equal keys in the order they appear.
pub proof fn lemma_top_k_is_sorted_prefix(
    keys: Seq<u64>,
    k: nat,
    sorted: Seq<usize>,
    ranked: Seq<usize>,
)
    requires
        keys.len() <= usize::MAX,
        is_top_k(keys, keys.len(), sorted),
        is_top_k(keys, k, ranked),
        k <= keys.len(),
    ensures
        ranked == sorted.take(k as int),
{
    let p = sorted.take(k as int);
    assert forall|i: int| 0 <= i < p.len() implies #[trigger] p[i] < keys.len() by {
        assert(p[i] == sorted[i]);
    }
    assert forall|i: int, j: int| 0 <= i < j < p.len() implies outranks(
        keys,
        #[trigger] p[i] as int,
        #[trigger] p[j] as int,
    ) by {
        assert(p[i] == sorted[i] && p[j] == sorted[j]);
    }
    assert forall|j: int, i: int|
        0 <= j < keys.len() && !p.contains(j as usize) && 0 <= i < p.len() implies
        #[trigger] outranks(keys, p[i] as int, j) by {
        assert(p[i] == sorted[i]);
        if sorted.contains(j as usize) {
            let q = choose|q: int| 0 <= q < sorted.len() && sorted[q] == j as usize;
            if q < k {
                assert(p[q] == j as usize);
                assert(p.contains(j as usize));
            }
            assert(i < q);
            assert(outranks(keys, sorted[i] as int, sorted[q] as int));
        } else {
            assert(outranks(keys, sorted[i] as int, j));
        }
    }
    lemma_top_k_unique(keys, k, ranked, p);
}

} // verus!
