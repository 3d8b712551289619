//! Putting absolute events back into time order with a bounded min-heap.

use vstd::multiset::Multiset;
use vstd::prelude::*;
use vstd::seq_lib::{group_to_multiset_ensures, to_multiset_len};

use crate::bounded::{heap_items, key_le, time_heap_new, time_heap_pop, time_heap_push};
use crate::pattern::{PatternAbs, PatternError, MAX_PATTERN_SIZE};

verus! {

broadcast use group_to_multiset_ensures;

/// The heap key of an event: its tick first, its payload second.
pub open spec fn key_of(a: PatternAbs) -> (u16, u32) {
    (a.time, a.event)
}

/// The event that a heap key stands for.
pub open spec fn event_of(k: (u16, u32)) -> PatternAbs {
    PatternAbs { event: k.1, time: k.0 }
}

/// The ticks of `s`, in order.
pub open spec fn times(s: Seq<PatternAbs>) -> Seq<u16> {
    s.map_values(|a: PatternAbs| a.time)
}

/// No tick of `t` is larger than a tick after it.
pub open spec fn nondecreasing(t: Seq<u16>) -> bool {
    forall|i: int, j: int| 0 <= i < j < t.len() ==> t[i] <= t[j]
}

/// `after` holds the events of `before`, each as often, in time order.
pub open spec fn sorts_to(before: Seq<PatternAbs>, after: Seq<PatternAbs>) -> bool {
    &&& after.len() == before.len()
    &&& nondecreasing(times(after))
    &&& after.to_multiset() == before.to_multiset()
}

/// Applying the same function to two sequences with equal contents gives
/// sequences with equal contents.
pub proof fn lemma_map_keeps_multiset<A, B>(s1: Seq<A>, s2: Seq<A>, f: spec_fn(A) -> B)
    requires
        s1.to_multiset() == s2.to_multiset(),
    ensures
        s1.map_values(f).to_multiset() == s2.map_values(f).to_multiset(),
    decreases s1.len(),
{
    if s1.len() == 0 {
        to_multiset_len(s1);
        to_multiset_len(s2);
        assert(s2.len() == 0);
        assert(s1.map_values(f) =~= s2.map_values(f));
    } else {
        let x = s1.last();
        let rest1 = s1.drop_last();
        assert(s1 =~= rest1.push(x));
        assert(s2.to_multiset().count(x) > 0);
        assert(s2.contains(x));
        let j = choose|j: int| 0 <= j < s2.len() && s2[j] == x;
        let rest2 = s2.remove(j);
        assert(rest1.to_multiset() =~= rest2.to_multiset());
        lemma_map_keeps_multiset(rest1, rest2, f);
        assert(s1.map_values(f) =~= rest1.map_values(f).push(f(x)));
        assert(s2.map_values(f).remove(j) =~= rest2.map_values(f));
        assert(s2.map_values(f)[j] == f(x));
        assert(s2.map_values(f).to_multiset() =~= rest2.map_values(f).to_multiset().insert(f(x)));
    }
}

/// Two ascending sequences of ticks with the same contents are equal.
pub proof fn lemma_nondecreasing_unique(a: Seq<u16>, b: Seq<u16>)
    requires
        nondecreasing(a),
        nondecreasing(b),
        a.to_multiset() == b.to_multiset(),
    ensures
        a == b,
    decreases a.len(),
{
    if a.len() == 0 {
        to_multiset_len(a);
        to_multiset_len(b);
        assert(b.len() == 0);
        assert(a =~= b);
    } else {
        to_multiset_len(a);
        to_multiset_len(b);
        assert(b.len() == a.len());
        let x = a.last();
        let y = b.last();
        assert(b.to_multiset().count(x) > 0);
        assert(b.contains(x));
        assert(x <= y);
        assert(a.to_multiset().count(y) > 0);
        assert(a.contains(y));
        assert(y <= x);
        assert(a.drop_last() =~= a.remove(a.len() - 1));
        assert(b.drop_last() =~= b.remove(b.len() - 1));
        lemma_nondecreasing_unique(a.drop_last(), b.drop_last());
        assert(a =~= a.drop_last().push(x));
        assert(b =~= b.drop_last().push(y));
    }
}

/// Sorting keeps the ticks as a multiset.
pub proof fn lemma_sort_keeps_times(before: Seq<PatternAbs>, after: Seq<PatternAbs>)
    requires
        sorts_to(before, after),
    ensures
        times(after).to_multiset() == times(before).to_multiset(),
{
    lemma_map_keeps_multiset(after, before, |a: PatternAbs| a.time);
}

/// Sorting a buffer that is already in time order leaves its ticks as they
/// were: sorting twice gives the ticks of sorting once.
pub proof fn lemma_sort_idempotent(before: Seq<PatternAbs>, after: Seq<PatternAbs>)
    requires
        sorts_to(before, after),
        nondecreasing(times(before)),
    ensures
        times(after) == times(before),
{
    lemma_sort_keeps_times(before, after);
    lemma_nondecreasing_unique(times(after), times(before));
}

/// Reorders `pa` in place so that its ticks do not decrease.
///
/// The events are routed through a min-heap keyed on `(time, event)`;
/// the order of events that share a tick is not that of the input. Fails,
/// leaving `pa` untouched, when `pa` holds more events than the heap has
/// room for.
pub fn pattern_abs_sort(pa: &mut [PatternAbs]) -> (r: Result<(), PatternError>)
    ensures
        r is Err <==> old(pa)@.len() > MAX_PATTERN_SIZE,
        r matches Err(e) ==> e == PatternError::CapacityExceeded,
        r is Err ==> final(pa)@ == old(pa)@,
        r is Ok ==> sorts_to(old(pa)@, final(pa)@),
        r is Ok ==> times(final(pa)@).to_multiset() == times(old(pa)@).to_multiset(),
{
    let len = pa.len();
    if len > MAX_PATTERN_SIZE {
        return Err(PatternError::CapacityExceeded);
    }
    let ghost orig = pa@;
    let ghost keys = orig.map_values(|a: PatternAbs| key_of(a));
    let mut heap = time_heap_new();
    let mut i: usize = 0;
    while i < len
        invariant
            pa@ == orig,
            len == orig.len(),
            len <= MAX_PATTERN_SIZE,
            keys == orig.map_values(|a: PatternAbs| key_of(a)),
            0 <= i <= len,
            heap_items(heap) == keys.take(i as int).to_multiset(),
        decreases len - i,
    {
        let a = pa[i];
        let _ = time_heap_push(&mut heap, (a.time, a.event));
        assert(keys.take(i as int + 1) =~= keys.take(i as int).push(keys[i as int]));
        i = i + 1;
    }
    assert(keys.take(len as int) =~= keys);
    let mut i: usize = 0;
    while i < len
        invariant
            pa@.len() == len,
            len == orig.len(),
            len <= MAX_PATTERN_SIZE,
            keys == orig.map_values(|a: PatternAbs| key_of(a)),
            0 <= i <= len,
            heap_items(heap).len() == len - i,
            pa@.take(i as int).map_values(|a: PatternAbs| key_of(a)).to_multiset().add(
                heap_items(heap),
            ) == keys.to_multiset(),
            forall|j: int, k: int| 0 <= j < k < i ==> pa@[j].time <= pa@[k].time,
            forall|j: int, y: (u16, u32)|
                0 <= j < i && #[trigger] heap_items(heap).contains(y) ==> #[trigger] pa@[j].time <= y.0,
        decreases len - i,
    {
        let ghost before = pa@;
        let ghost h = heap_items(heap);
        match time_heap_pop(&mut heap) {
            Some(k) => {
                pa[i] = PatternAbs { event: k.1, time: k.0 };
                proof {
                    assert(pa@.take(i as int + 1) =~= before.take(i as int).push(event_of(k)));
                    assert(pa@.take(i as int + 1).map_values(|a: PatternAbs| key_of(a))
                        =~= before.take(i as int).map_values(|a: PatternAbs| key_of(a)).push(k));
                    assert(forall|y: (u16, u32)| #[trigger] heap_items(heap).contains(y)
                        ==> h.contains(y) && key_le(k, y));
                }
            },
            None => {},
        }
        i = i + 1;
    }
    proof {
        assert(heap_items(heap) =~= Multiset::<(u16, u32)>::empty());
        assert(pa@.take(len as int) =~= pa@);
        let ks = pa@.map_values(|a: PatternAbs| key_of(a));
        assert(ks.to_multiset() =~= keys.to_multiset());
        lemma_map_keeps_multiset(ks, keys, |k: (u16, u32)| event_of(k));
        assert(ks.map_values(|k: (u16, u32)| event_of(k)) =~= pa@);
        assert(keys.map_values(|k: (u16, u32)| event_of(k)) =~= orig);
        assert(nondecreasing(times(pa@)));
        lemma_sort_keeps_times(orig, pa@);
    }
    Ok(())
}

} // verus!
