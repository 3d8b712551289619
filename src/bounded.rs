//! Fixed-capacity containers of the `heapless` crate, as the engine uses them.
//!
//! Each item here is taken on trust from `heapless`' source: the contents
//! of a container are named by a spec function, and every method the engine
//! calls is stated over that name.

use vstd::multiset::Multiset;
use vstd::prelude::*;

use crate::pattern::{PatternAbs, MAX_PATTERN_SIZE};

verus! {

#[verifier::external_type_specification]
#[verifier::external_body]
#[verifier::reject_recursive_types(T)]
pub struct ExHeaplessVec<T, const N: usize>(heapless::Vec<T, N>);

#[verifier::external_type_specification]
#[verifier::external_body]
#[verifier::reject_recursive_types(T)]
#[verifier::reject_recursive_types(K)]
pub struct ExBinaryHeap<T, K, const N: usize>(heapless::BinaryHeap<T, K, N>);

#[verifier::external_type_specification]
#[verifier::external_body]
pub struct ExMin(heapless::binary_heap::Min);

/// A buffer of absolute events with room for `MAX_PATTERN_SIZE` of them.
pub type VecPatternAbs = heapless::Vec<PatternAbs, MAX_PATTERN_SIZE>;

/// A min-heap of `(time, event)` keys with room for `MAX_PATTERN_SIZE` of them.
pub type TimeHeap = heapless::BinaryHeap<(u16, u32), heapless::binary_heap::Min, MAX_PATTERN_SIZE>;

/// The events that a buffer holds, in order.
pub uninterp spec fn abs_items(v: heapless::Vec<PatternAbs, MAX_PATTERN_SIZE>) -> Seq<PatternAbs>;

/// The keys that a heap holds.
pub uninterp spec fn heap_items(
    h: heapless::BinaryHeap<(u16, u32), heapless::binary_heap::Min, MAX_PATTERN_SIZE>,
) -> Multiset<(u16, u32)>;

/// The order that `Ord` gives tuples: lexicographic, field by field.
pub open spec fn key_le(a: (u16, u32), b: (u16, u32)) -> bool {
    a.0 < b.0 || (a.0 == b.0 && a.1 <= b.1)
}

/// Relies on heapless::Vec::new: the new buffer is empty.
#[verifier::external_body]
pub(crate) fn abs_vec_new() -> (v: VecPatternAbs)
    ensures
        abs_items(v) == Seq::<PatternAbs>::empty(),
{
    heapless::Vec::new()
}

/// Relies on heapless::Vec::push: the item is appended while the length is
/// under the capacity, and handed back otherwise.
#[verifier::external_body]
pub(crate) fn abs_vec_push(v: &mut VecPatternAbs, item: PatternAbs) -> (r: Result<(), PatternAbs>)
    ensures
        abs_items(*old(v)).len() < MAX_PATTERN_SIZE ==> r is Ok
            && abs_items(*final(v)) == abs_items(*old(v)).push(item),
        abs_items(*old(v)).len() >= MAX_PATTERN_SIZE ==> (r matches Err(e) && e == item
            && abs_items(*final(v)) == abs_items(*old(v))),
{
    v.push(item)
}

/// Relies on heapless::Vec::as_slice: the slice holds the buffer's items.
#[verifier::external_body]
pub(crate) fn abs_vec_as_slice(v: &VecPatternAbs) -> (r: &[PatternAbs])
    ensures
        r@ == abs_items(*v),
{
    v.as_slice()
}

/// Relies on heapless::BinaryHeap::new: the new heap is empty.
#[verifier::external_body]
pub(crate) fn time_heap_new() -> (h: TimeHeap)
    ensures
        heap_items(h) == Multiset::<(u16, u32)>::empty(),
{
    heapless::BinaryHeap::new()
}

/// Relies on heapless::BinaryHeap::push: the key is added while the heap
/// is not full, and handed back otherwise.
#[verifier::external_body]
pub(crate) fn time_heap_push(h: &mut TimeHeap, item: (u16, u32)) -> (r: Result<(), (u16, u32)>)
    ensures
        heap_items(*old(h)).len() < MAX_PATTERN_SIZE ==> r is Ok
            && heap_items(*final(h)) == heap_items(*old(h)).insert(item),
        heap_items(*old(h)).len() >= MAX_PATTERN_SIZE ==> (r matches Err(e) && e == item
            && heap_items(*final(h)) == heap_items(*old(h))),
{
    h.push(item)
}

/// Relies on heapless::BinaryHeap::pop on a min-heap: it removes and returns
/// the least key, or `None` when the heap is empty.
#[verifier::external_body]
pub(crate) fn time_heap_pop(h: &mut TimeHeap) -> (r: Option<(u16, u32)>)
    ensures
        heap_items(*old(h)).len() == 0 ==> r is None
            && heap_items(*final(h)) == heap_items(*old(h)),
        heap_items(*old(h)).len() > 0 ==> (r matches Some(x) && heap_items(*old(h)).contains(x)
            && (forall|y: (u16, u32)| #[trigger] heap_items(*old(h)).contains(y) ==> key_le(x, y))
            && heap_items(*final(h)) == heap_items(*old(h)).remove(x)),
{
    h.pop()
}

} // verus!
