//! Byte layout of an aligned allocation: element count, coerced capacity,
//! byte sizes and alignment.

use vstd::prelude::*;

verus! {

/// The capacity actually reserved, in elements: the requested capacity,
/// silently raised to the element count when it is smaller.
pub open spec fn effective_capacity_spec(count: int, capacity: int) -> int {
    if capacity >= count {
        capacity
    } else {
        count
    }
}

/// Byte layout of one aligned allocation with a positive element count.
#[derive(Clone, Copy, PartialEq, Eq, Structural, Debug)]
pub struct AllocLayout {
    /// Number of elements logically present after construction.
    pub len_elems: usize,
    /// Number of elements the backing memory is declared to hold.
    pub capacity_elems: usize,
    /// Bytes spanned by the `len_elems` logically present elements.
    pub size_bytes: usize,
    /// Bytes spanned by the declared capacity.
    pub capacity_bytes: usize,
    /// Required byte alignment of the base address.
    pub align: usize,
}

/// What an allocation request comes to: nothing at all for an empty buffer,
/// or one aligned block with the layout given.
#[derive(Clone, Copy, PartialEq, Eq, Structural, Debug)]
pub enum AllocPlan {
    /// A request for zero elements: no memory is allocated, the buffer is a
    /// valid, empty, zero-capacity instance.
    Empty,
    /// A request for at least one element: one block of `size_bytes` bytes at
    /// the given alignment.
    Alloc(AllocLayout),
}

/// Exactly when `l` is the layout for `count` elements of `elem` bytes each,
/// a requested capacity of `capacity` elements and base alignment `align`.
pub open spec fn layout_matches(
    l: AllocLayout,
    count: int,
    capacity: int,
    align: int,
    elem: int,
) -> bool {
    &&& l.len_elems == count
    &&& l.capacity_elems == effective_capacity_spec(count, capacity)
    &&& l.size_bytes == count * elem
    &&& l.capacity_bytes == effective_capacity_spec(count, capacity) * elem
    &&& l.align == align
}

/// Exactly when `p` is the plan for the given request: `Empty` if and only if
/// `count == 0`, else one block with the matching layout.
pub open spec fn plan_matches(
    p: AllocPlan,
    count: int,
    capacity: int,
    align: int,
    elem: int,
) -> bool {
    match p {
        AllocPlan::Empty => count == 0,
        AllocPlan::Alloc(l) => count > 0 && layout_matches(l, count, capacity, align, elem),
    }
}

/// The capacity reserved for a request of `count` elements with `capacity`
/// elements asked for: the larger of the two.
pub fn effective_capacity(count: usize, capacity: usize) -> (r: usize)
    ensures
        r == effective_capacity_spec(count as int, capacity as int),
{
    if capacity >= count {
        capacity
    } else {
        count
    }
}

/// The plan for one aligned buffer of `count` elements of `elem_size` bytes
/// each, with `capacity` elements requested and base alignment `align`.
///
/// A zero `count` yields the empty plan: no allocation, zero capacity, and
/// the requested alignment and capacity are ignored. That `align` is a
/// power of two acceptable to the allocator is the caller's obligation and
/// is not validated here.
pub fn plan_aligned(count: usize, capacity: usize, align: usize, elem_size: usize) -> (p:
    AllocPlan)
    requires
        1 <= elem_size,
        count * elem_size <= usize::MAX,
        capacity * elem_size <= usize::MAX,
    ensures
        plan_matches(p, count as int, capacity as int, align as int, elem_size as int),
{
    if count == 0 {
        AllocPlan::Empty
    } else {
        let cap = effective_capacity(count, capacity);
        AllocPlan::Alloc(
            AllocLayout {
                len_elems: count,
                capacity_elems: cap,
                size_bytes: count * elem_size,
                capacity_bytes: cap * elem_size,
                align,
            },
        )
    }
}

/// Relies on `page_size::get` of the `page_size` crate: the memory page size
/// of the host system, in bytes. The value depends on the machine alone, so
/// nothing is promised of it here; callers state what they need of it at the
/// point of use.
#[verifier::external_body]
pub(crate) fn os_page_size() -> (r: usize) {
    page_size::get()
}

/// The plan for one page-aligned buffer: the host's page size is queried and
/// used as the base alignment. Returns the plan together with the page size
/// it was built from, so that the caller can step through the block page by
/// page without querying again.
pub fn page_aligned_plan(count: usize, capacity: usize, elem_size: usize) -> (r: (
    AllocPlan,
    usize,
))
    requires
        1 <= elem_size,
        count * elem_size <= usize::MAX,
        capacity * elem_size <= usize::MAX,
    ensures
        plan_matches(r.0, count as int, capacity as int, r.1 as int, elem_size as int),
{
    let page = os_page_size();
    (plan_aligned(count, capacity, page, elem_size), page)
}

/// How many bytes the page-locking call must pin: the bytes of the `count`
/// logically present elements when locking is requested and there is memory
/// to pin, and nothing otherwise. An empty buffer owns no memory, so a lock
/// request on it is ignored.
pub fn pin_length(count: usize, elem_size: usize, lock: bool) -> (r: Option<usize>)
    requires
        count * elem_size <= usize::MAX,
    ensures
        lock && count > 0 ==> (r matches Some(n) && n == count * elem_size),
        !(lock && count > 0) ==> r is None,
{
    if lock && count > 0 {
        Some(count * elem_size)
    } else {
        None
    }
}

} // verus!
