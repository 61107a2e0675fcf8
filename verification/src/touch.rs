//! Sparse page-touching: which element indices must be written so that every
//! memory page of an allocation is touched at least once, and what touching
//! does to a buffer's contents.

use vstd::prelude::*;
use vstd::arithmetic::div_mod::lemma_div_is_ordered;
use vstd::arithmetic::div_mod::lemma_div_nonincreasing;
use vstd::arithmetic::div_mod::lemma_div_of0;
use vstd::arithmetic::div_mod::lemma_fundamental_div_mod;
use vstd::arithmetic::div_mod::lemma_fundamental_div_mod_converse;
use vstd::arithmetic::div_mod::lemma_div_multiples_vanish;
use vstd::arithmetic::div_mod::lemma_div_pos_is_pos;
use vstd::arithmetic::div_mod::lemma_mod_division_less_than_divisor;
use vstd::arithmetic::mul::lemma_mul_inequality;
use vstd::arithmetic::mul::lemma_mul_is_commutative;

verus! {

/// How many pages a block of `size_bytes` bytes spans when stepped through
/// from its base in strides of `page` bytes: one touch per started page.
pub open spec fn num_touches(size_bytes: int, page: int) -> int
    recommends
        1 <= size_bytes,
        1 <= page,
{
    (size_bytes - 1) / page + 1
}

/// The element index holding byte offset `k * page`: the byte offset of the
/// `k`-th page boundary, converted to elements of `elem` bytes each.
pub open spec fn touch_index(k: int, page: int, elem: int) -> int
    recommends
        0 <= k,
        1 <= page,
        1 <= elem,
{
    (k * page) / elem
}

/// Exactly when `idx` lists, in page order, one element index per page of a
/// block of `count` elements of `elem` bytes each.
pub open spec fn is_touch_sequence(idx: Seq<usize>, count: int, elem: int, page: int) -> bool {
    &&& idx.len() == num_touches(count * elem, page)
    &&& forall|j: int| 0 <= j < idx.len() ==> #[trigger] idx[j] == touch_index(j, page, elem)
}

/// Exactly when `after` is `before` with the value `x` written at every index
/// listed in `idx` and nothing else changed.
pub open spec fn touch_applied<T>(before: Seq<T>, after: Seq<T>, idx: Seq<usize>, x: T) -> bool {
    &&& after.len() == before.len()
    &&& forall|j: int| 0 <= j < idx.len() ==> after[#[trigger] idx[j] as int] == x
    &&& forall|i: int|
        0 <= i < after.len() && !idx.contains(i as usize) ==> after[i] == #[trigger] before[i]
}

/// The element indices at which one value per memory page must be written for
/// a block of `count` elements of `elem_size` bytes each: the indices holding
/// byte offsets `0, page, 2 * page, ...` within the block.
///
/// Every returned index is in bounds, the first is always `0`, and there is
/// one index per started page of the block.
pub fn touch_indices(count: usize, elem_size: usize, page: usize) -> (idx: Vec<usize>)
    requires
        1 <= count,
        1 <= elem_size,
        1 <= page,
        count * elem_size <= usize::MAX,
    ensures
        is_touch_sequence(idx@, count as int, elem_size as int, page as int),
        forall|j: int| 0 <= j < idx@.len() ==> #[trigger] idx@[j] < count,
        idx@.len() >= 1,
        idx@[0] == 0,
{
    proof {
        assert(1 <= count * elem_size) by (nonlinear_arith)
            requires
                1 <= count,
                1 <= elem_size,
        ;
    }
    let size_bytes: usize = count * elem_size;
    proof {
        lemma_div_nonincreasing(size_bytes - 1, page as int);
    }
    let n: usize = 1 + (size_bytes - 1) / page;
    proof {
        lemma_fundamental_div_mod(size_bytes - 1, page as int);
        lemma_mod_division_less_than_divisor(size_bytes - 1, page as int);
        lemma_mul_is_commutative(page as int, n - 1);
        assert((n - 1) * page <= size_bytes - 1);
    }
    let mut idx: Vec<usize> = Vec::new();
    let mut k: usize = 0;
    while k < n
        invariant
            1 <= count,
            1 <= elem_size,
            1 <= page,
            size_bytes == count * elem_size,
            size_bytes <= usize::MAX,
            n == num_touches(size_bytes as int, page as int),
            (n - 1) * page <= size_bytes - 1,
            k <= n,
            idx@.len() == k,
            forall|j: int|
                0 <= j < k ==> #[trigger] idx@[j] == touch_index(
                    j,
                    page as int,
                    elem_size as int,
                ),
            forall|j: int| 0 <= j < k ==> #[trigger] idx@[j] < count,
        decreases n - k,
    {
        proof {
            lemma_mul_inequality(k as int, n - 1, page as int);
        }
        let off: usize = k * page;
        let e: usize = off / elem_size;
        proof {
            lemma_div_is_ordered(off as int, size_bytes - 1, elem_size as int);
            assert(size_bytes - 1 == (count - 1) * elem_size + (elem_size - 1))
                by (nonlinear_arith)
                requires
                    size_bytes == count * elem_size,
                    1 <= count,
                    1 <= elem_size,
            ;
            lemma_fundamental_div_mod_converse(
                size_bytes - 1,
                elem_size as int,
                count - 1,
                elem_size - 1,
            );
        }
        idx.push(e);
        k = k + 1;
    }
    proof {
        lemma_div_of0(elem_size as int);
        assert(idx@[0] == touch_index(0, page as int, elem_size as int));
    }
    idx
}

/// Writes `x` at every index listed in `idx`, leaving every other element as
/// it was. Used to touch one element per memory page of a freshly allocated
/// block; elements at unlisted indices are deliberately not written.
pub fn apply_touch<T: Copy>(v: &mut Vec<T>, idx: &Vec<usize>, x: T)
    requires
        forall|j: int| 0 <= j < idx@.len() ==> #[trigger] idx@[j] < old(v)@.len(),
    ensures
        touch_applied(old(v)@, final(v)@, idx@, x),
{
    let mut k: usize = 0;
    while k < idx.len()
        invariant
            v@.len() == old(v)@.len(),
            k <= idx@.len(),
            forall|j: int| 0 <= j < idx@.len() ==> #[trigger] idx@[j] < old(v)@.len(),
            forall|j: int| 0 <= j < k ==> v@[#[trigger] idx@[j] as int] == x,
            forall|i: int|
                0 <= i < v@.len() && !idx@.contains(i as usize) ==> v@[i] == #[trigger] old(
                    v,
                )@[i],
        decreases idx@.len() - k,
    {
        let i: usize = idx[k];
        v.set(i, x);
        proof {
            assert(idx@.contains(idx@[k as int]));
        }
        k = k + 1;
    }
}

/// Touches one element per memory page of `v`: writes `x` at the element
/// holding each byte offset `0, page, 2 * page, ...` of the block, and
/// nowhere else. Returns the indices written, in page order. Elements at all
/// other indices are left exactly as they were — for a freshly allocated
/// block they remain uninitialised, and the caller must write them before
/// reading them.
pub fn touch_pages<T: Copy>(v: &mut Vec<T>, elem_size: usize, page: usize, x: T) -> (idx: Vec<
    usize,
>)
    requires
        1 <= old(v)@.len(),
        1 <= elem_size,
        1 <= page,
        old(v)@.len() * elem_size <= usize::MAX,
    ensures
        is_touch_sequence(idx@, old(v)@.len() as int, elem_size as int, page as int),
        touch_applied(old(v)@, final(v)@, idx@, x),
{
    let idx = touch_indices(v.len(), elem_size, page);
    apply_touch(v, &idx, x);
    idx
}

/// Every byte offset within the block that is a whole multiple of the page
/// size lands on an element that a touch sequence writes: after touching,
/// the element holding byte offset `k * page` equals the touch value, for
/// every such offset inside the block.
pub proof fn lemma_page_offsets_touched<T>(
    before: Seq<T>,
    after: Seq<T>,
    idx: Seq<usize>,
    x: T,
    count: int,
    elem: int,
    page: int,
    k: int,
)
    requires
        1 <= count,
        1 <= elem,
        1 <= page,
        before.len() == count,
        is_touch_sequence(idx, count, elem, page),
        touch_applied(before, after, idx, x),
        0 <= k,
        k * page < count * elem,
    ensures
        0 <= touch_index(k, page, elem) < count,
        after[touch_index(k, page, elem)] == x,
{
    let ce = count * elem;
    // k is a position within the touch sequence
    lemma_div_multiples_vanish(k, page);
    assert(page * k == k * page) by (nonlinear_arith);
    assert((k * page) / page == k);
    lemma_div_is_ordered(k * page, ce - 1, page);
    assert(k < num_touches(ce, page));
    assert(idx[k] == touch_index(k, page, elem));
    // the element index it names is within the buffer
    assert(ce - 1 == (count - 1) * elem + (elem - 1)) by (nonlinear_arith)
        requires
            1 <= count,
            1 <= elem,
            ce == count * elem,
    ;
    lemma_fundamental_div_mod_converse(ce - 1, elem, count - 1, elem - 1);
    lemma_div_is_ordered(k * page, ce - 1, elem);
    assert(k * page >= 0) by (nonlinear_arith)
        requires
            0 <= k,
            1 <= page,
    ;
    lemma_div_pos_is_pos(k * page, elem);
    assert(after[idx[k] as int] == x);
}

} // verus!
