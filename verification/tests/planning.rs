use aligned_vec::effective_capacity;
use aligned_vec::page_aligned_plan;
use aligned_vec::pin_length;
use aligned_vec::plan_aligned;
use aligned_vec::AllocPlan;

#[test]
fn effective_capacity_is_the_larger() {
    assert_eq!(effective_capacity(5, 3), 5);
    assert_eq!(effective_capacity(5, 12), 12);
    assert_eq!(effective_capacity(0, 0), 0);
    assert_eq!(effective_capacity(7, 7), 7);
}

#[test]
fn plan_records_count_and_capacity() {
    match plan_aligned(5, 12, 64, 4) {
        AllocPlan::Alloc(l) => {
            assert_eq!(l.len_elems, 5);
            assert_eq!(l.capacity_elems, 12);
            assert_eq!(l.size_bytes, 20);
            assert_eq!(l.capacity_bytes, 48);
            assert_eq!(l.align, 64);
        }
        AllocPlan::Empty => panic!("a request for five elements must allocate"),
    }
}

#[test]
fn plan_raises_small_capacity_to_count() {
    match plan_aligned(5, 3, 64, 4) {
        AllocPlan::Alloc(l) => {
            assert_eq!(l.capacity_elems, 5);
            assert_eq!(l.capacity_bytes, 20);
        }
        AllocPlan::Empty => panic!("a request for five elements must allocate"),
    }
}

#[test]
fn zero_count_is_empty_whatever_else_is_asked() {
    assert_eq!(plan_aligned(0, 99, 64, 8), AllocPlan::Empty);
    assert_eq!(plan_aligned(0, 0, 1, 1), AllocPlan::Empty);
    let (p, _page) = page_aligned_plan(0, 1000, 8);
    assert_eq!(p, AllocPlan::Empty);
}

#[test]
fn page_aligned_plan_uses_the_host_page_size() {
    let (p, page) = page_aligned_plan(3, 10, 1);
    assert_eq!(page, page_size::get());
    assert!(page >= 1);
    assert!(page.is_power_of_two());
    match p {
        AllocPlan::Alloc(l) => {
            assert_eq!(l.align, page);
            assert_eq!(l.len_elems, 3);
            assert_eq!(l.capacity_elems, 10);
        }
        AllocPlan::Empty => panic!("a request for three elements must allocate"),
    }
}

#[test]
fn pin_length_is_the_bytes_of_the_count_elements() {
    assert_eq!(pin_length(6, 4, true), Some(24));
    assert_eq!(pin_length(6, 4, false), None);
    assert_eq!(pin_length(0, 4, true), None);
    assert_eq!(pin_length(1, 1, true), Some(1));
}
