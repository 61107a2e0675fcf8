use aligned_vec::apply_touch;
use aligned_vec::fill_all;
use aligned_vec::plan_aligned;
use aligned_vec::touch_indices;
use aligned_vec::touch_pages;
use aligned_vec::AllocPlan;

#[test]
fn touch_indices_one_per_page_for_bytes() {
    let idx = touch_indices(12288, 1, 4096);
    assert_eq!(idx, vec![0, 4096, 8192]);
}

#[test]
fn touch_indices_convert_offsets_to_elements() {
    let idx = touch_indices(12288, 4, 4096);
    assert_eq!(idx.len(), 12);
    assert_eq!(idx[0], 0);
    assert_eq!(idx[1], 1024);
    assert_eq!(idx[11], 11264);
}

#[test]
fn touch_indices_single_page_touches_once() {
    assert_eq!(touch_indices(5, 4, 4096), vec![0]);
    assert_eq!(touch_indices(1, 1, 4096), vec![0]);
}

#[test]
fn touch_indices_count_started_pages() {
    assert_eq!(touch_indices(4097, 1, 4096), vec![0, 4096]);
    assert_eq!(touch_indices(4096, 1, 4096), vec![0]);
}

#[test]
fn apply_touch_writes_only_the_listed_indices() {
    let mut v = vec![0u8; 10];
    let idx = vec![0, 4, 8];
    apply_touch(&mut v, &idx, 7);
    assert_eq!(v, vec![7, 0, 0, 0, 7, 0, 0, 0, 7, 0]);
}

#[test]
fn touch_pages_touches_each_page_once() {
    let mut v = vec![0u16; 3 * 2048];
    let idx = touch_pages(&mut v, 2, 4096, 9);
    assert_eq!(idx, vec![0, 2048, 4096]);
    assert_eq!(v[0], 9);
    assert_eq!(v[2048], 9);
    assert_eq!(v[4096], 9);
    assert_eq!(v[1], 0);
    assert_eq!(v[2047], 0);
}

#[test]
fn fill_all_initialises_every_element() {
    let mut v = vec![1u8, 2, 3];
    fill_all(&mut v, 9);
    assert_eq!(v, vec![9, 9, 9]);
    let mut w: Vec<u32> = Vec::new();
    fill_all(&mut w, 5);
    assert!(w.is_empty());
}

#[test]
fn five_page_scenario() {
    // A fixed page size stands in for the host's, so the run is deterministic.
    let ps: usize = 4096;
    let count = 5 * ps;
    let capacity = 2 * count;
    match plan_aligned(count, capacity, ps, 1) {
        AllocPlan::Alloc(l) => {
            assert_eq!(l.len_elems, 5 * ps);
            assert_eq!(l.capacity_elems, 10 * ps);
            assert_eq!(l.align, ps);
        }
        AllocPlan::Empty => panic!("a request for five pages must allocate"),
    }
    let idx = touch_indices(count, 1, ps);
    assert_eq!(idx.len(), 5);
    let mut v = vec![0u8; count];
    apply_touch(&mut v, &idx, 42);
    assert_eq!(v[0], 42);
    assert_eq!(v[ps], 42);
    assert_eq!(v[4 * ps], 42);
    assert_eq!(v[1], 0);
    assert_eq!(v.len(), count);
}
