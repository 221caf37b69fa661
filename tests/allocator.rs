use indexmap::IndexMap;
use mv_core::heap::{HeapAllocator, HeapBlockState};

fn units_free(a: &HeapAllocator, start: usize, n: usize) -> bool {
    (start..start + n).all(|u| a.get_free_list().iter().any(|&(s, e)| s <= u && u <= e))
}

fn assert_sorted_disjoint(a: &HeapAllocator) {
    let fl = a.get_free_list();
    for w in fl.windows(2) {
        assert!(w[0].1 < w[1].0);
    }
    for &(s, e) in fl.iter() {
        assert!(s <= e && e < a.get_size());
    }
}

#[test]
fn allocation_lies_in_one_free_range() {
    for _ in 0..20 {
        let mut a = HeapAllocator::new(16);
        let before = a.get_free_list().clone();
        let (addr, hint) = a.allocate(4, None).unwrap();
        assert_eq!(hint, Some(addr));
        assert!(before.iter().any(|&(s, e)| s <= addr && addr + 3 <= e));
        assert!((addr..addr + 4).all(|u| !units_free(&a, u, 1)));
        assert_sorted_disjoint(&a);
        assert_eq!(a.get_size(), 16);
    }
}

#[test]
fn preferred_address_is_used_when_free() {
    let mut a = HeapAllocator::new(16);
    let (addr, hint) = a.allocate(4, Some(6)).unwrap();
    assert_eq!(addr, 6);
    assert_eq!(hint, None);
    assert_eq!(a.get_free_list().clone(), vec![(0, 5), (10, 15)]);
}

#[test]
fn taken_preferred_address_is_replaced() {
    let mut a = HeapAllocator::new(16);
    a.allocate(4, Some(6)).unwrap();
    let (addr, hint) = a.allocate(2, Some(7)).unwrap();
    assert_eq!(hint, Some(addr));
    assert!(addr + 2 <= 6 || addr >= 10);
}

#[test]
fn insufficient_memory_without_growth() {
    let mut a = HeapAllocator::new(4);
    assert!(a.allocate(5, None).is_err());
    assert_eq!(a.get_size(), 4);
}

#[test]
fn growth_appends_a_free_range() {
    let mut a = HeapAllocator::new_infinite(4, 2, None);
    let (addr, _) = a.allocate(6, None).unwrap();
    assert_eq!(a.get_size(), 10);
    assert!(addr >= 4 && addr + 6 <= 10);
    assert_sorted_disjoint(&a);
}

#[test]
fn growth_past_the_limit_fails() {
    let mut a = HeapAllocator::new_infinite(4, 2, Some(8));
    assert!(a.resize_heap(1).is_ok());
    assert_eq!(a.get_size(), 8);
    assert_eq!(a.get_free_list().clone(), vec![(0, 3), (4, 7)]);
    assert!(a.resize_heap(1).is_err());
    assert!(a.resize_heap(1).is_err());
    assert_eq!(a.get_size(), 8);
}

#[test]
fn growth_size_formula() {
    let mut a = HeapAllocator::new_infinite(5, 3, None);
    a.resize_heap(2).unwrap();
    assert_eq!(a.get_size(), 15);
    let mut b = HeapAllocator::new_infinite(5, 1, None);
    b.resize_heap(2).unwrap();
    assert_eq!(b.get_size(), 7);
    let mut c = HeapAllocator::new(5);
    assert!(c.resize_heap(2).is_err());
}

#[test]
fn free_returns_range_in_order_without_merging() {
    let mut a = HeapAllocator::new(12);
    let mut hints = IndexMap::new();
    hints.insert("p".to_string(), 4usize);
    let addr = a.allocate_and_write(&"p".to_string(), 4, &mut hints).unwrap();
    assert_eq!(addr, 4);
    a.free(4, 4);
    assert_eq!(a.get_free_list().clone(), vec![(0, 3), (4, 7), (8, 11)]);
    let heap = a.get_heap();
    let b = heap.iter().find(|b| b.pointer == 4).unwrap();
    assert_eq!(b.block_state, HeapBlockState::Free);
    assert_eq!(b.metadata, "Free Block");
}

#[test]
fn leaked_block_is_never_reallocated() {
    let mut a = HeapAllocator::new(8);
    let mut hints = IndexMap::new();
    let addr = a.allocate_and_write(&"p".to_string(), 4, &mut hints).unwrap();
    assert_eq!(hints.get("p").copied(), Some(addr));
    a.leak(addr, 4);
    for _ in 0..4 {
        match a.allocate(1, None) {
            Ok((x, _)) => assert!(x < addr || x >= addr + 4),
            Err(_) => {}
        }
    }
    assert!(a.allocate(1, None).is_err());
    let heap = a.get_heap();
    let b = heap.iter().find(|b| b.pointer == addr).unwrap();
    assert_eq!(b.block_state, HeapBlockState::Leaked);
    assert_eq!(b.current_pointer_identifier.as_deref(), Some("Leaked Block"));
}

#[test]
fn snapshot_coalesces_unallocated_space() {
    let mut a = HeapAllocator::new(10);
    let mut hints = IndexMap::new();
    hints.insert("p".to_string(), 3usize);
    a.allocate_and_write(&"p".to_string(), 2, &mut hints).unwrap();
    let heap = a.get_heap();
    let shape: Vec<(usize, usize, HeapBlockState)> =
        heap.iter().map(|b| (b.pointer, b.size, b.block_state)).collect();
    assert_eq!(
        shape,
        vec![
            (0, 3, HeapBlockState::Unallocated),
            (3, 2, HeapBlockState::Allocated),
            (5, 5, HeapBlockState::Unallocated)
        ]
    );
    assert_eq!(a.get_heap().len(), heap.len());
}

#[test]
fn metadata_and_dangling_updates() {
    let mut a = HeapAllocator::new(10);
    let mut hints = IndexMap::new();
    hints.insert("p".to_string(), 0usize);
    a.allocate_and_write(&"p".to_string(), 3, &mut hints).unwrap();
    a.update_metadata(0, "42".to_string()).unwrap();
    a.insert_dangling_pointer(0, "p".to_string()).unwrap();
    a.insert_dangling_pointer(0, "q".to_string()).unwrap();
    a.remove_dangling_pointer(0, "p".to_string()).unwrap();
    let heap = a.get_heap();
    assert_eq!(heap[0].metadata, "42");
    assert_eq!(heap[0].dangling_pointer_identifiers, Some(vec!["q".to_string()]));
    assert!(a.update_metadata(5, "1".to_string()).is_err());
    assert!(a.insert_dangling_pointer(9, "x".to_string()).is_err());
}

#[test]
fn merging_joins_touching_free_ranges() {
    let mut a = HeapAllocator::new(12);
    let mut hints = IndexMap::new();
    hints.insert("p".to_string(), 4usize);
    a.allocate_and_write(&"p".to_string(), 4, &mut hints).unwrap();
    a.free(4, 4);
    a.merge_free_blocks();
    assert_eq!(a.get_free_list().clone(), vec![(0, 11)]);
    let mut b = HeapAllocator::new(12);
    let mut hints = IndexMap::new();
    hints.insert("q".to_string(), 2usize);
    b.allocate_and_write(&"q".to_string(), 2, &mut hints).unwrap();
    b.merge_free_blocks();
    assert_eq!(b.get_free_list().clone(), vec![(0, 1), (4, 11)]);
}

fn block(owner: &str, size: usize) -> mv_core::heap::HeapBlock {
    mv_core::heap::HeapBlock {
        block_state: HeapBlockState::Allocated,
        current_pointer_identifier: Some(owner.to_string()),
        dangling_pointer_identifiers: None,
        size,
        metadata: "v".to_string(),
        pointer: 0,
    }
}

#[test]
fn write_past_the_end_grows_or_fails() {
    let mut a = HeapAllocator::new(8);
    match a.write(8, block("p", 4)) {
        Err(mv_core::error::Error::Msg(m)) => assert_eq!(m, "Invalid write operation: out of bounds"),
        _ => panic!("error expected"),
    }
    assert_eq!(a.get_size(), 8);

    let mut g = HeapAllocator::new_infinite(8, 2, None);
    g.write(8, block("p", 4)).unwrap();
    assert_eq!(g.get_size(), 16);
    assert_eq!(g.get_free_list().clone(), vec![(0, 7), (12, 15)]);
    let heap = g.get_heap();
    let b = heap.iter().find(|b| b.pointer == 8).unwrap();
    assert_eq!(b.block_state, HeapBlockState::Allocated);
    assert_eq!(b.size, 4);
    assert_eq!(b.metadata, "v");

    let mut far = HeapAllocator::new_infinite(8, 2, None);
    assert!(far.write(30, block("p", 4)).is_err());
    assert_eq!(far.get_size(), 8);

    let mut capped = HeapAllocator::new_infinite(8, 2, Some(8));
    match capped.write(8, block("p", 4)) {
        Err(mv_core::error::Error::Msg(m)) => assert_eq!(
            m,
            "Failed to resize heap for write operation: Cannot resize heap: new size is not larger than current size"
        ),
        _ => panic!("error expected"),
    }
}

#[test]
fn allocation_errors_leave_the_heap_alone() {
    let mut a = HeapAllocator::new(4);
    match a.allocate(5, None) {
        Err(mv_core::error::Error::Msg(m)) => assert_eq!(m, "Insufficient memory"),
        _ => panic!("error expected"),
    }
    let mut c = HeapAllocator::new_infinite(4, 2, Some(6));
    match c.allocate(5, None) {
        Err(mv_core::error::Error::Msg(m)) => assert_eq!(
            m,
            "Failed to resize heap: Cannot resize heap: would exceed maximum size limit"
        ),
        _ => panic!("error expected"),
    }
    assert_eq!(c.get_size(), 4);
    let mut d = HeapAllocator::new_infinite(4, 2, Some(4));
    match d.allocate(5, None) {
        Err(mv_core::error::Error::Msg(m)) => assert_eq!(
            m,
            "Failed to resize heap: Cannot resize heap: new size is not larger than current size"
        ),
        _ => panic!("error expected"),
    }
    let mut e = HeapAllocator::new(4);
    match e.resize_heap(1) {
        Err(mv_core::error::Error::Msg(m)) => assert_eq!(m, "Infinite memory is disabled"),
        _ => panic!("error expected"),
    }
}

#[test]
fn write_in_bounds_keeps_the_free_list() {
    let mut a = HeapAllocator::new(8);
    let mut hints = IndexMap::new();
    hints.insert("p".to_string(), 2usize);
    a.allocate_and_write(&"p".to_string(), 4, &mut hints).unwrap();
    let before = a.get_free_list().clone();
    a.write(2, block("q", 2)).unwrap();
    assert_eq!(a.get_free_list().clone(), before);
    let heap = a.get_heap();
    let b = heap.iter().find(|b| b.pointer == 2).unwrap();
    assert_eq!(b.current_pointer_identifier.as_deref(), Some("q"));
    assert_eq!(b.size, 2);
}
