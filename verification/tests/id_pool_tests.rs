use anchr::msg_id::IdPool;

#[test]
fn allocate_and_release_round() {
    let mut pool = IdPool::new();
    assert_eq!(pool.size(), 0);
    let id = pool.allocate().expect("empty pool must hand out an id");
    assert!(pool.contains(id));
    assert_eq!(pool.size(), 1);
    assert!(pool.release(id));
    assert!(!pool.contains(id));
    assert_eq!(pool.size(), 0);
    // Releasing again reports that nothing was there.
    assert!(!pool.release(id));
}

#[test]
fn outstanding_ids_are_never_reissued() {
    let mut pool = IdPool::new();
    let mut seen = [false; 256];
    for _ in 0..200 {
        let id = pool.allocate().expect("pool below saturation");
        assert!(!seen[id as usize], "id {} was handed out twice", id);
        seen[id as usize] = true;
    }
    assert_eq!(pool.size(), 200);
}

#[test]
fn saturated_pool_refuses() {
    let mut pool = IdPool::new();
    for _ in 0..256 {
        assert!(pool.allocate().is_some());
    }
    assert_eq!(pool.size(), 256);
    assert!(pool.allocate().is_none(), "a full pool must return none");
    // One release opens exactly one slot again.
    assert!(pool.release(17));
    let id = pool.allocate().expect("one slot free");
    assert_eq!(id, 17);
    assert!(pool.allocate().is_none());
}

#[test]
fn drain_empties_and_reports() {
    let mut pool = IdPool::new();
    let a = pool.allocate().unwrap();
    let b = pool.allocate().unwrap();
    let dropped = pool.drain();
    assert_eq!(dropped.len(), 2);
    assert!(dropped.contains(&a));
    assert!(dropped.contains(&b));
    assert_eq!(pool.size(), 0);
    assert!(!pool.contains(a));
    assert!(!pool.contains(b));
    assert!(pool.drain().is_empty());
}
