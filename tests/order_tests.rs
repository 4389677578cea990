use kanban_sync::order::SimpleOrderManager;

#[test]
fn new_position_examples() {
    let m = SimpleOrderManager;
    assert_eq!(m.calculate_new_position(None, Some(2000)), Some(1000));
    assert_eq!(m.calculate_new_position(Some(1000), None), Some(2000));
    assert_eq!(m.calculate_new_position(Some(1000), Some(2000)), Some(1500));
    assert_eq!(m.calculate_new_position(None, None), Some(1000));
}

#[test]
fn new_position_strictly_between() {
    let m = SimpleOrderManager;
    assert_eq!(m.calculate_new_position(Some(1000), Some(1002)), Some(1001));
    assert_eq!(m.calculate_new_position(Some(7), Some(10)), Some(8));
}

#[test]
fn new_position_exhausted_gap_needs_renumber() {
    let m = SimpleOrderManager;
    assert_eq!(m.calculate_new_position(Some(1000), Some(1001)), None);
    assert_eq!(m.calculate_new_position(Some(1000), Some(1000)), None);
    assert_eq!(m.calculate_new_position(None, Some(1000)), None);
    assert_eq!(m.calculate_new_position(Some(u64::MAX - 10), None), None);
}

#[test]
fn new_position_reversed_neighbours() {
    let m = SimpleOrderManager;
    assert_eq!(m.calculate_new_position(Some(2000), Some(1000)), Some(1500));
    assert_eq!(m.calculate_new_position(Some(1001), Some(1000)), None);
}

#[test]
fn reorder_all_uniform_spacing() {
    let m = SimpleOrderManager;
    let mut orders = vec![3000, 1000, 2000];
    m.reorder_all(&mut orders);
    assert_eq!(orders, vec![1000, 2000, 3000]);
}

#[test]
fn reorder_all_empty() {
    let m = SimpleOrderManager;
    let mut orders: Vec<u64> = Vec::new();
    m.reorder_all(&mut orders);
    assert!(orders.is_empty());
}

#[test]
fn reorder_and_insert_resolves_collision() {
    let m = SimpleOrderManager;
    let mut orders = vec![1000, 1001, 1002];
    let p = m.reorder_and_insert(&mut orders, 1);
    assert_eq!(orders, vec![1000, 2000, 3000]);
    assert_eq!(p, 1500);
    let mut orders = vec![5, 6];
    assert_eq!(m.reorder_and_insert(&mut orders, 0), 500);
    let mut orders = vec![5, 6];
    assert_eq!(m.reorder_and_insert(&mut orders, 2), 3000);
    let mut orders: Vec<u64> = Vec::new();
    assert_eq!(m.reorder_and_insert(&mut orders, 0), 1000);
}
