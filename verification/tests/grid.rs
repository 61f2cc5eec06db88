use alice_energy::grid::{GridId, GridTopology};

#[test]
fn find_node() {
    let mut grid = GridTopology::new();
    grid.add_node(42);
    assert!(grid.find_node(42).is_some());
    assert!(grid.find_node(99).is_none());
}

#[test]
fn add_transmission() {
    let mut grid = GridTopology::new();
    grid.add_node(1);
    grid.add_node(2);
    let idx = grid.add_transmission(1, 2);
    assert_eq!(idx, 0);
    assert_eq!(grid.line_count(), 1);
}

#[test]
fn node_count() {
    let mut grid = GridTopology::new();
    assert_eq!(grid.node_count(), 0);
    grid.add_node(1);
    assert_eq!(grid.node_count(), 1);
}

#[test]
fn find_node_fast_lookup() {
    let mut grid = GridTopology::new();
    grid.add_node(42);
    grid.add_node(99);
    assert!(grid.find_node_fast(42).is_some());
    assert!(grid.find_node_fast(99).is_some());
    assert!(grid.find_node_fast(1).is_none());
}

#[test]
fn adjacency_neighbors() {
    let mut grid = GridTopology::new();
    grid.add_node(1);
    grid.add_node(2);
    grid.add_node(3);
    grid.add_transmission(1, 2);
    grid.add_transmission(1, 3);
    let n1 = grid.neighbors(1);
    assert_eq!(n1.len(), 2);
    assert!(n1.contains(&2));
    assert!(n1.contains(&3));
    let n2 = grid.neighbors(2);
    assert_eq!(n2.len(), 1);
    assert!(n2.contains(&1));
    assert!(grid.neighbors(99).is_empty());
}

#[test]
fn find_node_fast_consistent_with_find_node() {
    let mut grid = GridTopology::new();
    grid.add_node(10);
    grid.add_node(20);
    grid.add_node(30);
    for id in [10, 20, 30, 99] {
        let slow = grid.find_node(id);
        let fast = grid.find_node_fast(id);
        assert_eq!(slow, fast, "Mismatch for node id {}", id);
    }
}

#[test]
fn add_node_returns_positions_in_order() {
    let mut grid = GridTopology::new();
    assert_eq!(grid.add_node(7), 0);
    assert_eq!(grid.add_node(8), 1);
    assert_eq!(grid.add_node(9), 2);
    assert_eq!(grid.find_node(8), Some(1));
    assert_eq!(grid.find_node_fast(9), Some(2));
}

#[test]
fn duplicate_ids_scan_finds_first_index_finds_last() {
    let mut grid = GridTopology::new();
    grid.add_node(5);
    grid.add_node(6);
    grid.add_node(5);
    assert_eq!(grid.find_node(5), Some(0));
    assert_eq!(grid.find_node_fast(5), Some(2));
}

#[test]
fn neighbors_follow_line_order_both_ways() {
    let mut grid = GridTopology::new();
    assert_eq!(grid.add_transmission(1, 2), 0);
    assert_eq!(grid.add_transmission(3, 1), 1);
    assert_eq!(grid.add_transmission(1, 2), 2);
    assert_eq!(grid.neighbors(1), &[2, 3, 2]);
    assert_eq!(grid.neighbors(2), &[1, 1]);
    assert_eq!(grid.neighbors(3), &[1]);
}

#[test]
fn self_loop_lists_node_twice() {
    let mut grid = GridTopology::new();
    grid.add_transmission(4, 4);
    assert_eq!(grid.neighbors(4), &[4, 4]);
}

#[test]
fn grid_id_equality() {
    assert_eq!(GridId(3), GridId(3));
    assert_ne!(GridId(3), GridId(4));
}
