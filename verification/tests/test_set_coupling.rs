//! Symmetric coupling writes.

use rshgf::model::Network;
use rshgf::utils::set_coupling::{set_coupling, set_coupling_vec};

fn b(x: f64) -> u64 {
    x.to_bits()
}

fn vals(row: &Vec<u64>) -> Vec<f64> {
    row.iter().map(|&x| f64::from_bits(x)).collect()
}

/// Build a minimal 3-node network:
///   node 0 (child)  - value_parents: [1, 2]
///   node 1 (parent) - value_children: [0]
///   node 2 (parent) - value_children: [0]
fn make_test_network() -> Network {
    let mut net = Network::new("standard");
    net.add_nodes("continuous-state", 1, None, None, None, None, None);
    net.add_nodes("continuous-state", 1, None, Some(vec![0].into()), None, None, None);
    net.add_nodes("continuous-state", 1, None, Some(vec![0].into()), None, None, None);
    net
}

// -- set_coupling ------------------------------------------------------------

#[test]
fn test_set_coupling_updates_both_sides() {
    let mut net = make_test_network();

    set_coupling(&mut net, 1, 0, b(0.42));

    // Child side
    let child_couplings = &net.attributes.value_coupling_parents[0];
    assert_eq!(f64::from_bits(child_couplings[0]), 0.42); // parent 1 is at position 0
    assert_eq!(f64::from_bits(child_couplings[1]), 1.0); // parent 2 untouched

    // Parent side
    let parent_couplings = &net.attributes.value_coupling_children[1];
    assert_eq!(f64::from_bits(parent_couplings[0]), 0.42); // child 0 is the only child
}

#[test]
fn test_set_coupling_second_parent() {
    let mut net = make_test_network();

    set_coupling(&mut net, 2, 0, b(3.5));

    // Child side: parent 2 sits at position 1
    let child_couplings = &net.attributes.value_coupling_parents[0];
    assert_eq!(f64::from_bits(child_couplings[0]), 1.0); // parent 1 untouched
    assert_eq!(f64::from_bits(child_couplings[1]), 3.5);

    // Parent side
    let parent_couplings = &net.attributes.value_coupling_children[2];
    assert_eq!(f64::from_bits(parent_couplings[0]), 3.5);
}

#[test]
fn test_set_coupling_nonexistent_edge_is_noop() {
    let mut net = make_test_network();

    // Node 1 is not a parent of node 2: a silent no-op, nothing changes.
    set_coupling(&mut net, 1, 2, b(99.0));

    assert_eq!(vals(&net.attributes.value_coupling_parents[0]), vec![1.0, 1.0]);
    assert_eq!(vals(&net.attributes.value_coupling_children[1]), vec![1.0]);
    assert_eq!(vals(&net.attributes.value_coupling_children[2]), vec![1.0]);
}

// -- set_coupling_vec --------------------------------------------------------

#[test]
fn test_set_coupling_vec_all_combinations() {
    let mut net = make_test_network();

    // Set coupling = 0.7 for every (parent, child) pair
    set_coupling_vec(&mut net, &vec![1, 2], &vec![0], b(0.7));

    // Child side: both parents updated
    let child_couplings = &net.attributes.value_coupling_parents[0];
    assert_eq!(f64::from_bits(child_couplings[0]), 0.7);
    assert_eq!(f64::from_bits(child_couplings[1]), 0.7);

    // Parent sides
    assert_eq!(f64::from_bits(net.attributes.value_coupling_children[1][0]), 0.7);
    assert_eq!(f64::from_bits(net.attributes.value_coupling_children[2][0]), 0.7);
}

#[test]
fn test_set_coupling_vec_single_parent() {
    let mut net = make_test_network();

    set_coupling_vec(&mut net, &vec![1], &vec![0], b(2.0));

    let child_couplings = &net.attributes.value_coupling_parents[0];
    assert_eq!(f64::from_bits(child_couplings[0]), 2.0); // parent 1
    assert_eq!(f64::from_bits(child_couplings[1]), 1.0); // parent 2 untouched
}

#[test]
fn test_set_coupling_vec_empty_parents() {
    let mut net = make_test_network();

    // Empty parents list: a no-op
    set_coupling_vec(&mut net, &vec![], &vec![0], b(5.0));

    assert_eq!(vals(&net.attributes.value_coupling_parents[0]), vec![1.0, 1.0]);
}

#[test]
fn test_set_coupling_vec_empty_children() {
    let mut net = make_test_network();

    // Empty children list: a no-op
    set_coupling_vec(&mut net, &vec![1, 2], &vec![], b(5.0));

    assert_eq!(vals(&net.attributes.value_coupling_children[1]), vec![1.0]);
}

#[test]
fn test_set_coupling_vec_ignores_invalid_pairs() {
    let mut net = make_test_network();

    // Mix of valid (1, 0) and invalid (1, 2) pairs
    set_coupling_vec(&mut net, &vec![1], &vec![0, 2], b(0.3));

    // Valid pair updated
    assert_eq!(f64::from_bits(net.attributes.value_coupling_parents[0][0]), 0.3);

    // Invalid pair: parent 1 has no edge to child 2, no crash, no change
    assert_eq!(vals(&net.attributes.value_coupling_children[2]), vec![1.0]);
}
