//! A volatile-state node must be observationally indistinguishable from the
//! explicit pair of a continuous value parent and a continuous volatility
//! grandparent, for all three update variants.

use rshgf::model::Network;

/// Helper to assert approximate equality of f64 values.
fn assert_close(actual: f64, expected: f64, tol: f64, label: &str) {
    assert!(
        (actual - expected).abs() < tol,
        "{}: expected {}, got {} (diff = {})",
        label,
        expected,
        actual,
        (actual - expected).abs()
    );
}

/// Assert that the value-level trajectories of two nodes in two networks match.
fn assert_value_level_match(net_a: &Network, node_a: usize, net_b: &Network, node_b: usize, label: &str) {
    let floats_a = &net_a.node_trajectories.floats[node_a];
    let floats_b = &net_b.node_trajectories.floats[node_b];
    assert_eq!(floats_a.len(), floats_b.len());
    for t in 0..floats_a.len() {
        let a = &floats_a[t];
        let b = &floats_b[t];
        let pairs = [
            ("mean", a.mean, b.mean),
            ("expected_mean", a.expected_mean, b.expected_mean),
            ("precision", a.precision, b.precision),
            ("expected_precision", a.expected_precision, b.expected_precision),
        ];
        for (key, va, vb) in pairs {
            assert_close(
                f64::from_bits(va),
                f64::from_bits(vb),
                1e-6,
                &format!("{} value-level '{}' t={}", label, key, t),
            );
        }
    }
}

/// Assert that the volatility-level trajectories of a volatile node match the
/// corresponding explicit node trajectories.
fn assert_vol_level_match(
    volatile_net: &Network,
    vol_node: usize,
    explicit_net: &Network,
    exp_node: usize,
    label: &str,
) {
    let vol_floats = &volatile_net.node_trajectories.floats[vol_node];
    let exp_floats = &explicit_net.node_trajectories.floats[exp_node];
    assert_eq!(vol_floats.len(), exp_floats.len());
    for t in 0..vol_floats.len() {
        let a = &vol_floats[t];
        let b = &exp_floats[t];
        let pairs = [
            ("mean_vol", a.mean_vol, b.mean),
            ("expected_mean_vol", a.expected_mean_vol, b.expected_mean),
            ("precision_vol", a.precision_vol, b.precision),
            ("expected_precision_vol", a.expected_precision_vol, b.expected_precision),
        ];
        for (key, va, vb) in pairs {
            assert_close(
                f64::from_bits(va),
                f64::from_bits(vb),
                1e-6,
                &format!("{} vol-level '{}' t={}", label, key, t),
            );
        }
    }
}

/// Build a volatile network: input (node 0) + volatile-state value parent (node 1).
fn build_volatile_network(update_type: &str, data: &[f64]) -> Network {
    let mut net = Network::new(update_type);
    net.add_nodes("continuous-state", 1, None, None, None, None, None);
    net.add_nodes("volatile-state", 1, None, Some(0.into()), None, None, None);
    net.set_update_sequence();
    net.input_data(data.iter().map(|x| x.to_bits()).collect(), None);
    net
}

/// Build an explicit network: input (node 0) + value parent (node 1) + volatility
/// parent of node 1 (node 2).
fn build_explicit_network(update_type: &str, data: &[f64]) -> Network {
    let mut net = Network::new(update_type);
    net.add_nodes("continuous-state", 1, None, None, None, None, None);
    net.add_nodes("continuous-state", 1, None, Some(0.into()), None, None, None);
    net.add_nodes("continuous-state", 1, None, None, None, Some(1.into()), None);
    net.set_update_sequence();
    net.input_data(data.iter().map(|x| x.to_bits()).collect(), None);
    net
}

/// Run the volatile-vs-explicit comparison for the given update type.
fn compare_volatile_and_explicit(update_type: &str) {
    let data: Vec<f64> = (0..20).map(|i| (i as f64) * 0.1).collect();

    let volatile_net = build_volatile_network(update_type, &data);
    let explicit_net = build_explicit_network(update_type, &data);

    let label = format!("{} volatile vs explicit", update_type);

    // Input nodes should agree
    assert_value_level_match(&volatile_net, 0, &explicit_net, 0, &format!("{} input", label));

    // Value level of volatile node 1 should match explicit node 1
    assert_value_level_match(&volatile_net, 1, &explicit_net, 1, &label);

    // Volatility level of volatile node 1 should match explicit node 2
    assert_vol_level_match(&volatile_net, 1, &explicit_net, 2, &label);
}

#[test]
fn test_volatile_standard_matches_explicit() {
    compare_volatile_and_explicit("standard");
}

#[test]
fn test_volatile_ehgf_matches_explicit() {
    compare_volatile_and_explicit("eHGF");
}

#[test]
fn test_volatile_unbounded_matches_explicit() {
    compare_volatile_and_explicit("unbounded");
}
