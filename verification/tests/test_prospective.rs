//! The prospective-reconfiguration helpers.

use rshgf::math;
use rshgf::model::Network;
use rshgf::utils::prospective::{prospective_mean, prospective_precision};

const TOL: f64 = 1e-10;

fn b(x: f64) -> u64 {
    x.to_bits()
}

fn assert_close(actual: u64, expected: f64, label: &str) {
    let actual = f64::from_bits(actual);
    assert!(
        (actual - expected).abs() < TOL,
        "{}: expected {:.12}, got {:.12} (diff = {:.2e})",
        label,
        expected,
        actual,
        (actual - expected).abs()
    );
}

/// Build a minimal 2-node network:
///   node 0 (child)  - value_parents: [1]
///   node 1 (parent) - value_children: [0]
///
/// Attributes:
///   parent: mean=2.0, expected_mean=1.5, expected_precision=4.0, kappa=1.0
///   child:  expected_precision=2.0, value_prediction_error=0.5
fn make_two_node_network() -> Network {
    let mut net = Network::new("standard");
    net.add_nodes("continuous-state", 1, None, None, None, None, None);
    net.add_nodes("continuous-state", 1, None, Some(vec![0].into()), None, None, None);

    net.attributes.floats[0].expected_mean = b(0.0);
    net.attributes.floats[0].expected_precision = b(2.0);
    net.attributes.floats[0].value_prediction_error = b(0.5);

    net.attributes.floats[1].mean = b(2.0);
    net.attributes.floats[1].expected_mean = b(1.5);
    net.attributes.floats[1].expected_precision = b(4.0);
    net
}

/// Build a 3-node network with two children:
///   node 0 (child-A) - value_parents: [2]
///   node 1 (child-B) - value_parents: [2]
///   node 2 (parent)  - value_children: [0, 1], kappa = [1.0, 0.5]
fn make_three_node_network() -> Network {
    let mut net = Network::new("standard");
    net.add_nodes("continuous-state", 2, None, None, None, None, None);
    net.add_nodes("continuous-state", 1, None, Some(vec![0, 1].into()), None, None, None);

    net.attributes.floats[0].expected_precision = b(2.0);
    net.attributes.floats[0].value_prediction_error = b(0.3);

    net.attributes.floats[1].expected_precision = b(3.0);
    net.attributes.floats[1].value_prediction_error = b(-0.2);

    net.attributes.floats[2].mean = b(1.0);
    net.attributes.floats[2].expected_mean = b(0.8);
    net.attributes.floats[2].expected_precision = b(5.0);
    net.attributes.value_coupling_children[2] = vec![b(1.0), b(0.5)];
    net
}

// -- prospective_precision ---------------------------------------------------

#[test]
fn test_prospective_precision_no_children() {
    // A node with no value children returns its expected precision.
    let net = make_two_node_network();
    let result = prospective_precision(&net, 0);
    assert_close(result, 2.0, "precision for childless node");
}

#[test]
fn test_prospective_precision_linear_single_child() {
    // No coupling function stored, so g' = 1 and g'' = 0:
    // pi = 4.0 + 2.0 * 1.0^2 = 6.0
    let net = make_two_node_network();
    let result = prospective_precision(&net, 1);
    assert_close(result, 6.0, "linear precision single child");
}

#[test]
fn test_prospective_precision_linear_two_children() {
    // pi = 5.0 + 2.0*1.0^2 + 3.0*0.5^2 = 7.75
    let net = make_three_node_network();
    let result = prospective_precision(&net, 2);
    assert_close(result, 7.75, "linear precision two children");
}

#[test]
fn test_prospective_precision_with_coupling_fn() {
    // With a sigmoid coupling, g'(mu)^2 and g''(mu) * delta contribute.
    let mut net = make_two_node_network();

    let sigmoid_fn = math::resolve_coupling_fn("sigmoid");
    net.attributes.value_coupling_fn_parents[0] = vec![Some(sigmoid_fn)];

    let parent_mean = 2.0;
    let g_prime = f64::from_bits(math::sigmoid_d1(b(parent_mean)));
    let g_second = f64::from_bits(math::sigmoid_d2(b(parent_mean)));
    let child_vape = 0.5;
    let child_exp_prec = 2.0;

    let expected = 4.0 + child_exp_prec * (1.0_f64.powi(2) * g_prime.powi(2) - g_second * child_vape);

    let result = prospective_precision(&net, 1);
    assert_close(result, expected, "sigmoid precision");
}

#[test]
fn test_prospective_precision_custom_kappa() {
    // As the linear single child, with kappa = 2.0:
    // pi = 4.0 + 2.0 * 2.0^2 = 12.0
    let mut net = make_two_node_network();
    net.attributes.value_coupling_children[1] = vec![b(2.0)];

    let result = prospective_precision(&net, 1);
    assert_close(result, 12.0, "linear precision kappa=2");
}

// -- prospective_mean --------------------------------------------------------

#[test]
fn test_prospective_mean_no_children() {
    let net = make_two_node_network();
    // Node 0 has no value children: returns its expected mean
    let default_mean = f64::from_bits(net.attributes.floats[0].expected_mean);
    let result = prospective_mean(&net, 0, b(1.0));
    assert_close(result, default_mean, "mean for childless node");
}

#[test]
fn test_prospective_mean_linear_single_child() {
    // mean = expected_mean + (kappa * g'(mu) * pi_hat_child / pi_node) * delta_child
    //      = 1.5 + (1.0 * 1.0 * 2.0 / 6.0) * 0.5
    let net = make_two_node_network();
    let node_precision = 6.0;
    let expected = 1.5 + (1.0 * 1.0 * 2.0 / node_precision) * 0.5;
    let result = prospective_mean(&net, 1, b(node_precision));
    assert_close(result, expected, "linear mean single child");
}

#[test]
fn test_prospective_mean_linear_two_children() {
    // mean = 0.8 + (1.0*1.0*2.0/7.75)*0.3 + (0.5*1.0*3.0/7.75)*(-0.2)
    let net = make_three_node_network();
    let node_precision = 7.75;
    let expected =
        0.8 + (1.0 * 1.0 * 2.0 / node_precision) * 0.3 + (0.5 * 1.0 * 3.0 / node_precision) * (-0.2);
    let result = prospective_mean(&net, 2, b(node_precision));
    assert_close(result, expected, "linear mean two children");
}

#[test]
fn test_prospective_mean_with_coupling_fn() {
    let mut net = make_two_node_network();

    let sigmoid_fn = math::resolve_coupling_fn("sigmoid");
    net.attributes.value_coupling_fn_parents[0] = vec![Some(sigmoid_fn)];

    let parent_mean = 2.0;
    let g_prime = f64::from_bits(math::sigmoid_d1(b(parent_mean)));
    let node_precision = 6.0;

    let expected = 1.5 + (1.0 * g_prime * 2.0 / node_precision) * 0.5;
    let result = prospective_mean(&net, 1, b(node_precision));
    assert_close(result, expected, "sigmoid mean");
}

#[test]
fn test_prospective_precision_then_mean_consistency() {
    // Computing the precision first and feeding it to the mean gives a
    // self-consistent pair.
    let net = make_three_node_network();
    let precision = prospective_precision(&net, 2);
    let mean = prospective_mean(&net, 2, precision);

    assert_close(precision, 7.75, "consistency precision");

    let expected_mean = 0.8 + (1.0 * 2.0 / 7.75) * 0.3 + (0.5 * 3.0 / 7.75) * (-0.2);
    assert_close(mean, expected_mean, "consistency mean");
}
