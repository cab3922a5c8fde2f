//! Network-wide invariants checked on concrete runs, and the arithmetic
//! layer held against the platform's own double arithmetic.

use rshgf::model::Network;
use rshgf::num;
use rshgf::utils::learning::{learning_weights_dynamic, learning_weights_fixed};

fn b(x: f64) -> u64 {
    x.to_bits()
}

fn v(x: u64) -> f64 {
    f64::from_bits(x)
}

// -- the trusted arithmetic layer against std --------------------------------

#[test]
fn test_arithmetic_wrappers_match_reference() {
    let xs = [-7.25, -1.0, -0.001, 0.0, 0.5, 1.0, 3.75, 80.0];
    for &a in &xs {
        for &c in &xs {
            assert_eq!(v(num::add_bits(b(a), b(c))), a + c, "add {} {}", a, c);
            assert_eq!(v(num::sub_bits(b(a), b(c))), a - c, "sub {} {}", a, c);
            assert_eq!(v(num::mul_bits(b(a), b(c))), a * c, "mul {} {}", a, c);
            if c != 0.0 {
                assert_eq!(v(num::div_bits(b(a), b(c))), a / c, "div {} {}", a, c);
            }
        }
    }
    for n in 0..10usize {
        assert_eq!(v(num::count_bits(n)), n as f64, "count {}", n);
    }
    // The transcendentals agree with the platform to within an ulp or two.
    for &a in &[-4.0, -0.5, 0.0, 0.3, 1.0, 2.5] {
        assert!((v(num::exp_bits(b(a))) - a.exp()).abs() <= 1e-12 * a.exp(), "exp {}", a);
        assert!((v(num::tanh_bits(b(a))) - a.tanh()).abs() <= 1e-12, "tanh {}", a);
    }
    for &a in &[0.001, 0.5, 1.0, 2.0, 9.0] {
        assert_eq!(v(num::sqrt_bits(b(a))), a.sqrt(), "sqrt {}", a);
        assert!((v(num::ln_bits(b(a))) - a.ln()).abs() <= 1e-12, "ln {}", a);
    }
}

#[test]
fn test_comparisons_match_ieee() {
    let xs = [f64::NEG_INFINITY, -2.0, -0.0, 0.0, 1.5, f64::INFINITY, f64::NAN];
    for &a in &xs {
        for &c in &xs {
            assert_eq!(num::lt_bits(b(a), b(c)), a < c, "lt {} {}", a, c);
            assert_eq!(num::le_bits(b(a), b(c)), a <= c, "le {} {}", a, c);
            assert_eq!(
                v(num::clamp_bits(b(a), b(-1.0), b(1.0))).to_bits(),
                a.clamp(-1.0, 1.0).to_bits(),
                "clamp {}",
                a
            );
        }
        assert_eq!(num::is_nan(b(a)), a.is_nan(), "is_nan {}", a);
        assert_eq!(num::is_inf(b(a)), a.is_infinite(), "is_inf {}", a);
        assert_eq!(v(num::neg_bits(b(a))).to_bits(), (-a).to_bits(), "neg {}", a);
        assert_eq!(v(num::abs_bits(b(a))).to_bits(), a.abs().to_bits(), "abs {}", a);
    }
    assert_eq!(v(num::max_bits(b(2.0), b(3.0))), 3.0);
    assert_eq!(v(num::max_bits(b(f64::NAN), b(3.0))), 3.0);
    assert_eq!(v(num::max_bits(b(2.0), b(f64::NAN))), 2.0);
}

// -- precision positivity over a run -----------------------------------------

fn check_precisions(net: &Network) {
    for node in &net.node_trajectories.floats {
        for f in node {
            for (key, p) in [
                ("precision", f.precision),
                ("expected_precision", f.expected_precision),
                ("precision_vol", f.precision_vol),
                ("expected_precision_vol", f.expected_precision_vol),
            ] {
                assert!(
                    v(p) >= 1e-128 - 1e-6,
                    "recorded {} = {} stays above the floor",
                    key,
                    v(p)
                );
            }
        }
    }
}

#[test]
fn test_precision_positivity_recorded() {
    for update_type in ["standard", "eHGF", "unbounded"] {
        let mut net = Network::new(update_type);
        net.add_nodes("continuous-state", 1, None, None, None, None, None);
        net.add_nodes("volatile-state", 1, None, Some(0.into()), None, None, None);
        net.set_update_sequence();
        let data: Vec<u64> = (0..25).map(|i| b((i as f64) * 0.2 - 2.0)).collect();
        net.input_data(data, None);
        check_precisions(&net);

        let mut net2 = Network::new(update_type);
        net2.add_nodes("continuous-state", 1, None, None, None, None, None);
        net2.add_nodes("continuous-state", 1, None, Some(0.into()), None, None, None);
        net2.add_nodes("continuous-state", 1, None, None, None, Some(1.into()), None);
        net2.set_update_sequence();
        let data: Vec<u64> = (0..25).map(|i| b((i as f64) * 0.2 - 2.0)).collect();
        net2.input_data(data, None);
        check_precisions(&net2);
    }
}

// -- the variance snapshot across time steps ---------------------------------

#[test]
fn test_current_variance_is_previous_reciprocal_precision() {
    let mut net = Network::new("eHGF");
    net.add_nodes("continuous-state", 1, None, None, None, None, None);
    net.add_nodes("continuous-state", 1, None, Some(0.into()), None, None, None);
    net.set_update_sequence();
    let data: Vec<u64> = (0..10).map(|i| b((i as f64) * 0.1)).collect();
    net.input_data(data, None);

    for i in 0..2 {
        let traj = &net.node_trajectories.floats[i];
        for t in 1..traj.len() {
            let expected = 1.0 / v(traj[t - 1].precision);
            assert_eq!(
                v(traj[t].current_variance),
                expected,
                "current_variance of node {} at t={} is 1/precision at t-1",
                i,
                t
            );
        }
    }
}

// -- input-data determinism ---------------------------------------------------

#[test]
fn test_input_data_determinism() {
    let build = || {
        let mut net = Network::new("unbounded");
        net.add_nodes("continuous-state", 1, None, None, None, None, None);
        net.add_nodes("continuous-state", 1, None, Some(0.into()), None, None, None);
        net.add_nodes("continuous-state", 1, None, None, None, Some(1.into()), None);
        net.set_update_sequence();
        net
    };
    let data: Vec<u64> = (0..15).map(|i| b((i as f64) * 0.3 - 1.0)).collect();
    let mut a = build();
    let mut c = build();
    a.input_data(data.clone(), None);
    c.input_data(data, None);
    for i in 0..3 {
        assert_eq!(
            a.node_trajectories.floats[i], c.node_trajectories.floats[i],
            "trajectories of node {} are bit-equal across runs",
            i
        );
    }
}

// -- learning-rule idempotence under zero residual ----------------------------

#[test]
fn test_learning_idempotent_under_zero_residual() {
    // Arrange child_mean == g(prospective_mean) * kappa with values that
    // round exactly: the prospective mean is 1.5 + (2*4/8)*0.5 = 2.0, the
    // identity coupling gives g = 2.0, and kappa = 2.0 makes the child
    // mean 4.0.  Both rules must leave kappa unchanged, bit for bit.
    let build = || {
        let mut net = Network::new("standard");
        net.add_nodes("continuous-state", 1, None, None, None, None, None);
        net.add_nodes("continuous-state", 1, None, Some(vec![0].into()), None, None, None);
        rshgf::utils::set_coupling::set_coupling(&mut net, 1, 0, b(2.0));
        net.attributes.floats[0].mean = b(4.0);
        net.attributes.floats[0].expected_precision = b(4.0);
        net.attributes.floats[0].value_prediction_error = b(0.5);
        net.attributes.floats[1].mean = b(2.0);
        net.attributes.floats[1].expected_mean = b(1.5);
        net.attributes.floats[1].expected_precision = b(0.0);
        net
    };

    // prospective precision = 0.0 + 4.0 * 2^2 = 16; mean = 1.5 + (2*1*4/16)*0.5 = 1.75
    // choose expected values so that mean/g == kappa exactly:
    // with g = prospective mean = 2.0 we need mean = 4.0; tune expected_mean.
    let mut net = build();
    // prospective precision: 0 + 4*4 = 16; prospective mean: em + (2*4/16)*0.5 = em + 0.25
    // want prospective mean = 2.0, so expected_mean = 1.75.
    net.attributes.floats[1].expected_mean = b(1.75);
    let before = net.attributes.value_coupling_parents[0].clone();
    learning_weights_fixed(&mut net, 0, b(1.0));
    assert_eq!(
        net.attributes.value_coupling_parents[0], before,
        "fixed rule leaves kappa unchanged under zero residual"
    );

    let mut net = build();
    net.attributes.floats[1].expected_mean = b(1.75);
    let before = net.attributes.value_coupling_parents[0].clone();
    learning_weights_dynamic(&mut net, 0, b(1.0));
    assert_eq!(
        net.attributes.value_coupling_parents[0], before,
        "dynamic rule leaves kappa unchanged under zero residual"
    );
}
