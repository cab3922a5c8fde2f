//! Network construction, the exponential-family node, the in-model
//! volatile-equivalence checks, and the planner's output.

use rshgf::model::Network;
use rshgf::utils::function_pointer::get_func_map;

fn b(x: f64) -> u64 {
    x.to_bits()
}

fn v(x: u64) -> f64 {
    f64::from_bits(x)
}

#[test]
fn test_exponential_family_gaussian() {
    let mut network = Network::new("eHGF");
    network.add_nodes("ef-state", 1, None, None, None, None, None);

    let input_data: Vec<u64> = vec![b(1.0), b(1.3), b(1.5), b(1.7)];
    network.set_update_sequence();
    network.input_data(input_data, None);

    // The sufficient statistics accumulate as running sums of x and x^2.
    let data = [1.0_f64, 1.3, 1.5, 1.7];
    let mut sum = 0.0_f64;
    let mut sum_sq = 0.0_f64;
    for (t, &x) in data.iter().enumerate() {
        sum += x;
        sum_sq += x * x;
        let xis = &network.node_trajectories.vectors[0][t].xis;
        assert_eq!(v(xis[0]), sum, "xis[0] at t={} is the running sum", t);
        assert_eq!(v(xis[1]), sum_sq, "xis[1] at t={} is the running sum of squares", t);
    }
}

fn assert_volatile_matches_explicit(volatile_net: &Network, explicit_net: &Network) {
    let vol_floats = &volatile_net.node_trajectories.floats[1];
    let exp_floats = &explicit_net.node_trajectories.floats[1];
    for t in 0..vol_floats.len() {
        let pairs = [
            ("mean", vol_floats[t].mean, exp_floats[t].mean),
            ("expected_mean", vol_floats[t].expected_mean, exp_floats[t].expected_mean),
            ("precision", vol_floats[t].precision, exp_floats[t].precision),
            (
                "expected_precision",
                vol_floats[t].expected_precision,
                exp_floats[t].expected_precision,
            ),
        ];
        for (key, a, c) in pairs {
            assert!(
                (v(a) - v(c)).abs() < 1e-6,
                "Value-level key '{}' mismatch at t={}: volatile={}, explicit={}",
                key,
                t,
                v(a),
                v(c)
            );
        }
    }

    let exp2_floats = &explicit_net.node_trajectories.floats[2];
    for t in 0..vol_floats.len() {
        let pairs = [
            ("mean_vol", vol_floats[t].mean_vol, exp2_floats[t].mean),
            ("expected_mean_vol", vol_floats[t].expected_mean_vol, exp2_floats[t].expected_mean),
            ("precision_vol", vol_floats[t].precision_vol, exp2_floats[t].precision),
            (
                "expected_precision_vol",
                vol_floats[t].expected_precision_vol,
                exp2_floats[t].expected_precision,
            ),
        ];
        for (key, a, c) in pairs {
            assert!(
                (v(a) - v(c)).abs() < 1e-6,
                "Vol-level key '{}' mismatch at t={}: volatile={}, explicit={}",
                key,
                t,
                v(a),
                v(c)
            );
        }
    }
}

fn volatile_vs_explicit(update_type: &str) {
    let mut volatile_net = Network::new(update_type);
    volatile_net.add_nodes("continuous-state", 1, None, None, None, None, None);
    volatile_net.add_nodes("volatile-state", 1, None, Some(0.into()), None, None, None);
    volatile_net.set_update_sequence();

    let input_data: Vec<u64> = (0..20).map(|i| b((i as f64) * 0.1)).collect();
    volatile_net.input_data(input_data.clone(), None);

    let mut explicit_net = Network::new(update_type);
    explicit_net.add_nodes("continuous-state", 1, None, None, None, None, None);
    explicit_net.add_nodes("continuous-state", 1, None, Some(0.into()), None, None, None);
    explicit_net.add_nodes("continuous-state", 1, None, None, None, Some(1.into()), None);
    explicit_net.set_update_sequence();
    explicit_net.input_data(input_data, None);

    assert_volatile_matches_explicit(&volatile_net, &explicit_net);
}

#[test]
fn test_volatile_node_ehgf_matches_explicit() {
    volatile_vs_explicit("eHGF");
}

#[test]
fn test_volatile_node_standard_matches_explicit() {
    volatile_vs_explicit("standard");
}

#[test]
fn test_volatile_node_unbounded_matches_explicit() {
    volatile_vs_explicit("unbounded");
}

#[test]
fn test_get_update_order() {
    let func_map = get_func_map();
    let name_of = |f: rshgf::utils::function_pointer::FnType| -> String {
        func_map
            .iter()
            .find(|(tag, _)| *tag == f)
            .map(|(_, n)| n.clone())
            .unwrap_or_else(|| "unknown".to_string())
    };

    // A three-node network: an input, its value parent, its volatility parent.
    let mut hgf_network = Network::new("eHGF");
    hgf_network.add_nodes("continuous-state", 1, None, None, None, None, None);
    hgf_network.add_nodes("continuous-state", 1, None, Some(vec![0].into()), None, None, None);
    hgf_network.add_nodes("continuous-state", 1, None, None, None, Some(vec![0].into()), None);
    hgf_network.set_update_sequence();

    println!("Prediction sequence ----------");
    for k in 0..3 {
        let (idx, f) = hgf_network.update_sequence.predictions[k];
        println!("Node: {} - Function name: {}", idx, name_of(f));
    }
    println!("Update sequence ----------");
    for k in 0..3 {
        let (idx, f) = hgf_network.update_sequence.updates[k];
        println!("Node: {} - Function name: {}", idx, name_of(f));
    }

    // Parents are predicted only after their children's parents are done:
    // the parents (1, 2) come before the input (0).
    let pred_ids: Vec<usize> = hgf_network.update_sequence.predictions.iter().map(|s| s.0).collect();
    assert_eq!(pred_ids, vec![1, 2, 0]);

    // The input sends its prediction error first, then both parents correct.
    assert_eq!(hgf_network.update_sequence.updates[0].0, 0);
    assert!(hgf_network.update_sequence.updates[0].1.is_prediction_error());
    assert!(hgf_network.update_sequence.updates[1].1.is_posterior());
    assert!(hgf_network.update_sequence.updates[2].1.is_posterior());

    // An exponential-family node alone is a single prediction-error step.
    let mut exp_network = Network::new("eHGF");
    exp_network.add_nodes("ef-state", 1, None, None, None, None, None);
    exp_network.set_update_sequence();
    let (idx, f) = exp_network.update_sequence.updates[0];
    println!("Node: {} - Function name: {}", idx, name_of(f));
    assert_eq!(idx, 0);
    assert!(f.is_prediction_error());
    assert!(exp_network.update_sequence.predictions.is_empty());
}

#[test]
fn test_edge_symmetry_after_construction() {
    // Every listed edge is listed from both ends with equal strengths.
    let mut net = Network::new("eHGF");
    net.add_nodes("continuous-state", 2, None, None, None, None, None);
    net.add_nodes("continuous-state", 2, None, Some(vec![0, 1].into()), None, None, None);
    net.add_nodes("continuous-state", 1, None, None, None, Some(vec![2].into()), None);
    rshgf::utils::set_coupling::set_coupling(&mut net, 2, 0, b(0.75));

    for p in 0..net.edges.len() {
        if let Some(vc) = &net.edges[p].value_children {
            for (j, &c) in vc.iter().enumerate() {
                let vp = net.edges[c].value_parents.as_ref().expect("child lists parent back");
                let pos = vp.iter().position(|&q| q == p).expect("parent found in child's list");
                assert_eq!(
                    net.attributes.value_coupling_children[p][j],
                    net.attributes.value_coupling_parents[c][pos],
                    "value coupling symmetric between {} and {}",
                    p,
                    c
                );
            }
        }
        if let Some(qc) = &net.edges[p].volatility_children {
            for (j, &c) in qc.iter().enumerate() {
                let qp = net.edges[c].volatility_parents.as_ref().expect("child lists parent back");
                let pos = qp.iter().position(|&q| q == p).expect("parent found in child's list");
                assert_eq!(
                    net.attributes.volatility_coupling_children[p][j],
                    net.attributes.volatility_coupling_parents[c][pos],
                    "volatility coupling symmetric between {} and {}",
                    p,
                    c
                );
            }
        }
    }
    // The rewritten strength is seen from both ends.
    assert_eq!(v(net.attributes.value_coupling_children[2][0]), 0.75);
    assert_eq!(v(net.attributes.value_coupling_parents[0][0]), 0.75);
}

#[test]
fn test_schedule_determinism_concrete() {
    // Two independent planner runs on identically built networks produce
    // identical sequences.
    let build = || {
        let mut net = Network::new("unbounded");
        net.add_nodes("continuous-state", 1, None, None, None, None, None);
        net.add_nodes("continuous-state", 1, None, Some(0.into()), None, None, None);
        net.add_nodes("continuous-state", 1, None, None, None, Some(1.into()), None);
        net.set_update_sequence();
        net
    };
    let a = build();
    let c = build();
    assert_eq!(a.update_sequence.predictions, c.update_sequence.predictions);
    assert_eq!(a.update_sequence.updates, c.update_sequence.updates);
}
