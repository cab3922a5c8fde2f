//! The supervised fit driver: weight learning, trajectories, determinism.

use rshgf::model::Network;

fn b(x: f64) -> u64 {
    x.to_bits()
}

fn rows(data: &[&[f64]]) -> Vec<Vec<u64>> {
    data.iter().map(|r| r.iter().map(|x| x.to_bits()).collect()).collect()
}

#[test]
fn test_fit_fixed_lr_3layer() {
    let mut net = Network::new("eHGF");

    // Bottom layer: 2 target (child) nodes
    net.add_nodes("continuous-state", 2, None, None, None, None, None);

    // Hidden layer: 2 nodes, each connected to both targets
    net.add_layer(2, "continuous-state", Some(vec![0, 1]), b(1.0));

    // Top layer: 2 predictor nodes
    net.add_layer(2, "continuous-state", None, b(1.0));

    // Record initial coupling strengths on hidden nodes (towards targets)
    let initial_couplings_2 = net.attributes.value_coupling_children[2].clone();
    let initial_couplings_3 = net.attributes.value_coupling_children[3].clone();

    // Synthetic data: 5 time steps, 2 predictors (x) and 2 targets (y)
    let x = rows(&[
        &[1.0, 0.5],
        &[0.8, 0.3],
        &[1.2, 0.7],
        &[0.9, 0.4],
        &[1.1, 0.6],
    ]);
    let y = rows(&[
        &[0.5, 0.3],
        &[0.4, 0.2],
        &[0.6, 0.4],
        &[0.45, 0.25],
        &[0.55, 0.35],
    ]);

    let inputs_x_idxs = vec![4, 5]; // top layer (predictors)
    let inputs_y_idxs = vec![0, 1]; // bottom layer (targets)

    // Fit with fixed lr = 0.2
    net.fit(&x, &y, &inputs_x_idxs, &inputs_y_idxs, Some(b(0.2)));

    // Coupling strengths on hidden nodes should have changed
    let final_couplings_2 = net.attributes.value_coupling_children[2].clone();
    let final_couplings_3 = net.attributes.value_coupling_children[3].clone();

    assert_ne!(
        initial_couplings_2, final_couplings_2,
        "Coupling weights for hidden node 2 should change after fit"
    );
    assert_ne!(
        initial_couplings_3, final_couplings_3,
        "Coupling weights for hidden node 3 should change after fit"
    );

    // Trajectories should be recorded for all 6 nodes with correct length
    for node_idx in 0..6 {
        let traj = &net.node_trajectories.floats[node_idx];
        assert_eq!(
            traj.len(),
            5,
            "Mean trajectory for node {} should have 5 entries",
            node_idx
        );
    }
}

#[test]
fn test_fit_fixed_lr_2layer() {
    let mut net = Network::new("eHGF");
    net.add_nodes("continuous-state", 2, None, None, None, None, None);
    net.add_layer(2, "continuous-state", Some(vec![0, 1]), b(1.0));

    let initial_couplings_2 = net.attributes.value_coupling_children[2].clone();

    let x = rows(&[&[1.0, 0.5], &[0.8, 0.3], &[1.2, 0.7]]);
    let y = rows(&[&[0.5, 0.3], &[0.4, 0.2], &[0.6, 0.4]]);

    net.fit(&x, &y, &vec![2, 3], &vec![0, 1], Some(b(0.2)));

    let final_couplings_2 = net.attributes.value_coupling_children[2].clone();

    assert_ne!(
        initial_couplings_2, final_couplings_2,
        "Coupling weights for parent node 2 should change after fit (2-layer)"
    );
}

#[test]
fn test_fit_dynamic_lr_3layer() {
    let mut net = Network::new("eHGF");
    net.add_nodes("continuous-state", 2, None, None, None, None, None);
    net.add_layer(2, "continuous-state", Some(vec![0, 1]), b(1.0));
    net.add_layer(2, "continuous-state", None, b(1.0));

    let initial_c2 = net.attributes.value_coupling_children[2].clone();

    let x = rows(&[&[1.0, 0.5], &[0.8, 0.3]]);
    let y = rows(&[&[0.5, 0.3], &[0.4, 0.2]]);

    // lr = None selects the dynamic rule
    net.fit(&x, &y, &vec![4, 5], &vec![0, 1], None);

    let final_c2 = net.attributes.value_coupling_children[2].clone();

    assert_ne!(initial_c2, final_c2, "Dynamic lr should update couplings");
}

#[test]
fn test_fit_sets_lr_attribute() {
    let mut net = Network::new("eHGF");
    net.add_nodes("continuous-state", 2, None, None, None, None, None);
    net.add_layer(1, "continuous-state", Some(vec![0, 1]), b(1.0));

    let x = rows(&[&[1.0]]);
    let y = rows(&[&[0.5, 0.3]]);

    net.fit(&x, &y, &vec![2], &vec![0, 1], Some(b(0.05)));

    // lr should be set on non-predictor nodes (0, 1)
    for &node_idx in &[0_usize, 1] {
        let lr = net.attributes.floats[node_idx].lr;
        assert_eq!(f64::from_bits(lr), 0.05, "lr should be 0.05 on node {}", node_idx);
    }
}

#[test]
fn test_fit_empty_data() {
    let mut net = Network::new("eHGF");
    net.add_nodes("continuous-state", 1, None, None, None, None, None);
    net.add_layer(1, "continuous-state", Some(vec![0]), b(1.0));

    let x: Vec<Vec<u64>> = vec![];
    let y: Vec<Vec<u64>> = vec![];

    net.fit(&x, &y, &vec![1], &vec![0], Some(b(0.1)));

    // No crash, and trajectories should be empty
    assert!(
        net.node_trajectories.floats[0].is_empty(),
        "Trajectories should be empty with no data"
    );
}

#[test]
fn test_fit_overwrites_trajectories() {
    let mut net = Network::new("eHGF");
    net.add_nodes("continuous-state", 1, None, None, None, None, None);
    net.add_layer(1, "continuous-state", Some(vec![0]), b(1.0));

    let x1 = rows(&[&[1.0], &[2.0], &[3.0]]);
    let y1 = rows(&[&[0.5], &[0.6], &[0.7]]);
    net.fit(&x1, &y1, &vec![1], &vec![0], Some(b(0.1)));

    let len_after_first = net.node_trajectories.floats[0].len();
    assert_eq!(len_after_first, 3);

    // Second fit with only 2 time steps
    let x2 = rows(&[&[4.0], &[5.0]]);
    let y2 = rows(&[&[0.8], &[0.9]]);
    net.fit(&x2, &y2, &vec![1], &vec![0], Some(b(0.1)));

    let len_after_second = net.node_trajectories.floats[0].len();
    assert_eq!(len_after_second, 2, "Second fit should overwrite trajectories");
}

#[test]
fn test_fit_records_vector_trajectories() {
    let mut net = Network::new("eHGF");
    net.add_nodes("continuous-state", 2, None, None, None, None, None);
    net.add_layer(2, "continuous-state", Some(vec![0, 1]), b(1.0));
    net.add_layer(2, "continuous-state", None, b(1.0));

    let x = rows(&[&[1.0, 0.5], &[0.8, 0.3], &[1.2, 0.7]]);
    let y = rows(&[&[0.5, 0.3], &[0.4, 0.2], &[0.6, 0.4]]);

    net.fit(&x, &y, &vec![4, 5], &vec![0, 1], Some(b(0.2)));

    // Hidden node 2 should have vector trajectories for coupling children
    let coupling_traj = &net.node_trajectories.vectors[2];
    assert_eq!(
        coupling_traj.len(),
        3,
        "Coupling trajectory for node 2 should have 3 entries"
    );
    assert_eq!(coupling_traj[0].value_coupling_children.len(), 2);
}

#[test]
fn test_fit_determinism() {
    // Two identical fit runs produce bit-equal trajectories and couplings.
    let build = || {
        let mut net = Network::new("eHGF");
        net.add_nodes("continuous-state", 2, None, None, None, None, None);
        net.add_layer(2, "continuous-state", Some(vec![0, 1]), b(1.0));
        net.add_layer(2, "continuous-state", None, b(1.0));
        net
    };
    let x = rows(&[&[1.0, 0.5], &[0.8, 0.3], &[1.2, 0.7]]);
    let y = rows(&[&[0.5, 0.3], &[0.4, 0.2], &[0.6, 0.4]]);

    let mut a = build();
    let mut c = build();
    a.fit(&x, &y, &vec![4, 5], &vec![0, 1], Some(b(0.2)));
    c.fit(&x, &y, &vec![4, 5], &vec![0, 1], Some(b(0.2)));

    for i in 0..6 {
        assert_eq!(
            a.node_trajectories.floats[i], c.node_trajectories.floats[i],
            "scalar trajectories of node {} must be bit-equal",
            i
        );
        assert_eq!(
            a.attributes.value_coupling_children[i],
            c.attributes.value_coupling_children[i],
            "final couplings of node {} must be bit-equal",
            i
        );
    }
}
