//! The learning-sequence interleaver.

use rshgf::model::Network;
use rshgf::utils::function_pointer::FnType;
use rshgf::utils::set_learning_sequence::build_learning_sequence;

fn b(x: f64) -> u64 {
    x.to_bits()
}

// ------------------------------------------------------------------
// Basic filtering
// ------------------------------------------------------------------

#[test]
fn test_filters_predictor_nodes_from_predictions() {
    let pred_fn = FnType::PredictionContinuous;
    let predictions = vec![(0, pred_fn), (1, pred_fn), (2, pred_fn)];
    let updates: Vec<(usize, FnType)> = vec![];
    let inputs_x = vec![1, 2]; // nodes 1 and 2 are predictors

    let (filtered_preds, _) =
        build_learning_sequence(&predictions, &updates, &inputs_x, FnType::LearningFixed);

    assert_eq!(filtered_preds.len(), 1);
    assert_eq!(filtered_preds[0].0, 0);
}

#[test]
fn test_filters_predictor_nodes_from_updates() {
    let pe_fn = FnType::PredictionErrorContinuous;
    let po_fn = FnType::PosteriorContinuousStandard;
    let updates = vec![(0, pe_fn), (1, pe_fn), (0, po_fn), (1, po_fn)];
    let inputs_x = vec![1]; // node 1 is a predictor

    let (_, result_updates) =
        build_learning_sequence(&vec![], &updates, &inputs_x, FnType::LearningFixed);

    // Node 1 steps should be gone from the original sequence
    let original_idxs: Vec<usize> = updates
        .iter()
        .filter(|(idx, _)| *idx != 1)
        .map(|(idx, _)| *idx)
        .collect();
    let result_original_idxs: Vec<usize> = result_updates
        .iter()
        .filter(|(_, f)| !f.is_learning())
        .map(|(idx, _)| *idx)
        .collect();
    assert_eq!(result_original_idxs, original_idxs);
}

// ------------------------------------------------------------------
// Interleaving
// ------------------------------------------------------------------

#[test]
fn test_interleaves_weight_updates_before_posterior() {
    // Typical sequence: PE(0), PE(1), PO(2)
    // Expected: PE(0), PE(1), learn(0), learn(1), PO(2)
    let pe_fn = FnType::PredictionErrorContinuous;
    let po_fn = FnType::PosteriorContinuousStandard;
    let learn_fn = FnType::LearningFixed;

    let updates = vec![(0, pe_fn), (1, pe_fn), (2, po_fn)];

    let (_, result) = build_learning_sequence(&vec![], &updates, &vec![], learn_fn);

    assert_eq!(result.len(), 5);
    assert!(result[0].1.is_prediction_error() && result[0].0 == 0);
    assert!(result[1].1.is_prediction_error() && result[1].0 == 1);
    assert!(result[2].1.is_learning() && result[2].0 == 0);
    assert!(result[3].1.is_learning() && result[3].0 == 1);
    assert!(result[4].1.is_posterior() && result[4].0 == 2);
}

#[test]
fn test_multiple_posterior_steps_get_separate_flushes() {
    // PE(0), PO(2), PE(1), PO(3)
    // Expected: PE(0), learn(0), PO(2), PE(1), learn(1), PO(3)
    let pe_fn = FnType::PredictionErrorContinuous;
    let po_fn = FnType::PosteriorContinuousStandard;
    let learn_fn = FnType::LearningFixed;

    let updates = vec![(0, pe_fn), (2, po_fn), (1, pe_fn), (3, po_fn)];

    let (_, result) = build_learning_sequence(&vec![], &updates, &vec![], learn_fn);

    assert_eq!(result.len(), 6);
    // First batch
    assert!(result[0].1.is_prediction_error() && result[0].0 == 0);
    assert!(result[1].1.is_learning() && result[1].0 == 0);
    assert!(result[2].1.is_posterior() && result[2].0 == 2);
    // Second batch
    assert!(result[3].1.is_prediction_error() && result[3].0 == 1);
    assert!(result[4].1.is_learning() && result[4].0 == 1);
    assert!(result[5].1.is_posterior() && result[5].0 == 3);
}

#[test]
fn test_trailing_pe_flushed_at_end() {
    // PE(0) with no following posterior: the weight update still appears
    let pe_fn = FnType::PredictionErrorContinuous;
    let learn_fn = FnType::LearningFixed;

    let updates = vec![(0, pe_fn)];

    let (_, result) = build_learning_sequence(&vec![], &updates, &vec![], learn_fn);

    assert_eq!(result.len(), 2);
    assert!(result[0].1.is_prediction_error());
    assert!(result[1].1.is_learning());
}

// ------------------------------------------------------------------
// Edge cases
// ------------------------------------------------------------------

#[test]
fn test_empty_sequences() {
    let (preds, updates) =
        build_learning_sequence(&vec![], &vec![], &vec![], FnType::LearningFixed);
    assert!(preds.is_empty());
    assert!(updates.is_empty());
}

#[test]
fn test_no_pe_steps_means_no_learning_inserted() {
    // Only posterior steps: no learning should be added
    let po_fn = FnType::PosteriorContinuousStandard;
    let updates = vec![(0, po_fn), (1, po_fn)];

    let (_, result) = build_learning_sequence(&vec![], &updates, &vec![], FnType::LearningFixed);

    assert_eq!(result.len(), 2);
    for (_, f) in &result {
        assert!(!f.is_learning());
    }
}

#[test]
fn test_all_nodes_are_predictors() {
    let pe_fn = FnType::PredictionErrorContinuous;
    let pred_fn = FnType::PredictionContinuous;
    let predictions = vec![(0, pred_fn), (1, pred_fn)];
    let updates = vec![(0, pe_fn), (1, pe_fn)];
    let inputs_x = vec![0, 1];

    let (preds, upds) =
        build_learning_sequence(&predictions, &updates, &inputs_x, FnType::LearningFixed);

    assert!(preds.is_empty());
    assert!(upds.is_empty());
}

#[test]
fn test_from_real_network_2layer() {
    // Build a real 2-layer network and check the learning sequence
    let mut net = Network::new("eHGF");
    net.add_nodes("continuous-state", 2, None, None, None, None, None);
    net.add_layer(2, "continuous-state", Some(vec![0, 1]), b(1.0));
    net.set_update_sequence();

    let learn_fn = FnType::LearningFixed;
    let inputs_x = vec![2_usize, 3];

    let (preds, upds) = build_learning_sequence(
        &net.update_sequence.predictions,
        &net.update_sequence.updates,
        &inputs_x,
        learn_fn,
    );

    // Predictions for predictor nodes (2, 3) should be filtered out
    for (idx, _) in &preds {
        assert!(!inputs_x.contains(idx), "Predictor node {} should be filtered", idx);
    }

    // The update sequence should contain learning steps
    let has_learning = upds.iter().any(|(_, f)| f.is_learning());
    assert!(has_learning, "Learning steps should be present in the interleaved sequence");
}
