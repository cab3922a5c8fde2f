//! Single-time-slice belief propagation.
//!
//! A time step runs the prediction sequence, injects one observation into
//! each input node, and runs the update sequence.  Each scheduled kernel is
//! dispatched on its tag; the step interpreter below states, as a function
//! of the state, exactly what every kernel leaves behind.

use vstd::prelude::*;

use crate::model::{
    same_shell, seq_steps_ok, step_ok, Network, NodeFloats, StateV,
};
use crate::updates::observations::{observation_floats, observation_update};
use crate::updates::posterior::continuous::{
    posterior_continuous_ehgf_floats, posterior_continuous_standard_floats,
    posterior_continuous_unbounded_floats, posterior_update_continuous_state_node,
    posterior_update_continuous_state_node_ehgf, posterior_update_continuous_state_node_unbounded,
};
use crate::updates::posterior::volatile::{
    posterior_update_volatile_state_node, posterior_update_volatile_state_node_ehgf,
    posterior_update_volatile_state_node_unbounded, posterior_volatile_ehgf_floats,
    posterior_volatile_standard_floats, posterior_volatile_unbounded_floats,
};
use crate::updates::prediction::continuous::{
    prediction_continuous_floats, prediction_continuous_state_node,
};
use crate::updates::prediction::volatile::{prediction_volatile_floats, prediction_volatile_state_node};
use crate::updates::prediction_error::continuous::{
    prediction_error_continuous_floats, prediction_error_continuous_state_node,
};
use crate::updates::prediction_error::exponential::{
    ef_xis_row, prediction_error_exponential_state_node,
};
use crate::updates::prediction_error::volatile::{
    prediction_error_volatile_floats, prediction_error_volatile_state_node,
};
use crate::num::ONE_BITS;
use crate::utils::function_pointer::FnType;
use crate::utils::learning::{
    learning_dynamic_state, learning_fixed_state, learning_weights_dynamic, learning_weights_fixed,
};

verus! {

/// A state with the scalar attributes of node `i` replaced.
pub open spec fn with_floats(s: StateV, i: int, nf: NodeFloats) -> StateV {
    StateV { floats: s.floats.update(i, nf), ..s }
}

/// The state one scheduled kernel leaves behind.
pub open spec fn apply_step(s: StateV, step: (usize, FnType), dt: u64) -> StateV {
    let i = step.0 as int;
    match step.1 {
        FnType::PredictionContinuous => with_floats(s, i, prediction_continuous_floats(s, i, dt)),
        FnType::PredictionVolatile => with_floats(s, i, prediction_volatile_floats(s, i, dt)),
        FnType::PredictionErrorContinuous => with_floats(
            s,
            i,
            prediction_error_continuous_floats(s, i),
        ),
        FnType::PredictionErrorVolatile => with_floats(s, i, prediction_error_volatile_floats(s, i)),
        FnType::PredictionErrorExponential => StateV { xis: s.xis.update(i, ef_xis_row(s, i)), ..s },
        FnType::PosteriorContinuousStandard => with_floats(
            s,
            i,
            posterior_continuous_standard_floats(s, i),
        ),
        FnType::PosteriorContinuousEhgf => with_floats(s, i, posterior_continuous_ehgf_floats(s, i)),
        FnType::PosteriorContinuousUnbounded => with_floats(
            s,
            i,
            posterior_continuous_unbounded_floats(s, i),
        ),
        FnType::PosteriorVolatileStandard => with_floats(
            s,
            i,
            posterior_volatile_standard_floats(s, i),
        ),
        FnType::PosteriorVolatileEhgf => with_floats(s, i, posterior_volatile_ehgf_floats(s, i)),
        FnType::PosteriorVolatileUnbounded => with_floats(
            s,
            i,
            posterior_volatile_unbounded_floats(s, i),
        ),
        FnType::LearningFixed => learning_fixed_state(s, i, s.edges[i].vp().len() as int),
        FnType::LearningDynamic => learning_dynamic_state(s, i, s.edges[i].vp().len() as int),
    }
}

/// A kernel changes attribute values, never the coupling structure.
pub proof fn lemma_apply_step_frame(s: StateV, step: (usize, FnType), dt: u64)
    ensures
        apply_step(s, step, dt).edges == s.edges,
        apply_step(s, step, dt).len() == s.len(),
{
    let i = step.0 as int;
    match step.1 {
        FnType::LearningFixed => {
            crate::utils::learning::lemma_learning_fixed_frame(
                s,
                i,
                s.edges[i].vp().len() as int,
            );
        },
        FnType::LearningDynamic => {
            crate::utils::learning::lemma_learning_dynamic_frame(
                s,
                i,
                s.edges[i].vp().len() as int,
            );
        },
        _ => {},
    }
}

/// The state after the first `k` scheduled kernels ran.
pub open spec fn apply_steps(s: StateV, steps: Seq<(usize, FnType)>, dt: u64, k: int) -> StateV
    decreases k,
{
    if k <= 0 {
        s
    } else {
        apply_step(apply_steps(s, steps, dt, k - 1), steps[k - 1], dt)
    }
}

/// A pass of kernels keeps the coupling structure.
pub proof fn lemma_apply_steps_frame(s: StateV, steps: Seq<(usize, FnType)>, dt: u64, k: int)
    ensures
        apply_steps(s, steps, dt, k).edges == s.edges,
        apply_steps(s, steps, dt, k).len() == s.len(),
    decreases k,
{
    if k > 0 {
        lemma_apply_steps_frame(s, steps, dt, k - 1);
        lemma_apply_step_frame(apply_steps(s, steps, dt, k - 1), steps[k - 1], dt);
    }
}

/// The state after the first `k` observations were injected into the
/// input nodes, in input-list order.
pub open spec fn inject_observations(
    s: StateV,
    inputs: Seq<usize>,
    observations: Seq<u64>,
    k: int,
) -> StateV
    decreases k,
{
    if k <= 0 {
        s
    } else {
        let s_prev = inject_observations(s, inputs, observations, k - 1);
        with_floats(
            s_prev,
            inputs[k - 1] as int,
            observation_floats(s_prev, inputs[k - 1] as int, observations[k - 1]),
        )
    }
}

/// Observation injection keeps the coupling structure.
pub proof fn lemma_inject_frame(s: StateV, inputs: Seq<usize>, observations: Seq<u64>, k: int)
    ensures
        inject_observations(s, inputs, observations, k).edges == s.edges,
        inject_observations(s, inputs, observations, k).len() == s.len(),
    decreases k,
{
    if k > 0 {
        lemma_inject_frame(s, inputs, observations, k - 1);
    }
}

/// The state a whole time slice leaves behind: predictions, observation
/// injection, updates.
pub open spec fn bp_state(
    s: StateV,
    inputs: Seq<usize>,
    observations: Seq<u64>,
    predictions: Seq<(usize, FnType)>,
    updates: Seq<(usize, FnType)>,
    dt: u64,
) -> StateV {
    let s1 = apply_steps(s, predictions, dt, predictions.len() as int);
    let s2 = inject_observations(s1, inputs, observations, observations.len() as int);
    apply_steps(s2, updates, dt, updates.len() as int)
}

/// A whole time slice keeps the coupling structure.
pub proof fn lemma_bp_state_frame(
    s: StateV,
    inputs: Seq<usize>,
    observations: Seq<u64>,
    predictions: Seq<(usize, FnType)>,
    updates: Seq<(usize, FnType)>,
    dt: u64,
)
    ensures
        bp_state(s, inputs, observations, predictions, updates, dt).edges == s.edges,
        bp_state(s, inputs, observations, predictions, updates, dt).len() == s.len(),
{
    lemma_apply_steps_frame(s, predictions, dt, predictions.len() as int);
    let s1 = apply_steps(s, predictions, dt, predictions.len() as int);
    lemma_inject_frame(s1, inputs, observations, observations.len() as int);
    let s2 = inject_observations(s1, inputs, observations, observations.len() as int);
    lemma_apply_steps_frame(s2, updates, dt, updates.len() as int);
}

/// Dispatch one scheduled kernel.
pub fn dispatch_step(network: &mut Network, node_idx: usize, func: FnType, time_step: u64)
    requires
        old(network).inv(),
        step_ok(old(network).state(), (node_idx, func)),
    ensures
        final(network).inv(),
        final(network).state() == apply_step(old(network).state(), (node_idx, func), time_step),
        same_shell(old(network), final(network)),
{
    let ghost s0 = network.state();
    match func {
        FnType::PredictionContinuous => prediction_continuous_state_node(
            network,
            node_idx,
            time_step,
        ),
        FnType::PredictionVolatile => prediction_volatile_state_node(network, node_idx, time_step),
        FnType::PredictionErrorContinuous => prediction_error_continuous_state_node(
            network,
            node_idx,
        ),
        FnType::PredictionErrorVolatile => prediction_error_volatile_state_node(
            network,
            node_idx,
            time_step,
        ),
        FnType::PredictionErrorExponential => prediction_error_exponential_state_node(
            network,
            node_idx,
            time_step,
        ),
        FnType::PosteriorContinuousStandard => posterior_update_continuous_state_node(
            network,
            node_idx,
            time_step,
        ),
        FnType::PosteriorContinuousEhgf => posterior_update_continuous_state_node_ehgf(
            network,
            node_idx,
            time_step,
        ),
        FnType::PosteriorContinuousUnbounded => posterior_update_continuous_state_node_unbounded(
            network,
            node_idx,
            time_step,
        ),
        FnType::PosteriorVolatileStandard => posterior_update_volatile_state_node(
            network,
            node_idx,
            time_step,
        ),
        FnType::PosteriorVolatileEhgf => posterior_update_volatile_state_node_ehgf(
            network,
            node_idx,
            time_step,
        ),
        FnType::PosteriorVolatileUnbounded => posterior_update_volatile_state_node_unbounded(
            network,
            node_idx,
            time_step,
        ),
        FnType::LearningFixed => learning_weights_fixed(network, node_idx, time_step),
        FnType::LearningDynamic => learning_weights_dynamic(network, node_idx, time_step),
    }

}

/// Run one time slice: every prediction kernel, then one observation per
/// input node, then every update kernel.
pub fn belief_propagation(
    network: &mut Network,
    observations_set: &Vec<u64>,
    predictions: &Vec<(usize, FnType)>,
    updates: &Vec<(usize, FnType)>,
    time_step: u64,
)
    requires
        old(network).inv(),
        seq_steps_ok(old(network).state(), predictions@),
        seq_steps_ok(old(network).state(), updates@),
        observations_set@.len() <= old(network).inputs@.len(),
    ensures
        final(network).inv(),
        final(network).state() == bp_state(
            old(network).state(),
            old(network).inputs@,
            observations_set@,
            predictions@,
            updates@,
            time_step,
        ),
        final(network).state().edges == old(network).state().edges,
        final(network).state().len() == old(network).state().len(),
        same_shell(old(network), final(network)),
{
    let ghost s0 = network.state();
    let ghost inputs_v = network.inputs@;

    // 1. Prediction steps.
    let n_p = predictions.len();
    #[verifier::loop_isolation(false)]
    for k in 0..n_p
        invariant
            network.inv(),
            network.state() == apply_steps(s0, predictions@, time_step, k as int),
            network.state().len() == s0.len(),
            network.state().edges == s0.edges,
            same_shell(old(network), network),
        decreases n_p - k,
    {
        let (idx, func) = predictions[k];
        let ghost s_prev = network.state();
        proof {
            assert(predictions@[k as int] == (idx, func));
            assert(step_ok(s0, predictions@[k as int]));
        }
        dispatch_step(network, idx, func, time_step);
        proof {
            lemma_apply_step_frame(s_prev, (idx, func), time_step);
        }
    }

    // 2. Observation injection, one value per input node.
    let ghost s1 = network.state();
    let n_o = observations_set.len();
    #[verifier::loop_isolation(false)]
    for k in 0..n_o
        invariant
            network.inv(),
            network.state() == inject_observations(s1, inputs_v, observations_set@, k as int),
            network.state().len() == s0.len(),
            network.state().edges == s0.edges,
            same_shell(old(network), network),
        decreases n_o - k,
    {
        let idx = network.inputs[k];
        observation_update(network, idx, observations_set[k]);
    }

    // 3. Update steps.
    let ghost s2 = network.state();
    let n_u = updates.len();
    #[verifier::loop_isolation(false)]
    for k in 0..n_u
        invariant
            network.inv(),
            network.state() == apply_steps(s2, updates@, time_step, k as int),
            network.state().len() == s0.len(),
            network.state().edges == s0.edges,
            same_shell(old(network), network),
        decreases n_u - k,
    {
        let (idx, func) = updates[k];
        let ghost s_prev = network.state();
        proof {
            assert(updates@[k as int] == (idx, func));
            assert(step_ok(s0, updates@[k as int]));
        }
        dispatch_step(network, idx, func, time_step);
        proof {
            lemma_apply_step_frame(s_prev, (idx, func), time_step);
        }
    }
}

/// A prediction kernel tag: the top-down phase kernels.
pub open spec fn is_prediction_tag(f: FnType) -> bool {
    f == FnType::PredictionContinuous || f == FnType::PredictionVolatile
}

/// A pass of prediction kernels keeps every node's precision, and once it
/// has reached node `i` it has written `current_variance = 1 / precision`.
pub proof fn lemma_prediction_pass_snapshot(
    s: StateV,
    steps: Seq<(usize, FnType)>,
    dt: u64,
    k: int,
    i: int,
)
    requires
        0 <= k <= steps.len(),
        0 <= i < s.floats.len(),
        forall|t: int| 0 <= t < k ==> is_prediction_tag(#[trigger] steps[t].1),
        forall|t: int| 0 <= t < k ==> ((#[trigger] steps[t].0) as int) < s.floats.len(),
    ensures
        apply_steps(s, steps, dt, k).floats.len() == s.floats.len(),
        apply_steps(s, steps, dt, k).floats[i].precision == s.floats[i].precision,
        (exists|t: int| 0 <= t < k && (#[trigger] steps[t].0) as int == i) ==> apply_steps(
            s,
            steps,
            dt,
            k,
        ).floats[i].current_variance == crate::num::div_of(ONE_BITS, s.floats[i].precision),
        !(exists|t: int| 0 <= t < k && (#[trigger] steps[t].0) as int == i) ==> apply_steps(
            s,
            steps,
            dt,
            k,
        ).floats[i].current_variance == s.floats[i].current_variance,
    decreases k,
{
    if k > 0 {
        lemma_prediction_pass_snapshot(s, steps, dt, k - 1, i);
        let sp = apply_steps(s, steps, dt, k - 1);
        let j = steps[k - 1].0 as int;
        assert(is_prediction_tag(steps[k - 1].1));
        lemma_prediction_pass_snapshot(s, steps, dt, k - 1, j);
        if j == i {
            assert(exists|t: int| 0 <= t < k && (#[trigger] steps[t].0) as int == i) by {
                assert((steps[k - 1].0) as int == i);
            }
        } else {
            if exists|t: int| 0 <= t < k && (#[trigger] steps[t].0) as int == i {
                let t0 = choose|t: int| 0 <= t < k && (#[trigger] steps[t].0) as int == i;
                assert(0 <= t0 < k - 1 && (steps[t0].0) as int == i);
            }
        }
    }
}

/// Observation injection never touches `current_variance`.
pub proof fn lemma_inject_keeps_variance(
    s: StateV,
    inputs: Seq<usize>,
    observations: Seq<u64>,
    k: int,
    i: int,
)
    requires
        0 <= i < s.floats.len(),
        forall|t: int| 0 <= t < k ==> ((#[trigger] inputs[t]) as int) < s.floats.len(),
    ensures
        inject_observations(s, inputs, observations, k).floats.len() == s.floats.len(),
        inject_observations(s, inputs, observations, k).floats[i].current_variance
            == s.floats[i].current_variance,
        inject_observations(s, inputs, observations, k).floats[i].precision
            == s.floats[i].precision,
    decreases k,
{
    if k > 0 {
        lemma_inject_keeps_variance(s, inputs, observations, k - 1, i);
        lemma_inject_keeps_variance(s, inputs, observations, k - 1, inputs[k - 1] as int);
    }
}

/// A pass free of prediction kernels never touches `current_variance`.
pub proof fn lemma_update_pass_keeps_variance(
    s: StateV,
    steps: Seq<(usize, FnType)>,
    dt: u64,
    k: int,
    i: int,
)
    requires
        0 <= k <= steps.len(),
        0 <= i < s.floats.len(),
        forall|t: int| 0 <= t < k ==> !is_prediction_tag(#[trigger] steps[t].1),
        forall|t: int| 0 <= t < k ==> ((#[trigger] steps[t].0) as int) < s.floats.len(),
    ensures
        apply_steps(s, steps, dt, k).floats.len() == s.floats.len(),
        apply_steps(s, steps, dt, k).floats[i].current_variance
            == s.floats[i].current_variance,
    decreases k,
{
    if k > 0 {
        lemma_update_pass_keeps_variance(s, steps, dt, k - 1, i);
        let sp = apply_steps(s, steps, dt, k - 1);
        let j = steps[k - 1].0 as int;
        lemma_update_pass_keeps_variance(s, steps, dt, k - 1, j);
        assert(!is_prediction_tag(steps[k - 1].1));
        match steps[k - 1].1 {
            FnType::LearningFixed => {
                crate::utils::learning::lemma_learning_fixed_frame(
                    sp,
                    j,
                    sp.edges[j].vp().len() as int,
                );
            },
            FnType::LearningDynamic => {
                crate::utils::learning::lemma_learning_dynamic_frame(
                    sp,
                    j,
                    sp.edges[j].vp().len() as int,
                );
            },
            _ => {},
        }
    }
}

/// One time slice writes the variance snapshot: where the prediction list
/// holds prediction kernels only and one of them targets node `i`, and the
/// update list holds none, the slice leaves node `i` carrying
/// `current_variance = 1 / precision-at-entry`.
pub proof fn lemma_bp_variance_snapshot(
    s: StateV,
    inputs: Seq<usize>,
    observations: Seq<u64>,
    predictions: Seq<(usize, FnType)>,
    updates: Seq<(usize, FnType)>,
    dt: u64,
    i: int,
)
    requires
        0 <= i < s.floats.len(),
        forall|t: int|
            0 <= t < predictions.len() ==> is_prediction_tag(#[trigger] predictions[t].1),
        forall|t: int|
            0 <= t < predictions.len() ==> ((#[trigger] predictions[t].0) as int)
                < s.floats.len(),
        forall|t: int| 0 <= t < updates.len() ==> !is_prediction_tag(#[trigger] updates[t].1),
        forall|t: int|
            0 <= t < updates.len() ==> ((#[trigger] updates[t].0) as int) < s.floats.len(),
        forall|t: int|
            0 <= t < observations.len() ==> ((#[trigger] inputs[t]) as int) < s.floats.len(),
        exists|t: int| 0 <= t < predictions.len() && (#[trigger] predictions[t].0) as int == i,
    ensures
        bp_state(s, inputs, observations, predictions, updates, dt).floats[i].current_variance
            == crate::num::div_of(ONE_BITS, s.floats[i].precision),
{
    lemma_prediction_pass_snapshot(s, predictions, dt, predictions.len() as int, i);
    let s1 = apply_steps(s, predictions, dt, predictions.len() as int);
    lemma_inject_keeps_variance(s1, inputs, observations, observations.len() as int, i);
    let s2 = inject_observations(s1, inputs, observations, observations.len() as int);
    lemma_update_pass_keeps_variance(s2, updates, dt, updates.len() as int, i);
}

} // verus!
