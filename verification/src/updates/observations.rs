//! Observation injection: writes into a node's attributes between the
//! prediction pass and the update pass.

use vstd::prelude::*;

use crate::model::{
    floats_updated, lemma_floats_update_preserves, same_shell, Network, NodeFloats, StateV,
};
use crate::num::ONE_BITS;

verus! {

/// The scalar attributes of node `i` after an observation was injected.
pub open spec fn observation_floats(s: StateV, i: int, observations: u64) -> NodeFloats {
    NodeFloats { mean: observations, ..s.floats[i] }
}

/// The scalar attributes of node `i` after a predictor value was set.
pub open spec fn predictor_floats(s: StateV, i: int, value: u64) -> NodeFloats {
    NodeFloats { expected_mean: value, ..s.floats[i] }
}

/// The scalar attributes of node `i` after a target observation was set:
/// the mean is written and the node is marked observed.
pub open spec fn set_observation_floats(s: StateV, i: int, value: u64) -> NodeFloats {
    NodeFloats { mean: value, observed: ONE_BITS, ..s.floats[i] }
}

/// Inject a new observation into an input node's `mean`.
pub fn observation_update(network: &mut Network, node_idx: usize, observations: u64)
    requires
        old(network).wf(),
        node_idx < old(network).state().len(),
    ensures
        final(network).wf(),
        old(network).state().symmetric() ==> final(network).state().symmetric(),
        floats_updated(
            old(network).state(),
            final(network).state(),
            node_idx as int,
            observation_floats(old(network).state(), node_idx as int, observations),
        ),
        same_shell(old(network), final(network)),
{
    let ghost s0 = network.state();
    let ghost i = node_idx as int;
    let mut nf = network.attributes.floats[node_idx];
    nf.mean = observations;
    network.attributes.floats[node_idx] = nf;
    proof {
        assert(network.state().floats =~= s0.floats.update(
            i,
            observation_floats(s0, i, observations),
        ));
        lemma_floats_update_preserves(s0, network.state(), i, observation_floats(s0, i, observations));
    }
}

/// Set a predictor value on a top-layer node: predictor nodes have their
/// expected means pinned to the input features before the prediction pass.
pub fn set_predictors(network: &mut Network, node_idx: usize, value: u64)
    requires
        old(network).wf(),
        node_idx < old(network).state().len(),
    ensures
        final(network).wf(),
        old(network).state().symmetric() ==> final(network).state().symmetric(),
        floats_updated(
            old(network).state(),
            final(network).state(),
            node_idx as int,
            predictor_floats(old(network).state(), node_idx as int, value),
        ),
        same_shell(old(network), final(network)),
{
    let ghost s0 = network.state();
    let ghost i = node_idx as int;
    let mut nf = network.attributes.floats[node_idx];
    nf.expected_mean = value;
    network.attributes.floats[node_idx] = nf;
    proof {
        assert(network.state().floats =~= s0.floats.update(i, predictor_floats(s0, i, value)));
        lemma_floats_update_preserves(s0, network.state(), i, predictor_floats(s0, i, value));
    }
}

/// Set an observation on a bottom-layer target node: write the `mean` and
/// mark the node observed.
pub fn set_observation(network: &mut Network, node_idx: usize, value: u64)
    requires
        old(network).wf(),
        node_idx < old(network).state().len(),
    ensures
        final(network).wf(),
        old(network).state().symmetric() ==> final(network).state().symmetric(),
        floats_updated(
            old(network).state(),
            final(network).state(),
            node_idx as int,
            set_observation_floats(old(network).state(), node_idx as int, value),
        ),
        same_shell(old(network), final(network)),
{
    let ghost s0 = network.state();
    let ghost i = node_idx as int;
    let mut nf = network.attributes.floats[node_idx];
    nf.mean = value;
    nf.observed = ONE_BITS;
    network.attributes.floats[node_idx] = nf;
    proof {
        assert(network.state().floats =~= s0.floats.update(
            i,
            set_observation_floats(s0, i, value),
        ));
        lemma_floats_update_preserves(s0, network.state(), i, set_observation_floats(s0, i, value));
    }
}

} // verus!
