//! Prediction error from an exponential-family node.
//!
//! The node's observation stands in its `mean` attribute; the step adds the
//! sufficient statistics `(x, x^2)` to the two entries of the node's `xis`
//! vector, keeping a running sum of each.

use vstd::prelude::*;

use crate::model::{same_shell, Network, StateV};
use crate::num::{add_bits, add_of, mul_bits, mul_of};
use crate::utils::function_pointer::FnType;

verus! {

/// The `xis` row of node `i` after one exponential-family step: each entry
/// grows by the matching sufficient statistic of the observation `mu`.  A
/// row that does not hold both statistics is left alone.
pub open spec fn ef_xis_row(s: StateV, i: int) -> Seq<u64> {
    let mu = s.floats[i].mean;
    if s.xis[i].len() >= 2 {
        s.xis[i].update(0, add_of(s.xis[i][0], mu)).update(1, add_of(s.xis[i][1], mul_of(mu, mu)))
    } else {
        s.xis[i]
    }
}

/// `s1` is `s0` with the `xis` row of node `i` replaced and nothing else
/// changed.
pub open spec fn xis_updated(s0: StateV, s1: StateV, i: int, row: Seq<u64>) -> bool {
    &&& s1.floats == s0.floats
    &&& s1.value_coupling_parents == s0.value_coupling_parents
    &&& s1.value_coupling_children == s0.value_coupling_children
    &&& s1.volatility_coupling_parents == s0.volatility_coupling_parents
    &&& s1.volatility_coupling_children == s0.volatility_coupling_children
    &&& s1.value_coupling_fn_parents == s0.value_coupling_fn_parents
    &&& s1.xis == s0.xis.update(i, row)
    &&& s1.edges == s0.edges
}

/// Replacing one node's `xis` row preserves structural well-formedness,
/// edge symmetry, and the validity of every step sequence.
pub proof fn lemma_xis_update_preserves(s0: StateV, s1: StateV, i: int, row: Seq<u64>)
    requires
        s0.wf(),
        0 <= i < s0.len(),
        xis_updated(s0, s1, i, row),
    ensures
        s1.wf(),
        s0.symmetric() ==> s1.symmetric(),
        forall|steps: Seq<(usize, FnType)>|
            #[trigger] crate::model::seq_steps_ok(s0, steps) ==> crate::model::seq_steps_ok(
                s1,
                steps,
            ),
{
    assert(s1.len() == s0.len());
    assert forall|j: int| 0 <= j < s1.len() implies s1.node_wf(j) by {
        assert(s0.node_wf(j));
    }
    if s0.symmetric() {
        assert forall|j: int| 0 <= j < s1.len() implies s1.node_distinct(j) by {
            assert(s0.node_distinct(j));
        }
        assert forall|p: int, j: int|
            0 <= p < s1.len() && 0 <= j < s1.edges[p].vc().len() implies s1.value_edge_sym_at(
            p,
            j,
        ) by {
            assert(s0.value_edge_sym_at(p, j));
        }
        assert forall|p: int, j: int|
            0 <= p < s1.len() && 0 <= j < s1.edges[p].qc().len() implies s1.vol_edge_sym_at(
            p,
            j,
        ) by {
            assert(s0.vol_edge_sym_at(p, j));
        }
        assert forall|c: int, k: int|
            0 <= c < s1.len() && 0 <= k < s1.edges[c].vp().len() implies s1.value_parent_sym_at(
            c,
            k,
        ) by {
            assert(s0.value_parent_sym_at(c, k));
        }
        assert forall|c: int, k: int|
            0 <= c < s1.len() && 0 <= k < s1.edges[c].qp().len() implies s1.vol_parent_sym_at(
            c,
            k,
        ) by {
            assert(s0.vol_parent_sym_at(c, k));
        }
    }
    assert forall|steps: Seq<(usize, FnType)>|
        #[trigger] crate::model::seq_steps_ok(s0, steps) implies crate::model::seq_steps_ok(
        s1,
        steps,
    ) by {
        assert forall|k: int|
            0 <= k < steps.len() implies crate::model::step_ok(s1, #[trigger] steps[k]) by {
            assert(crate::model::step_ok(s0, steps[k]));
        }
    }
}

/// Prediction-error step of an exponential-family node: add the sufficient
/// statistics of the current observation to the running sums in `xis`.
pub fn prediction_error_exponential_state_node(
    network: &mut Network,
    node_idx: usize,
    _time_step: u64,
)
    requires
        old(network).wf(),
        node_idx < old(network).state().len(),
    ensures
        final(network).wf(),
        old(network).state().symmetric() ==> final(network).state().symmetric(),
        xis_updated(
            old(network).state(),
            final(network).state(),
            node_idx as int,
            ef_xis_row(old(network).state(), node_idx as int),
        ),
        same_shell(old(network), final(network)),
{
    let ghost s0 = network.state();
    let ghost i = node_idx as int;
    proof {
        assert(s0.node_wf(i));
    }
    let mu = network.attributes.floats[node_idx].mean;
    let row_len = network.attributes.xis[node_idx].len();
    if row_len >= 2 {
        let x0 = network.attributes.xis[node_idx][0];
        let x1 = network.attributes.xis[node_idx][1];
        let mut row = crate::model::copy_vec(&network.attributes.xis[node_idx]);
        row.set(0, add_bits(x0, mu));
        row.set(1, add_bits(x1, mul_bits(mu, mu)));
        network.attributes.xis[node_idx] = row;
        proof {
            assert(network.state().xis[i] =~= ef_xis_row(s0, i));
            assert(network.state().xis =~= s0.xis.update(i, ef_xis_row(s0, i)));
        }
    } else {
        proof {
            assert(network.state().xis =~= s0.xis.update(i, ef_xis_row(s0, i)));
        }
    }
    proof {
        lemma_xis_update_preserves(s0, network.state(), i, ef_xis_row(s0, i));
    }
}

} // verus!
