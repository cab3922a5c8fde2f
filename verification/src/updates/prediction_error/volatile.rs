//! Prediction error from a volatile state node.
//!
//! The value prediction error is computed as for a continuous node.  The
//! volatility prediction error feeds the implicit internal volatility level
//! (exactly one implicit parent), so it is not divided.

use vstd::prelude::*;

use crate::model::{
    floats_updated, lemma_floats_update_preserves, same_shell, Network, NodeFloats, StateV,
};
use crate::num::{add_bits, count_bits, div_bits, mul_bits, sub_bits, ONE_BITS};
use crate::updates::prediction_error::continuous::{value_pe_of, vol_pe_of};

verus! {

/// The scalar attributes of volatile node `i` after its prediction-error
/// step: the volatility prediction error is not divided.
pub open spec fn prediction_error_volatile_floats(s: StateV, i: int) -> NodeFloats {
    let vpe = value_pe_of(s, i);
    NodeFloats {
        value_prediction_error: vpe,
        volatility_prediction_error: vol_pe_of(s, i, vpe),
        ..s.floats[i]
    }
}

/// Prediction-error step of a volatile state node.
pub fn prediction_error_volatile_state_node(
    network: &mut Network,
    node_idx: usize,
    _time_step: u64,
)
    requires
        old(network).wf(),
        node_idx < old(network).state().len(),
    ensures
        final(network).wf(),
        old(network).state().symmetric() ==> final(network).state().symmetric(),
        floats_updated(
            old(network).state(),
            final(network).state(),
            node_idx as int,
            prediction_error_volatile_floats(old(network).state(), node_idx as int),
        ),
        same_shell(old(network), final(network)),
{
    let ghost s0 = network.state();
    let ghost i = node_idx as int;
    proof {
        assert(s0.node_wf(i));
    }
    let f = network.attributes.floats[node_idx];

    let mut value_prediction_error = sub_bits(f.mean, f.expected_mean);
    let n_vp: Option<usize> = match &network.edges[node_idx].value_parents {
        Some(v) => Some(v.len()),
        None => None,
    };
    if let Some(n) = n_vp {
        value_prediction_error = div_bits(value_prediction_error, count_bits(n));
    }

    let volatility_prediction_error = sub_bits(
        add_bits(
            div_bits(f.expected_precision, f.precision),
            mul_bits(
                f.expected_precision,
                mul_bits(value_prediction_error, value_prediction_error),
            ),
        ),
        ONE_BITS,
    );

    let mut nf = f;
    nf.value_prediction_error = value_prediction_error;
    nf.volatility_prediction_error = volatility_prediction_error;
    network.attributes.floats[node_idx] = nf;
    proof {
        assert(network.state().floats =~= s0.floats.update(
            i,
            prediction_error_volatile_floats(s0, i),
        ));
        lemma_floats_update_preserves(
            s0,
            network.state(),
            i,
            prediction_error_volatile_floats(s0, i),
        );
    }
}

} // verus!
