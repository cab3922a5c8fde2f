//! Prediction error from a continuous state node.
//!
//! The value prediction error is `delta = mu - mu_hat`, divided by the
//! number of value parents when a value-parent list is present.  The
//! volatility prediction error is `Delta = pi_hat/pi + pi_hat * delta^2 - 1`,
//! divided by the number of volatility parents when such a list is present.

use vstd::prelude::*;

use crate::model::{
    floats_updated, lemma_floats_update_preserves, same_shell, Network, NodeFloats, StateV,
};
use crate::num::{
    add_bits, add_of, count_bits, count_of, div_bits, div_of, mul_bits, mul_of, sub_bits, sub_of,
    ONE_BITS,
};

verus! {

/// The value prediction error of node `i`: `mu - mu_hat`, divided by the
/// value-parent count when a value-parent list is present.
pub open spec fn value_pe_of(s: StateV, i: int) -> u64 {
    let f = s.floats[i];
    let d = sub_of(f.mean, f.expected_mean);
    if s.edges[i].value_parents is Some {
        div_of(d, count_of(s.edges[i].vp().len() as usize))
    } else {
        d
    }
}

/// The undivided volatility prediction error of node `i`, built from the
/// given value prediction error: `pi_hat/pi + pi_hat * delta^2 - 1`.
pub open spec fn vol_pe_of(s: StateV, i: int, vpe: u64) -> u64 {
    let f = s.floats[i];
    sub_of(
        add_of(
            div_of(f.expected_precision, f.precision),
            mul_of(f.expected_precision, mul_of(vpe, vpe)),
        ),
        ONE_BITS,
    )
}

/// The scalar attributes of node `i` after its prediction-error step.
pub open spec fn prediction_error_continuous_floats(s: StateV, i: int) -> NodeFloats {
    let vpe = value_pe_of(s, i);
    let qpe = vol_pe_of(s, i, vpe);
    NodeFloats {
        value_prediction_error: vpe,
        volatility_prediction_error: if s.edges[i].volatility_parents is Some {
            div_of(qpe, count_of(s.edges[i].qp().len() as usize))
        } else {
            qpe
        },
        ..s.floats[i]
    }
}

/// Prediction-error step of a continuous state node.
pub fn prediction_error_continuous_state_node(network: &mut Network, node_idx: usize)
    requires
        old(network).wf(),
        node_idx < old(network).state().len(),
    ensures
        final(network).wf(),
        old(network).state().symmetric() ==> final(network).state().symmetric(),
        floats_updated(
            old(network).state(),
            final(network).state(),
            node_idx as int,
            prediction_error_continuous_floats(old(network).state(), node_idx as int),
        ),
        same_shell(old(network), final(network)),
{
    let ghost s0 = network.state();
    let ghost i = node_idx as int;
    proof {
        assert(s0.node_wf(i));
    }
    let f = network.attributes.floats[node_idx];

    let mut value_prediction_error = sub_bits(f.mean, f.expected_mean);
    let n_vp: Option<usize> = match &network.edges[node_idx].value_parents {
        Some(v) => Some(v.len()),
        None => None,
    };
    if let Some(n) = n_vp {
        value_prediction_error = div_bits(value_prediction_error, count_bits(n));
    }

    let mut volatility_prediction_error = sub_bits(
        add_bits(
            div_bits(f.expected_precision, f.precision),
            mul_bits(
                f.expected_precision,
                mul_bits(value_prediction_error, value_prediction_error),
            ),
        ),
        ONE_BITS,
    );
    let n_qp: Option<usize> = match &network.edges[node_idx].volatility_parents {
        Some(v) => Some(v.len()),
        None => None,
    };
    if let Some(n) = n_qp {
        volatility_prediction_error = div_bits(volatility_prediction_error, count_bits(n));
    }

    let mut nf = f;
    nf.value_prediction_error = value_prediction_error;
    nf.volatility_prediction_error = volatility_prediction_error;
    network.attributes.floats[node_idx] = nf;
    proof {
        assert(network.state().floats =~= s0.floats.update(
            i,
            prediction_error_continuous_floats(s0, i),
        ));
        lemma_floats_update_preserves(
            s0,
            network.state(),
            i,
            prediction_error_continuous_floats(s0, i),
        );
    }
}

} // verus!
